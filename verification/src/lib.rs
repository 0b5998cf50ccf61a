//! The logic of a screen recorder: takes that are written to disk as they are recorded, and
//! recordings that ffmpeg fixes and converts.
//!
//! The library decides, and its caller acts. Each operation that touches the disk or a process is
//! a row of steps: the caller reports what happened, the library says what to do next.
//!
//! - [`take`] names the files of a take and claims names that nobody has.
//! - [`sink`] adds chunks to a take's file and names the file when the take ends.
//! - [`session`] keeps the one take under way.
//! - [`stamp`] makes the stem of the names from the local time.
//! - [`folder`] models the folder of the recordings and states what the steps do to it.
//! - [`encoder`] plans the runs of ffmpeg and what follows on them.
//! - [`clock`] reads the times in ffmpeg's log.
//! - [`progress`] follows a run through its log.
//! - [`settings`] chooses the folder of the recordings and words failures.
//! - [`text`] holds the text operations that the others share.

pub mod clock;
pub mod encoder;
pub mod folder;
pub mod progress;
pub mod session;
pub mod settings;
pub mod sink;
pub mod stamp;
pub mod take;
pub mod text;
