//! Which take is under way, and what each request of the user comes to.

use crate::sink::TakeName;
use vstd::prelude::*;
use vstd::string::*;

verus! {

/// A take is asked for while another is under way.
pub const STILL_FINALIZING: &'static str = "The previous recording is still being finalized";

/// A chunk or the end of a take comes while none is under way.
pub const NO_RECORDING: &'static str = "No recording is in progress";

/// A chunk comes in another form than raw bytes.
pub const INVALID_DATA: &'static str = "Invalid recording data (expected raw bytes)";

/// A take ends without any data.
pub const EMPTY_RECORDING: &'static str = "Recording is empty (no data was captured)";

/// The one take that can be under way. `T` is what the caller needs for it.
pub struct Session<T> {
    take: Option<T>,
}

impl<T> View for Session<T> {
    type V = Option<T>;

    closed spec fn view(&self) -> Option<T> {
        self.take
    }
}

impl<T> Session<T> {
    /// No take is under way.
    pub fn new() -> (session: Session<T>)
        ensures
            session@ is None,
    {
        Session { take: None }
    }

    /// Whether a take can start.
    pub fn ready(&self) -> (outcome: Result<(), String>)
        ensures
            match outcome {
                Ok(()) => self@ is None,
                Err(message) => self@ is Some && message@ == STILL_FINALIZING@,
            },
    {
        match &self.take {
            Some(_) => Err(STILL_FINALIZING.to_owned()),
            None => Ok(()),
        }
    }

    /// Starts a take.
    pub fn begin(&mut self, take: T)
        requires
            old(self)@ is None,
        ensures
            final(self)@ == Some(take),
    {
        self.take = Some(take);
    }

    /// The take under way, for a chunk that came as raw bytes or in another form.
    pub fn chunk_target(&mut self, raw: bool) -> (outcome: Result<&mut T, String>)
        ensures
            match outcome {
                Ok(take) => {
                    &&& raw
                    &&& old(self)@ == Some(*take)
                    &&& final(self)@ == Some(*final(take))
                },
                Err(message) => {
                    &&& !raw || old(self)@ is None
                    &&& message@ == if raw {
                        NO_RECORDING@
                    } else {
                        INVALID_DATA@
                    }
                    &&& final(self)@ == old(self)@
                },
            },
    {
        if !raw {
            return Err(INVALID_DATA.to_owned());
        }
        match &mut self.take {
            Some(take) => Ok(take),
            None => Err(NO_RECORDING.to_owned()),
        }
    }

    /// Ends the take, to be finished.
    pub fn finish(&mut self) -> (outcome: Result<T, String>)
        ensures
            final(self)@ is None,
            match outcome {
                Ok(take) => old(self)@ == Some(take),
                Err(message) => old(self)@ is None && message@ == NO_RECORDING@,
            },
    {
        match self.take.take() {
            Some(take) => Ok(take),
            None => Err(NO_RECORDING.to_owned()),
        }
    }

    /// Ends the take, if one is under way, to be salvaged.
    pub fn abort(&mut self) -> (take: Option<T>)
        ensures
            final(self)@ is None,
            take == old(self)@,
    {
        self.take.take()
    }
}

/// What follows once the file of a finished take has its name.
#[derive(Debug)]
pub enum FinishAction {
    /// Tell the user.
    Fail(String),
    /// Regenerate the time stamps in the file, and keep the file as it is where that fails.
    FixMetadata,
    /// The file is done.
    Done,
}

/// What follows once the take is committed. `remux` says whether its time stamps are to be
/// regenerated now.
pub fn after_commit(committed: Result<(TakeName, u64), String>, remux: bool) -> (action:
    FinishAction)
    ensures
        match action {
            FinishAction::Fail(message) => match committed {
                Ok((_, bytes)) => bytes == 0 && message@ == EMPTY_RECORDING@,
                Err(error) => message == error,
            },
            FinishAction::FixMetadata => remux && (committed matches Ok(done) && done.1 > 0),
            FinishAction::Done => !remux && (committed matches Ok(done) && done.1 > 0),
        },
{
    match committed {
        Err(error) => FinishAction::Fail(error),
        Ok((_, bytes)) => if bytes == 0 {
            FinishAction::Fail(EMPTY_RECORDING.to_owned())
        } else if remux {
            FinishAction::FixMetadata
        } else {
            FinishAction::Done
        },
    }
}

/// The file to tell the user of once an interrupted take is salvaged, `None` where it holds no
/// data.
pub fn after_salvage(salvaged: (TakeName, u64)) -> (kept: Option<TakeName>)
    ensures
        kept == if salvaged.1 == 0 {
            None
        } else {
            Some(salvaged.0)
        },
{
    if salvaged.1 == 0 {
        None
    } else {
        Some(salvaged.0)
    }
}

} // verus!
