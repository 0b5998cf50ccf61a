//! The file of a running take: how chunks are added to it, and how it is given its name when the
//! take ends.

use crate::take::{names_of, NameClaim, NamesView, TakeNames};
use vstd::prelude::*;
use vstd::string::*;

verus! {

/// One of the three names of a take.
#[derive(Clone, Copy, Debug, PartialEq, Eq, Structural)]
pub enum TakeName {
    Part,
    Finished,
    Partial,
}

impl NamesView {
    /// The name that `which` stands for.
    pub open spec fn get(self, which: TakeName) -> Seq<char> {
        match which {
            TakeName::Part => self.part,
            TakeName::Finished => self.finished,
            TakeName::Partial => self.partial,
        }
    }
}

impl TakeNames {
    /// The name that `which` stands for.
    pub fn get(&self, which: TakeName) -> (name: &str)
        ensures
            name@ == self@.get(which),
            name@ == match which {
                TakeName::Part => self.part@,
                TakeName::Finished => self.finished@,
                TakeName::Partial => self.partial@,
            },
    {
        match which {
            TakeName::Part => self.part.as_str(),
            TakeName::Finished => self.finished.as_str(),
            TakeName::Partial => self.partial.as_str(),
        }
    }
}

/// What happened while a chunk was added.
#[derive(Clone, Copy, Debug, PartialEq, Eq, Structural)]
pub enum AppendEvent {
    /// The whole chunk, of this length, was written.
    Written(usize),
    /// The write failed, with none, some or all of the chunk in the file.
    WriteFailed,
    /// The file was cut back, or that failed.
    Truncated(bool),
    /// The file was set back to its end, or that failed.
    Repositioned(bool),
}

/// What to do next with a chunk.
#[derive(Clone, Copy, Debug, PartialEq, Eq, Structural)]
pub enum AppendAction {
    /// The chunk is part of the recording.
    Accept,
    /// Cut the file back to this length.
    Truncate(u64),
    /// Go on writing at this position.
    Reposition(u64),
    /// The chunk is not part of the recording: pass the error of the write on.
    Reject,
}

/// A take's file, for contracts.
pub struct SinkView {
    pub names: NamesView,
    /// The length of the accepted chunks.
    pub bytes: nat,
    /// A rollback failed, so what stands in the file past `bytes` is a piece of a chunk.
    pub torn: bool,
}

impl SinkView {
    /// The state after `event`.
    pub open spec fn appended(self, event: AppendEvent) -> SinkView {
        match event {
            AppendEvent::Written(len) => SinkView { bytes: self.bytes + len as nat, ..self },
            AppendEvent::WriteFailed => self,
            AppendEvent::Truncated(done) | AppendEvent::Repositioned(done) => SinkView {
                torn: self.torn || !done,
                ..self
            },
        }
    }

    /// What `event` asks for: a failed write is rolled back, in two steps, the second only where
    /// the first was done.
    pub open spec fn append_action(self, event: AppendEvent) -> AppendAction {
        match event {
            AppendEvent::Written(_) => AppendAction::Accept,
            AppendEvent::WriteFailed => AppendAction::Truncate(self.bytes as u64),
            AppendEvent::Truncated(done) => if done {
                AppendAction::Reposition(self.bytes as u64)
            } else {
                AppendAction::Reject
            },
            AppendEvent::Repositioned(_) => AppendAction::Reject,
        }
    }
}

/// What becomes of the part file when a take ends.
#[derive(Clone, Copy, Debug, PartialEq, Eq, Structural)]
pub enum CloseAction {
    /// Delete it.
    Remove,
    /// Rename it to this name.
    Rename(TakeName),
    /// Leave it as it is.
    Leave,
}

/// The message of a take that could not be flushed: why, and where the data is.
pub open spec fn flush_error_text(error: Seq<char>, path: Seq<char>) -> Seq<char> {
    "Cannot flush recording: "@ + error + ". Saved as "@ + path
}

/// The message of a take that could not be renamed: why, and where the data is.
pub open spec fn rename_error_text(error: Seq<char>, part_path: Seq<char>) -> Seq<char> {
    "Cannot rename recording: "@ + error + ". The data is at "@ + part_path
}

/// The message of a take that is torn: where the data is.
pub open spec fn torn_error_text(part_path: Seq<char>) -> Seq<char> {
    "Recording is damaged (a failed write could not be undone). The data is at "@ + part_path
}

impl SinkView {
    /// What becomes of the part file when the take is finished. A torn file keeps its name, which
    /// does not claim that it can be played. Data that could not be flushed is in the file all
    /// the same, and gets its name so that it can be found.
    pub open spec fn commit_action(self, flushed: bool) -> CloseAction {
        if flushed && self.bytes == 0 {
            CloseAction::Remove
        } else if self.torn {
            CloseAction::Leave
        } else {
            CloseAction::Rename(TakeName::Finished)
        }
    }

    /// How finishing the take went: the name of the recording and its length, or a message. The
    /// errors are those of the flush and of the rename, where they failed.
    pub open spec fn commit_outcome(
        self,
        flush_error: Option<Seq<char>>,
        rename_error: Option<Seq<char>>,
        part_path: Seq<char>,
        finished_path: Seq<char>,
    ) -> Result<(TakeName, nat), Seq<char>> {
        match flush_error {
            Some(error) => Err(
                flush_error_text(
                    error,
                    if self.torn || rename_error is Some {
                        part_path
                    } else {
                        finished_path
                    },
                ),
            ),
            None => if self.bytes == 0 {
                Ok((TakeName::Finished, 0))
            } else if self.torn {
                Err(torn_error_text(part_path))
            } else {
                match rename_error {
                    Some(error) => Err(rename_error_text(error, part_path)),
                    None => Ok((TakeName::Finished, self.bytes)),
                }
            },
        }
    }

    /// What becomes of the part file when the take is interrupted. A torn file keeps its name,
    /// which does not claim that it can be played.
    pub open spec fn salvage_action(self) -> CloseAction {
        if self.bytes == 0 {
            CloseAction::Remove
        } else if self.torn {
            CloseAction::Leave
        } else {
            CloseAction::Rename(TakeName::Partial)
        }
    }

    /// The name under which the data is after `salvage_action`, `moved` saying whether that was
    /// done.
    pub open spec fn salvaged_name(self, moved: bool) -> TakeName {
        if self.bytes == 0 || self.torn || !moved {
            TakeName::Part
        } else {
            TakeName::Partial
        }
    }
}

/// Law: finishing a take succeeds exactly where it was flushed and either holds no data or is
/// whole and could be renamed; it then gives the finished name and the length. Every error ends
/// with the path of the file that holds the data, and holds what the system said of the step that
/// failed.
pub proof fn law_commit_tells_where_the_data_is(
    sink: SinkView,
    flush_error: Option<Seq<char>>,
    rename_error: Option<Seq<char>>,
    part_path: Seq<char>,
    finished_path: Seq<char>,
)
    ensures
        ({
            let outcome = sink.commit_outcome(flush_error, rename_error, part_path, finished_path);
            let path = if !sink.torn && rename_error is None {
                finished_path
            } else {
                part_path
            };
            &&& outcome is Ok <==> flush_error is None && (sink.bytes == 0 || !sink.torn
                && rename_error is None)
            &&& outcome is Ok ==> outcome->Ok_0 == (TakeName::Finished, sink.bytes)
            &&& outcome is Err && flush_error is Some ==> outcome->Err_0
                == "Cannot flush recording: "@ + flush_error->0 + ". Saved as "@ + path
            &&& outcome is Err && flush_error is None && sink.torn ==> outcome->Err_0
                == "Recording is damaged (a failed write could not be undone). The data is at "@
                + path
            &&& outcome is Err && flush_error is None && !sink.torn ==> outcome->Err_0
                == "Cannot rename recording: "@ + rename_error->0 + ". The data is at "@ + path
        }),
{
}

/// Law: an interrupted take has the partial name exactly where it holds data, is whole and could
/// be renamed; its part file is deleted exactly where it holds none.
pub proof fn law_salvage_tells_where_the_data_is(sink: SinkView, moved: bool)
    ensures
        sink.salvaged_name(moved) == TakeName::Partial <==> sink.bytes > 0 && !sink.torn && moved,
        sink.salvaged_name(moved) != TakeName::Partial ==> sink.salvaged_name(moved)
            == TakeName::Part,
        sink.salvage_action() == CloseAction::Remove <==> sink.bytes == 0,
        sink.salvage_action() == CloseAction::Rename(TakeName::Partial) <==> sink.bytes > 0
            && !sink.torn,
        sink.salvage_action() == CloseAction::Leave <==> sink.bytes > 0 && sink.torn,
{
}

/// Law: each of the three names of a take is its own.
pub proof fn law_names_are_told_apart(names: NamesView)
    ensures
        names.get(TakeName::Part) == names.part,
        names.get(TakeName::Finished) == names.finished,
        names.get(TakeName::Partial) == names.partial,
{
}

/// The bookkeeping of a take's file.
#[derive(Debug)]
pub struct RecordingSink {
    names: TakeNames,
    bytes: u64,
    torn: bool,
}

impl View for RecordingSink {
    type V = SinkView;

    closed spec fn view(&self) -> SinkView {
        SinkView { names: self.names@, bytes: self.bytes as nat, torn: self.torn }
    }
}

impl RecordingSink {
    /// The sink of a take whose names were claimed. Its part file exists and is empty.
    pub fn create(claim: NameClaim) -> (sink: RecordingSink)
        requires
            claim.wf(),
        ensures
            sink@ == (SinkView {
                names: names_of(claim@.stem, claim@.attempt),
                bytes: 0,
                torn: false,
            }),
    {
        RecordingSink { names: claim.into_names(), bytes: 0, torn: false }
    }

    /// The names of the take.
    pub fn names(&self) -> (names: &TakeNames)
        ensures
            names@ == self@.names,
    {
        &self.names
    }

    /// The length of the accepted chunks.
    pub fn bytes(&self) -> (bytes: u64)
        ensures
            bytes == self@.bytes,
    {
        self.bytes
    }

    /// Takes in what happened to a chunk and says what to do next. A chunk is written first; the
    /// length of the file must fit its counter.
    pub fn append(&mut self, event: AppendEvent) -> (action: AppendAction)
        requires
            event matches AppendEvent::Written(len) ==> old(self)@.bytes + len <= u64::MAX,
        ensures
            final(self)@ == old(self)@.appended(event),
            action == old(self)@.append_action(event),
    {
        match event {
            AppendEvent::Written(len) => {
                self.bytes = self.bytes + len as u64;
                AppendAction::Accept
            },
            AppendEvent::WriteFailed => AppendAction::Truncate(self.bytes),
            AppendEvent::Truncated(done) => {
                if done {
                    AppendAction::Reposition(self.bytes)
                } else {
                    self.torn = true;
                    AppendAction::Reject
                }
            },
            AppendEvent::Repositioned(done) => {
                if !done {
                    self.torn = true;
                }
                AppendAction::Reject
            },
        }
    }

    /// What becomes of the part file when the take is finished, the file being closed and
    /// `flushed` saying whether all of it was flushed.
    pub fn commit(&self, flushed: bool) -> (action: CloseAction)
        ensures
            action == self@.commit_action(flushed),
    {
        if flushed && self.bytes == 0 {
            CloseAction::Remove
        } else if self.torn {
            CloseAction::Leave
        } else {
            CloseAction::Rename(TakeName::Finished)
        }
    }

    /// How finishing the take went, once `commit`'s action was tried: the name of the recording
    /// and its length, or a message. `flush_error` and `rename_error` tell why the flush and the
    /// rename failed, where they did. Every message names the file that holds the data.
    pub fn committed(
        &self,
        flush_error: Option<String>,
        rename_error: Option<String>,
        part_path: &str,
        finished_path: &str,
    ) -> (outcome: Result<(TakeName, u64), String>)
        ensures
            match self@.commit_outcome(
                flush_error.deep_view(),
                rename_error.deep_view(),
                part_path@,
                finished_path@,
            ) {
                Ok((name, bytes)) => outcome matches Ok(done) && done.0 == name && done.1 == bytes,
                Err(text) => outcome matches Err(message) && message@ == text,
            },
    {
        match flush_error {
            Some(error) => {
                let path = if self.torn || rename_error.is_some() {
                    part_path
                } else {
                    finished_path
                };
                Err(
                    "Cannot flush recording: ".to_owned().concat(error.as_str()).concat(
                        ". Saved as ",
                    ).concat(path),
                )
            },
            None => if self.bytes == 0 {
                Ok((TakeName::Finished, 0))
            } else if self.torn {
                Err(
                    "Recording is damaged (a failed write could not be undone). The data is at ".to_owned().concat(
                    part_path),
                )
            } else {
                match rename_error {
                    Some(error) => Err(
                        "Cannot rename recording: ".to_owned().concat(error.as_str()).concat(
                            ". The data is at ",
                        ).concat(part_path),
                    ),
                    None => Ok((TakeName::Finished, self.bytes)),
                }
            },
        }
    }

    /// What becomes of the part file when the take is interrupted, the file being closed.
    pub fn salvage(&self) -> (action: CloseAction)
        ensures
            action == self@.salvage_action(),
    {
        if self.bytes == 0 {
            CloseAction::Remove
        } else if self.torn {
            CloseAction::Leave
        } else {
            CloseAction::Rename(TakeName::Partial)
        }
    }

    /// Where the data of an interrupted take is, and its length, once `salvage`'s action was
    /// tried, `moved` saying whether it was done.
    pub fn salvaged(&self, moved: bool) -> (outcome: (TakeName, u64))
        ensures
            outcome.0 == self@.salvaged_name(moved),
            outcome.1 == self@.bytes,
    {
        if self.bytes == 0 || self.torn || !moved {
            (TakeName::Part, self.bytes)
        } else {
            (TakeName::Partial, self.bytes)
        }
    }
}

} // verus!
