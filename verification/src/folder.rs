//! What the steps of a take do to the folder of the recordings.
//!
//! The folder is modelled as a map from names to contents. The functions here carry out what the
//! steps ask for, with every way in which it can go, and the laws say what the folder then holds.

use crate::encoder::{
    convert_follows, fix_action, ConvertAction, ConvertEvent, FixAction, FixEvent,
};
use crate::sink::{
    flush_error_text, rename_error_text, torn_error_text, AppendAction, AppendEvent, CloseAction,
    SinkView, TakeName,
};
use crate::take::{
    attempt_stem, names_of, ClaimAction, ClaimEvent, ClaimView, NamesView, MAX_ATTEMPTS,
};
use crate::text::{decimal, lemma_decimal_differs, lemma_decimal_digits};
use vstd::prelude::*;

verus! {

/// The files of a folder.
pub type Folder = Map<Seq<char>, Seq<u8>>;

/// The folder after the file `from` was renamed to `to`. A file of that name is replaced.
pub open spec fn renamed(folder: Folder, from: Seq<char>, to: Seq<char>) -> Folder {
    if folder.contains_key(from) {
        folder.remove(from).insert(to, folder[from])
    } else {
        folder
    }
}

/// Whether nobody has any of the three names.
pub open spec fn free(folder: Folder, names: NamesView) -> bool {
    &&& !folder.contains_key(names.part)
    &&& !folder.contains_key(names.finished)
    &&& !folder.contains_key(names.partial)
}

/// What a look for the finished and the partial name finds.
pub open spec fn probe(folder: Folder, names: NamesView) -> ClaimEvent {
    if folder.contains_key(names.finished) || folder.contains_key(names.partial) {
        ClaimEvent::Taken
    } else {
        ClaimEvent::Free
    }
}

/// How creating the part file goes where it must not exist yet.
pub open spec fn open_new(folder: Folder, names: NamesView) -> ClaimEvent {
    if folder.contains_key(names.part) {
        ClaimEvent::Collided
    } else {
        ClaimEvent::Created
    }
}

/// A claim carried out in `folder`: the folder afterwards, and the claim that was kept, if any.
pub open spec fn claim_run(folder: Folder, claim: ClaimView) -> (Folder, Option<ClaimView>)
    decreases MAX_ATTEMPTS - claim.attempt,
{
    let names = names_of(claim.stem, claim.attempt);
    let probed = probe(folder, names);
    let event = if claim.action(probed) == ClaimAction::Open {
        open_new(folder, names)
    } else {
        probed
    };
    match claim.action(event) {
        ClaimAction::Keep => (folder.insert(names.part, Seq::empty()), Some(claim.next(event))),
        ClaimAction::Probe => claim_run(folder, claim.next(event)),
        _ => (folder, None),
    }
}

/// `claim_run` from any try on.
proof fn lemma_claim_run(folder: Folder, claim: ClaimView)
    requires
        claim.attempt <= MAX_ATTEMPTS,
    ensures
        match claim_run(folder, claim).1 {
            Some(kept) => {
                &&& kept.stem == claim.stem
                &&& claim.attempt <= kept.attempt <= MAX_ATTEMPTS
                &&& free(folder, names_of(claim.stem, kept.attempt))
                &&& forall|k: nat|
                    claim.attempt <= k < kept.attempt ==> !free(
                        folder,
                        #[trigger] names_of(claim.stem, k),
                    )
                &&& claim_run(folder, claim).0 == folder.insert(
                    names_of(claim.stem, kept.attempt).part,
                    Seq::empty(),
                )
            },
            None => {
                &&& forall|k: nat|
                    claim.attempt <= k <= MAX_ATTEMPTS ==> !free(
                        folder,
                        #[trigger] names_of(claim.stem, k),
                    )
                &&& claim_run(folder, claim).0 == folder
            },
        },
    decreases MAX_ATTEMPTS - claim.attempt,
{
    let names = names_of(claim.stem, claim.attempt);
    if !free(folder, names) && claim.attempt < MAX_ATTEMPTS {
        lemma_claim_run(folder, ClaimView { attempt: claim.attempt + 1, ..claim });
    }
}

/// Law: a take gets the first number of which all three names are free, and none only where
/// each of the hundred has a name that is taken.
pub proof fn law_claim_takes_first_free_names(folder: Folder, stem: Seq<char>)
    ensures
        match claim_run(folder, (ClaimView { stem, attempt: 1 })).1 {
            Some(kept) => {
                &&& kept.stem == stem
                &&& 1 <= kept.attempt <= 100
                &&& free(folder, names_of(stem, kept.attempt))
                &&& forall|k: nat|
                    1 <= k < kept.attempt ==> !free(folder, #[trigger] names_of(stem, k))
            },
            None => forall|k: nat|
                1 <= k <= 100 ==> !free(folder, #[trigger] names_of(stem, k)),
        },
{
    lemma_claim_run(folder, ClaimView { stem, attempt: 1 });
}

/// Law: a claim changes no file that was there. It adds the part file, empty, where it is kept,
/// and nothing where it is not.
pub proof fn law_claim_overwrites_nothing(folder: Folder, stem: Seq<char>)
    ensures
        ({
            let (after, claim) = claim_run(folder, ClaimView { stem, attempt: 1 });
            &&& forall|name: Seq<char>| #[trigger]
                folder.contains_key(name) ==> after.contains_key(name) && after[name]
                    == folder[name]
            &&& match claim {
                Some(kept) => after == folder.insert(
                    names_of(stem, kept.attempt).part,
                    Seq::empty(),
                ),
                None => after == folder,
            }
        }),
{
    lemma_claim_run(folder, ClaimView { stem, attempt: 1 });
}

/// The stems of two tries differ, and stay different with any endings that start with a point.
proof fn lemma_tries_differ(
    stem: Seq<char>,
    attempt: nat,
    other_attempt: nat,
    ending: Seq<char>,
    other_ending: Seq<char>,
)
    requires
        attempt != other_attempt,
        ending.len() > 0 && ending[0] == '.',
        other_ending.len() > 0 && other_ending[0] == '.',
    ensures
        attempt_stem(stem, attempt) + ending != attempt_stem(stem, other_attempt) + other_ending,
{
    reveal_strlit("-");
    lemma_decimal_digits(attempt);
    lemma_decimal_digits(other_attempt);
    lemma_decimal_differs(attempt, other_attempt);
    let name = attempt_stem(stem, attempt) + ending;
    let other = attempt_stem(stem, other_attempt) + other_ending;
    let at = stem.len() as int;
    if attempt == 1 {
        assert(name[at] == '.' && other[at] == '-');
    } else if other_attempt == 1 {
        assert(name[at] == '-' && other[at] == '.');
    } else {
        let number = decimal(attempt);
        let other_number = decimal(other_attempt);
        if name == other {
            assert forall|i: int| 0 <= i < number.len() implies name[at + 1 + i] == number[i] by {}
            assert forall|i: int| 0 <= i < other_number.len() implies other[at + 1 + i]
                == other_number[i] by {}
            assert(name[at + 1 + number.len()] == '.');
            assert(other[at + 1 + other_number.len()] == '.');
            if number.len() < other_number.len() {
                assert(other_number[number.len() as int] == '.');
            } else if other_number.len() < number.len() {
                assert(number[other_number.len() as int] == '.');
            } else {
                assert(number =~= other_number);
            }
        }
    }
}

/// Law: two tries at one stem share no name, so that takes with the same timestamp never land on
/// a file of one another.
pub proof fn law_tries_share_no_name(
    stem: Seq<char>,
    attempt: nat,
    other_attempt: nat,
    which: TakeName,
    other_which: TakeName,
)
    requires
        attempt != other_attempt,
    ensures
        names_of(stem, attempt).get(which) != names_of(stem, other_attempt).get(other_which),
{
    reveal_strlit(".webm.part");
    reveal_strlit(".webm");
    reveal_strlit(".partial.webm");
    let ending = |which: TakeName|
        match which {
            TakeName::Part => ".webm.part"@,
            TakeName::Finished => ".webm"@,
            TakeName::Partial => ".partial.webm"@,
        };
    lemma_tries_differ(stem, attempt, other_attempt, ending(which), ending(other_which));
}

/// Law: the three names of a take differ, and a part file can be told from a finished and from
/// a partial recording by its name, whatever take they belong to.
pub proof fn law_part_name_is_recognisable(
    stem: Seq<char>,
    attempt: nat,
    other_stem: Seq<char>,
    other_attempt: nat,
)
    ensures
        names_of(stem, attempt).part != names_of(other_stem, other_attempt).finished,
        names_of(stem, attempt).part != names_of(other_stem, other_attempt).partial,
        names_of(stem, attempt).finished != names_of(stem, attempt).partial,
{
    reveal_strlit(".webm.part");
    reveal_strlit(".webm");
    reveal_strlit(".partial.webm");
    let names = names_of(stem, attempt);
    let other = names_of(other_stem, other_attempt);
    assert(names.part.last() == 't');
    assert(other.finished.last() == 'm');
    assert(other.partial.last() == 'm');
    assert(names.finished.len() != names.partial.len());
}

/// An open file: what it holds, and where the next write goes.
pub struct OpenFile {
    pub content: Seq<u8>,
    pub position: nat,
}

/// The file after `data` was written at its position. A gap before the position reads as zero.
pub open spec fn written(file: OpenFile, data: Seq<u8>) -> OpenFile {
    let end = file.position + data.len();
    OpenFile {
        content: Seq::new(
            if end > file.content.len() {
                end
            } else {
                file.content.len()
            },
            |i: int|
                if file.position <= i < end {
                    data[i - file.position]
                } else if i < file.content.len() {
                    file.content[i]
                } else {
                    0
                },
        ),
        position: end,
    }
}

/// The file after its length was set. What it gains reads as zero.
pub open spec fn resized(file: OpenFile, len: nat) -> OpenFile {
    OpenFile {
        content: Seq::new(
            len,
            |i: int|
                if i < file.content.len() {
                    file.content[i]
                } else {
                    0
                },
        ),
        ..file
    }
}

/// One chunk and how adding it goes.
pub struct Chunk {
    pub data: Seq<u8>,
    /// Whether all of it could be written.
    pub written: bool,
    /// Where not, how much of it got into the file.
    pub reached: nat,
    /// Whether the file could then be cut back.
    pub truncated: bool,
    /// Whether the file could then be set back to its end.
    pub repositioned: bool,
}

impl Chunk {
    /// The piece of the chunk that a failed write leaves in the file.
    pub open spec fn piece(self) -> Seq<u8> {
        if self.reached < self.data.len() {
            self.data.take(self.reached as int)
        } else {
            self.data
        }
    }
}

/// A chunk added to the open file of a take: the take and the file afterwards.
pub open spec fn append_run(sink: SinkView, file: OpenFile, chunk: Chunk) -> (SinkView, OpenFile) {
    let end = append_steps(sink, file, chunk);
    (end.0, end.1)
}

/// A chunk added to the open file of a take: the take, the file, and the action that ends it.
/// Every action that a write asks for is carried out, whether the write succeeded or not.
pub open spec fn append_steps(sink: SinkView, file: OpenFile, chunk: Chunk) -> (
    SinkView,
    OpenFile,
    AppendAction,
) {
    let event = if chunk.written {
        AppendEvent::Written(chunk.data.len() as usize)
    } else {
        AppendEvent::WriteFailed
    };
    rollback_run(
        sink.appended(event),
        written(
            file,
            if chunk.written {
                chunk.data
            } else {
                chunk.piece()
            },
        ),
        chunk,
        sink.append_action(event),
    )
}

/// The steps that follow a write, from `action` on.
pub open spec fn rollback_run(
    sink: SinkView,
    file: OpenFile,
    chunk: Chunk,
    action: AppendAction,
) -> (SinkView, OpenFile, AppendAction)
    decreases
            match action {
                AppendAction::Truncate(_) => 2nat,
                AppendAction::Reposition(_) => 1,
                _ => 0,
            },
{
    match action {
        AppendAction::Truncate(len) => {
            let event = AppendEvent::Truncated(chunk.truncated);
            rollback_run(
                sink.appended(event),
                if chunk.truncated {
                    resized(file, len as nat)
                } else {
                    file
                },
                chunk,
                sink.append_action(event),
            )
        },
        AppendAction::Reposition(position) => {
            let event = AppendEvent::Repositioned(chunk.repositioned);
            rollback_run(
                sink.appended(event),
                if chunk.repositioned {
                    OpenFile { position: position as nat, ..file }
                } else {
                    file
                },
                chunk,
                sink.append_action(event),
            )
        },
        _ => (sink, file, action),
    }
}

/// Whether the file holds exactly `accepted` and goes on at its end, as far as no rollback has
/// failed.
pub open spec fn in_step(sink: SinkView, file: OpenFile, accepted: Seq<u8>) -> bool {
    &&& sink.bytes == accepted.len()
    &&& !sink.torn ==> file.content == accepted && file.position == accepted.len()
}

/// The data that one chunk adds to a recording.
pub open spec fn contribution(chunk: Chunk) -> Seq<u8> {
    if chunk.written {
        chunk.data
    } else {
        Seq::empty()
    }
}

/// Law: a chunk is added as a whole or not at all. Unless a rollback fails, the file holds the
/// accepted chunks and nothing else after a write that succeeded, failed or was cut short; and a
/// take that is torn stays torn.
pub proof fn law_append_is_all_or_nothing(
    sink: SinkView,
    file: OpenFile,
    accepted: Seq<u8>,
    chunk: Chunk,
)
    requires
        in_step(sink, file, accepted),
        sink.bytes + chunk.data.len() <= u64::MAX,
        chunk.data.len() <= usize::MAX,
    ensures
        ({
            let (after, file_after) = append_run(sink, file, chunk);
            &&& in_step(after, file_after, accepted + contribution(chunk))
            &&& after.names == sink.names
            &&& sink.torn ==> after.torn
            &&& after.torn ==> sink.torn || !chunk.written && !(chunk.truncated
                && chunk.repositioned)
        }),
{
    reveal_with_fuel(rollback_run, 3);
    let (after, file_after) = append_run(sink, file, chunk);
    assert(accepted + Seq::<u8>::empty() =~= accepted);
    if !after.torn {
        assert(file_after.content =~= accepted + contribution(chunk));
    }
}

/// Law: a chunk that was written in full is accepted, whatever its length and the state of the
/// take, and nothing further is done to the file; so where the file went on at its end it now
/// holds what it held, followed by the whole chunk. A chunk that could not be written is rejected.
pub proof fn law_written_chunk_is_accepted(sink: SinkView, file: OpenFile, chunk: Chunk)
    requires
        sink.bytes + chunk.data.len() <= u64::MAX,
        chunk.data.len() <= usize::MAX,
    ensures
        ({
            let (after, file_after, last) = append_steps(sink, file, chunk);
            &&& last == AppendAction::Accept <==> chunk.written
            &&& last == AppendAction::Reject <==> !chunk.written
            &&& chunk.written ==> {
                &&& after.bytes == sink.bytes + chunk.data.len()
                &&& after.torn == sink.torn
                &&& file_after.position == file.position + chunk.data.len()
                &&& file.position == file.content.len() ==> file_after.content == file.content
                    + chunk.data
            }
            &&& !chunk.written ==> after.bytes == sink.bytes
            &&& after.names == sink.names
        }),
{
    reveal_with_fuel(rollback_run, 3);
    let (after, file_after, last) = append_steps(sink, file, chunk);
    if chunk.written && file.position == file.content.len() {
        assert(file_after.content =~= file.content + chunk.data);
    }
}

/// Law: a failed write is undone as far as that can be done, whatever the state of the take. The
/// file is cut back to the length of the accepted chunks, with what stood there before, and goes
/// on at its end; where it cannot be cut back nothing further is done to it.
pub proof fn law_rollback_cuts_back_to_accepted(sink: SinkView, file: OpenFile, chunk: Chunk)
    requires
        !chunk.written,
        sink.bytes <= u64::MAX,
    ensures
        ({
            let tried = written(file, chunk.piece());
            let after = append_run(sink, file, chunk).1;
            &&& chunk.truncated ==> after.content.len() == sink.bytes
            &&& chunk.truncated ==> forall|i: int|
                0 <= i < sink.bytes && i < tried.content.len() ==> #[trigger] after.content[i]
                    == tried.content[i]
            &&& chunk.truncated && chunk.repositioned ==> after.position == sink.bytes
            &&& chunk.truncated && !chunk.repositioned ==> after.position == tried.position
            &&& !chunk.truncated ==> after == tried
        }),
{
    reveal_with_fuel(rollback_run, 3);
}

/// Law: only a failed rollback tears a take. It is torn afterwards exactly where it was before,
/// or the write failed and the file could then not be cut back or not be set back to its end.
pub proof fn law_only_failed_rollback_tears(sink: SinkView, file: OpenFile, chunk: Chunk)
    ensures
        append_run(sink, file, chunk).0.torn <==> sink.torn || !chunk.written && !(chunk.truncated
            && chunk.repositioned),
{
    reveal_with_fuel(rollback_run, 3);
}

/// The chunks of a take, added in turn.
pub open spec fn record_run(sink: SinkView, file: OpenFile, chunks: Seq<Chunk>) -> (
    SinkView,
    OpenFile,
)
    decreases chunks.len(),
{
    if chunks.len() == 0 {
        (sink, file)
    } else {
        let (before, file_before) = record_run(sink, file, chunks.drop_last());
        append_run(before, file_before, chunks.last())
    }
}

/// The accepted chunks, one behind the other.
pub open spec fn recording(chunks: Seq<Chunk>) -> Seq<u8>
    decreases chunks.len(),
{
    if chunks.len() == 0 {
        Seq::empty()
    } else {
        recording(chunks.drop_last()) + contribution(chunks.last())
    }
}

/// Whether the lengths of the chunks and of the file fit their counters.
pub open spec fn within_limits(chunks: Seq<Chunk>) -> bool
    decreases chunks.len(),
{
    chunks.len() > 0 ==> {
        &&& within_limits(chunks.drop_last())
        &&& chunks.last().data.len() <= usize::MAX
        &&& recording(chunks.drop_last()).len() + chunks.last().data.len() <= u64::MAX
    }
}

/// Law: however the writes of a take go, its file holds the accepted chunks in the order in
/// which they came, unless a rollback failed; and its counter is their length in any case.
pub proof fn law_file_holds_accepted_chunks(names: NamesView, chunks: Seq<Chunk>)
    requires
        within_limits(chunks),
    ensures
        ({
            let start = SinkView { names, bytes: 0, torn: false };
            let (sink, file) = record_run(
                start,
                OpenFile { content: Seq::empty(), position: 0 },
                chunks,
            );
            &&& in_step(sink, file, recording(chunks))
            &&& sink.names == names
        }),
    decreases chunks.len(),
{
    if chunks.len() > 0 {
        let start = SinkView { names, bytes: 0, torn: false };
        law_file_holds_accepted_chunks(names, chunks.drop_last());
        let (before, file_before) = record_run(
            start,
            OpenFile { content: Seq::empty(), position: 0 },
            chunks.drop_last(),
        );
        law_append_is_all_or_nothing(
            before,
            file_before,
            recording(chunks.drop_last()),
            chunks.last(),
        );
    }
}

/// Whether the accepted chunks stand at the front of the file and nothing will be written over
/// them.
pub open spec fn keeps_front(sink: SinkView, file: OpenFile, accepted: Seq<u8>) -> bool {
    &&& sink.bytes == accepted.len()
    &&& file.position >= accepted.len()
    &&& file.content.len() >= accepted.len()
    &&& file.content.take(accepted.len() as int) == accepted
}

/// Whether no chunk of a take is accepted once a rollback has failed.
pub open spec fn stops_when_torn(names: NamesView, chunks: Seq<Chunk>) -> bool
    decreases chunks.len(),
{
    chunks.len() > 0 ==> {
        let before = record_run(
            SinkView { names, bytes: 0, torn: false },
            OpenFile { content: Seq::empty(), position: 0 },
            chunks.drop_last(),
        ).0;
        &&& stops_when_torn(names, chunks.drop_last())
        &&& before.torn ==> !chunks.last().written
    }
}

/// A chunk leaves the accepted chunks at the front of the file, provided that it is not accepted
/// into a torn file.
proof fn lemma_append_keeps_front(
    sink: SinkView,
    file: OpenFile,
    accepted: Seq<u8>,
    chunk: Chunk,
)
    requires
        in_step(sink, file, accepted),
        keeps_front(sink, file, accepted),
        sink.torn ==> !chunk.written,
        sink.bytes + chunk.data.len() <= u64::MAX,
        chunk.data.len() <= usize::MAX,
    ensures
        ({
            let (after, file_after) = append_run(sink, file, chunk);
            keeps_front(after, file_after, accepted + contribution(chunk))
        }),
{
    reveal_with_fuel(rollback_run, 3);
    let (after, file_after) = append_run(sink, file, chunk);
    let now = accepted + contribution(chunk);
    assert forall|i: int| 0 <= i < accepted.len() implies file.content[i] == accepted[i] by {
        assert(file.content.take(accepted.len() as int)[i] == accepted[i]);
    }
    assert(file_after.content.take(now.len() as int) =~= now);
}

/// Law: a failure costs the tail of a take, not the take. Even where a rollback fails, the
/// accepted chunks stand at the front of the file, as long as no further chunk is accepted.
pub proof fn law_torn_file_keeps_accepted_chunks(names: NamesView, chunks: Seq<Chunk>)
    requires
        within_limits(chunks),
        stops_when_torn(names, chunks),
    ensures
        ({
            let (sink, file) = record_run(
                SinkView { names, bytes: 0, torn: false },
                OpenFile { content: Seq::empty(), position: 0 },
                chunks,
            );
            keeps_front(sink, file, recording(chunks))
        }),
    decreases chunks.len(),
{
    let start = SinkView { names, bytes: 0, torn: false };
    let empty = OpenFile { content: Seq::empty(), position: 0 };
    if chunks.len() > 0 {
        law_file_holds_accepted_chunks(names, chunks.drop_last());
        law_torn_file_keeps_accepted_chunks(names, chunks.drop_last());
        let (before, file_before) = record_run(start, empty, chunks.drop_last());
        lemma_append_keeps_front(
            before,
            file_before,
            recording(chunks.drop_last()),
            chunks.last(),
        );
    } else {
        assert(empty.content.take(0) =~= Seq::<u8>::empty());
    }
}

/// The folder after `action`, `done` saying whether it could be carried out.
pub open spec fn close_run(
    folder: Folder,
    names: NamesView,
    action: CloseAction,
    done: bool,
) -> Folder {
    match action {
        CloseAction::Remove if done => folder.remove(names.part),
        CloseAction::Rename(to) if done => renamed(folder, names.part, names.get(to)),
        _ => folder,
    }
}

/// Law: finishing a take never loses its data. Whatever fails, the file that the outcome names
/// holds it: the recording under its finished name where all went well, else the file whose path
/// the message gives. Of a torn take that is the part file.
pub proof fn law_commit_keeps_data(
    folder: Folder,
    sink: SinkView,
    flush_error: Option<Seq<char>>,
    rename_error: Option<Seq<char>>,
    part_path: Seq<char>,
    finished_path: Seq<char>,
)
    requires
        folder.contains_key(sink.names.part),
        sink.names.part != sink.names.finished,
        sink.bytes > 0 || flush_error is Some,
    ensures
        ({
            let done = rename_error is None;
            let after = close_run(
                folder,
                sink.names,
                sink.commit_action(flush_error is None),
                done,
            );
            let outcome = sink.commit_outcome(flush_error, rename_error, part_path, finished_path);
            let holder = if done && !sink.torn {
                TakeName::Finished
            } else {
                TakeName::Part
            };
            let path = if done && !sink.torn {
                finished_path
            } else {
                part_path
            };
            &&& after.contains_key(sink.names.get(holder))
            &&& after[sink.names.get(holder)] == folder[sink.names.part]
            &&& match outcome {
                Ok((name, bytes)) => name == holder && bytes == sink.bytes && flush_error is None,
                Err(message) => if flush_error is Some {
                    message == flush_error_text(flush_error->0, path)
                } else if sink.torn {
                    message == torn_error_text(path)
                } else {
                    message == rename_error_text(rename_error->0, path)
                },
            }
        }),
{
}

/// Law: interrupting a take never loses its data either. The file that the outcome names holds
/// it, with the accepted chunks at its front where they stood there, and a torn take keeps the
/// name of a part file.
pub proof fn law_salvage_keeps_data(
    folder: Folder,
    sink: SinkView,
    accepted: Seq<u8>,
    done: bool,
)
    requires
        folder.contains_key(sink.names.part),
        sink.names.part != sink.names.partial,
        sink.bytes > 0,
    ensures
        ({
            let after = close_run(folder, sink.names, sink.salvage_action(), done);
            let holder = sink.names.get(sink.salvaged_name(done));
            &&& after.contains_key(holder)
            &&& after[holder] == folder[sink.names.part]
            &&& accepted.is_prefix_of(folder[sink.names.part]) ==> accepted.is_prefix_of(
                after[holder],
            )
            &&& sink.torn ==> after == folder && holder == sink.names.part
        }),
{
}

/// Law: a torn take never gets the finished or the partial name, whether it is finished or
/// interrupted and whatever fails. Its part file stays as it is, or is deleted where no chunk was
/// accepted; and finishing a torn take with data is an error.
pub proof fn law_torn_take_keeps_part_name(
    folder: Folder,
    sink: SinkView,
    flush_error: Option<Seq<char>>,
    rename_error: Option<Seq<char>>,
    part_path: Seq<char>,
    finished_path: Seq<char>,
    done: bool,
)
    requires
        sink.torn,
        sink.names.part != sink.names.finished,
        sink.names.part != sink.names.partial,
    ensures
        ({
            let committed = close_run(
                folder,
                sink.names,
                sink.commit_action(flush_error is None),
                done,
            );
            let salvaged = close_run(folder, sink.names, sink.salvage_action(), done);
            &&& committed.contains_key(sink.names.finished) == folder.contains_key(
                sink.names.finished,
            )
            &&& committed.contains_key(sink.names.partial) == folder.contains_key(
                sink.names.partial,
            )
            &&& salvaged.contains_key(sink.names.finished) == folder.contains_key(
                sink.names.finished,
            )
            &&& salvaged.contains_key(sink.names.partial) == folder.contains_key(
                sink.names.partial,
            )
            &&& committed == folder || sink.bytes == 0 && committed == folder.remove(
                sink.names.part,
            )
            &&& salvaged == folder || sink.bytes == 0 && salvaged == folder.remove(
                sink.names.part,
            )
            &&& sink.bytes > 0 ==> sink.commit_outcome(
                flush_error,
                rename_error,
                part_path,
                finished_path,
            ) is Err
        }),
{
}

/// Law: a take without data leaves no file behind, whether it is finished or interrupted.
pub proof fn law_empty_take_leaves_nothing(folder: Folder, sink: SinkView)
    requires
        sink.bytes == 0,
    ensures
        close_run(folder, sink.names, sink.commit_action(true), true) == folder.remove(
            sink.names.part,
        ),
        close_run(folder, sink.names, sink.salvage_action(), true) == folder.remove(
            sink.names.part,
        ),
{
}

/// Law: ending a take leaves the files of other takes alone. Finishing it concerns the part and
/// the finished name, interrupting it the part and the partial name; so only a finished take
/// gets the name of a finished recording.
pub proof fn law_close_touches_own_names_only(
    folder: Folder,
    sink: SinkView,
    flushed: bool,
    done: bool,
    name: Seq<char>,
)
    requires
        name != sink.names.part,
    ensures
        ({
            let after = close_run(folder, sink.names, sink.commit_action(flushed), done);
            name != sink.names.finished ==> {
                &&& after.contains_key(name) == folder.contains_key(name)
                &&& folder.contains_key(name) ==> after[name] == folder[name]
            }
        }),
        ({
            let after = close_run(folder, sink.names, sink.salvage_action(), done);
            name != sink.names.partial ==> {
                &&& after.contains_key(name) == folder.contains_key(name)
                &&& folder.contains_key(name) ==> after[name] == folder[name]
            }
        }),
{
}

/// The folder while a take runs, and the take, when `chunks` have been added to it.
pub open spec fn running(folder: Folder, claim: ClaimView, chunks: Seq<Chunk>) -> (
    Folder,
    SinkView,
) {
    let names = names_of(claim.stem, claim.attempt);
    let (sink, file) = record_run(
        SinkView { names, bytes: 0, torn: false },
        OpenFile { content: Seq::empty(), position: 0 },
        chunks,
    );
    (claim_run(folder, claim).0.insert(names.part, file.content), sink)
}

/// Law: a take from its claim to its end. While it runs there is no file under its finished or
/// its partial name, so that a file left behind by a crash is known to be incomplete. Where no
/// rollback failed, a clean finish leaves the folder as it was with the accepted chunks under the
/// finished name, and a clean interruption leaves them under the partial name. Where one failed,
/// neither name is given, and the part file starts with the accepted chunks, as long as none was
/// accepted later.
pub proof fn law_take_from_claim_to_end(folder: Folder, stem: Seq<char>, chunks: Seq<Chunk>)
    requires
        within_limits(chunks),
        claim_run(folder, (ClaimView { stem, attempt: 1 })).1 is Some,
    ensures
        ({
            let claim = claim_run(folder, ClaimView { stem, attempt: 1 }).1->0;
            let names = names_of(stem, claim.attempt);
            let (during, sink) = running(folder, claim, chunks);
            let finished = close_run(during, names, sink.commit_action(true), true);
            let interrupted = close_run(during, names, sink.salvage_action(), true);
            &&& sink.names == names
            &&& sink.bytes == recording(chunks).len()
            &&& !during.contains_key(names.finished)
            &&& !during.contains_key(names.partial)
            &&& forall|name: Seq<char>| #[trigger]
                folder.contains_key(name) ==> during.contains_key(name) && during[name]
                    == folder[name]
            &&& !sink.torn && recording(chunks).len() > 0 ==> {
                &&& during == folder.insert(names.part, recording(chunks))
                &&& finished == folder.insert(names.finished, recording(chunks))
                &&& interrupted == folder.insert(names.partial, recording(chunks))
            }
            &&& recording(chunks).len() == 0 ==> finished == folder && interrupted == folder
            &&& sink.torn && recording(chunks).len() > 0 ==> {
                &&& finished == during
                &&& interrupted == during
                &&& stops_when_torn(names, chunks) ==> recording(chunks).is_prefix_of(
                    during[names.part],
                )
            }
        }),
{
    lemma_claim_run(folder, ClaimView { stem, attempt: 1 });
    let claim = claim_run(folder, ClaimView { stem, attempt: 1 }).1->0;
    let names = names_of(stem, claim.attempt);
    lemma_claim_run(folder, claim);
    law_file_holds_accepted_chunks(names, chunks);
    law_part_name_is_recognisable(stem, claim.attempt, stem, claim.attempt);
    let (during, sink) = running(folder, claim, chunks);
    let finished = close_run(during, names, sink.commit_action(true), true);
    let interrupted = close_run(during, names, sink.salvage_action(), true);
    if !sink.torn && recording(chunks).len() > 0 {
        assert(during =~= folder.insert(names.part, recording(chunks)));
        assert(finished =~= folder.insert(names.finished, recording(chunks)));
        assert(interrupted =~= folder.insert(names.partial, recording(chunks)));
    }
    if stops_when_torn(names, chunks) {
        law_torn_file_keeps_accepted_chunks(names, chunks);
    }
    if recording(chunks).len() == 0 {
        assert(finished =~= folder);
        assert(interrupted =~= folder);
    }
}

/// The end of a metadata fix: what `action` asks for with the copy, `discarded` saying whether
/// the copy could be deleted.
pub open spec fn fix_end(
    folder: Folder,
    copy: Seq<char>,
    action: FixAction,
    discarded: bool,
) -> Folder {
    if action is Discard && discarded {
        folder.remove(copy)
    } else {
        folder
    }
}

/// A metadata fix of the file `recording` carried out in `folder`. The run ends with `ran` and
/// leaves the copy with content `made`, if any; renaming the copy ends with `replaced`.
pub open spec fn fix_run(
    folder: Folder,
    recording: Seq<char>,
    copy: Seq<char>,
    made: Option<Seq<u8>>,
    ran: Result<(), String>,
    replaced: Result<(), String>,
    discarded: bool,
) -> Folder {
    let run = match made {
        Some(content) => folder.insert(copy, content),
        None => folder,
    };
    match fix_action(FixEvent::Ran(ran)) {
        FixAction::Replace => fix_end(
            if replaced is Ok {
                renamed(run, copy, recording)
            } else {
                run
            },
            copy,
            fix_action(FixEvent::Replaced(replaced)),
            discarded,
        ),
        action => fix_end(run, copy, action, discarded),
    }
}

/// Law: a metadata fix never loses the recording, given that a run that succeeds leaves a copy.
/// The recording holds the new content where all went well and the old content where anything
/// failed; then no copy stays behind, if it could be deleted. No other file changes.
pub proof fn law_fix_keeps_recording(
    folder: Folder,
    recording: Seq<char>,
    copy: Seq<char>,
    made: Option<Seq<u8>>,
    ran: Result<(), String>,
    replaced: Result<(), String>,
    discarded: bool,
)
    requires
        folder.contains_key(recording),
        recording != copy,
        ran is Ok ==> made is Some,
    ensures
        ({
            let after = fix_run(folder, recording, copy, made, ran, replaced, discarded);
            let fixed = ran is Ok && replaced is Ok;
            &&& after.contains_key(recording)
            &&& after[recording] == if fixed {
                made->0
            } else {
                folder[recording]
            }
            &&& fixed || discarded ==> !after.contains_key(copy)
            &&& forall|name: Seq<char>|
                name != recording && name != copy ==> {
                    &&& #[trigger] after.contains_key(name) == folder.contains_key(name)
                    &&& folder.contains_key(name) ==> after[name] == folder[name]
                }
        }),
{
}

/// A conversion of the file `source` carried out in `folder`: the run leaves `target` with
/// content `made`, if any, and `action` follows, `removed` saying whether `source` could be
/// deleted where that is asked for.
pub open spec fn convert_run(
    folder: Folder,
    source: Seq<char>,
    target: Seq<char>,
    made: Option<Seq<u8>>,
    action: ConvertAction,
    removed: bool,
) -> Folder {
    let run = match made {
        Some(content) => folder.insert(target, content),
        None => folder,
    };
    if action is RemoveSource && removed {
        run.remove(source)
    } else {
        run
    }
}

/// Law: a conversion never loses the recording, given that a run that succeeds leaves its output
/// beside the source. The source stays as it was where the conversion failed; where it
/// succeeded, the converted file is there, and the source is gone if it could be deleted. No
/// other file changes.
pub proof fn law_convert_keeps_recording(
    folder: Folder,
    source: Seq<char>,
    target: Seq<char>,
    made: Option<Seq<u8>>,
    converted: Result<(), String>,
    action: ConvertAction,
    removed: bool,
)
    requires
        folder.contains_key(source),
        source != target,
        converted is Ok ==> made is Some,
        convert_follows(ConvertEvent::Converted(converted), action),
    ensures
        ({
            let after = convert_run(folder, source, target, made, action, removed);
            &&& converted is Err ==> after.contains_key(source) && after[source]
                == folder[source]
            &&& converted is Ok ==> {
                &&& after.contains_key(target)
                &&& after[target] == made->0
                &&& after.contains_key(source) == !removed
            }
            &&& forall|name: Seq<char>|
                name != source && name != target ==> {
                    &&& #[trigger] after.contains_key(name) == folder.contains_key(name)
                    &&& folder.contains_key(name) ==> after[name] == folder[name]
                }
        }),
{
}

} // verus!
