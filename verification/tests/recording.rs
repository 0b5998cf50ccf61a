use std::collections::BTreeMap;

use screen_recorder::session::{after_commit, after_salvage, FinishAction, Session};
use screen_recorder::sink::{AppendAction, AppendEvent, CloseAction, RecordingSink, TakeName};
use screen_recorder::stamp::{new_stem, recording_stem};
use screen_recorder::take::{ClaimAction, ClaimEvent, NameClaim, TakeNames, OUT_OF_NAMES};

/// A folder in memory.
#[derive(Default)]
struct Folder {
    files: BTreeMap<String, Vec<u8>>,
    missing: bool,
}

/// How a write goes wrong: how much of the chunk gets into the file, and whether the file can
/// then be cut back and set back to its end.
struct Fault {
    reached: usize,
    truncates: bool,
    seeks: bool,
}

/// A take with its open file.
struct Take {
    sink: RecordingSink,
    position: usize,
}

impl Folder {
    fn new() -> Self {
        Self::default()
    }

    fn with(name: &str, content: &[u8]) -> Self {
        let mut folder = Self::new();
        folder.files.insert(name.to_string(), content.to_vec());
        folder
    }

    fn has(&self, name: &str) -> bool {
        self.files.contains_key(name)
    }

    fn content(&self, name: &str) -> &[u8] {
        &self.files[name]
    }

    fn create(&mut self, stem: &str) -> Result<Take, String> {
        let mut claim = NameClaim::new(stem);
        let mut action = ClaimAction::Probe;
        loop {
            let event = match action {
                ClaimAction::Probe => {
                    if self.has(&claim.names().finished) || self.has(&claim.names().partial) {
                        ClaimEvent::Taken
                    } else {
                        ClaimEvent::Free
                    }
                }
                ClaimAction::Open => {
                    let part = claim.names().part.clone();
                    if self.missing {
                        ClaimEvent::OpenFailed
                    } else if self.has(&part) {
                        ClaimEvent::Collided
                    } else {
                        self.files.insert(part, Vec::new());
                        ClaimEvent::Created
                    }
                }
                ClaimAction::Keep => {
                    return Ok(Take { sink: RecordingSink::create(claim), position: 0 });
                }
                ClaimAction::GiveUp => return Err(OUT_OF_NAMES.to_string()),
                ClaimAction::Fail => return Err("no such folder".to_string()),
            };
            action = claim.step(event);
        }
    }

    fn write(&mut self, take: &mut Take, data: &[u8]) {
        let part = take.sink.names().part.clone();
        let file = self.files.get_mut(&part).unwrap();
        let end = take.position + data.len();
        if file.len() < end {
            file.resize(end, 0);
        }
        file[take.position..end].copy_from_slice(data);
        take.position = end;
    }

    fn append(&mut self, take: &mut Take, data: &[u8]) {
        self.write(take, data);
        assert_eq!(take.sink.append(AppendEvent::Written(data.len())), AppendAction::Accept);
    }

    fn append_faulty(&mut self, take: &mut Take, data: &[u8], fault: &Fault) {
        self.write(take, &data[..fault.reached]);
        let mut action = take.sink.append(AppendEvent::WriteFailed);
        loop {
            let event = match action {
                AppendAction::Truncate(len) => {
                    if fault.truncates {
                        let part = take.sink.names().part.clone();
                        self.files.get_mut(&part).unwrap().truncate(len as usize);
                    }
                    AppendEvent::Truncated(fault.truncates)
                }
                AppendAction::Reposition(position) => {
                    if fault.seeks {
                        take.position = position as usize;
                    }
                    AppendEvent::Repositioned(fault.seeks)
                }
                AppendAction::Accept => panic!("a chunk that was not written is accepted"),
                AppendAction::Reject => return,
            };
            action = take.sink.append(event);
        }
    }

    fn close(&mut self, names: &TakeNames, action: CloseAction) {
        match action {
            CloseAction::Remove => {
                self.files.remove(&names.part);
            }
            CloseAction::Rename(to) => {
                let content = self.files.remove(&names.part).unwrap();
                self.files.insert(names.get(to).to_string(), content);
            }
            CloseAction::Leave => {}
        }
    }

    fn commit(&mut self, take: Take) -> (String, u64) {
        let action = take.sink.commit(true);
        self.close(take.sink.names(), action);
        let (name, bytes) = take.sink.committed(None, None, "part", "finished").unwrap();
        (take.sink.names().get(name).to_string(), bytes)
    }

    fn salvage(&mut self, take: Take) -> (String, u64) {
        let action = take.sink.salvage();
        self.close(take.sink.names(), action);
        let (name, bytes) = take.sink.salvaged(true);
        (take.sink.names().get(name).to_string(), bytes)
    }
}

#[test]
fn test_append_multiple_chunks_writes_them_concatenated_in_order() {
    let mut dir = Folder::new();
    let mut take = dir.create("rec").unwrap();
    for chunk in [b"header".as_slice(), b"cluster-1", b"cluster-2"] {
        dir.append(&mut take, chunk);
    }
    let (path, bytes) = dir.commit(take);

    assert_eq!(dir.content(&path), b"headercluster-1cluster-2");
    assert_eq!(bytes, 24);
}

#[test]
fn test_append_empty_chunk_leaves_byte_count_unchanged() {
    let mut dir = Folder::new();
    let mut take = dir.create("rec").unwrap();
    dir.append(&mut take, b"data");
    dir.append(&mut take, b"");
    let (_, bytes) = dir.commit(take);

    assert_eq!(bytes, 4);
}

#[test]
fn test_chunks_stay_in_a_part_file_until_commit() {
    let mut dir = Folder::new();
    let mut take = dir.create("rec").unwrap();
    dir.append(&mut take, b"data");

    assert!(dir.has("rec.webm.part"));
    assert!(!dir.has("rec.webm"));

    let (path, _) = dir.commit(take);
    assert_eq!(path, "rec.webm");
    assert!(!dir.has("rec.webm.part"));
}

#[test]
fn test_salvage_renames_the_part_file_to_a_partial_name() {
    let mut dir = Folder::new();
    let mut take = dir.create("rec").unwrap();
    dir.append(&mut take, b"half a recording");
    let (path, bytes) = dir.salvage(take);

    assert_eq!(path, "rec.partial.webm");
    assert_eq!(bytes, 16);
    assert_eq!(dir.content(&path), b"half a recording");
    assert!(!dir.has("rec.webm.part"));
}

#[test]
fn test_commit_without_any_append_removes_the_empty_part_file() {
    let mut dir = Folder::new();
    let take = dir.create("rec").unwrap();
    let (path, bytes) = dir.commit(take);

    assert_eq!(bytes, 0);
    assert!(!dir.has(&path));
    assert!(!dir.has("rec.webm.part"));
}

#[test]
fn test_create_beside_a_finished_recording_picks_the_next_name() {
    let mut dir = Folder::with("rec.webm", b"an earlier take");
    let take = dir.create("rec").unwrap();
    let (path, _) = dir.commit(take);

    assert_eq!(path, "rec-2.webm");
    assert_eq!(dir.content("rec.webm"), b"an earlier take");
}

#[test]
fn test_salvage_with_a_torn_tail_keeps_the_part_name() {
    let mut dir = Folder::new();
    let mut take = dir.create("rec").unwrap();
    dir.append(&mut take, b"a chunk");
    let fault = Fault { reached: 2, truncates: false, seeks: false };
    dir.append_faulty(&mut take, b"another", &fault);
    let (path, bytes) = dir.salvage(take);

    assert_eq!(path, "rec.webm.part");
    assert_eq!(bytes, 7);
    assert!(!dir.has("rec.partial.webm"));
}

#[test]
fn test_create_beside_a_salvaged_partial_picks_the_next_name() {
    let mut dir = Folder::with("rec.partial.webm", b"an aborted take");
    let take = dir.create("rec").unwrap();
    let (path, _) = dir.salvage(take);

    assert_eq!(path, "rec-2.webm.part");
    assert_eq!(dir.content("rec.partial.webm"), b"an aborted take");
}

#[test]
fn test_create_beside_an_open_part_file_picks_the_next_name() {
    let mut dir = Folder::new();
    let first = dir.create("rec").unwrap();
    let second = dir.create("rec").unwrap();

    assert_eq!(first.sink.names().part, "rec.webm.part");
    assert_eq!(second.sink.names().part, "rec-2.webm.part");
}

#[test]
fn test_create_in_a_missing_directory_returns_an_error() {
    let mut dir = Folder::new();
    dir.missing = true;
    assert!(dir.create("rec").is_err());
}

#[test]
fn a_take_gets_the_first_free_number() {
    let mut dir = Folder::with("rec.webm", b"");
    dir.files.insert("rec-2.partial.webm".to_string(), Vec::new());
    dir.files.insert("rec-3.webm.part".to_string(), Vec::new());
    dir.files.insert("rec-5.webm".to_string(), Vec::new());
    let take = dir.create("rec").unwrap();
    assert_eq!(take.sink.names().finished, "rec-4.webm");
    assert_eq!(take.sink.names().partial, "rec-4.partial.webm");
    assert_eq!(take.sink.names().part, "rec-4.webm.part");
}

#[test]
fn the_hundredth_number_is_the_last() {
    let mut dir = Folder::with("rec.webm", b"");
    for n in 2..100 {
        dir.files.insert(format!("rec-{n}.webm"), Vec::new());
    }
    let take = dir.create("rec").unwrap();
    assert_eq!(take.sink.names().part, "rec-100.webm.part");
    let before = dir.files.clone();
    assert_eq!(
        dir.create("rec").err(),
        Some("too many recordings with the same timestamp".to_string())
    );
    assert_eq!(dir.files, before);
}

#[test]
fn a_failed_write_is_rolled_back() {
    let mut dir = Folder::new();
    let mut take = dir.create("rec").unwrap();
    dir.append(&mut take, b"one");
    for reached in [0, 2, 4] {
        let fault = Fault { reached, truncates: true, seeks: true };
        dir.append_faulty(&mut take, b"lost", &fault);
        assert_eq!(dir.content("rec.webm.part"), b"one");
    }
    dir.append(&mut take, b"two");
    let (path, bytes) = dir.salvage(take);
    assert_eq!(path, "rec.partial.webm");
    assert_eq!(bytes, 6);
    assert_eq!(dir.content(&path), b"onetwo");
}

#[test]
fn a_file_that_cannot_be_set_back_is_torn_for_good() {
    let mut dir = Folder::new();
    let mut take = dir.create("rec").unwrap();
    dir.append(&mut take, b"one");
    dir.append_faulty(&mut take, b"lost", &Fault { reached: 4, truncates: true, seeks: false });
    dir.append_faulty(&mut take, b"lost", &Fault { reached: 0, truncates: true, seeks: true });
    let (path, bytes) = dir.salvage(take);
    assert_eq!(path, "rec.webm.part");
    assert_eq!(bytes, 3);
}

fn sink_of(bytes: usize) -> RecordingSink {
    let mut claim = NameClaim::new("rec");
    assert_eq!(claim.step(ClaimEvent::Free), ClaimAction::Open);
    assert_eq!(claim.step(ClaimEvent::Created), ClaimAction::Keep);
    let mut sink = RecordingSink::create(claim);
    assert_eq!(sink.append(AppendEvent::Written(bytes)), AppendAction::Accept);
    assert_eq!(sink.bytes(), bytes as u64);
    sink
}

#[test]
fn a_take_that_cannot_be_flushed_is_named_all_the_same() {
    let sink = sink_of(7);
    assert_eq!(sink.commit(false), CloseAction::Rename(TakeName::Finished));
    assert_eq!(
        sink.committed(Some("disk full".to_string()), None, "/r/a.part", "/r/a"),
        Err("Cannot flush recording: disk full. Saved as /r/a".to_string())
    );
    assert_eq!(
        sink.committed(
            Some("disk full".to_string()),
            Some("gone".to_string()),
            "/r/a.part",
            "/r/a"
        ),
        Err("Cannot flush recording: disk full. Saved as /r/a.part".to_string())
    );
    assert_eq!(sink_of(0).commit(false), CloseAction::Rename(TakeName::Finished));
}

#[test]
fn a_take_that_cannot_be_renamed_says_where_the_data_is() {
    let sink = sink_of(7);
    assert_eq!(
        sink.committed(None, Some("in use".to_string()), "/r/a.part", "/r/a"),
        Err("Cannot rename recording: in use. The data is at /r/a.part".to_string())
    );
    assert_eq!(
        sink_of(0).committed(None, Some("in use".to_string()), "/r/a.part", "/r/a"),
        Ok((TakeName::Finished, 0))
    );
    assert_eq!(sink.salvaged(false), (TakeName::Part, 7));
}

#[test]
fn a_torn_take_never_gets_a_playable_name() {
    for truncates in [false, true] {
        for flushed in [false, true] {
            let mut dir = Folder::new();
            let mut take = dir.create("rec").unwrap();
            dir.append(&mut take, b"one");
            dir.append_faulty(&mut take, b"lost", &Fault { reached: 2, truncates, seeks: false });
            let action = take.sink.commit(flushed);
            assert_eq!(action, CloseAction::Leave);
            dir.close(take.sink.names(), action);
            let flush_error = if flushed { None } else { Some("disk full".to_string()) };
            let expected = if flushed {
                "Recording is damaged (a failed write could not be undone). The data is at /r/a.part"
            } else {
                "Cannot flush recording: disk full. Saved as /r/a.part"
            };
            assert_eq!(
                take.sink.committed(flush_error, None, "/r/a.part", "/r/a"),
                Err(expected.to_string())
            );
            assert_eq!(take.sink.salvage(), CloseAction::Leave);
            let names: Vec<&str> = dir.files.keys().map(|name| name.as_str()).collect();
            assert_eq!(names, vec!["rec.webm.part"]);
            assert!(dir.content("rec.webm.part").starts_with(b"one"));
        }
    }
}

#[test]
fn a_torn_take_without_data() {
    let mut dir = Folder::new();
    let mut take = dir.create("rec").unwrap();
    dir.append_faulty(&mut take, b"lost", &Fault { reached: 2, truncates: false, seeks: false });
    assert_eq!(take.sink.commit(false), CloseAction::Leave);
    assert_eq!(
        take.sink.committed(Some("disk full".to_string()), None, "/r/a.part", "/r/a"),
        Err("Cannot flush recording: disk full. Saved as /r/a.part".to_string())
    );
    assert_eq!(take.sink.commit(true), CloseAction::Remove);
    assert_eq!(take.sink.salvage(), CloseAction::Remove);
    assert_eq!(take.sink.committed(None, None, "/r/a.part", "/r/a"), Ok((TakeName::Finished, 0)));
}

#[test]
fn a_failure_costs_the_tail_and_not_the_take() {
    let mut dir = Folder::new();
    let mut take = dir.create("rec").unwrap();
    dir.append(&mut take, b"onetwo");
    dir.append_faulty(&mut take, b"lost", &Fault { reached: 4, truncates: false, seeks: false });
    dir.append_faulty(&mut take, b"more", &Fault { reached: 1, truncates: true, seeks: false });
    dir.append_faulty(&mut take, b"again", &Fault { reached: 3, truncates: false, seeks: true });
    let (path, bytes) = dir.salvage(take);
    assert_eq!((path.as_str(), bytes), ("rec.webm.part", 6));
    assert_eq!(&dir.content(&path)[..6], b"onetwo");
}

#[test]
fn two_tries_share_no_name() {
    let mut seen = BTreeMap::new();
    for attempt in 1..=100 {
        let names = TakeNames::new("rec", attempt);
        for name in [names.part, names.finished, names.partial] {
            assert_eq!(seen.insert(name, attempt), None);
        }
    }
    assert_eq!(seen.len(), 300);
    assert_eq!(seen["rec-12.partial.webm"], 12);
}

#[test]
fn one_take_at_a_time() {
    let mut session: Session<u8> = Session::new();
    assert_eq!(session.ready(), Ok(()));
    assert_eq!(session.chunk_target(true), Err("No recording is in progress".to_string()));
    assert_eq!(session.finish(), Err("No recording is in progress".to_string()));
    assert_eq!(session.abort(), None);

    session.begin(1);
    assert_eq!(
        session.ready(),
        Err("The previous recording is still being finalized".to_string())
    );
    assert_eq!(
        session.chunk_target(false),
        Err("Invalid recording data (expected raw bytes)".to_string())
    );
    *session.chunk_target(true).unwrap() = 2;
    assert_eq!(session.finish(), Ok(2));
    assert_eq!(session.ready(), Ok(()));

    session.begin(3);
    assert_eq!(session.abort(), Some(3));
    assert_eq!(session.abort(), None);
}

#[test]
fn what_follows_a_commit() {
    assert!(matches!(
        after_commit(Ok((TakeName::Finished, 0)), true),
        FinishAction::Fail(message) if message == "Recording is empty (no data was captured)"
    ));
    assert!(matches!(
        after_commit(Err("why".to_string()), true),
        FinishAction::Fail(message) if message == "why"
    ));
    assert!(matches!(
        after_commit(Ok((TakeName::Finished, 1)), true),
        FinishAction::FixMetadata
    ));
    assert!(matches!(after_commit(Ok((TakeName::Finished, 1)), false), FinishAction::Done));
}

#[test]
fn what_follows_a_salvage() {
    assert_eq!(after_salvage((TakeName::Part, 0)), None);
    assert_eq!(after_salvage((TakeName::Part, 9)), Some(TakeName::Part));
    assert_eq!(after_salvage((TakeName::Partial, 9)), Some(TakeName::Partial));
}

#[test]
fn the_stem_carries_the_time() {
    assert_eq!(recording_stem("2026-01-02-03-04-05"), "recording-2026-01-02-03-04-05");
    let stem = new_stem();
    let fields: Vec<&str> = stem.split('-').collect();
    assert_eq!(fields.len(), 7);
    assert_eq!(fields[0], "recording");
    assert_eq!(fields[1].len(), 4);
    for field in &fields[2..] {
        assert_eq!(field.len(), 2);
    }
    assert!(fields[1..].iter().all(|field| field.parse::<u32>().is_ok()));
    assert!(stem.chars().all(|c| c.is_ascii_lowercase() || c.is_ascii_digit() || c == '-'));
    assert!((1..=12).contains(&fields[2].parse::<u32>().unwrap()));
}

#[test]
fn ending_a_take_leaves_other_files_alone() {
    let mut dir = Folder::with("rec.webm", b"an earlier take");
    let mut first = dir.create("rec").unwrap();
    let mut second = dir.create("rec").unwrap();
    dir.append(&mut first, b"one");
    dir.append(&mut second, b"two");
    assert_eq!(dir.commit(first), ("rec-2.webm".to_string(), 3));
    assert_eq!(dir.salvage(second), ("rec-3.partial.webm".to_string(), 3));
    let names: Vec<&str> = dir.files.keys().map(|name| name.as_str()).collect();
    assert_eq!(names, vec!["rec-2.webm", "rec-3.partial.webm", "rec.webm"]);
    assert_eq!(dir.content("rec-2.webm"), b"one");
    assert_eq!(dir.content("rec-3.partial.webm"), b"two");
    assert_eq!(dir.content("rec.webm"), b"an earlier take");
}
