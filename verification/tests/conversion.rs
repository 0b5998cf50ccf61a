use std::collections::BTreeMap;

use screen_recorder::encoder::{
    convert_step, convert_to_mp4, ffmpeg_source, fix_step, fix_webm_metadata, picked_step,
    CommandArg, ConvertAction, ConvertEvent, FfmpegJob, FfmpegSource, FixAction, FixEvent,
    PickedAction, PickedEvent,
};
use screen_recorder::settings::{
    failure_message, folder_step, pick_result, recordings_dir, remembered_dir, Failure,
    FolderAction, FolderEvent, RecordingsDir, Settings,
};

fn line(job: &FfmpegJob) -> String {
    let args: Vec<&str> = job
        .command_line()
        .iter()
        .map(|arg| match arg {
            CommandArg::Text(text) => *text,
            CommandArg::Input => "<in>",
            CommandArg::Output => "<out>",
        })
        .collect();
    args.join(" ")
}

#[test]
fn the_command_line_of_a_conversion() {
    assert_eq!(
        line(&convert_to_mp4(true)),
        "-fflags +genpts -i <in> -c:v libx264 -preset fast -crf 23 -g 120 -keyint_min 120 \
         -sc_threshold 0 -vsync cfr -r 60 -pix_fmt yuv420p -movflags +faststart -c:a aac \
         -b:a 128k -y <out>"
    );
}

#[test]
fn the_command_line_of_a_metadata_fix() {
    let job = fix_webm_metadata(true).unwrap();
    assert_eq!(line(&job), "-fflags +genpts -i <in> -c copy -y <out>");
    assert_eq!(fix_webm_metadata(false).err(), Some("WebM file not found".to_string()));
}

#[test]
fn options_stand_before_their_file() {
    let job = FfmpegJob { input_args: vec!["-a"], args: vec!["-b", "c"], stage: None };
    assert_eq!(line(&job), "-a -i <in> -b c -y <out>");
    let job = FfmpegJob { input_args: vec![], args: vec![], stage: None };
    assert_eq!(line(&job), "-i <in> -y <out>");
}

#[test]
fn progress_is_told_under_the_stage() {
    let event = convert_to_mp4(true).progress("rec.webm", 42).unwrap();
    assert_eq!(event.file_name, "rec.webm");
    assert_eq!(event.percent, 42);
    assert_eq!(event.stage, "convert");
    assert_eq!(fix_webm_metadata(true).unwrap().progress("a", 0).unwrap().stage, "finalize");
    assert!(convert_to_mp4(false).progress("rec.webm", 42).is_none());
}

#[test]
fn ffmpeg_is_taken_from_the_first_place_that_has_it() {
    assert_eq!(ffmpeg_source(Some(true), Some(true)), FfmpegSource::Bundled);
    assert_eq!(ffmpeg_source(Some(false), Some(true)), FfmpegSource::Environment);
    assert_eq!(ffmpeg_source(None, Some(true)), FfmpegSource::Environment);
    assert_eq!(ffmpeg_source(None, Some(false)), FfmpegSource::SystemPath);
    assert_eq!(ffmpeg_source(Some(false), None), FfmpegSource::SystemPath);
}

#[test]
fn a_metadata_fix_replaces_or_discards_the_copy() {
    assert!(matches!(fix_step(FixEvent::Ran(Ok(()))), FixAction::Replace));
    assert!(matches!(fix_step(FixEvent::Replaced(Ok(()))), FixAction::Done));
    assert!(matches!(
        fix_step(FixEvent::Ran(Err("x".to_string()))),
        FixAction::Discard(error) if error == "x"
    ));
    assert!(matches!(
        fix_step(FixEvent::Replaced(Err("y".to_string()))),
        FixAction::Discard(error) if error == "y"
    ));
}

#[test]
fn a_recording_is_deleted_only_once_it_is_converted() {
    assert!(matches!(convert_step(ConvertEvent::Checked(true)), ConvertAction::Convert));
    assert!(matches!(
        convert_step(ConvertEvent::Checked(false)),
        ConvertAction::Fail(message) if message == "WebM file not found"
    ));
    assert!(matches!(
        convert_step(ConvertEvent::Converted(Ok(()))),
        ConvertAction::RemoveSource
    ));
    assert!(matches!(
        convert_step(ConvertEvent::Converted(Err("x".to_string()))),
        ConvertAction::Fail(message) if message == "x"
    ));
}

fn finished(event: PickedEvent) -> (bool, Option<String>, Option<String>) {
    match picked_step(event) {
        PickedAction::Finish(result) => (result.canceled, result.path, result.error),
        other => panic!("{other:?}"),
    }
}

#[test]
fn a_picked_file_is_checked_and_converted() {
    assert!(matches!(picked_step(PickedEvent::Picked(true)), PickedAction::Check));
    assert!(matches!(picked_step(PickedEvent::Checked(true)), PickedAction::Convert));
    assert_eq!(finished(PickedEvent::Picked(false)), (true, None, None));
    assert_eq!(
        finished(PickedEvent::Checked(false)),
        (false, None, Some("File not found".to_string()))
    );
    assert_eq!(
        finished(PickedEvent::Converted(Ok("a.mp4".to_string()))),
        (false, Some("a.mp4".to_string()), None)
    );
    assert_eq!(
        finished(PickedEvent::Converted(Err("x".to_string()))),
        (false, None, Some("x".to_string()))
    );
}

#[test]
fn the_remembered_folder_counts_while_it_exists() {
    assert_eq!(recordings_dir(Some(true)), RecordingsDir::Remembered);
    assert_eq!(recordings_dir(Some(false)), RecordingsDir::Default);
    assert_eq!(recordings_dir(None), RecordingsDir::Default);
    let settings = Settings::remember("/videos");
    assert_eq!(remembered_dir(Some(settings)), Some("/videos".to_string()));
    assert_eq!(remembered_dir(Some(Settings { recordings_dir: None })), None);
    assert_eq!(remembered_dir(None), None);
}

#[test]
fn picking_a_folder() {
    let result = pick_result(Some("/videos".to_string()));
    assert!(!result.canceled);
    assert_eq!(result.path, Some("/videos".to_string()));
    let result = pick_result(None);
    assert!(result.canceled);
    assert_eq!(result.path, None);
}

#[test]
fn a_picked_folder_is_adopted_only_once_it_exists() {
    assert!(matches!(folder_step(FolderEvent::Picked(true)), FolderAction::Ensure));
    assert!(matches!(
        folder_step(FolderEvent::Picked(false)),
        FolderAction::Finish(result) if result.canceled && result.path.is_none()
    ));
    assert!(matches!(
        folder_step(FolderEvent::Ensured(Err("read-only".to_string()))),
        FolderAction::Fail(message) if message == "read-only"
    ));
    assert!(matches!(
        folder_step(FolderEvent::Ensured(Ok("/videos".to_string()))),
        FolderAction::Adopt(result)
            if !result.canceled && result.path == Some("/videos".to_string())
    ));
}

#[test]
fn failure_messages() {
    assert_eq!(
        failure_message(Failure::CreateFolder, "e"),
        "Cannot create recordings folder: e"
    );
    assert_eq!(failure_message(Failure::CreateFile, "e"), "Cannot create recording file: e");
    assert_eq!(failure_message(Failure::WriteChunk, "e"), "Cannot write recording: e");
    assert_eq!(
        failure_message(Failure::StartFfmpeg, "e"),
        "FFmpeg not found or failed to start: e"
    );
    assert_eq!(failure_message(Failure::AwaitFfmpeg, "e"), "FFmpeg process error: e");
}

/// Runs a metadata fix on a folder in memory; `made` is what ffmpeg leaves as the copy.
fn fix(
    folder: &mut BTreeMap<String, String>,
    made: &str,
    ran: Result<(), String>,
    renames: bool,
) -> Result<(), String> {
    folder.insert("a.genpts.webm".to_string(), made.to_string());
    let mut event = FixEvent::Ran(ran);
    loop {
        event = match fix_step(event) {
            FixAction::Replace => {
                if renames {
                    let copy = folder.remove("a.genpts.webm").unwrap();
                    folder.insert("a.webm".to_string(), copy);
                    FixEvent::Replaced(Ok(()))
                } else {
                    FixEvent::Replaced(Err("in use".to_string()))
                }
            }
            FixAction::Discard(error) => {
                folder.remove("a.genpts.webm");
                return Err(error);
            }
            FixAction::Done => return Ok(()),
        };
    }
}

fn files(entries: &[(&str, &str)]) -> BTreeMap<String, String> {
    entries.iter().map(|(name, content)| (name.to_string(), content.to_string())).collect()
}

#[test]
fn a_metadata_fix_keeps_the_recording() {
    let mut folder = files(&[("a.webm", "old"), ("b.webm", "other")]);
    assert_eq!(fix(&mut folder, "half", Err("exit 1".to_string()), true), Err("exit 1".to_string()));
    assert_eq!(folder, files(&[("a.webm", "old"), ("b.webm", "other")]));
    assert_eq!(fix(&mut folder, "new", Ok(()), false), Err("in use".to_string()));
    assert_eq!(folder, files(&[("a.webm", "old"), ("b.webm", "other")]));
    assert_eq!(fix(&mut folder, "new", Ok(()), true), Ok(()));
    assert_eq!(folder, files(&[("a.webm", "new"), ("b.webm", "other")]));
}

/// Runs a conversion on a folder in memory.
fn convert(folder: &mut BTreeMap<String, String>, ran: Result<(), String>) -> Result<(), String> {
    let mut event = ConvertEvent::Checked(folder.contains_key("a.webm"));
    loop {
        event = match convert_step(event) {
            ConvertAction::Convert => {
                folder.insert("a.mp4".to_string(), "converted".to_string());
                ConvertEvent::Converted(ran.clone())
            }
            ConvertAction::Fail(message) => return Err(message),
            ConvertAction::RemoveSource => {
                folder.remove("a.webm");
                return Ok(());
            }
        };
    }
}

#[test]
fn a_conversion_keeps_the_recording_or_its_conversion() {
    let mut folder = files(&[("a.webm", "old"), ("b.webm", "other")]);
    assert_eq!(convert(&mut folder, Err("exit 1".to_string())), Err("exit 1".to_string()));
    assert_eq!(folder["a.webm"], "old");
    assert_eq!(convert(&mut folder, Ok(())), Ok(()));
    assert_eq!(folder, files(&[("a.mp4", "converted"), ("b.webm", "other")]));
    assert_eq!(convert(&mut folder, Ok(())), Err("WebM file not found".to_string()));
}
