//! The ffmpeg runs: the command line of each, and what follows when it ends.

use vstd::prelude::*;
use vstd::string::*;

verus! {

/// The message for a recording that is not there.
pub const WEBM_NOT_FOUND: &'static str = "WebM file not found";

/// The extension of a converted recording.
pub const MP4_EXTENSION: &'static str = "mp4";

/// The extension of the copy that the metadata fix writes.
pub const FIXED_EXTENSION: &'static str = "genpts.webm";

/// The stage that the progress of a metadata fix is reported under.
pub const FINALIZE_STAGE: &'static str = "finalize";

/// The stage that the progress of a conversion is reported under.
pub const CONVERT_STAGE: &'static str = "convert";

/// One argument of a command line, for contracts.
pub enum ArgView {
    Text(Seq<char>),
    Input,
    Output,
}

/// One argument of a command line. The paths are the caller's, and stand in it untouched.
#[derive(Clone, Copy, Debug)]
pub enum CommandArg {
    Text(&'static str),
    Input,
    Output,
}

impl View for CommandArg {
    type V = ArgView;

    open spec fn view(&self) -> ArgView {
        match self {
            CommandArg::Text(text) => ArgView::Text(text@),
            CommandArg::Input => ArgView::Input,
            CommandArg::Output => ArgView::Output,
        }
    }
}

/// A run of ffmpeg, for contracts.
#[verifier::ext_equal]
pub struct JobView {
    pub input_args: Seq<Seq<char>>,
    pub args: Seq<Seq<char>>,
    pub stage: Option<Seq<char>>,
}

/// A run of ffmpeg. An option applies to the next file on the command line, so the options of
/// the demuxer belong in `input_args`, and those of the encoder and the muxer in `args`.
#[derive(Debug)]
pub struct FfmpegJob {
    pub input_args: Vec<&'static str>,
    pub args: Vec<&'static str>,
    /// The stage that progress is reported under; without one the run is silent.
    pub stage: Option<&'static str>,
}

impl View for FfmpegJob {
    type V = JobView;

    open spec fn view(&self) -> JobView {
        JobView {
            input_args: self.input_args.deep_view(),
            args: self.args.deep_view(),
            stage: self.stage.deep_view(),
        }
    }
}

/// The demuxer options of every run: the recorder writes no durations, so missing time stamps
/// are filled in while the input is read.
pub open spec fn genpts_args() -> Seq<Seq<char>> {
    seq!["-fflags"@, "+genpts"@]
}

/// The options of a conversion: H.264 at sixty frames a second, a keyframe every two seconds,
/// and the index at the front of the file.
pub open spec fn mp4_args() -> Seq<Seq<char>> {
    seq![
        "-c:v"@,
        "libx264"@,
        "-preset"@,
        "fast"@,
        "-crf"@,
        "23"@,
        "-g"@,
        "120"@,
        "-keyint_min"@,
        "120"@,
        "-sc_threshold"@,
        "0"@,
        "-vsync"@,
        "cfr"@,
        "-r"@,
        "60"@,
        "-pix_fmt"@,
        "yuv420p"@,
        "-movflags"@,
        "+faststart"@,
        "-c:a"@,
        "aac"@,
        "-b:a"@,
        "128k"@,
    ]
}

/// The run that converts a recording to MP4, silent or with progress.
pub fn convert_to_mp4(emit_progress: bool) -> (job: FfmpegJob)
    ensures
        job@ == (JobView {
            input_args: genpts_args(),
            args: mp4_args(),
            stage: if emit_progress {
                Some(CONVERT_STAGE@)
            } else {
                None
            },
        }),
{
    let input_args = vec!["-fflags", "+genpts"];
    let args = vec![
        "-c:v", "libx264",
        "-preset", "fast",
        "-crf", "23",
        "-g", "120",
        "-keyint_min", "120",
        "-sc_threshold", "0",
        "-vsync", "cfr",
        "-r", "60",
        "-pix_fmt", "yuv420p",
        "-movflags", "+faststart",
        "-c:a", "aac",
        "-b:a", "128k",
    ];
    let stage = if emit_progress {
        Some(CONVERT_STAGE)
    } else {
        None
    };
    assert(input_args.deep_view() =~= genpts_args());
    assert(args.deep_view() =~= mp4_args());
    FfmpegJob { input_args, args, stage }
}

/// The run that regenerates the time stamps of a recording without encoding it again, where the
/// recording exists. It writes a copy beside the recording.
pub fn fix_webm_metadata(exists: bool) -> (job: Result<FfmpegJob, String>)
    ensures
        match job {
            Ok(job) => exists && job@ == (JobView {
                input_args: genpts_args(),
                args: seq!["-c"@, "copy"@],
                stage: Some(FINALIZE_STAGE@),
            }),
            Err(message) => !exists && message@ == WEBM_NOT_FOUND@,
        },
{
    if !exists {
        return Err(WEBM_NOT_FOUND.to_owned());
    }
    let input_args = vec!["-fflags", "+genpts"];
    let args = vec!["-c", "copy"];
    assert(input_args.deep_view() =~= genpts_args());
    assert(args.deep_view() =~= seq!["-c"@, "copy"@]);
    Ok(FfmpegJob { input_args, args, stage: Some(FINALIZE_STAGE) })
}

/// A command line, for contracts.
pub open spec fn arg_views(line: Seq<CommandArg>) -> Seq<ArgView> {
    Seq::new(line.len(), |i: int| line[i]@)
}

/// Arguments that stand for themselves.
pub open spec fn texts(args: Seq<Seq<char>>) -> Seq<ArgView> {
    Seq::new(args.len(), |i: int| ArgView::Text(args[i]))
}

impl JobView {
    /// The command line: the demuxer options, the input, the other options, the output, which is
    /// overwritten.
    pub open spec fn command_line(self) -> Seq<ArgView> {
        texts(self.input_args) + seq![ArgView::Text("-i"@), ArgView::Input] + texts(self.args)
            + seq![ArgView::Text("-y"@), ArgView::Output]
    }
}

/// Adds arguments that stand for themselves.
fn push_texts(line: &mut Vec<CommandArg>, args: &Vec<&'static str>)
    ensures
        arg_views(final(line)@) == arg_views(old(line)@) + texts(args.deep_view()),
{
    let mut i: usize = 0;
    while i < args.len()
        invariant
            i <= args.len(),
            arg_views(line@) =~= arg_views(old(line)@) + texts(args.deep_view().take(i as int)),
        decreases args.len() - i,
    {
        let ghost before = line@;
        line.push(CommandArg::Text(args[i]));
        i = i + 1;
        assert(arg_views(line@) =~= arg_views(before).push(
            ArgView::Text(args.deep_view()[i - 1]),
        ));
    }
    assert(args.deep_view().take(i as int) =~= args.deep_view());
}

/// The progress of a run, as it is told.
#[derive(Debug)]
pub struct ConvertProgress {
    pub file_name: String,
    pub percent: u32,
    /// What is going on: the metadata fix or the conversion.
    pub stage: String,
}

impl FfmpegJob {
    /// The command line of the run.
    pub fn command_line(&self) -> (line: Vec<CommandArg>)
        ensures
            arg_views(line@) == self@.command_line(),
            line.len() == self.input_args.len() + self.args.len() + 4,
            forall|k: int|
                0 <= k < self.input_args.len() ==> (#[trigger] line[k] matches CommandArg::Text(t)
                    && t@ == self.input_args[k]@),
            line[self.input_args.len() as int] matches CommandArg::Text(t) && t@ == "-i"@,
            line[self.input_args.len() + 1] is Input,
            forall|k: int|
                self.input_args.len() + 2 <= k < line.len() - 2 ==> (
                #[trigger] line[k] matches CommandArg::Text(t) && t@ == self.args[k
                    - self.input_args.len() - 2]@),
            line[line.len() - 2] matches CommandArg::Text(t) && t@ == "-y"@,
            line[line.len() - 1] is Output,
    {
        let mut line: Vec<CommandArg> = Vec::new();
        push_texts(&mut line, &self.input_args);
        line.push(CommandArg::Text("-i"));
        line.push(CommandArg::Input);
        let ghost head = arg_views(line@);
        assert(head =~= texts(self@.input_args) + seq![ArgView::Text("-i"@), ArgView::Input]);
        push_texts(&mut line, &self.args);
        let ghost body = arg_views(line@);
        line.push(CommandArg::Text("-y"));
        line.push(CommandArg::Output);
        assert(arg_views(line@) =~= body + seq![
            ArgView::Text("-y"@),
            ArgView::Output,
        ]);
        proof {
            let views = arg_views(line@);
            let input = self.input_args.len() + 1;
            assert(views =~= self@.command_line());
            assert(views[input - 1] == ArgView::Text("-i"@) && views[input] == ArgView::Input);
            assert(line[input - 1]@ == views[input - 1] && line[input]@ == views[input]);
            assert forall|k: int| 0 <= k < self.input_args.len() implies (
            #[trigger] line[k])@ == ArgView::Text(self.input_args[k]@) by {
                assert(views[k] == line[k]@ && views[k] == texts(self@.input_args)[k]);
            }
            assert forall|k: int| input < k < line.len() - 2 implies (
            #[trigger] line[k])@ == ArgView::Text(self.args[k - input - 1]@) by {
                assert(views[k] == line[k]@ && views[k] == texts(self@.args)[k - input - 1]);
            }
        }
        line
    }

    /// What to tell of the progress of the run on the file `file_name`: nothing where the run is
    /// silent.
    pub fn progress(&self, file_name: &str, percent: u32) -> (event: Option<ConvertProgress>)
        ensures
            match event {
                Some(event) => {
                    &&& event.file_name@ == file_name@
                    &&& event.percent == percent
                    &&& self@.stage == Some(event.stage@)
                },
                None => self@.stage is None,
            },
    {
        match self.stage {
            Some(stage) => Some(
                ConvertProgress {
                    file_name: file_name.to_owned(),
                    percent,
                    stage: stage.to_owned(),
                },
            ),
            None => None,
        }
    }
}

/// Law: what the contracts say of a run is what the run holds.
pub proof fn law_job_is_seen_as_it_is(job: FfmpegJob)
    ensures
        job@.input_args.len() == job.input_args.len(),
        forall|k: int|
            0 <= k < job.input_args.len() ==> job@.input_args[k] == #[trigger] job.input_args[k]@,
        job@.args.len() == job.args.len(),
        forall|k: int| 0 <= k < job.args.len() ==> job@.args[k] == #[trigger] job.args[k]@,
        job.stage is None <==> job@.stage is None,
        job.stage matches Some(stage) ==> job@.stage == Some(stage@),
{
}

/// Law: the input stands on the command line once, right behind `-i`, with every demuxer option
/// before it and every other option between it and the output; and the output stands last.
pub proof fn law_options_stand_before_their_file(job: JobView)
    ensures
        ({
            let line = job.command_line();
            let input = job.input_args.len() as int + 1;
            &&& line.len() == job.input_args.len() + job.args.len() + 4
            &&& line[input - 1] == ArgView::Text("-i"@)
            &&& forall|k: int|
                0 <= k < line.len() ==> (#[trigger] line[k] == ArgView::Input <==> k == input)
            &&& forall|k: int|
                0 <= k < line.len() ==> (#[trigger] line[k] == ArgView::Output <==> k == line.len()
                    - 1)
            &&& line.take(input - 1) == texts(job.input_args)
            &&& line.subrange(input + 1, line.len() - 2) == texts(job.args)
        }),
{
    let line = job.command_line();
    let input = job.input_args.len() as int + 1;
    assert(line.take(input - 1) =~= texts(job.input_args));
    assert(line.subrange(input + 1, line.len() - 2) =~= texts(job.args));
}

/// Where ffmpeg is taken from.
#[derive(Clone, Copy, Debug, PartialEq, Eq, Structural)]
pub enum FfmpegSource {
    /// The program that comes with the application.
    Bundled,
    /// The program that the environment names.
    Environment,
    /// Whatever the system finds under the plain name.
    SystemPath,
}

/// Where to take ffmpeg from: the first place that names a program that exists. For the bundle
/// and for the environment, `None` says that it names none, and the flag whether what it names
/// exists.
pub fn ffmpeg_source(bundled: Option<bool>, environment: Option<bool>) -> (source: FfmpegSource)
    ensures
        source == if bundled == Some(true) {
            FfmpegSource::Bundled
        } else if environment == Some(true) {
            FfmpegSource::Environment
        } else {
            FfmpegSource::SystemPath
        },
{
    match (bundled, environment) {
        (Some(true), _) => FfmpegSource::Bundled,
        (_, Some(true)) => FfmpegSource::Environment,
        _ => FfmpegSource::SystemPath,
    }
}

/// What happened to the copy with regenerated time stamps.
#[derive(Debug)]
pub enum FixEvent {
    /// The run that writes it ended.
    Ran(Result<(), String>),
    /// It was renamed over the recording, or that failed.
    Replaced(Result<(), String>),
}

/// What to do next with the copy.
#[derive(Debug)]
pub enum FixAction {
    /// Rename it over the recording. The recording is not deleted first, so that a failure
    /// leaves it readable under its own name.
    Replace,
    /// Delete it, and pass the error on.
    Discard(String),
    /// The recording has its time stamps.
    Done,
}

/// What follows in a metadata fix.
pub open spec fn fix_action(event: FixEvent) -> FixAction {
    match event {
        FixEvent::Ran(Ok(())) => FixAction::Replace,
        FixEvent::Replaced(Ok(())) => FixAction::Done,
        FixEvent::Ran(Err(error)) | FixEvent::Replaced(Err(error)) => FixAction::Discard(error),
    }
}

/// What follows in a metadata fix.
pub fn fix_step(event: FixEvent) -> (action: FixAction)
    ensures
        action == fix_action(event),
{
    match event {
        FixEvent::Ran(Ok(())) => FixAction::Replace,
        FixEvent::Replaced(Ok(())) => FixAction::Done,
        FixEvent::Ran(Err(error)) | FixEvent::Replaced(Err(error)) => FixAction::Discard(error),
    }
}

/// Law: a metadata fix is done exactly where both steps succeeded. Where one failed the copy is
/// discarded, and the error that is passed on is the one of that step.
pub proof fn law_fix_passes_its_error_on(step: Result<(), String>)
    ensures
        step is Ok ==> fix_action(FixEvent::Ran(step)) is Replace,
        step is Ok ==> fix_action(FixEvent::Replaced(step)) is Done,
        step matches Err(error) ==> {
            &&& fix_action(FixEvent::Ran(step)) == FixAction::Discard(error)
            &&& fix_action(FixEvent::Replaced(step)) == FixAction::Discard(error)
        },
{
}

/// What happened to a recording that is to be converted.
#[derive(Debug)]
pub enum ConvertEvent {
    /// Whether it exists.
    Checked(bool),
    /// The conversion ended.
    Converted(Result<(), String>),
}

/// What to do next with the recording.
#[derive(Debug)]
pub enum ConvertAction {
    /// Convert it.
    Convert,
    /// Keep it, and pass the error on.
    Fail(String),
    /// Delete it: the converted file takes its place.
    RemoveSource,
}

/// Whether `action` is what follows on `event` in the conversion of a recording.
pub open spec fn convert_follows(event: ConvertEvent, action: ConvertAction) -> bool {
    match event {
        ConvertEvent::Checked(true) => action is Convert,
        ConvertEvent::Checked(false) => action matches ConvertAction::Fail(message) && message@
            == WEBM_NOT_FOUND@,
        ConvertEvent::Converted(Ok(())) => action is RemoveSource,
        ConvertEvent::Converted(Err(error)) => action == ConvertAction::Fail(error),
    }
}

/// Law: a recording is converted exactly where it exists, and deleted exactly where its conversion
/// succeeded. An error is that of the conversion, or says that the recording is not there.
pub proof fn law_conversion_deletes_only_what_it_converted(
    event: ConvertEvent,
    action: ConvertAction,
)
    requires
        convert_follows(event, action),
    ensures
        action is Convert <==> event == ConvertEvent::Checked(true),
        action is RemoveSource <==> (event matches ConvertEvent::Converted(ended) && ended is Ok),
        action matches ConvertAction::Fail(message) ==> match event {
            ConvertEvent::Checked(_) => message@ == "WebM file not found"@,
            ConvertEvent::Converted(ended) => ended == Err::<(), String>(message),
        },
{
}

/// What follows in the conversion of a recording. It is deleted only once it is converted.
pub fn convert_step(event: ConvertEvent) -> (action: ConvertAction)
    ensures
        convert_follows(event, action),
{
    match event {
        ConvertEvent::Checked(exists) => if exists {
            ConvertAction::Convert
        } else {
            ConvertAction::Fail(WEBM_NOT_FOUND.to_owned())
        },
        ConvertEvent::Converted(Ok(())) => ConvertAction::RemoveSource,
        ConvertEvent::Converted(Err(error)) => ConvertAction::Fail(error),
    }
}

/// The message for a picked file that is not there.
pub const FILE_NOT_FOUND: &'static str = "File not found";

/// How the conversion of a picked file went.
#[derive(Debug)]
pub struct ConvertFileResult {
    pub canceled: bool,
    pub path: Option<String>,
    pub error: Option<String>,
}

/// What happened to a file that the user is to pick and have converted.
#[derive(Debug)]
pub enum PickedEvent {
    /// Whether the user picked one.
    Picked(bool),
    /// Whether it exists.
    Checked(bool),
    /// The conversion ended, with the path of the converted file or with an error.
    Converted(Result<String, String>),
}

/// What to do next with the picked file, which stays in any case.
#[derive(Debug)]
pub enum PickedAction {
    /// See whether it exists.
    Check,
    /// Convert it.
    Convert,
    /// Tell the user how it went.
    Finish(ConvertFileResult),
}

/// What follows in the conversion of a picked file.
pub fn picked_step(event: PickedEvent) -> (action: PickedAction)
    ensures
        match event {
            PickedEvent::Picked(true) => action is Check,
            PickedEvent::Picked(false) => action == PickedAction::Finish(
                (ConvertFileResult { canceled: true, path: None, error: None }),
            ),
            PickedEvent::Checked(true) => action is Convert,
            PickedEvent::Checked(false) => {
                &&& action matches PickedAction::Finish(result)
                &&& !result.canceled
                &&& result.path is None
                &&& result.error.deep_view() == Some(FILE_NOT_FOUND@)
            },
            PickedEvent::Converted(Ok(path)) => action == PickedAction::Finish(
                (ConvertFileResult { canceled: false, path: Some(path), error: None }),
            ),
            PickedEvent::Converted(Err(error)) => action == PickedAction::Finish(
                (ConvertFileResult { canceled: false, path: None, error: Some(error) }),
            ),
        },
{
    match event {
        PickedEvent::Picked(picked) => if picked {
            PickedAction::Check
        } else {
            PickedAction::Finish(ConvertFileResult { canceled: true, path: None, error: None })
        },
        PickedEvent::Checked(exists) => if exists {
            PickedAction::Convert
        } else {
            PickedAction::Finish(
                ConvertFileResult {
                    canceled: false,
                    path: None,
                    error: Some(FILE_NOT_FOUND.to_owned()),
                },
            )
        },
        PickedEvent::Converted(Ok(path)) => PickedAction::Finish(
            ConvertFileResult { canceled: false, path: Some(path), error: None },
        ),
        PickedEvent::Converted(Err(error)) => PickedAction::Finish(
            ConvertFileResult { canceled: false, path: None, error: Some(error) },
        ),
    }
}

} // verus!
