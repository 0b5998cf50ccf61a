//! Following one ffmpeg run through the text it writes to its log.

use crate::clock::{
    all_matches, compiled, first_header_decides, header_reading, newest_is_in_tail,
    law_reading_in_thousandths, newest_line_decides, newest_reading, ClockReading, LogScanner,
    TIME_PATTERN,
};
use crate::text::{
    decode_lossy, keep_tail, last_chars, lemma_tail_within, lemma_utf8_len_bound,
    push_signed_decimal, signed_decimal, tail_within, take_last_chars, utf8_len, utf8_lossy,
};
use vstd::prelude::*;
use vstd::string::*;

verus! {

/// The most log text, in bytes, that is kept once a total is known.
pub const KNOWN_TOTAL_CAP: usize = 8192;

/// The most log text, in bytes, that is kept while no total is known, so that a late header is
/// still found whole.
pub const UNKNOWN_TOTAL_CAP: usize = 262_144;

/// How many characters of the log a failure message quotes.
pub const FAILURE_TAIL: usize = 500;

/// The highest percentage of a running conversion.
pub const RUNNING_LIMIT: u32 = 99;

/// The percentage of a conversion that has succeeded.
pub const DONE: u32 = 100;

/// What progress is measured against.
#[derive(Clone, Copy, Debug, PartialEq, Eq, Structural)]
pub enum Total {
    /// The length in the input's header.
    Header(ClockReading),
    /// The caller's estimate of the length.
    Estimate,
    /// Neither is known, or what is known is zero.
    Unknown,
}

/// A position in the input and the total to measure it against.
#[derive(Clone, Copy, Debug, PartialEq, Eq, Structural)]
pub struct Measurement {
    pub current: ClockReading,
    pub total: Total,
}

/// What is known of a run: the log text that is kept, the length in the header once it was
/// seen, and the percentage that was reported last.
pub struct LogView {
    pub text: Seq<char>,
    pub duration: Option<ClockReading>,
    pub last_percent: Option<u32>,
}

/// What progress is measured against: the header where there is one, else the caller's
/// estimate, `estimate` saying whether there is one above zero. A header of zero length counts
/// as no total, estimate or not.
pub open spec fn total_of(duration: Option<ClockReading>, estimate: bool) -> Total {
    match duration {
        Some(length) => if length.spec_millis() > 0 {
            Total::Header(length)
        } else {
            Total::Unknown
        },
        None => if estimate {
            Total::Estimate
        } else {
            Total::Unknown
        },
    }
}

/// How many bytes of the log may be kept.
pub open spec fn cap_of(total: Total) -> nat {
    if total == Total::Unknown {
        UNKNOWN_TOTAL_CAP as nat
    } else {
        KNOWN_TOTAL_CAP as nat
    }
}

/// The log text that is kept of `text`: all of it up to the cap, past it a tail of half the cap.
pub open spec fn kept_text(text: Seq<char>, total: Total) -> Seq<char> {
    if utf8_len(text) > cap_of(total) {
        tail_within(text, cap_of(total) / 2)
    } else {
        text
    }
}

/// The percentage to report for a quotient that rounds to `rounded` percent.
pub open spec fn capped(rounded: u64) -> u32 {
    if rounded < RUNNING_LIMIT {
        rounded as u32
    } else {
        RUNNING_LIMIT
    }
}

impl LogView {
    /// The header's length after a look at the log that found `header`. The first one found
    /// stays.
    pub open spec fn settled_duration(self, header: Option<ClockReading>) -> Option<ClockReading> {
        if self.duration is Some {
            self.duration
        } else {
            header
        }
    }

    /// The state after a look at the log that found `header`.
    pub open spec fn settled(self, header: Option<ClockReading>, estimate: bool) -> LogView {
        LogView {
            text: kept_text(self.text, total_of(self.settled_duration(header), estimate)),
            duration: self.settled_duration(header),
            last_percent: self.last_percent,
        }
    }

    /// What there is to measure after a look at the log that found `header` and `newest`.
    pub open spec fn measurement(
        self,
        header: Option<ClockReading>,
        newest: Option<ClockReading>,
        reporting: bool,
        estimate: bool,
    ) -> Option<Measurement> {
        let total = total_of(self.settled_duration(header), estimate);
        if reporting && total != Total::Unknown && newest is Some {
            Some(Measurement { current: newest->0, total })
        } else {
            None
        }
    }

    /// The state with `bytes` read behind the log.
    pub open spec fn read(self, bytes: Seq<u8>) -> LogView {
        LogView { text: self.text + utf8_lossy(bytes), ..self }
    }

    /// The state after a quotient that rounds to `rounded` percent.
    pub open spec fn reported(self, rounded: u64) -> LogView {
        LogView { last_percent: Some(capped(rounded)), ..self }
    }

    /// The percentage to report for a quotient that rounds to `rounded` percent, `None` where it
    /// is the one reported last.
    pub open spec fn report(self, rounded: u64) -> Option<u32> {
        if self.last_percent == Some(capped(rounded)) {
            None
        } else {
            Some(capped(rounded))
        }
    }
}

/// The message for a run that ended with exit code `code`, or without one, and left `log`.
pub open spec fn failure_text(code: Option<i32>, log: Seq<char>) -> Seq<char> {
    "FFmpeg failed (exit "@ + match code {
        Some(c) => signed_decimal(c as int),
        None => "?"@,
    } + "): "@ + if log.len() == 0 {
        "Unknown error"@
    } else {
        last_chars(log, FAILURE_TAIL as nat)
    }
}

/// One run of ffmpeg, as far as its log has been read.
pub struct FfmpegLog {
    text: String,
    duration: Option<ClockReading>,
    last_percent: Option<u32>,
}

impl View for FfmpegLog {
    type V = LogView;

    closed spec fn view(&self) -> LogView {
        LogView { text: self.text@, duration: self.duration, last_percent: self.last_percent }
    }
}

impl FfmpegLog {
    /// The header's length is a reading.
    pub open spec fn wf(&self) -> bool {
        self@.duration matches Some(length) ==> length.wf()
    }

    /// A run of which nothing has been read.
    pub fn new() -> (log: FfmpegLog)
        ensures
            log.wf(),
            log@ == (LogView { text: Seq::empty(), duration: None, last_percent: None }),
    {
        FfmpegLog { text: String::new(), duration: None, last_percent: None }
    }

    /// The log text that is kept.
    pub fn text(&self) -> (text: &str)
        ensures
            text@ == self@.text,
    {
        self.text.as_str()
    }

    /// What to measure against, and how much to keep, once the header's length is settled.
    fn total(duration: Option<ClockReading>, estimate: bool) -> (total: Total)
        requires
            duration matches Some(length) ==> length.wf(),
        ensures
            total == total_of(duration, estimate),
    {
        match duration {
            Some(length) => if length.millis() > 0 {
                Total::Header(length)
            } else {
                Total::Unknown
            },
            None => if estimate {
                Total::Estimate
            } else {
                Total::Unknown
            },
        }
    }

    /// Takes in what a look at the log found, says what there is to measure, and cuts the log
    /// back. `reporting` says whether anyone is told of the progress, `estimate` whether the
    /// caller gave a length above zero.
    pub fn settle(
        &mut self,
        header: Option<ClockReading>,
        newest: Option<ClockReading>,
        reporting: bool,
        estimate: bool,
    ) -> (found: Option<Measurement>)
        requires
            old(self).wf(),
            header matches Some(length) ==> length.wf(),
        ensures
            final(self).wf(),
            final(self)@ == old(self)@.settled(header, estimate),
            found == old(self)@.measurement(header, newest, reporting, estimate),
    {
        if self.duration.is_none() {
            self.duration = header;
        }
        let total = FfmpegLog::total(self.duration, estimate);
        let known = match total {
            Total::Unknown => false,
            _ => true,
        };
        let found = match newest {
            Some(current) => if reporting && known {
                Some(Measurement { current, total })
            } else {
                None
            },
            None => None,
        };
        let cap: usize = if known {
            KNOWN_TOTAL_CAP
        } else {
            UNKNOWN_TOTAL_CAP
        };
        if self.text.as_str().as_bytes().len() > cap {
            keep_tail(&mut self.text, cap / 2);
        }
        found
    }

    /// Reads `bytes` behind the log, looks for the header and the newest status line, says what
    /// there is to measure, and cuts the log back. The looks come first, so the cut loses no
    /// line that they have not seen. The first header and the newest line count; and where there
    /// is someone to tell and a total, nothing is measured only while there is no status line.
    pub fn absorb(
        &mut self,
        scanner: &LogScanner,
        bytes: &[u8],
        reporting: bool,
        estimate: bool,
    ) -> (found: Option<Measurement>)
        requires
            old(self).wf(),
        ensures
            final(self).wf(),
            ({
                let read = old(self)@.read(bytes@);
                let header = header_reading(read.text);
                &&& final(self)@ == read.settled(header, estimate)
                &&& found == read.measurement(
                    header,
                    newest_reading(read.text),
                    reporting,
                    estimate,
                )
                &&& old(self)@.duration is None ==> first_header_decides(
                    read.text,
                    final(self)@.duration,
                )
                &&& found matches Some(m) ==> {
                    &&& newest_line_decides(read.text, Some(m.current))
                    &&& newest_is_in_tail(read.text, Some(m.current))
                }
                &&& reporting && total_of(final(self)@.duration, estimate) != Total::Unknown ==> {
                    compiled(TIME_PATTERN@) matches Some(re) ==> (found is None <==> all_matches(
                        re,
                        read.text,
                    ).len() == 0)
                }
            }),
    {
        let piece = decode_lossy(bytes);
        self.text.append(piece.as_str());
        let header = match self.duration {
            Some(length) => Some(length),
            None => scanner.header_duration(self.text.as_str()),
        };
        let newest = match FfmpegLog::total(header, estimate) {
            Total::Unknown => None,
            _ => if reporting {
                scanner.newest_status(self.text.as_str())
            } else {
                None
            },
        };
        self.settle(header, newest, reporting, estimate)
    }

    /// The percentage to report for a quotient of position and total that rounds to `rounded`
    /// percent, `None` where it was reported last.
    pub fn report(&mut self, rounded: u64) -> (percent: Option<u32>)
        requires
            old(self).wf(),
        ensures
            final(self).wf(),
            final(self)@ == old(self)@.reported(rounded),
            percent == old(self)@.report(rounded),
    {
        let percent: u32 = if rounded < RUNNING_LIMIT as u64 {
            rounded as u32
        } else {
            RUNNING_LIMIT
        };
        let repeated = match self.last_percent {
            Some(last) => last == percent,
            None => false,
        };
        self.last_percent = Some(percent);
        if repeated {
            None
        } else {
            Some(percent)
        }
    }

    /// How the run ended: the percentage of a finished conversion, or the message of a failed
    /// one with the end of the log.
    pub fn outcome(&self, success: bool, code: Option<i32>) -> (outcome: Result<u32, String>)
        ensures
            match outcome {
                Ok(percent) => success && percent == DONE,
                Err(message) => !success && message@ == failure_text(code, self@.text),
            },
    {
        if success {
            return Ok(DONE);
        }
        let mut message = "FFmpeg failed (exit ".to_owned();
        match code {
            Some(c) => push_signed_decimal(&mut message, c),
            None => message.append("?"),
        }
        message.append("): ");
        if self.text.as_str().is_empty() {
            message.append("Unknown error");
        } else {
            let tail = take_last_chars(self.text.as_str(), FAILURE_TAIL);
            message.append(tail.as_str());
        }
        Err(message)
    }
}

/// One step of a run.
pub enum RunStep {
    /// Bytes are read.
    Read(Seq<u8>),
    /// A look at the log found this header, with or without an estimate of the length.
    Look(Option<ClockReading>, bool),
    /// A quotient rounds to this many percent.
    Measure(u64),
}

impl LogView {
    /// The state after `step`.
    pub open spec fn after(self, step: RunStep) -> LogView {
        match step {
            RunStep::Read(bytes) => self.read(bytes),
            RunStep::Look(header, estimate) => self.settled(header, estimate),
            RunStep::Measure(rounded) => self.reported(rounded),
        }
    }
}

/// The percentages that a run reports, from the state `log` on.
pub open spec fn reports(log: LogView, steps: Seq<RunStep>) -> Seq<u32>
    decreases steps.len(),
{
    if steps.len() == 0 {
        Seq::empty()
    } else {
        let rest = reports(log.after(steps[0]), steps.drop_first());
        match steps[0] {
            RunStep::Measure(rounded) => match log.report(rounded) {
                Some(percent) => seq![percent] + rest,
                None => rest,
            },
            _ => rest,
        }
    }
}

/// Law: while a conversion runs, no percentage above ninety-nine is reported, and none is
/// reported twice in a row, whatever is read in between. A hundred is left to
/// `FfmpegLog::outcome`, which gives it for a successful run only.
pub proof fn law_running_reports(log: LogView, steps: Seq<RunStep>)
    ensures
        forall|i: int|
            0 <= i < reports(log, steps).len() ==> #[trigger] reports(log, steps)[i] < DONE,
        forall|i: int, j: int|
            0 <= i && j == i + 1 && j < reports(log, steps).len() ==> #[trigger] reports(
                log,
                steps,
            )[i] != #[trigger] reports(log, steps)[j],
        reports(log, steps).len() > 0 ==> log.last_percent != Some(reports(log, steps)[0]),
    decreases steps.len(),
{
    if steps.len() > 0 {
        law_running_reports(log.after(steps[0]), steps.drop_first());
    }
}

/// Law: what is kept of the log is bounded, by the smaller cap as soon as a total is known. A
/// cut keeps the newest text, and of it half the cap but for one character.
pub proof fn law_log_stays_bounded(log: LogView, header: Option<ClockReading>, estimate: bool)
    ensures
        ({
            let total = total_of(log.settled_duration(header), estimate);
            let kept = log.settled(header, estimate).text;
            &&& utf8_len(kept) <= cap_of(total)
            &&& utf8_len(kept) <= 262_144
            &&& total != Total::Unknown ==> utf8_len(kept) <= 8192
            &&& kept.is_suffix_of(log.text)
            &&& kept != log.text ==> utf8_len(kept) + 4 > cap_of(total) / 2
            &&& kept != log.text && total != Total::Unknown ==> utf8_len(log.text) > 8192
                && utf8_len(kept) <= 4096 < utf8_len(kept) + 4
            &&& kept != log.text && total == Total::Unknown ==> utf8_len(log.text) > 262_144
                && utf8_len(kept) <= 131_072 < utf8_len(kept) + 4
        }),
{
    let total = total_of(log.settled_duration(header), estimate);
    lemma_tail_within(log.text, cap_of(total) / 2);
    assert(log.text.skip(0) =~= log.text);
}

/// The state after a row of steps.
pub open spec fn run(log: LogView, steps: Seq<RunStep>) -> LogView
    decreases steps.len(),
{
    if steps.len() == 0 {
        log
    } else {
        run(log, steps.drop_last()).after(steps.last())
    }
}

/// All that a run has written to its log.
pub open spec fn whole_log(steps: Seq<RunStep>) -> Seq<char>
    decreases steps.len(),
{
    if steps.len() == 0 {
        Seq::empty()
    } else {
        match steps.last() {
            RunStep::Read(bytes) => whole_log(steps.drop_last()) + utf8_lossy(bytes),
            _ => whole_log(steps.drop_last()),
        }
    }
}

/// Whether `kept` is the end of `whole`, and long enough for a failure message.
spec fn quotable(kept: Seq<char>, whole: Seq<char>) -> bool {
    &&& kept.is_suffix_of(whole)
    &&& kept == whole || kept.len() >= FAILURE_TAIL
}

/// A step keeps enough of the log for a failure message.
proof fn lemma_step_stays_quotable(log: LogView, whole: Seq<char>, step: RunStep)
    requires
        quotable(log.text, whole),
    ensures
        quotable(
            log.after(step).text,
            match step {
                RunStep::Read(bytes) => whole + utf8_lossy(bytes),
                _ => whole,
            },
        ),
{
    let kept = log.after(step).text;
    match step {
        RunStep::Read(bytes) => {
            let now = whole + utf8_lossy(bytes);
            assert(kept =~= now.skip(now.len() - kept.len()));
        },
        RunStep::Look(header, estimate) => {
            law_log_stays_bounded(log, header, estimate);
            lemma_utf8_len_bound(kept);
            assert(log.text == whole.skip(whole.len() - log.text.len()));
            assert(kept =~= whole.skip(whole.len() - kept.len()));
        },
        RunStep::Measure(_) => {},
    }
}

/// The log of a run stays quotable.
proof fn lemma_run_stays_quotable(steps: Seq<RunStep>)
    ensures
        quotable(
            run(LogView { text: Seq::empty(), duration: None, last_percent: None }, steps).text,
            whole_log(steps),
        ),
    decreases steps.len(),
{
    let start = LogView { text: Seq::empty(), duration: None, last_percent: None };
    if steps.len() > 0 {
        lemma_run_stays_quotable(steps.drop_last());
        lemma_step_stays_quotable(
            run(start, steps.drop_last()),
            whole_log(steps.drop_last()),
            steps.last(),
        );
    } else {
        assert(Seq::<char>::empty().skip(0) =~= Seq::<char>::empty());
    }
}

/// Law: a failure message quotes the end of all that the run has written, however the log was
/// read and cut back on the way.
pub proof fn law_failure_quotes_whole_log(steps: Seq<RunStep>, code: Option<i32>)
    ensures
        failure_text(
            code,
            run(LogView { text: Seq::empty(), duration: None, last_percent: None }, steps).text,
        ) == failure_text(code, whole_log(steps)),
{
    let kept = run(
        LogView { text: Seq::empty(), duration: None, last_percent: None },
        steps,
    ).text;
    let whole = whole_log(steps);
    lemma_run_stays_quotable(steps);
    assert(kept == whole.skip(whole.len() - kept.len()));
    assert(last_chars(kept, FAILURE_TAIL as nat) =~= last_chars(whole, FAILURE_TAIL as nat));
}

/// Law: cutting the log back never changes what a later look reads. However the log was read and
/// cut back on the way, where what is kept holds a position, the newest one in it is the newest
/// one in all that the run has written.
pub proof fn law_looks_read_whole_log(steps: Seq<RunStep>, of_whole: Option<ClockReading>)
    requires
        newest_is_in_tail(whole_log(steps), of_whole),
        newest_reading(
            run(LogView { text: Seq::empty(), duration: None, last_percent: None }, steps).text,
        ) is Some,
    ensures
        newest_reading(
            run(LogView { text: Seq::empty(), duration: None, last_percent: None }, steps).text,
        ) == of_whole,
{
    let kept = run(
        LogView { text: Seq::empty(), duration: None, last_percent: None },
        steps,
    ).text;
    let whole = whole_log(steps);
    lemma_run_stays_quotable(steps);
    assert(whole =~= whole.take(whole.len() - kept.len()) + kept);
}

/// Law: a header that shows any time at all is what progress is measured against, with or without
/// an estimate; a header of nothing but zeros leaves no total; and without a header the estimate
/// is the total where there is one.
pub proof fn law_header_is_the_total(length: ClockReading, estimate: bool)
    requires
        length.wf(),
    ensures
        length.hours > 0 || length.minutes > 0 || length.seconds > 0 || length.fraction > 0
            ==> total_of(Some(length), estimate) == Total::Header(length),
        length.hours == 0 && length.minutes == 0 && length.seconds == 0 && length.fraction == 0
            ==> total_of(Some(length), estimate) == Total::Unknown,
        estimate ==> total_of(None, estimate) == Total::Estimate,
        !estimate ==> total_of(None, estimate) == Total::Unknown,
{
    law_reading_in_thousandths(length);
}

/// Law: with someone to tell, a header that shows any time at all and a status line, now or in an
/// earlier look, always give something to measure: the position in the status line against the
/// length in the header, whatever else was found or estimated.
pub proof fn law_header_and_status_line_are_measured(
    log: LogView,
    header: Option<ClockReading>,
    length: ClockReading,
    current: ClockReading,
    estimate: bool,
)
    requires
        length.wf(),
        length.hours > 0 || length.minutes > 0 || length.seconds > 0 || length.fraction > 0,
        log.duration == Some(length) || log.duration is None && header == Some(length),
    ensures
        log.measurement(header, Some(current), true, estimate) == Some(
            Measurement { current, total: Total::Header(length) },
        ),
        log.measurement(header, Some(current), false, estimate) is None,
        log.measurement(header, None, true, estimate) is None,
        log.settled(header, estimate).duration == Some(length),
{
    law_header_is_the_total(length, estimate);
}

/// Law: there is something to measure exactly where there is someone to tell, a total and a status
/// line; it is the position in that line, against that total. A look takes its header only where
/// no earlier one was found.
pub proof fn law_measurement_is_position_and_total(
    log: LogView,
    header: Option<ClockReading>,
    newest: Option<ClockReading>,
    reporting: bool,
    estimate: bool,
)
    ensures
        ({
            let length = log.settled(header, estimate).duration;
            let found = log.measurement(header, newest, reporting, estimate);
            &&& length == if log.duration is None {
                header
            } else {
                log.duration
            }
            &&& found is Some <==> reporting && newest is Some && total_of(length, estimate)
                != Total::Unknown
            &&& found matches Some(m) ==> newest == Some(m.current) && m.total == total_of(
                length,
                estimate,
            )
        }),
{
}

/// Law: without a header a status line is measured against the estimate, and not at all where
/// there is none; nor is it where the header shows nothing but zeros.
pub proof fn law_estimate_fills_the_gap(log: LogView, current: ClockReading, zero: ClockReading)
    requires
        log.duration is None,
        zero.wf(),
        zero.hours == 0 && zero.minutes == 0 && zero.seconds == 0 && zero.fraction == 0,
    ensures
        log.measurement(None, Some(current), true, true) == Some(
            Measurement { current, total: Total::Estimate },
        ),
        log.measurement(None, Some(current), true, false) is None,
        log.measurement(Some(zero), Some(current), true, true) is None,
        log.measurement(Some(zero), Some(current), true, false) is None,
        log.settled(None, true).duration is None,
        log.settled(None, false).duration is None,
{
    law_header_is_the_total(zero, true);
    law_header_is_the_total(zero, false);
}

/// Law: a look at the log keeps what was reported last, and cuts nothing off a log of up to 8192
/// bytes, nor off one of up to 262144 bytes while neither a header nor an estimate gives a total.
pub proof fn law_short_log_is_kept_whole(
    log: LogView,
    header: Option<ClockReading>,
    estimate: bool,
)
    ensures
        log.settled(header, estimate).last_percent == log.last_percent,
        utf8_len(log.text) <= 8192 ==> log.settled(header, estimate).text == log.text,
        !estimate && log.duration is None && header is None && utf8_len(log.text) <= 262_144
            ==> log.settled(header, estimate).text == log.text,
{
}

/// Law: what is read stands behind what was read before, and changes nothing else.
pub proof fn law_reading_adds_to_the_end(log: LogView, bytes: Seq<u8>)
    ensures
        log.read(bytes).text == log.text + utf8_lossy(bytes),
        log.read(bytes).duration == log.duration,
        log.read(bytes).last_percent == log.last_percent,
{
}

/// Law: the percentage that is reported is the rounded one, or ninety-nine where that is more. It
/// is reported unless it was reported last, and is then the one that was reported last.
pub proof fn law_report_is_the_rounded_percentage(log: LogView, rounded: u64)
    ensures
        ({
            let percent = if rounded <= 99 {
                rounded as int
            } else {
                99
            };
            &&& match log.report(rounded) {
                Some(told) => told == percent && log.last_percent != Some(told),
                None => log.last_percent is Some && log.last_percent->0 == percent,
            }
            &&& log.reported(rounded).last_percent is Some
            &&& log.reported(rounded).last_percent->0 == percent
            &&& log.reported(rounded).text == log.text
            &&& log.reported(rounded).duration == log.duration
        }),
{
}

/// Law: the message of a failed run gives the exit code, or a question mark without one, and
/// behind it the last five hundred characters of the log, all of it where it is shorter, or
/// that the error is unknown where the log is empty.
pub proof fn law_failure_message_has_code_and_tail(code: Option<i32>, log: Seq<char>)
    ensures
        ({
            let start = "FFmpeg failed (exit "@ + (if code is Some {
                signed_decimal(code->0 as int)
            } else {
                "?"@
            }) + "): "@;
            &&& log.len() == 0 ==> failure_text(code, log) == start + "Unknown error"@
            &&& 0 < log.len() <= 500 ==> failure_text(code, log) == start + log
            &&& log.len() > 500 ==> failure_text(code, log) == start + log.subrange(
                log.len() - 500,
                log.len() as int,
            )
        }),
{
}

/// Law: the first header wins. Once a length was read from a header, no later look at the log
/// and no estimate changes what progress is measured against.
pub proof fn law_first_header_wins(
    log: LogView,
    header: Option<ClockReading>,
    estimate: bool,
    later_header: Option<ClockReading>,
    later_estimate: bool,
)
    requires
        log.settled(header, estimate).duration is Some,
    ensures
        ({
            let settled = log.settled(header, estimate);
            &&& settled.settled(later_header, later_estimate).duration == settled.duration
            &&& total_of(settled.settled_duration(later_header), later_estimate) == total_of(
                settled.duration,
                estimate,
            )
        }),
{
}

} // verus!
