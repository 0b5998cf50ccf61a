//! The stem of a take's file names: a fixed word and the local time.

use crate::clock::shown;
use crate::text::{decimal, digit_char};
use vstd::prelude::*;
use vstd::string::*;

verus! {

/// Year, month, day, hour, minute and second.
pub const STAMP_FORMAT: &'static str = "%Y-%m-%d-%H-%M-%S";

/// `n` in decimal, with zeros in front up to `width` digits.
pub open spec fn padded(n: nat, width: nat) -> Seq<char> {
    if decimal(n).len() < width {
        Seq::new((width - decimal(n).len()) as nat, |i: int| '0') + decimal(n)
    } else {
        decimal(n)
    }
}

/// A year in four digits, with its sign where it needs more or is negative.
pub open spec fn year_text(year: int) -> Seq<char> {
    if year < 0 {
        seq!['-'] + padded((-year) as nat, 4)
    } else if year > 9999 {
        seq!['+'] + padded(year as nat, 4)
    } else {
        padded(year as nat, 4)
    }
}

/// A point in time, to the second.
pub struct Moment {
    pub year: int,
    pub month: nat,
    pub day: nat,
    pub hour: nat,
    pub minute: nat,
    pub second: nat,
}

impl Moment {
    /// The ranges of the fields. The sixtieth second is a leap second.
    pub open spec fn valid(self) -> bool {
        &&& 1 <= self.month <= 12
        &&& 1 <= self.day <= 31
        &&& self.hour < 24
        &&& self.minute < 60
        &&& self.second <= 60
    }

    /// The moment in the form of `STAMP_FORMAT`.
    pub open spec fn text(self) -> Seq<char> {
        year_text(self.year) + seq!['-'] + padded(self.month, 2) + seq!['-'] + padded(self.day, 2)
            + seq!['-'] + padded(self.hour, 2) + seq!['-'] + padded(self.minute, 2) + seq!['-']
            + padded(self.second, 2)
    }
}

/// Whether `stamp` is some moment in the form of `STAMP_FORMAT`.
pub open spec fn is_stamp(stamp: Seq<char>) -> bool {
    exists|moment: Moment| moment.valid() && stamp == #[trigger] moment.text()
}

/// Calls `chrono::Local::now` and `DateTime::format`. Claims that the text is some moment in the
/// form of `STAMP_FORMAT`, the only form it is asked for; which moment it is depends on the clock
/// and on the time zone of the machine, and nothing is said of it. A clock that stands before
/// 1970, or time zone data that cannot be used, makes `Local::now` panic.
#[verifier::external_body]
fn local_time(format: &str) -> (stamp: String)
    requires
        format@ == STAMP_FORMAT@,
    ensures
        is_stamp(stamp@),
{
    chrono::Local::now().format(format).to_string()
}

/// The stem of a take that starts at the time that `stamp` gives.
pub fn recording_stem(stamp: &str) -> (stem: String)
    ensures
        stem@ == "recording-"@ + stamp@,
{
    "recording-".to_owned().concat(stamp)
}

/// Whether `stamp` is a text that `local_time` handed out: what a call of it returned, not merely
/// some text in the form of a time. Nothing but a call of `local_time` shows this of a text.
pub closed spec fn read_from_clock(stamp: Seq<char>) -> bool {
    exists|reading: String|
        reading@ == stamp && #[trigger] call_ensures(local_time, (STAMP_FORMAT,), reading)
}

/// The stem of a take that starts now: it carries the text that the clock was read as.
pub fn new_stem() -> (stem: String)
    ensures
        exists|stamp: Seq<char>|
            is_stamp(stamp) && read_from_clock(stamp) && stem@ == #[trigger] ("recording-"@
                + stamp),
{
    let stamp = local_time(STAMP_FORMAT);
    recording_stem(stamp.as_str())
}

/// Whether `text` can stand in a file name on any system: digits, lower case letters and signs.
pub open spec fn is_plain(text: Seq<char>) -> bool {
    forall|i: int|
        0 <= i < text.len() ==> {
            ||| '0' <= #[trigger] text[i] <= '9'
            ||| 'a' <= text[i] <= 'z'
            ||| text[i] == '-'
            ||| text[i] == '+'
        }
}

/// A number is plain.
proof fn lemma_decimal_is_plain(n: nat)
    ensures
        is_plain(decimal(n)),
    decreases n,
{
    if n >= 10 {
        lemma_decimal_is_plain(n / 10);
        assert('0' <= digit_char(n % 10) <= '9');
    } else {
        assert('0' <= digit_char(n) <= '9');
    }
}

/// A padded number is plain.
proof fn lemma_padded_is_plain(n: nat, width: nat)
    ensures
        is_plain(padded(n, width)),
{
    lemma_decimal_is_plain(n);
}

/// Law: the stem of a take holds no character that could lead out of the folder of the
/// recordings.
pub proof fn law_stem_is_plain(stamp: Seq<char>)
    requires
        is_stamp(stamp),
    ensures
        is_plain("recording-"@ + stamp),
{
    let moment = choose|moment: Moment| moment.valid() && stamp == #[trigger] moment.text();
    reveal_strlit("recording-");
    lemma_padded_is_plain(moment.year as nat, 4);
    lemma_padded_is_plain((-moment.year) as nat, 4);
    lemma_padded_is_plain(moment.month, 2);
    lemma_padded_is_plain(moment.day, 2);
    lemma_padded_is_plain(moment.hour, 2);
    lemma_padded_is_plain(moment.minute, 2);
    lemma_padded_is_plain(moment.second, 2);
}

/// Law: the clock is asked for the year, the month, the day, the hour of the day, the minute and
/// the second, in this order.
pub proof fn law_clock_is_asked_for_the_moment()
    ensures
        STAMP_FORMAT@ == seq!['%', 'Y'] + seq!['-', '%', 'm'] + seq!['-', '%', 'd'] + seq![
            '-',
            '%',
            'H',
        ] + seq!['-', '%', 'M'] + seq!['-', '%', 'S'],
{
    reveal_strlit("%Y-%m-%d-%H-%M-%S");
}

/// Law: what the clock is read as is a moment in the form of `STAMP_FORMAT`.
pub proof fn law_clock_gives_a_stamp(stamp: Seq<char>)
    requires
        read_from_clock(stamp),
    ensures
        is_stamp(stamp),
{
}

/// Two digits show a number below a hundred.
proof fn lemma_two_digits(n: nat)
    requires
        n < 100,
    ensures
        padded(n, 2).len() == 2,
        shown(padded(n, 2)[0]) == n / 10,
        shown(padded(n, 2)[1]) == n % 10,
{
    reveal_with_fuel(decimal, 2);
}

/// Four digits show a number below ten thousand.
proof fn lemma_four_digits(n: nat)
    requires
        n < 10_000,
    ensures
        padded(n, 4).len() == 4,
        shown(padded(n, 4)[0]) == n / 1000,
        shown(padded(n, 4)[1]) == n / 100 % 10,
        shown(padded(n, 4)[2]) == n / 10 % 10,
        shown(padded(n, 4)[3]) == n % 10,
{
    reveal_with_fuel(decimal, 4);
    assert(n / 10 / 10 == n / 100 && n / 100 / 10 == n / 1000);
}

/// Law: a stem shows the moment at which its take starts, place by place: the year in four
/// digits, and the month, the day, the hour, the minute and the second in two digits each, with
/// dashes between them.
pub proof fn law_stem_shows_the_moment(moment: Moment)
    requires
        moment.valid(),
        0 <= moment.year <= 9999,
    ensures
        ({
            let stem = "recording-"@ + moment.text();
            &&& stem.len() == 29
            &&& moment.year == shown(stem[10]) * 1000 + shown(stem[11]) * 100 + shown(
                stem[12],
            ) * 10 + shown(stem[13])
            &&& moment.month == shown(stem[15]) * 10 + shown(stem[16])
            &&& moment.day == shown(stem[18]) * 10 + shown(stem[19])
            &&& moment.hour == shown(stem[21]) * 10 + shown(stem[22])
            &&& moment.minute == shown(stem[24]) * 10 + shown(stem[25])
            &&& moment.second == shown(stem[27]) * 10 + shown(stem[28])
            &&& stem[9] == '-' && stem[14] == '-' && stem[17] == '-' && stem[20] == '-' && stem[23]
                == '-' && stem[26] == '-'
        }),
{
    reveal_strlit("recording-");
    lemma_four_digits(moment.year as nat);
    lemma_two_digits(moment.month);
    lemma_two_digits(moment.day);
    lemma_two_digits(moment.hour);
    lemma_two_digits(moment.minute);
    lemma_two_digits(moment.second);
}

/// Law: takes with the same stem were started at the same reading of the clock.
pub proof fn law_stem_gives_its_reading_back(stamp: Seq<char>, other: Seq<char>)
    requires
        "recording-"@ + stamp == "recording-"@ + other,
    ensures
        stamp == other,
{
    let word = "recording-"@;
    assert(stamp =~= (word + stamp).skip(word.len() as int));
    assert(other =~= (word + other).skip(word.len() as int));
}

} // verus!
