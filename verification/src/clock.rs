//! Clock readings in ffmpeg's log: the `Duration:` header of the input and the `time=` of each
//! status line.

use regex::Regex;
use vstd::prelude::*;
use vstd::string::*;

verus! {

/// The header that ffmpeg prints once for an input whose length it knows.
pub const DURATION_PATTERN: &'static str = r"Duration:\s*(\d{2}):(\d{2}):(\d{2})\.(\d{1,3})";

/// The position in each status line.
pub const TIME_PATTERN: &'static str = r"time=(\d{2}):(\d{2}):(\d{2})\.(\d{1,3})";

/// A compiled regular expression.
#[verifier::external_type_specification]
#[verifier::external_body]
pub struct ExRegex(regex::Regex);

/// The groups of one match: the whole match first, then each group in the order of its opening
/// bracket, `None` where a group took no part.
pub type Groups = Seq<Option<Seq<char>>>;

/// What `Regex::new` makes of a pattern: `None` where it refuses the pattern.
pub uninterp spec fn compiled(pattern: Seq<char>) -> Option<Regex>;

/// The groups of the leftmost match of `re` in `haystack`, as `Regex::captures` finds it.
pub uninterp spec fn first_match(re: Regex, haystack: Seq<char>) -> Option<Groups>;

/// The groups of every match of `re` in `haystack`, in the order in which
/// `Regex::captures_iter` yields them.
pub uninterp spec fn all_matches(re: Regex, haystack: Seq<char>) -> Seq<Groups>;

/// Calls `regex::Regex::new`. Claims that what it makes of a pattern depends on the pattern
/// alone.
#[verifier::external_body]
fn compile(pattern: &str) -> (re: Option<Regex>)
    ensures
        re == compiled(pattern@),
{
    Regex::new(pattern).ok()
}

/// Whether `found`, the first match of `re` in `haystack`, is the first one before a comma, and
/// the first one behind it only where there is none before, wherever `haystack` holds a comma.
pub open spec fn first_before_comma(re: Regex, haystack: Seq<char>, found: Option<Groups>) -> bool {
    forall|front: Seq<char>, rest: Seq<char>|
        haystack == #[trigger] (front + ","@ + rest) ==> found == if first_match(re, front) is Some {
            first_match(re, front)
        } else {
            first_match(re, rest)
        }
}

/// Whether a match, if there is one, has the shape of a reading.
pub open spec fn reading_if_any(found: Option<Groups>) -> bool {
    found matches Some(groups) ==> is_reading(groups)
}

/// Calls `regex::Regex::captures`. Claims that the match it finds depends on the expression and
/// the text alone. Of the expression for the header it claims two things more. All four groups
/// take part in a match, with as many digits as the expression asks for. And a comma parts the
/// text: a match is made of `Duration:`, white space, digits, colons and a point, so it holds no
/// comma, and the expression looks at nothing before or behind its match.
#[verifier::external_body]
fn find_first(re: &Regex, haystack: &str) -> (groups: Option<Vec<Option<String>>>)
    ensures
        groups.deep_view() == first_match(*re, haystack@),
        compiled(DURATION_PATTERN@) == Some(*re) ==> reading_if_any(groups.deep_view()),
        compiled(DURATION_PATTERN@) == Some(*re) ==> first_before_comma(
            *re,
            haystack@,
            groups.deep_view(),
        ),
{
    re.captures(haystack).map(|caps| caps.iter().map(|m| m.map(|m| m.as_str().to_owned())).collect())
}

/// Whether `matches`, found by `re` in `haystack`, are those found before and those found behind
/// a carriage return, wherever `haystack` holds one.
pub open spec fn split_at_returns(re: Regex, haystack: Seq<char>, matches: Seq<Groups>) -> bool {
    forall|older: Seq<char>, newer: Seq<char>|
        haystack == #[trigger] (older + "\r"@ + newer) ==> matches == all_matches(re, older)
            + all_matches(re, newer)
}

/// Whether `matches`, found by `re` in `haystack`, end with those found in any tail of `haystack`.
pub open spec fn end_with_tail(re: Regex, haystack: Seq<char>, matches: Seq<Groups>) -> bool {
    forall|front: Seq<char>, kept: Seq<char>|
        haystack == #[trigger] (front + kept) ==> all_matches(re, kept).is_suffix_of(matches)
}

/// Whether every match has the shape of a reading.
pub open spec fn all_readings(matches: Seq<Groups>) -> bool {
    forall|i: int| 0 <= i < matches.len() ==> is_reading(#[trigger] matches[i])
}

/// Calls `regex::Regex::captures_iter`. Claims that the matches it yields depend on the
/// expression and the text alone. Of the expression for status lines it claims three things more.
/// All four groups take part in every match, with as many digits as the expression asks for. A
/// carriage return parts the matches: a match is made of `time=`, digits, colons and a point, so
/// it holds none, and the expression looks at nothing before or behind its match. And the matches
/// in a tail of the text are the last ones in the whole text: a match starts with the only `t`
/// that it holds, so no two places where the expression matches overlap, each of them is yielded,
/// and those that start in the tail are the same there.
#[verifier::external_body]
fn find_all(re: &Regex, haystack: &str) -> (matches: Vec<Vec<Option<String>>>)
    ensures
        matches.deep_view() == all_matches(*re, haystack@),
        compiled(TIME_PATTERN@) == Some(*re) ==> all_readings(matches.deep_view()),
        compiled(TIME_PATTERN@) == Some(*re) ==> split_at_returns(
            *re,
            haystack@,
            matches.deep_view(),
        ),
        compiled(TIME_PATTERN@) == Some(*re) ==> end_with_tail(
            *re,
            haystack@,
            matches.deep_view(),
        ),
{
    re.captures_iter(haystack).map(|caps| caps.iter().map(|m| m.map(|m| m.as_str().to_owned())).collect()).collect()
}

/// Whether `text` is made of the ten ASCII digits only.
pub open spec fn all_digits(text: Seq<char>) -> bool {
    forall|i: int| 0 <= i < text.len() ==> '0' <= #[trigger] text[i] <= '9'
}

/// The number that a row of digits stands for.
pub open spec fn digits_value(text: Seq<char>) -> nat
    decreases text.len(),
{
    if text.len() == 0 {
        0
    } else {
        10 * digits_value(text.drop_last()) + (text.last() as nat - '0' as nat) as nat
    }
}

/// The number in one field of a reading. A digit outside ASCII is no number to the reader, and
/// such a field counts as zero.
pub open spec fn field_value(text: Seq<char>) -> nat {
    if all_digits(text) {
        digits_value(text)
    } else {
        0
    }
}

/// One `hh:mm:ss.f` reading, with one to three digits after the point.
#[derive(Clone, Copy, Debug, PartialEq, Eq, Structural)]
pub struct ClockReading {
    pub hours: u32,
    pub minutes: u32,
    pub seconds: u32,
    /// The digits after the point, read as a whole number.
    pub fraction: u32,
    /// How many digits stand after the point.
    pub digits: u32,
}

impl ClockReading {
    /// The ranges that the shape of a reading gives.
    pub open spec fn wf(self) -> bool {
        &&& self.hours < 100
        &&& self.minutes < 100
        &&& self.seconds < 100
        &&& 1 <= self.digits <= 3
        &&& self.fraction < ten_to(self.digits as int)
    }

    /// The reading in thousandths of a second. The fraction counts by its number of digits, so
    /// that `.5`, `.50` and `.500` are the same.
    pub open spec fn spec_millis(self) -> nat {
        (self.hours * 3_600_000 + self.minutes * 60_000 + self.seconds * 1_000 + self.fraction
            * ten_to(3 - self.digits)) as nat
    }

    /// The reading in thousandths of a second.
    pub fn millis(&self) -> (millis: u64)
        requires
            self.wf(),
        ensures
            millis == self.spec_millis(),
    {
        let scale: u64 = if self.digits == 1 {
            100
        } else if self.digits == 2 {
            10
        } else {
            1
        };
        assert(self.fraction * scale <= 1000 * 100) by (nonlinear_arith)
            requires
                self.fraction < 1000,
                scale <= 100,
        ;
        self.hours as u64 * 3_600_000 + self.minutes as u64 * 60_000 + self.seconds as u64 * 1_000
            + self.fraction as u64 * scale
    }
}

/// Ten to the power of `n`, for `n` up to three.
pub open spec fn ten_to(n: int) -> nat {
    if n <= 0 {
        1
    } else if n == 1 {
        10
    } else if n == 2 {
        100
    } else {
        1000
    }
}

/// Whether the groups of a match have the shape of a reading: two digits for the hours, the
/// minutes and the seconds each, and one to three after the point.
pub open spec fn is_reading(groups: Groups) -> bool {
    &&& groups.len() >= 5
    &&& groups[1] matches Some(h) && h.len() == 2
    &&& groups[2] matches Some(m) && m.len() == 2
    &&& groups[3] matches Some(s) && s.len() == 2
    &&& groups[4] matches Some(f) && 1 <= f.len() <= 3
}

/// The reading that the groups of a match stand for.
pub open spec fn reading(groups: Groups) -> ClockReading {
    ClockReading {
        hours: field_value(groups[1]->0) as u32,
        minutes: field_value(groups[2]->0) as u32,
        seconds: field_value(groups[3]->0) as u32,
        fraction: field_value(groups[4]->0) as u32,
        digits: groups[4]->0.len() as u32,
    }
}

/// The reading in a match, `None` where the groups do not have its shape.
pub open spec fn reading_of(groups: Groups) -> Option<ClockReading> {
    if is_reading(groups) {
        Some(reading(groups))
    } else {
        None
    }
}

/// The length that the first `Duration:` header in `log` gives.
pub open spec fn header_reading(log: Seq<char>) -> Option<ClockReading> {
    match compiled(DURATION_PATTERN@) {
        Some(re) => match first_match(re, log) {
            Some(groups) => reading_of(groups),
            None => None,
        },
        None => None,
    }
}

/// The position that the last `time=` in `log` gives.
pub open spec fn newest_reading(log: Seq<char>) -> Option<ClockReading> {
    match compiled(TIME_PATTERN@) {
        Some(re) => newest_of(all_matches(re, log)),
        None => None,
    }
}

/// The reading in the last of `matches`.
pub open spec fn newest_of(matches: Seq<Groups>) -> Option<ClockReading> {
    if matches.len() == 0 {
        None
    } else {
        reading_of(matches.last())
    }
}

/// Whether `found` is the reading of the newest status line in `log`: where `log` is two texts
/// with a carriage return between them, the reading in the newer text, and that in the older one
/// only where the newer one holds none.
pub open spec fn newest_line_decides(log: Seq<char>, found: Option<ClockReading>) -> bool {
    forall|older: Seq<char>, newer: Seq<char>|
        log == #[trigger] (older + "\r"@ + newer) ==> found == if newest_reading(newer) is Some {
            newest_reading(newer)
        } else {
            newest_reading(older)
        }
}

/// Whether `found` is the reading of the first header in `log`: where `log` is two texts with a
/// comma between them, the reading in the first text, and that in the second one only where the
/// first one holds none.
pub open spec fn first_header_decides(log: Seq<char>, found: Option<ClockReading>) -> bool {
    forall|front: Seq<char>, rest: Seq<char>|
        log == #[trigger] (front + ","@ + rest) ==> found == if header_reading(front) is Some {
            header_reading(front)
        } else {
            header_reading(rest)
        }
}

/// Whether `found`, the newest position in `log`, is that in any tail of `log` that holds one.
pub open spec fn newest_is_in_tail(log: Seq<char>, found: Option<ClockReading>) -> bool {
    forall|front: Seq<char>, kept: Seq<char>|
        log == #[trigger] (front + kept) && newest_reading(kept) is Some ==> found
            == newest_reading(kept)
}

/// Law: where a log is cut back, the newest line of what is kept is that of the whole log, as
/// long as a carriage return and a line with a position behind it are kept.
pub proof fn law_cut_keeps_newest_line(
    front: Seq<char>,
    older: Seq<char>,
    newer: Seq<char>,
    of_whole: Option<ClockReading>,
    of_kept: Option<ClockReading>,
)
    requires
        newest_reading(newer) is Some,
        newest_line_decides(front + (older + "\r"@ + newer), of_whole),
        newest_line_decides(older + "\r"@ + newer, of_kept),
    ensures
        of_whole == of_kept,
        of_kept == newest_reading(newer),
{
    assert(front + (older + "\r"@ + newer) =~= (front + older) + "\r"@ + newer);
}

/// Law: of two rows of matches, one behind the other, the newer decides, and the older counts
/// only where the newer is empty.
pub proof fn law_newest_match_decides(older: Seq<Groups>, newer: Seq<Groups>)
    ensures
        newest_of(older + newer) == if newer.len() > 0 {
            newest_of(newer)
        } else {
            newest_of(older)
        },
{
    if newer.len() == 0 {
        assert(older + newer =~= older);
    }
}

/// The digit that `c` shows.
pub open spec fn shown(c: char) -> int {
    c as int - '0' as int
}

/// The number that one to three characters show, place by place: nothing where one of them is no
/// ASCII digit.
pub open spec fn shown_number(text: Seq<char>) -> int {
    if exists|i: int| 0 <= i < text.len() && !(0 <= shown(#[trigger] text[i]) <= 9) {
        0
    } else if text.len() == 1 {
        shown(text[0])
    } else if text.len() == 2 {
        shown(text[0]) * 10 + shown(text[1])
    } else {
        shown(text[0]) * 100 + shown(text[1]) * 10 + shown(text[2])
    }
}

/// Whether `found` is what the four groups of a match show, field by field.
pub open spec fn shows(groups: Groups, found: Option<ClockReading>) -> bool {
    match found {
        Some(r) => {
            &&& r.hours == shown_number(groups[1]->0)
            &&& r.minutes == shown_number(groups[2]->0)
            &&& r.seconds == shown_number(groups[3]->0)
            &&& r.fraction == shown_number(groups[4]->0)
            &&& r.digits == groups[4]->0.len()
        },
        None => false,
    }
}

/// Whether the groups of a match are those of `hh:mm:ss.f`.
pub open spec fn is_clock(groups: Groups) -> bool {
    &&& groups.len() >= 5
    &&& groups[1] is Some && groups[1]->0.len() == 2
    &&& groups[2] is Some && groups[2]->0.len() == 2
    &&& groups[3] is Some && groups[3]->0.len() == 2
    &&& groups[4] is Some && 1 <= groups[4]->0.len() <= 3
}

/// A field is read as the number that it shows.
proof fn lemma_field_is_shown(text: Seq<char>)
    requires
        1 <= text.len() <= 3,
    ensures
        field_value(text) == shown_number(text),
        field_value(text) < 1000,
{
    if all_digits(text) {
        assert forall|i: int| 0 <= i < text.len() implies 0 <= shown(#[trigger] text[i]) <= 9 by {}
        reveal_with_fuel(digits_value, 4);
        lemma_digits_value_bound(text);
    } else {
        let i = choose|i: int| 0 <= i < text.len() && !('0' <= #[trigger] text[i] <= '9');
        assert(!(0 <= shown(text[i]) <= 9));
    }
}

/// Law: the header and the status line are looked for by the words before them, and have the same
/// form: three fields of two digits each, and one to three digits behind a point.
pub proof fn law_header_and_status_have_one_form()
    ensures
        DURATION_PATTERN@ == r"Duration:\s*"@ + r"(\d{2}):(\d{2}):(\d{2})\.(\d{1,3})"@,
        TIME_PATTERN@ == "time="@ + r"(\d{2}):(\d{2}):(\d{2})\.(\d{1,3})"@,
{
    reveal_strlit(r"Duration:\s*");
    reveal_strlit("time=");
    reveal_strlit(r"(\d{2}):(\d{2}):(\d{2})\.(\d{1,3})");
    reveal_strlit(r"Duration:\s*(\d{2}):(\d{2}):(\d{2})\.(\d{1,3})");
    reveal_strlit(r"time=(\d{2}):(\d{2}):(\d{2})\.(\d{1,3})");
}

/// Law: a match is read as what its four groups show, field by field: each field is the decimal
/// number in its group, and a field with a digit outside ASCII is zero.
pub proof fn law_match_is_read_field_by_field(groups: Groups)
    requires
        is_clock(groups),
    ensures
        shows(groups, reading_of(groups)),
{
    lemma_field_is_shown(groups[1]->0);
    lemma_field_is_shown(groups[2]->0);
    lemma_field_is_shown(groups[3]->0);
    lemma_field_is_shown(groups[4]->0);
}

/// Law: the length of the input is what the groups of the first header show, field by field, and
/// there is none where there is no header.
pub proof fn law_header_is_read_field_by_field(log: Seq<char>, re: Regex)
    requires
        compiled(DURATION_PATTERN@) == Some(re),
    ensures
        first_match(re, log) is None ==> header_reading(log) is None,
        first_match(re, log) matches Some(groups) ==> (is_clock(groups) ==> shows(
            groups,
            header_reading(log),
        )),
{
    if let Some(groups) = first_match(re, log) {
        if is_clock(groups) {
            law_match_is_read_field_by_field(groups);
        }
    }
}

/// Law: the position is what the groups of the last status line show, field by field, and there
/// is none where there is no status line.
pub proof fn law_status_is_read_field_by_field(log: Seq<char>, re: Regex)
    requires
        compiled(TIME_PATTERN@) == Some(re),
    ensures
        all_matches(re, log).len() == 0 ==> newest_reading(log) is None,
        all_matches(re, log).len() > 0 && is_clock(all_matches(re, log).last()) ==> shows(
            all_matches(re, log).last(),
            newest_reading(log),
        ),
{
    if all_matches(re, log).len() > 0 && is_clock(all_matches(re, log).last()) {
        law_match_is_read_field_by_field(all_matches(re, log).last());
    }
}

/// Law: a reading lasts its hours, minutes and seconds and as many tenths, hundredths or
/// thousandths as its digits behind the point say. It is zero only where every field is.
pub proof fn law_reading_in_thousandths(r: ClockReading)
    requires
        r.wf(),
    ensures
        r.digits == 1 || r.digits == 2 || r.digits == 3,
        r.digits == 1 ==> 10 * r.spec_millis() == 1000 * (10 * (3600 * r.hours + 60 * r.minutes
            + r.seconds) + r.fraction),
        r.digits == 2 ==> 100 * r.spec_millis() == 1000 * (100 * (3600 * r.hours + 60 * r.minutes
            + r.seconds) + r.fraction),
        r.digits == 3 ==> 1000 * r.spec_millis() == 1000 * (1000 * (3600 * r.hours + 60
            * r.minutes + r.seconds) + r.fraction),
        r.spec_millis() == 0 <==> r.hours == 0 && r.minutes == 0 && r.seconds == 0 && r.fraction
            == 0,
{
    if r.digits == 1 {
        assert(r.fraction * ten_to(2) == r.fraction * 100);
    } else if r.digits == 2 {
        assert(r.fraction * ten_to(1) == r.fraction * 10);
    } else {
        assert(r.fraction * ten_to(0) == r.fraction);
    }
}

/// A row of `n` digits stands for a number below the `n`th power of ten.
proof fn lemma_digits_value_bound(text: Seq<char>)
    requires
        all_digits(text),
        text.len() <= 3,
    ensures
        text.len() == 0 ==> digits_value(text) == 0,
        text.len() == 1 ==> digits_value(text) < 10,
        text.len() == 2 ==> digits_value(text) < 100,
        text.len() == 3 ==> digits_value(text) < 1000,
    decreases text.len(),
{
    if text.len() > 0 {
        assert('0' <= text[text.len() - 1] <= '9');
        assert forall|i: int| 0 <= i < text.len() - 1 implies '0' <= #[trigger] text.drop_last()[i]
            <= '9' by {
            assert(text[i] == text.drop_last()[i]);
        }
        lemma_digits_value_bound(text.drop_last());
    }
}

/// The number in one field.
fn read_field(text: &str) -> (value: u32)
    requires
        text@.len() <= 3,
    ensures
        value == field_value(text@),
        text@.len() <= 2 ==> value < 100,
        text@.len() == 1 ==> value < 10,
        value < 1000,
{
    let len: usize = text.unicode_len();
    let mut i: usize = 0;
    let mut value: u32 = 0;
    while i < len
        invariant
            len == text@.len() <= 3,
            i <= len,
            all_digits(text@.take(i as int)),
            value == digits_value(text@.take(i as int)),
        decreases len - i,
    {
        let c = text.get_char(i);
        if !('0' <= c && c <= '9') {
            assert(!all_digits(text@)) by {
                assert(text@[i as int] == c);
            }
            return 0;
        }
        let ghost read = text@.take(i as int);
        proof {
            lemma_digits_value_bound(read);
            assert(text@.take(i + 1).drop_last() =~= read);
        }
        value = value * 10 + (c as u32 - '0' as u32);
        i = i + 1;
    }
    proof {
        assert(text@.take(len as int) =~= text@);
        lemma_digits_value_bound(text@);
    }
    value
}

/// The reading in the groups of a match.
pub fn read_groups(groups: &Vec<Option<String>>) -> (found: Option<ClockReading>)
    ensures
        found == reading_of(groups.deep_view()),
        is_clock(groups.deep_view()) ==> shows(groups.deep_view(), found),
        found matches Some(r) ==> r.wf(),
{
    proof {
        if is_clock(groups.deep_view()) {
            law_match_is_read_field_by_field(groups.deep_view());
        }
    }
    if groups.len() < 5 {
        return None;
    }
    assert(forall|i: int|
        0 <= i < groups.len() ==> #[trigger] groups.deep_view()[i] == groups[i].deep_view());
    match (&groups[1], &groups[2], &groups[3], &groups[4]) {
        (Some(h), Some(m), Some(s), Some(f)) => {
            let digits: usize = f.as_str().unicode_len();
            if h.as_str().unicode_len() == 2 && m.as_str().unicode_len() == 2
                && s.as_str().unicode_len() == 2 && 1 <= digits && digits <= 3 {
                Some(
                    ClockReading {
                        hours: read_field(h.as_str()),
                        minutes: read_field(m.as_str()),
                        seconds: read_field(s.as_str()),
                        fraction: read_field(f.as_str()),
                        digits: digits as u32,
                    },
                )
            } else {
                None
            }
        },
        _ => None,
    }
}

/// The reading in the last of `matches`.
pub fn read_newest(matches: &Vec<Vec<Option<String>>>) -> (found: Option<ClockReading>)
    ensures
        found == newest_of(matches.deep_view()),
        found matches Some(r) ==> r.wf(),
{
    let count: usize = matches.len();
    if count == 0 {
        return None;
    }
    assert(matches.deep_view()[count - 1] == matches[count - 1].deep_view());
    read_groups(&matches[count - 1])
}

/// The two expressions that read ffmpeg's log, compiled once and used for every conversion.
pub struct LogScanner {
    duration: Regex,
    time: Regex,
}

impl LogScanner {
    #[verifier::type_invariant]
    spec fn from_patterns(self) -> bool {
        &&& compiled(DURATION_PATTERN@) == Some(self.duration)
        &&& compiled(TIME_PATTERN@) == Some(self.time)
    }

    /// Compiles both expressions, `None` where one is refused.
    pub fn new() -> (scanner: Option<LogScanner>)
        ensures
            scanner is Some <==> compiled(DURATION_PATTERN@) is Some && compiled(
                TIME_PATTERN@,
            ) is Some,
    {
        match (compile(DURATION_PATTERN), compile(TIME_PATTERN)) {
            (Some(duration), Some(time)) => Some(LogScanner { duration, time }),
            _ => None,
        }
    }

    /// The length of the input in the header, `None` while the log carries no such header.
    pub fn header_duration(&self, log: &str) -> (found: Option<ClockReading>)
        ensures
            found == header_reading(log@),
            found matches Some(r) ==> r.wf(),
            compiled(DURATION_PATTERN@) matches Some(re) ==> (found is None <==> first_match(
                re,
                log@,
            ) is None),
            compiled(DURATION_PATTERN@) matches Some(re) ==> (first_match(re, log@) matches Some(
                groups,
            ) ==> shows(groups, found)),
            first_header_decides(log@, found),
    {
        proof {
            use_type_invariant(self);
        }
        let groups = find_first(&self.duration, log);
        proof {
            law_header_is_read_field_by_field(log@, self.duration);
            assert forall|front: Seq<char>, rest: Seq<char>|
                log@ == #[trigger] (front + ","@ + rest) implies header_reading(log@)
                == if header_reading(front) is Some {
                header_reading(front)
            } else {
                header_reading(rest)
            } by {
                assert(reading_if_any(groups.deep_view()));
            }
        }
        match groups {
            Some(groups) => read_groups(&groups),
            None => None,
        }
    }

    /// The position in the newest status line, `None` while the log carries no status line.
    pub fn newest_status(&self, log: &str) -> (found: Option<ClockReading>)
        ensures
            found == newest_reading(log@),
            found matches Some(r) ==> r.wf(),
            compiled(TIME_PATTERN@) matches Some(re) ==> (found is None <==> all_matches(
                re,
                log@,
            ).len() == 0),
            compiled(TIME_PATTERN@) matches Some(re) ==> (all_matches(re, log@).len() > 0
                ==> shows(all_matches(re, log@).last(), found)),
            newest_line_decides(log@, found),
            newest_is_in_tail(log@, found),
    {
        proof {
            use_type_invariant(self);
        }
        let matches = find_all(&self.time, log);
        proof {
            law_status_is_read_field_by_field(log@, self.time);
            let rows = matches.deep_view();
            assert(rows.len() > 0 ==> is_reading(rows[rows.len() - 1]));
            assert forall|front: Seq<char>, kept: Seq<char>|
                log@ == #[trigger] (front + kept) && newest_reading(kept) is Some implies
                newest_reading(log@) == newest_reading(kept) by {
                let tail = all_matches(self.time, kept);
                assert(tail == rows.skip(rows.len() - tail.len()));
                assert(tail.last() == rows.last());
            }
            assert forall|older: Seq<char>, newer: Seq<char>|
                log@ == #[trigger] (older + "\r"@ + newer) implies newest_reading(log@)
                == if newest_reading(newer) is Some {
                newest_reading(newer)
            } else {
                newest_reading(older)
            } by {
                let before = all_matches(self.time, older);
                let behind = all_matches(self.time, newer);
                law_newest_match_decides(before, behind);
                if behind.len() > 0 {
                    assert(is_reading(matches.deep_view()[matches.deep_view().len() - 1]));
                    assert((before + behind).last() == behind.last());
                }
            }
        }
        read_newest(&matches)
    }
}

} // verus!
