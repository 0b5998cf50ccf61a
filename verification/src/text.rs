//! Text that ends up in file names and messages.

use vstd::arithmetic::div_mod::lemma_div_denominator;
use vstd::arithmetic::power::{lemma_pow0, lemma_pow_positive, pow};
use vstd::prelude::*;
use vstd::string::*;
use vstd::utf8::*;

verus! {

/// The decimal digit `d`, for `d` below ten.
pub open spec fn digit_char(d: nat) -> char {
    (48 + d) as char
}

/// `n` in decimal, without leading zeros.
pub open spec fn decimal(n: nat) -> Seq<char>
    decreases n,
{
    if n < 10 {
        seq![digit_char(n)]
    } else {
        decimal(n / 10).push(digit_char(n % 10))
    }
}

/// A number in decimal is made of digits.
pub proof fn lemma_decimal_digits(n: nat)
    ensures
        decimal(n).len() > 0,
        forall|i: int| 0 <= i < decimal(n).len() ==> '0' <= #[trigger] decimal(n)[i] <= '9',
    decreases n,
{
    if n >= 10 {
        lemma_decimal_digits(n / 10);
    }
}

/// Law: a number is written in the decimal system, with the place of ones last and no place more
/// than it needs.
pub proof fn law_decimal_places(n: nat)
    ensures
        n < pow(10, decimal(n).len()),
        decimal(n).len() == 1 || decimal(n).len() > 1 && n >= pow(
            10,
            (decimal(n).len() - 1) as nat,
        ),
        forall|i: nat|
            i < decimal(n).len() ==> #[trigger] decimal(n)[decimal(n).len() - 1 - i] as int
                - '0' as int == (n as int / pow(10, i)) % 10,
    decreases n,
{
    reveal(pow);
    let text = decimal(n);
    if n < 10 {
        lemma_pow0(10);
        assert(pow(10, 1) == 10) by {
            reveal_with_fuel(pow, 2);
        }
    } else {
        let front = decimal(n / 10);
        law_decimal_places(n / 10);
        assert(text.len() == front.len() + 1);
        assert(pow(10, text.len()) == 10 * pow(10, front.len()));
        assert(pow(10, front.len()) == 10 * pow(10, (front.len() - 1) as nat));
        assert forall|i: nat| i < text.len() implies #[trigger] text[text.len() - 1 - i] as int
            - '0' as int == (n as int / pow(10, i)) % 10 by {
            if i == 0 {
                lemma_pow0(10);
            } else {
                let j = (i - 1) as nat;
                lemma_pow_positive(10, j);
                lemma_div_denominator(n as int, 10, pow(10, j));
                assert(text[text.len() - 1 - i] == front[front.len() - 1 - j]);
            }
        }
    }
}

/// Law: a number below zero is written as a minus sign and the number without its sign, any other
/// without a sign.
pub proof fn law_sign_stands_first(n: int)
    ensures
        n >= 0 ==> signed_decimal(n) == decimal(n as nat),
        n < 0 ==> signed_decimal(n)[0] == '-' && signed_decimal(n).drop_first() == decimal(
            (-n) as nat,
        ),
{
    if n < 0 {
        assert(signed_decimal(n).drop_first() =~= decimal((-n) as nat));
    }
}

/// Different numbers differ in decimal.
pub proof fn lemma_decimal_differs(m: nat, n: nat)
    requires
        m != n,
    ensures
        decimal(m) != decimal(n),
    decreases m,
{
    lemma_decimal_digits(m / 10);
    lemma_decimal_digits(n / 10);
    if m >= 10 && n >= 10 {
        if m % 10 == n % 10 {
            lemma_decimal_differs(m / 10, n / 10);
            assert(decimal(m).drop_last() =~= decimal(m / 10));
            assert(decimal(n).drop_last() =~= decimal(n / 10));
        } else {
            assert(decimal(m).last() != decimal(n).last());
        }
    } else if m < 10 && n < 10 {
        assert(decimal(m)[0] != decimal(n)[0]);
    } else {
        assert(decimal(m).len() != decimal(n).len());
    }
}

/// `n` in decimal, with a leading minus sign when it is negative.
pub open spec fn signed_decimal(n: int) -> Seq<char> {
    if n < 0 {
        seq!['-'] + decimal((-n) as nat)
    } else {
        decimal(n as nat)
    }
}

/// The text of one decimal digit.
fn digit_text(d: u32) -> (text: &'static str)
    requires
        d < 10,
    ensures
        text@ == seq![digit_char(d as nat)],
{
    proof {
        reveal_strlit("0");
        reveal_strlit("1");
        reveal_strlit("2");
        reveal_strlit("3");
        reveal_strlit("4");
        reveal_strlit("5");
        reveal_strlit("6");
        reveal_strlit("7");
        reveal_strlit("8");
        reveal_strlit("9");
    }
    match d {
        0 => "0",
        1 => "1",
        2 => "2",
        3 => "3",
        4 => "4",
        5 => "5",
        6 => "6",
        7 => "7",
        8 => "8",
        _ => "9",
    }
}

/// Writes `n` at the end of `text` in decimal.
pub fn push_decimal(text: &mut String, n: u32)
    ensures
        final(text)@ == old(text)@ + decimal(n as nat),
    decreases n,
{
    if n >= 10 {
        push_decimal(text, n / 10);
    }
    text.append(digit_text(n % 10));
    assert(text@ =~= old(text)@ + decimal(n as nat));
}

/// Writes `n` at the end of `text` in decimal, with its sign when it is negative.
pub fn push_signed_decimal(text: &mut String, n: i32)
    ensures
        final(text)@ == old(text)@ + signed_decimal(n as int),
{
    if n < 0 {
        text.append("-");
        proof {
            reveal_strlit("-");
        }
        let magnitude: u32 = (-(n as i64)) as u32;
        push_decimal(text, magnitude);
        assert(text@ =~= old(text)@ + signed_decimal(n as int));
    } else {
        push_decimal(text, n as u32);
    }
}

/// What `String::from_utf8_lossy` makes of `bytes`.
pub uninterp spec fn utf8_lossy(bytes: Seq<u8>) -> Seq<char>;

/// Calls `String::from_utf8_lossy`. Claims that the text depends on the bytes alone, and that
/// bytes that are UTF-8 are decoded as they stand.
#[verifier::external_body]
pub(crate) fn decode_lossy(bytes: &[u8]) -> (text: String)
    ensures
        text@ == utf8_lossy(bytes@),
        valid_utf8(bytes@) ==> text@ == decode_utf8(bytes@),
{
    String::from_utf8_lossy(bytes).into_owned()
}

/// How many bytes `text` takes in UTF-8.
pub open spec fn utf8_len(text: Seq<char>) -> nat {
    encode_utf8(text).len()
}

/// The longest tail of `text` that takes at most `limit` bytes in UTF-8.
pub open spec fn tail_within(text: Seq<char>, limit: nat) -> Seq<char>
    decreases text.len(),
{
    if utf8_len(text) <= limit || text.len() == 0 {
        text
    } else {
        tail_within(text.drop_first(), limit)
    }
}

/// The last `count` characters of `text`, or all of it when it is shorter.
pub open spec fn last_chars(text: Seq<char>, count: nat) -> Seq<char> {
    if text.len() <= count {
        text
    } else {
        text.skip(text.len() - count)
    }
}

/// Cutting at the first character boundary at or past `utf8_len(text) - limit` leaves the
/// longest tail within `limit`.
proof fn lemma_cut_leaves_tail(text: Seq<char>, cut: int, limit: nat)
    requires
        utf8_len(text) > limit,
        utf8_len(text) - limit <= cut <= utf8_len(text),
        is_char_boundary(encode_utf8(text), cut),
        forall|i: int|
            utf8_len(text) - limit <= i < cut ==> !is_char_boundary(encode_utf8(text), i),
    ensures
        encode_utf8(tail_within(text, limit)) == encode_utf8(text).subrange(
            cut,
            utf8_len(text) as int,
        ),
    decreases text.len(),
{
    broadcast use encode_utf8_valid_utf8;

    let bytes = encode_utf8(text);
    let rest = text.drop_first();
    let width = length_of_first_scalar(bytes);
    encode_utf8_first_scalar(text);
    assert(pop_first_scalar(bytes) =~= encode_utf8(rest));
    assert(is_char_boundary(bytes, cut) == is_char_boundary(encode_utf8(rest), cut - width));
    assert(cut >= width) by {
        reveal_with_fuel(is_char_boundary, 2);
    }
    if utf8_len(rest) <= limit {
        assert(is_char_boundary(bytes, width)) by {
            reveal_with_fuel(is_char_boundary, 2);
        }
        assert(cut == width);
        assert(tail_within(rest, limit) == rest);
    } else {
        assert forall|i: int| utf8_len(rest) - limit <= i < cut - width implies !is_char_boundary(
            encode_utf8(rest),
            i,
        ) by {
            assert(is_char_boundary(bytes, i + width) == is_char_boundary(encode_utf8(rest), i));
        }
        lemma_cut_leaves_tail(rest, cut - width, limit);
        assert(encode_utf8(rest).subrange(cut - width, utf8_len(rest) as int) =~= bytes.subrange(
            cut,
            bytes.len() as int,
        ));
    }
}

/// A character takes at most four bytes.
pub proof fn lemma_utf8_len_bound(text: Seq<char>)
    ensures
        utf8_len(text) <= 4 * text.len(),
    decreases text.len(),
{
    if text.len() > 0 {
        lemma_utf8_len_bound(text.drop_first());
    }
}

/// The longest tail within `limit` is a tail, it is within `limit`, and where it is not the
/// whole text it falls short of `limit` by less than one character.
pub proof fn lemma_tail_within(text: Seq<char>, limit: nat)
    ensures
        utf8_len(tail_within(text, limit)) <= limit,
        utf8_len(text) > limit ==> utf8_len(tail_within(text, limit)) + 4 > limit,
        tail_within(text, limit).is_suffix_of(text),
    decreases text.len(),
{
    if utf8_len(text) > limit {
        lemma_tail_within(text.drop_first(), limit);
        let tail = tail_within(text.drop_first(), limit);
        assert(tail == text.drop_first().skip(text.len() - 1 - tail.len()));
        assert(tail =~= text.skip(text.len() - tail.len()));
    } else {
        assert(text.skip(0) =~= text);
    }
}

/// Law: a cut leaves a tail within `limit`, and no longer tail is within it; so nothing is cut
/// off a text that is within `limit` as it stands.
pub proof fn law_cut_leaves_longest_tail(text: Seq<char>, limit: nat, start: int)
    requires
        0 <= start <= text.len(),
        utf8_len(text.skip(start)) <= limit,
    ensures
        tail_within(text, limit).is_suffix_of(text),
        utf8_len(tail_within(text, limit)) <= limit,
        tail_within(text, limit).len() >= text.len() - start,
        start == 0 ==> tail_within(text, limit) == text,
    decreases text.len(),
{
    lemma_tail_within(text, limit);
    assert(text.skip(0) =~= text);
    if utf8_len(text) > limit {
        assert(text.skip(start) =~= text.drop_first().skip(start - 1));
        law_cut_leaves_longest_tail(text.drop_first(), limit, start - 1);
    }
}

/// Law: the last characters of a text are a tail of it, of the length that was asked for or of
/// all that there is.
pub proof fn law_last_chars_are_a_tail(text: Seq<char>, count: nat)
    ensures
        last_chars(text, count).is_suffix_of(text),
        text.len() >= count ==> last_chars(text, count).len() == count,
        text.len() <= count ==> last_chars(text, count) == text,
{
    assert(text.skip(0) =~= text);
}

/// Two texts with the same encoding are the same text.
proof fn lemma_same_encoding(a: Seq<char>, b: Seq<char>)
    requires
        encode_utf8(a) == encode_utf8(b),
    ensures
        a == b,
{
    encode_utf8_decode_utf8(a);
    encode_utf8_decode_utf8(b);
}

/// Shortens `text` to its longest tail that takes at most `limit` bytes.
pub fn keep_tail(text: &mut String, limit: usize)
    ensures
        final(text)@ == tail_within(old(text)@, limit as nat),
{
    broadcast use encode_utf8_valid_utf8;

    let whole = text.as_str();
    let len: usize = whole.as_bytes().len();
    if len <= limit {
        return ;
    }
    let mut cut: usize = len - limit;
    while cut < len && !whole.is_char_boundary(cut)
        invariant
            whole@ == old(text)@,
            len == utf8_len(whole@),
            len > limit,
            len - limit <= cut <= len,
            forall|i: int| len - limit <= i < cut ==> !is_char_boundary(encode_utf8(whole@), i),
        decreases len - cut,
    {
        cut = cut + 1;
    }
    proof {
        is_char_boundary_start_end_of_seq(encode_utf8(whole@));
        lemma_cut_leaves_tail(whole@, cut as int, limit as nat);
    }
    let (_, tail) = whole.split_at(cut);
    proof {
        lemma_same_encoding(tail@, tail_within(whole@, limit as nat));
    }
    *text = tail.to_owned();
}

/// The last `count` characters of `text`.
pub fn take_last_chars(text: &str, count: usize) -> (tail: String)
    ensures
        tail@ == last_chars(text@, count as nat),
{
    let len: usize = text.unicode_len();
    if len <= count {
        text.to_owned()
    } else {
        let tail = text.substring_char(len - count, len).to_owned();
        assert(tail@ =~= text@.skip(len - count));
        tail
    }
}

} // verus!
