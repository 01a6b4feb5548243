//! Reading an operator's reply to a numbered list.
//!
//! The shell shows an ordered list of choices, numbered from one, and hands the
//! line that the operator typed to [`pick`]. A reply counts when, with the
//! white space around it removed, it is an optional plus sign followed by
//! decimal digits, and the number names an entry of the list.

use vstd::prelude::*;
use crate::error::PipelineError;

verus! {

/// Unicode white space: the characters that are stripped from both ends of a reply.
pub open spec fn is_space(c: char) -> bool {
    let u = c as int;
    ||| 0x09 <= u <= 0x0d
    ||| u == 0x20
    ||| u == 0x85
    ||| u == 0xa0
    ||| u == 0x1680
    ||| 0x2000 <= u <= 0x200a
    ||| u == 0x2028
    ||| u == 0x2029
    ||| u == 0x202f
    ||| u == 0x205f
    ||| u == 0x3000
}

/// An ASCII decimal digit.
pub open spec fn is_digit(c: char) -> bool {
    '0' <= c <= '9'
}

/// `text` without its leading white space.
pub open spec fn trim_start(text: Seq<char>) -> Seq<char>
    decreases text.len(),
{
    if text.len() > 0 && is_space(text.first()) {
        trim_start(text.drop_first())
    } else {
        text
    }
}

/// `text` without its trailing white space.
pub open spec fn trim_end(text: Seq<char>) -> Seq<char>
    decreases text.len(),
{
    if text.len() > 0 && is_space(text.last()) {
        trim_end(text.drop_last())
    } else {
        text
    }
}

/// `text` without the white space at either end.
pub open spec fn trimmed(text: Seq<char>) -> Seq<char> {
    trim_end(trim_start(text))
}

/// Whether `text` is one or more decimal digits and nothing else.
pub open spec fn is_number(text: Seq<char>) -> bool {
    &&& text.len() > 0
    &&& forall|i: int| 0 <= i < text.len() ==> is_digit(#[trigger] text[i])
}

/// The number that a run of decimal digits denotes; leading zeros do not count.
pub open spec fn digits_value(digits: Seq<char>) -> nat
    decreases digits.len(),
{
    if digits.len() == 0 {
        0
    } else {
        (digits_value(digits.drop_last()) * 10 + (digits.last() as int - '0' as int)) as nat
    }
}

/// `text` without one leading plus sign, if it has one.
pub open spec fn unsigned_part(text: Seq<char>) -> Seq<char> {
    if text.len() > 0 && text.first() == '+' {
        text.drop_first()
    } else {
        text
    }
}

/// The position, counted from zero, that `reply` names in a list of `count`
/// entries numbered from one; `None` when the reply is not a number or the
/// number names no entry.
pub open spec fn chosen_index(reply: Seq<char>, count: nat) -> Option<nat> {
    let digits = unsigned_part(trimmed(reply));
    if is_number(digits) && 1 <= digits_value(digits) <= count {
        Some((digits_value(digits) - 1) as nat)
    } else {
        None
    }
}

/// Whether a reply holds nothing but white space: the operator only pressed Enter.
pub open spec fn is_blank(reply: Seq<char>) -> bool {
    trimmed(reply).len() == 0
}

/// Whether a reply to a yes-or-no question says no: it is the letter `n`,
/// white space aside. Every other reply goes on.
pub open spec fn is_no(reply: Seq<char>) -> bool {
    trimmed(reply) == seq!['n']
}

/// A run of digits denotes at least what any of its prefixes denotes.
proof fn lemma_value_grows(digits: Seq<char>, k: int)
    requires
        0 <= k <= digits.len(),
        forall|i: int| 0 <= i < digits.len() ==> is_digit(#[trigger] digits[i]),
    ensures
        digits_value(digits.take(k)) <= digits_value(digits),
    decreases digits.len() - k,
{
    if k == digits.len() {
        assert(digits.take(k) =~= digits);
    } else {
        let shorter = digits.drop_last();
        assert(shorter.take(k) =~= digits.take(k));
        lemma_value_grows(shorter, k);
    }
}

/// Dropping white space from the front does not change what is left of a text
/// once its front is trimmed.
proof fn lemma_trim_start_skips(text: Seq<char>, lo: int)
    requires
        0 <= lo <= text.len(),
        forall|i: int| 0 <= i < lo ==> is_space(#[trigger] text[i]),
    ensures
        trim_start(text) == trim_start(text.skip(lo)),
    decreases lo,
{
    if lo == 0 {
        assert(text.skip(0) =~= text);
    } else {
        let rest = text.drop_first();
        lemma_trim_start_skips(rest, lo - 1);
        assert(rest.skip(lo - 1) =~= text.skip(lo));
    }
}

/// Dropping white space from the back does not change what is left of a text
/// once its back is trimmed.
proof fn lemma_trim_end_skips(text: Seq<char>, hi: int)
    requires
        0 <= hi <= text.len(),
        forall|i: int| hi <= i < text.len() ==> is_space(#[trigger] text[i]),
    ensures
        trim_end(text) == trim_end(text.take(hi)),
    decreases text.len() - hi,
{
    if hi == text.len() {
        assert(text.take(hi) =~= text);
    } else {
        let rest = text.drop_last();
        lemma_trim_end_skips(rest, hi);
        assert(rest.take(hi) =~= text.take(hi));
    }
}

/// The characters of `text`, in order.
fn chars_of(text: &str) -> (chars: Vec<char>)
    ensures
        chars@ == text@,
{
    let mut chars: Vec<char> = Vec::new();
    for c in it: text.chars()
        invariant
            chars@ == it.seq().take(it.index() as int),
    {
        chars.push(c);
    }
    chars
}

fn space_char(c: char) -> (b: bool)
    ensures
        b == is_space(c),
{
    let u: u32 = c as u32;
    (0x09 <= u && u <= 0x0d) || u == 0x20 || u == 0x85 || u == 0xa0 || u == 0x1680 || (0x2000 <= u
        && u <= 0x200a) || u == 0x2028 || u == 0x2029 || u == 0x202f || u == 0x205f || u == 0x3000
}

/// The bounds `lo <= hi` of what is left of `chars` when the white space at
/// both ends is set aside.
fn trim_bounds(chars: &Vec<char>) -> (bounds: (usize, usize))
    ensures
        bounds.0 <= bounds.1 <= chars.len(),
        trimmed(chars@) == chars@.subrange(bounds.0 as int, bounds.1 as int),
{
    let n: usize = chars.len();
    let mut lo: usize = 0;
    while lo < n && space_char(chars[lo])
        invariant
            lo <= n == chars.len(),
            forall|i: int| 0 <= i < lo ==> is_space(#[trigger] chars@[i]),
        decreases n - lo,
    {
        lo += 1;
    }
    let mut hi: usize = n;
    while hi > lo && space_char(chars[hi - 1])
        invariant
            lo <= hi <= n == chars.len(),
            forall|i: int| hi <= i < n ==> is_space(#[trigger] chars@[i]),
        decreases hi,
    {
        hi -= 1;
    }
    proof {
        let text = chars@;
        let front = text.skip(lo as int);
        lemma_trim_start_skips(text, lo as int);
        lemma_trim_end_skips(front, hi - lo);
        assert(front.take(hi - lo) =~= text.subrange(lo as int, hi as int));
    }
    (lo, hi)
}

/// The characters of `text` that are left when the white space at both ends
/// is removed.
pub fn trimmed_chars(text: &str) -> (kept: Vec<char>)
    ensures
        kept@ == trimmed(text@),
{
    let chars = chars_of(text);
    let (lo, hi): (usize, usize) = trim_bounds(&chars);
    let mut kept: Vec<char> = Vec::new();
    let mut at: usize = lo;
    while at < hi
        invariant
            lo <= at <= hi <= chars.len(),
            kept@ == chars@.subrange(lo as int, at as int),
        decreases hi - at,
    {
        kept.push(chars[at]);
        at += 1;
    }
    kept
}

/// Whether the operator only pressed Enter.
pub fn blank(reply: &str) -> (b: bool)
    ensures
        b == is_blank(reply@),
{
    let chars = chars_of(reply);
    let (lo, hi): (usize, usize) = trim_bounds(&chars);
    lo == hi
}

/// Whether the operator answered a yes-or-no question with no.
pub fn declined(reply: &str) -> (b: bool)
    ensures
        b == is_no(reply@),
{
    let chars = chars_of(reply);
    let (lo, hi): (usize, usize) = trim_bounds(&chars);
    if hi - lo == 1 && chars[lo] == 'n' {
        assert(chars@.subrange(lo as int, hi as int) =~= seq!['n']);
        true
    } else {
        assert(chars@.subrange(lo as int, hi as int).len() != 1 || chars@.subrange(
            lo as int,
            hi as int,
        )[0] != 'n');
        false
    }
}

/// Reads a reply to a list of `count` entries that the shell numbered from one.
///
/// Returns the position of the chosen entry, counted from zero. A reply that
/// is not a number, or whose number is zero or above `count`, is an
/// [`PipelineError::InvalidSelection`].
pub fn pick(reply: &str, count: usize) -> (picked: Result<usize, PipelineError>)
    ensures
        match chosen_index(reply@, count as nat) {
            Some(index) => picked == Ok::<usize, PipelineError>(index as usize),
            None => picked == Err::<usize, PipelineError>(PipelineError::InvalidSelection),
        },
        picked is Ok ==> picked->Ok_0 < count,
{
    let chars = chars_of(reply);
    let (lo, hi): (usize, usize) = trim_bounds(&chars);
    let start: usize = if lo < hi && chars[lo] == '+' {
        lo + 1
    } else {
        lo
    };
    let ghost digits = chars@.subrange(start as int, hi as int);
    assert(unsigned_part(chars@.subrange(lo as int, hi as int)) =~= digits);
    if start == hi {
        return Err(PipelineError::InvalidSelection);
    }
    let mut value: usize = 0;
    let mut at: usize = start;
    while at < hi
        invariant
            start <= at <= hi <= chars.len(),
            digits == chars@.subrange(start as int, hi as int),
            digits == unsigned_part(trimmed(reply@)),
            forall|i: int| 0 <= i < at - start ==> is_digit(#[trigger] digits[i]),
            value == digits_value(digits.take(at - start)),
            value <= count,
        decreases hi - at,
    {
        let c = chars[at];
        assert(c == digits[at - start]);
        if !(c >= '0' && c <= '9') {
            return Err(PipelineError::InvalidSelection);
        }
        let d: u128 = (c as u32 - '0' as u32) as u128;
        let next: u128 = value as u128 * 10 + d;
        proof {
            let longer = digits.take(at - start + 1);
            assert(longer.drop_last() =~= digits.take(at - start));
            if next > count && is_number(digits) {
                lemma_value_grows(digits, at - start + 1);
            }
        }
        if next > count as u128 {
            return Err(PipelineError::InvalidSelection);
        }
        value = next as usize;
        at += 1;
    }
    proof {
        assert(digits.take(hi - start) =~= digits);
    }
    if value == 0 {
        Err(PipelineError::InvalidSelection)
    } else {
        Ok(value - 1)
    }
}

} // verus!
