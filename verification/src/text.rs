//! Text helpers shared by the rest of the crate: the characters of a string
//! and decimal numerals.

use vstd::prelude::*;
use vstd::std_specs::iter::IteratorSpec;

verus! {

/// `String::push` appends one character to the end of the string.
pub assume_specification[ String::push ](s: &mut String, c: char)
    ensures
        final(s)@ == old(s)@.push(c),
;

/// The character that writes the digit `d`.
pub open spec fn digit_char(d: nat) -> char {
    if d == 0 {
        '0'
    } else if d == 1 {
        '1'
    } else if d == 2 {
        '2'
    } else if d == 3 {
        '3'
    } else if d == 4 {
        '4'
    } else if d == 5 {
        '5'
    } else if d == 6 {
        '6'
    } else if d == 7 {
        '7'
    } else if d == 8 {
        '8'
    } else {
        '9'
    }
}

/// The digit that `c` writes, if it writes one.
pub open spec fn digit_value(c: char) -> Option<nat> {
    if c == '0' {
        Some(0nat)
    } else if c == '1' {
        Some(1nat)
    } else if c == '2' {
        Some(2nat)
    } else if c == '3' {
        Some(3nat)
    } else if c == '4' {
        Some(4nat)
    } else if c == '5' {
        Some(5nat)
    } else if c == '6' {
        Some(6nat)
    } else if c == '7' {
        Some(7nat)
    } else if c == '8' {
        Some(8nat)
    } else if c == '9' {
        Some(9nat)
    } else {
        None
    }
}

/// The decimal numeral of `n`: no sign, no leading zero but for `0` itself.
pub open spec fn decimal(n: nat) -> Seq<char>
    decreases n,
{
    if n < 10 {
        seq![digit_char(n)]
    } else {
        decimal(n / 10).push(digit_char(n % 10))
    }
}

/// Whether `s` is a non-empty run of decimal digits.
pub open spec fn is_numeral(s: Seq<char>) -> bool {
    s.len() > 0 && forall|i: int| 0 <= i < s.len() ==> (#[trigger] digit_value(s[i])) is Some
}

/// The number that a run of decimal digits writes, most significant digit first.
pub open spec fn numeral_value(s: Seq<char>) -> nat
    decreases s.len(),
{
    if s.len() == 0 {
        0
    } else {
        match digit_value(s.last()) {
            Some(d) => 10 * numeral_value(s.drop_last()) + d,
            None => 0,
        }
    }
}

/// A decimal numeral is a run of digits that writes the number it was made from.
pub proof fn lemma_decimal_round_trip(n: nat)
    ensures
        is_numeral(decimal(n)),
        numeral_value(decimal(n)) == n,
    decreases n,
{
    if n < 10 {
        let s = decimal(n);
        assert(s.len() == 1);
        assert(s[0] == digit_char(n));
        assert(s.last() == digit_char(n));
        assert(s.drop_last().len() == 0);
        assert(numeral_value(s.drop_last()) == 0);
    } else {
        lemma_decimal_round_trip(n / 10);
        let head = decimal(n / 10);
        let s = head.push(digit_char(n % 10));
        assert(s.last() == digit_char(n % 10));
        assert(s.drop_last() == head);
        assert forall|i: int| 0 <= i < s.len() implies (#[trigger] digit_value(s[i])) is Some by {
            if i < head.len() {
                assert(s[i] == head[i]);
            }
        }
    }
}

/// The view of a text that may be missing.
pub open spec fn text_view(text: Option<String>) -> Option<Seq<char>> {
    match text {
        Some(text) => Some(text@),
        None => None,
    }
}

/// A copy of a text that may be missing.
pub fn copy_text(text: &Option<String>) -> (copy: Option<String>)
    ensures
        copy == *text,
{
    match text {
        Some(text) => Some(text.clone()),
        None => None,
    }
}

/// The characters of `s`, in order.
pub fn to_chars(s: &str) -> (chars: Vec<char>)
    ensures
        chars@ == s@,
{
    let mut chars: Vec<char> = Vec::new();
    for c in iter: s.chars()
        invariant
            iter.seq() == s@,
            chars@ == iter.seq().take(iter.index()),
    {
        chars.push(c);
    }
    assert(s@.take(s@.len() as int) == s@);
    chars
}

fn digit_of(d: u64) -> (c: char)
    requires
        d < 10,
    ensures
        c == digit_char(d as nat),
{
    if d == 0 {
        '0'
    } else if d == 1 {
        '1'
    } else if d == 2 {
        '2'
    } else if d == 3 {
        '3'
    } else if d == 4 {
        '4'
    } else if d == 5 {
        '5'
    } else if d == 6 {
        '6'
    } else if d == 7 {
        '7'
    } else if d == 8 {
        '8'
    } else {
        '9'
    }
}

/// The numeral that stands before the last `digits.len()` digits of `decimal(n)`
/// once those digits have been split off and `rest` is what remains of `n`.
spec fn leading(rest: nat) -> Seq<char> {
    if rest == 0 {
        Seq::empty()
    } else {
        decimal(rest)
    }
}

/// Appends the decimal numeral of `n` to `out`.
pub fn push_decimal(out: &mut String, n: u64)
    ensures
        final(out)@ == old(out)@ + decimal(n as nat),
{
    let mut digits: Vec<char> = Vec::new();
    let ghost mut tail: Seq<char> = Seq::empty();
    let mut rest: u64 = n;
    digits.push(digit_of(rest % 10));
    proof {
        tail = seq![digit_char((rest % 10) as nat)];
        assert(decimal(n as nat) == leading((rest / 10) as nat) + tail);
    }
    rest = rest / 10;
    while rest > 0
        invariant
            digits.len() == tail.len(),
            digits.len() >= 1,
            forall|i: int| 0 <= i < tail.len() ==> tail[i] == digits[digits.len() - 1 - i],
            decimal(n as nat) == leading(rest as nat) + tail,
        decreases rest,
    {
        let d = digit_of(rest % 10);
        proof {
            let longer = seq![d] + tail;
            assert(decimal(rest as nat) == leading((rest / 10) as nat).push(d));
            assert(leading(rest as nat) + tail == leading((rest / 10) as nat) + longer);
            tail = longer;
        }
        digits.push(d);
        rest = rest / 10;
    }
    assert(decimal(n as nat) == tail);
    let mut i: usize = digits.len();
    while i > 0
        invariant
            i <= digits.len(),
            digits.len() == tail.len(),
            forall|j: int| 0 <= j < tail.len() ==> tail[j] == digits[digits.len() - 1 - j],
            out@ == old(out)@ + tail.take(digits.len() - i),
        decreases i,
    {
        i = i - 1;
        out.push(digits[i]);
        assert(tail.take(digits.len() - i) == tail.take(digits.len() - i - 1).push(
            tail[digits.len() - i - 1],
        ));
    }
    assert(tail.take(tail.len() as int) == tail);
}

fn value_of(c: char) -> (d: Option<u64>)
    ensures
        match d {
            Some(v) => digit_value(c) == Some(v as nat) && v < 10,
            None => digit_value(c) is None,
        },
{
    if c == '0' {
        Some(0)
    } else if c == '1' {
        Some(1)
    } else if c == '2' {
        Some(2)
    } else if c == '3' {
        Some(3)
    } else if c == '4' {
        Some(4)
    } else if c == '5' {
        Some(5)
    } else if c == '6' {
        Some(6)
    } else if c == '7' {
        Some(7)
    } else if c == '8' {
        Some(8)
    } else if c == '9' {
        Some(9)
    } else {
        None
    }
}

/// Longer runs of digits write larger numbers, or equal ones.
proof fn lemma_numeral_value_grows(s: Seq<char>, k: int)
    requires
        0 <= k <= s.len(),
        forall|i: int| 0 <= i < s.len() ==> (#[trigger] digit_value(s[i])) is Some,
    ensures
        numeral_value(s.take(k)) <= numeral_value(s),
    decreases s.len() - k,
{
    if k == s.len() {
        assert(s.take(k) == s);
    } else {
        lemma_numeral_value_grows(s, k + 1);
        let longer = s.take(k + 1);
        assert(longer.drop_last() == s.take(k));
        assert(longer.last() == s[k]);
        assert(digit_value(s[k]) is Some);
    }
}

/// Reads the run of decimal digits `chars[from..to]` as a `u64`: `None` where
/// there is no such range, where it is empty or holds anything but digits,
/// or where it writes a number that does not fit.
pub fn parse_decimal(chars: &Vec<char>, from: usize, to: usize) -> (value: Option<u64>)
    ensures
        value is Some <==> from <= to <= chars.len() && is_numeral(
            chars@.subrange(from as int, to as int),
        ) && numeral_value(chars@.subrange(from as int, to as int)) <= u64::MAX,
        value matches Some(v) ==> v == numeral_value(chars@.subrange(from as int, to as int)),
{
    if from >= to || to > chars.len() {
        return None;
    }
    let ghost s = chars@.subrange(from as int, to as int);
    let mut acc: u64 = 0;
    let mut i: usize = from;
    while i < to
        invariant
            from <= i <= to <= chars.len(),
            s == chars@.subrange(from as int, to as int),
            forall|j: int| 0 <= j < i - from ==> (#[trigger] digit_value(s[j])) is Some,
            acc == numeral_value(s.take(i - from)),
        decreases to - i,
    {
        let ghost shorter = s.take(i - from);
        let ghost longer = s.take(i - from + 1);
        proof {
            assert(longer.drop_last() == shorter);
            assert(longer.last() == s[i - from]);
            assert(s[i - from] == chars[i as int]);
        }
        match value_of(chars[i]) {
            None => {
                assert(digit_value(s[i - from]) is None);
                return None;
            },
            Some(d) => {
                if acc > (u64::MAX - d) / 10 {
                    proof {
                        assert(numeral_value(longer) > u64::MAX);
                        if is_numeral(s) {
                            lemma_numeral_value_grows(s, i - from + 1);
                        }
                    }
                    return None;
                }
                acc = acc * 10 + d;
            },
        }
        i = i + 1;
    }
    assert(s.take(s.len() as int) == s);
    Some(acc)
}

/// The views of a list of texts, in order.
pub open spec fn text_views(texts: Seq<String>) -> Seq<Seq<char>> {
    texts.map_values(|text: String| text@)
}

/// `template` with each `{}` replaced by the next of `values`, in order.
/// Once the values are used up, what is left of the template stays as it is.
pub open spec fn filled(template: Seq<char>, values: Seq<Seq<char>>) -> Seq<char>
    decreases template.len(),
{
    if template.len() == 0 {
        Seq::empty()
    } else if template.len() >= 2 && template[0] == '{' && template[1] == '}' && values.len() > 0 {
        values[0] + filled(template.skip(2), values.drop_first())
    } else {
        seq![template[0]] + filled(template.drop_first(), values)
    }
}

/// Formats `values` by `template`: each `{}` of the template is replaced by
/// the next value, in order.
pub fn fill(template: &str, values: &Vec<String>) -> (text: String)
    ensures
        text@ == filled(template@, text_views(values@)),
{
    let chars = to_chars(template);
    let n = chars.len();
    let mut text = String::new();
    let mut i: usize = 0;
    let mut k: usize = 0;
    assert(template@.skip(0) == template@);
    assert(text_views(values@).skip(0) == text_views(values@));
    while i < n
        invariant
            i <= n,
            k <= values.len(),
            n == chars.len(),
            chars@ == template@,
            text@ + filled(template@.skip(i as int), text_views(values@).skip(k as int)) == filled(
                template@,
                text_views(values@),
            ),
        decreases n - i,
    {
        let ghost rest = template@.skip(i as int);
        let ghost left = text_views(values@).skip(k as int);
        if chars[i] == '{' && i + 1 < n && chars[i + 1] == '}' && k < values.len() {
            proof {
                assert(rest.skip(2) == template@.skip(i + 2));
                assert(left.drop_first() == text_views(values@).skip(k + 1));
                assert(left[0] == values[k as int]@);
            }
            text.append(values[k].as_str());
            i = i + 2;
            k = k + 1;
        } else {
            proof {
                assert(rest.drop_first() == template@.skip(i + 1));
                assert(rest[0] == chars[i as int]);
                if rest.len() >= 2 {
                    assert(rest[1] == chars[i + 1]);
                }
            }
            text.push(chars[i]);
            i = i + 1;
        }
    }
    text
}

} // verus!
