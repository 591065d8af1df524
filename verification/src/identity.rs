//! The identity of a thread as a number, read from the text that the
//! standard library prints for it.

use crate::text::{
    decimal, is_numeral, lemma_decimal_round_trip, numeral_value, parse_decimal, to_chars,
};
use vstd::prelude::*;

verus! {

/// The text for the thread numbered `n`: `ThreadId(`, its decimal numeral, `)`.
pub open spec fn thread_label(n: nat) -> Seq<char> {
    "ThreadId("@ + decimal(n) + ")"@
}

/// The number that a thread's text carries between `ThreadId(` and `)`:
/// a non-empty run of decimal digits.
pub open spec fn thread_number(text: Seq<char>) -> Option<nat> {
    let prefix = "ThreadId("@;
    let digits = text.subrange(prefix.len() as int, text.len() - 1);
    if text.len() >= prefix.len() + 2 && text.take(prefix.len() as int) == prefix && text.last()
        == ')' && is_numeral(digits) {
        Some(numeral_value(digits))
    } else {
        None
    }
}

/// The id of the thread whose text is `text`: the number that the text
/// carries, where it carries one that fits.
pub open spec fn thread_id_of(text: Seq<char>) -> Option<u64> {
    match thread_number(text) {
        Some(n) => if n <= u64::MAX {
            Some(n as u64)
        } else {
            None
        },
        None => None,
    }
}

/// A thread keeps its id, and two threads with different numbers get
/// different ids: the id read from the text of the thread numbered `a` is
/// `a`, every time.
pub proof fn lemma_threads_told_apart(a: u64, b: u64)
    ensures
        thread_id_of(thread_label(a as nat)) == Some(a),
        thread_id_of(thread_label(b as nat)) == Some(b),
        a != b ==> thread_id_of(thread_label(a as nat)) != thread_id_of(thread_label(b as nat)),
{
    lemma_thread_label_round_trip(a as nat);
    lemma_thread_label_round_trip(b as nat);
}

/// The text of a thread carries that thread's number, so that threads with
/// different numbers have different texts.
pub proof fn lemma_thread_label_round_trip(n: nat)
    ensures
        thread_number(thread_label(n)) == Some(n),
{
    reveal_strlit("ThreadId(");
    reveal_strlit(")");
    lemma_decimal_round_trip(n);
    let prefix = "ThreadId("@;
    let text = thread_label(n);
    assert(text.take(prefix.len() as int) == prefix);
    assert(text.subrange(prefix.len() as int, text.len() - 1) == decimal(n));
    assert(text.last() == ')');
}

/// Reads the number of a thread from the text printed for it, such as
/// `ThreadId(7)`. `None` where the text has another shape or the number
/// does not fit.
pub fn thread_id(text: &str) -> (id: Option<u64>)
    ensures
        id == thread_id_of(text@),
{
    let chars = to_chars(text);
    let prefix = to_chars("ThreadId(");
    let n = chars.len();
    let p = prefix.len();
    if n < p || n - p < 2 {
        return None;
    }
    let mut i: usize = 0;
    while i < p
        invariant
            i <= p <= n,
            p == prefix.len(),
            n == chars.len(),
            chars@ == text@,
            prefix@ == "ThreadId("@,
            forall|j: int| 0 <= j < i ==> chars[j] == prefix[j],
        decreases p - i,
    {
        if chars[i] != prefix[i] {
            assert(text@.take(p as int)[i as int] != prefix@[i as int]);
            return None;
        }
        i = i + 1;
    }
    assert(text@.take(p as int) == prefix@);
    if chars[n - 1] != ')' {
        return None;
    }
    parse_decimal(&chars, p, n - 1)
}

} // verus!
