//! Escaping for socat's address grammar.
//!
//! Before the original command line is joined into the `exec:` address of the
//! relay invocation, every structural character of socat's grammar must be
//! preceded by a backslash; all other characters pass through unchanged.

use vstd::prelude::*;
use crate::strutil::push_char;

verus! {

/// The characters that socat's address grammar treats as structural.
pub open spec fn is_socat_special(c: char) -> bool {
    c == ':' || c == ',' || c == '!' || c == '"' || c == '\'' || c == '\\' || c == '(' || c == '['
        || c == '{'
}

/// The escaped form of a single character.
pub open spec fn spec_escape_char(c: char) -> Seq<char> {
    if is_socat_special(c) {
        seq!['\\', c]
    } else {
        seq![c]
    }
}

/// The escaped form of a whole string, character by character in order.
pub open spec fn spec_escape(s: Seq<char>) -> Seq<char>
    decreases s.len(),
{
    if s.len() == 0 {
        Seq::empty()
    } else {
        spec_escape(s.drop_last()) + spec_escape_char(s.last())
    }
}

/// Runtime test for [`is_socat_special`].
pub fn is_socat_special_char(c: char) -> (r: bool)
    ensures
        r == is_socat_special(c),
{
    c == ':' || c == ',' || c == '!' || c == '"' || c == '\'' || c == '\\' || c == '(' || c == '['
        || c == '{'
}

/// Escapes a command line for use inside a socat `exec:` address: each
/// structural character gains a preceding backslash, everything else is kept
/// verbatim and in order.
pub fn escape_for_socat(s: String) -> (r: String)
    ensures
        r@ == spec_escape(s@),
{
    let n = s.as_str().unicode_len();
    let mut out = String::new();
    let mut i: usize = 0;
    while i < n
        invariant
            n == s@.len(),
            i <= n,
            out@ == spec_escape(s@.subrange(0, i as int)),
        decreases n - i,
    {
        let c = s.as_str().get_char(i);
        if is_socat_special_char(c) {
            push_char(&mut out, '\\');
        }
        push_char(&mut out, c);
        proof {
            let pre = s@.subrange(0, (i + 1) as int);
            assert(pre.drop_last() =~= s@.subrange(0, i as int));
            assert(pre.last() == s@[i as int]);
        }
        i = i + 1;
    }
    proof {
        assert(s@.subrange(0, n as int) =~= s@);
    }
    out
}

} // verus!
