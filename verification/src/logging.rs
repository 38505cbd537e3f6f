//! Log levels, as the command lines name them.
use vstd::prelude::*;

use crate::text::chars_of;

verus! {

/// A log level.
#[derive(Debug, Clone, Copy, PartialEq, Eq, Structural)]
pub enum LogLevel {
    Trace,
    Debug,
    Info,
    Warn,
    Error,
}

/// The code of `c` in lower case, for ASCII letters; the code of `c` otherwise.
pub open spec fn ascii_lower(c: char) -> int {
    if 'A' <= c && c <= 'Z' {
        (c as int) + 32
    } else {
        c as int
    }
}

/// `a` and `b` are equal once ASCII letters are put in lower case.
pub open spec fn eq_ignore_ascii_case(a: Seq<char>, b: Seq<char>) -> bool {
    a.len() == b.len() && forall|i: int| 0 <= i < a.len() ==> #[trigger] ascii_lower(a[i]) == ascii_lower(b[i])
}

/// The level a name denotes: `trace`, `debug`, `info`, `warn` or `error` in any
/// case; every other name denotes `Info`.
pub open spec fn spec_log_level(s: Seq<char>) -> LogLevel {
    if eq_ignore_ascii_case(s, seq!['t', 'r', 'a', 'c', 'e']) {
        LogLevel::Trace
    } else if eq_ignore_ascii_case(s, seq!['d', 'e', 'b', 'u', 'g']) {
        LogLevel::Debug
    } else if eq_ignore_ascii_case(s, seq!['w', 'a', 'r', 'n']) {
        LogLevel::Warn
    } else if eq_ignore_ascii_case(s, seq!['e', 'r', 'r', 'o', 'r']) {
        LogLevel::Error
    } else {
        LogLevel::Info
    }
}

fn lower(c: char) -> (r: u32)
    ensures
        r == ascii_lower(c),
{
    if 'A' <= c && c <= 'Z' {
        (c as u32) + 32
    } else {
        c as u32
    }
}

fn matches_word(v: &Vec<char>, w: &Vec<char>) -> (b: bool)
    ensures
        b == eq_ignore_ascii_case(v@, w@),
{
    if v.len() != w.len() {
        return false;
    }
    let mut i: usize = 0;
    while i < v.len()
        invariant
            v@.len() == w@.len(),
            i <= v@.len(),
            forall|j: int| 0 <= j < i ==> #[trigger] ascii_lower(v@[j]) == ascii_lower(w@[j]),
        decreases v@.len() - i,
    {
        if lower(v[i]) != lower(w[i]) {
            return false;
        }
        i = i + 1;
    }
    true
}

/// The level a name denotes, ignoring ASCII case; unknown names give `Info`.
pub fn parse_log_level(name: &str) -> (l: LogLevel)
    ensures
        l == spec_log_level(name@),
{
    let v = chars_of(name);
    let trace: Vec<char> = vec!['t', 'r', 'a', 'c', 'e'];
    let debug: Vec<char> = vec!['d', 'e', 'b', 'u', 'g'];
    let warn: Vec<char> = vec!['w', 'a', 'r', 'n'];
    let error: Vec<char> = vec!['e', 'r', 'r', 'o', 'r'];
    assert(trace@ =~= seq!['t', 'r', 'a', 'c', 'e']);
    assert(debug@ =~= seq!['d', 'e', 'b', 'u', 'g']);
    assert(warn@ =~= seq!['w', 'a', 'r', 'n']);
    assert(error@ =~= seq!['e', 'r', 'r', 'o', 'r']);
    if matches_word(&v, &trace) {
        LogLevel::Trace
    } else if matches_word(&v, &debug) {
        LogLevel::Debug
    } else if matches_word(&v, &warn) {
        LogLevel::Warn
    } else if matches_word(&v, &error) {
        LogLevel::Error
    } else {
        LogLevel::Info
    }
}

/// Names that differ only in the case of ASCII letters denote the same level.
pub proof fn law_log_level_ignores_case(s: Seq<char>, t: Seq<char>)
    requires
        eq_ignore_ascii_case(s, t),
    ensures
        spec_log_level(s) == spec_log_level(t),
{
    lemma_same_words(s, t, seq!['t', 'r', 'a', 'c', 'e']);
    lemma_same_words(s, t, seq!['d', 'e', 'b', 'u', 'g']);
    lemma_same_words(s, t, seq!['w', 'a', 'r', 'n']);
    lemma_same_words(s, t, seq!['e', 'r', 'r', 'o', 'r']);
}

proof fn lemma_same_words(s: Seq<char>, t: Seq<char>, w: Seq<char>)
    requires
        eq_ignore_ascii_case(s, t),
    ensures
        eq_ignore_ascii_case(s, w) <==> eq_ignore_ascii_case(t, w),
{
    if eq_ignore_ascii_case(s, w) {
        assert forall|i: int| 0 <= i < t.len() implies #[trigger] ascii_lower(t[i]) == ascii_lower(w[i]) by {
            assert(ascii_lower(s[i]) == ascii_lower(t[i]));
            assert(ascii_lower(s[i]) == ascii_lower(w[i]));
        }
    }
    if eq_ignore_ascii_case(t, w) {
        assert forall|i: int| 0 <= i < s.len() implies #[trigger] ascii_lower(s[i]) == ascii_lower(w[i]) by {
            assert(ascii_lower(s[i]) == ascii_lower(t[i]));
            assert(ascii_lower(t[i]) == ascii_lower(w[i]));
        }
    }
}

/// `s` spells the lower-case word `w` with each letter in either case: the
/// letter itself, or the capital that stands 32 code points below it.
pub open spec fn spells(s: Seq<char>, w: Seq<char>) -> bool {
    s.len() == w.len() && forall|i: int| 0 <= i < s.len() ==> (#[trigger] s[i] == w[i] || s[i] as int + 32 == w[i] as int)
}

proof fn lemma_spells(s: Seq<char>, w: Seq<char>)
    requires
        forall|i: int| 0 <= i < w.len() ==> 'a' <= #[trigger] w[i] && w[i] <= 'z',
    ensures
        spells(s, w) <==> eq_ignore_ascii_case(s, w),
{
    if spells(s, w) {
        assert forall|i: int| 0 <= i < s.len() implies #[trigger] ascii_lower(s[i]) == ascii_lower(w[i]) by {
            assert('a' <= w[i] && w[i] <= 'z');
        }
    }
    if eq_ignore_ascii_case(s, w) {
        assert forall|i: int| 0 <= i < s.len() implies (#[trigger] s[i] == w[i] || s[i] as int + 32 == w[i] as int) by {
            assert('a' <= w[i] && w[i] <= 'z');
            assert(ascii_lower(s[i]) == ascii_lower(w[i]));
        }
    }
}

/// The names of the levels, each letter in either case: `trace`, `debug`,
/// `warn` and `error` denote their levels, and every other name, `info` among
/// them, denotes `Info`.
pub proof fn law_log_level_names(s: Seq<char>)
    ensures
        spells(s, seq!['t', 'r', 'a', 'c', 'e']) ==> spec_log_level(s) == LogLevel::Trace,
        spells(s, seq!['d', 'e', 'b', 'u', 'g']) ==> spec_log_level(s) == LogLevel::Debug,
        spells(s, seq!['w', 'a', 'r', 'n']) ==> spec_log_level(s) == LogLevel::Warn,
        spells(s, seq!['e', 'r', 'r', 'o', 'r']) ==> spec_log_level(s) == LogLevel::Error,
        !spells(s, seq!['t', 'r', 'a', 'c', 'e']) && !spells(s, seq!['d', 'e', 'b', 'u', 'g']) && !spells(
            s,
            seq!['w', 'a', 'r', 'n'],
        ) && !spells(s, seq!['e', 'r', 'r', 'o', 'r']) ==> spec_log_level(s) == LogLevel::Info,
{
    let trace = seq!['t', 'r', 'a', 'c', 'e'];
    let debug = seq!['d', 'e', 'b', 'u', 'g'];
    let warn = seq!['w', 'a', 'r', 'n'];
    let error = seq!['e', 'r', 'r', 'o', 'r'];
    assert forall|i: int| 0 <= i < trace.len() implies 'a' <= #[trigger] trace[i] && trace[i] <= 'z' by {
        assert(0 <= i < 5);
    }
    assert forall|i: int| 0 <= i < debug.len() implies 'a' <= #[trigger] debug[i] && debug[i] <= 'z' by {
        assert(0 <= i < 5);
    }
    assert forall|i: int| 0 <= i < warn.len() implies 'a' <= #[trigger] warn[i] && warn[i] <= 'z' by {
        assert(0 <= i < 4);
    }
    assert forall|i: int| 0 <= i < error.len() implies 'a' <= #[trigger] error[i] && error[i] <= 'z' by {
        assert(0 <= i < 5);
    }
    lemma_spells(s, trace);
    lemma_spells(s, debug);
    lemma_spells(s, warn);
    lemma_spells(s, error);
    if s.len() > 0 {
        // The first letters tell the five-letter words apart.
        assert(spells(s, debug) ==> s[0] == debug[0] || s[0] as int + 32 == debug[0] as int);
        assert(spells(s, error) ==> s[0] == error[0] || s[0] as int + 32 == error[0] as int);
        assert(eq_ignore_ascii_case(s, trace) ==> ascii_lower(s[0]) == ascii_lower(trace[0]));
        assert(eq_ignore_ascii_case(s, debug) ==> ascii_lower(s[0]) == ascii_lower(debug[0]));
    }
}

} // verus!
