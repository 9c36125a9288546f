//! The named show delays, in milliseconds.

use vstd::prelude::*;

verus! {

/// 100 ms.
pub const DOT: u64 = 100;
/// 300 ms.
pub const DASH: u64 = 300;
/// 150 ms.
pub const DORK: u64 = 150;
/// One second.
pub const DROOL: u64 = 1000;
/// 50 ms.
pub const DAB: u64 = 50;
/// 40 ms.
pub const SLP: u64 = 40;
/// 750 ms.
pub const SLO: u64 = 750;
/// 375 ms.
pub const FAST: u64 = 375;
/// 50 ms.
pub const PHISH: u64 = 50;
/// Two seconds.
pub const FOURPHISH: u64 = 2000;

/// `c` with ASCII upper case letters turned to lower case; every other character is kept.
pub open spec fn ascii_lower(c: char) -> char {
    if 'A' <= c && c <= 'Z' {
        ((c as u32) + 32) as char
    } else {
        c
    }
}

/// `s` with ASCII upper case letters turned to lower case.
pub open spec fn ascii_lowercase(s: Seq<char>) -> Seq<char> {
    s.map_values(|c: char| ascii_lower(c))
}

/// The delay, in milliseconds, that a lower-case wait name stands for.
pub open spec fn named_wait_ms(name: Seq<char>) -> Option<u64> {
    if name == "dot"@ {
        Some(DOT)
    } else if name == "dash"@ {
        Some(DASH)
    } else if name == "dork"@ {
        Some(DORK)
    } else if name == "drool"@ {
        Some(DROOL)
    } else if name == "dab"@ {
        Some(DAB)
    } else if name == "slp"@ {
        Some(SLP)
    } else if name == "slo"@ {
        Some(SLO)
    } else if name == "fast"@ {
        Some(FAST)
    } else if name == "phish"@ {
        Some(PHISH)
    } else if name == "fourphish"@ {
        Some(FOURPHISH)
    } else {
        None
    }
}

/// The delay that a wait name stands for, whatever the case of its ASCII letters.
pub open spec fn spec_duration_for(name: Seq<char>) -> Option<u64> {
    named_wait_ms(ascii_lowercase(name))
}

/// Whether `name`, with its ASCII letters in lower case, is `word`.
fn lower_equals(name: &str, word: &str) -> (b: bool)
    ensures
        b == (ascii_lowercase(name@) == word@),
{
    let n = name.unicode_len();
    let m = word.unicode_len();
    if n != m {
        proof {
            assert(ascii_lowercase(name@).len() == name@.len());
        }
        return false;
    }
    let mut i: usize = 0;
    while i < n
        invariant
            i <= n,
            n == name@.len(),
            m == word@.len(),
            n == m,
            forall|k: int| 0 <= k < i ==> ascii_lower(name@[k]) == word@[k],
        decreases n - i,
    {
        let c = name.get_char(i);
        let d = word.get_char(i);
        let same = if 'A' <= c && c <= 'Z' {
            (c as u32) + 32 == (d as u32)
        } else {
            c == d
        };
        if !same {
            proof {
                assert(ascii_lowercase(name@)[i as int] == ascii_lower(c));
                if 'A' <= c && c <= 'Z' {
                    assert(ascii_lower(c) as u32 == (c as u32) + 32);
                }
            }
            return false;
        }
        proof {
            if 'A' <= c && c <= 'Z' {
                assert(ascii_lower(c) as u32 == (c as u32) + 32);
            }
        }
        i = i + 1;
    }
    assert(ascii_lowercase(name@) =~= word@);
    true
}

/// Maps a wait name (`"slp"`, `"dab"`, ...) onto its delay in milliseconds, ignoring the
/// case of ASCII letters; `None` for a name that is not one of the ten.
pub fn duration_for(name: &str) -> (res: Option<u64>)
    ensures
        res == spec_duration_for(name@),
{
    if lower_equals(name, "dot") {
        Some(DOT)
    } else if lower_equals(name, "dash") {
        Some(DASH)
    } else if lower_equals(name, "dork") {
        Some(DORK)
    } else if lower_equals(name, "drool") {
        Some(DROOL)
    } else if lower_equals(name, "dab") {
        Some(DAB)
    } else if lower_equals(name, "slp") {
        Some(SLP)
    } else if lower_equals(name, "slo") {
        Some(SLO)
    } else if lower_equals(name, "fast") {
        Some(FAST)
    } else if lower_equals(name, "phish") {
        Some(PHISH)
    } else if lower_equals(name, "fourphish") {
        Some(FOURPHISH)
    } else {
        None
    }
}

/// Wait names ignore the case of ASCII letters: a name and its lower-case form stand for
/// the same delay.
pub proof fn lemma_duration_for_ignores_case(name: Seq<char>)
    ensures
        spec_duration_for(ascii_lowercase(name)) == spec_duration_for(name),
{
    assert forall|c: char| #[trigger] ascii_lower(ascii_lower(c)) == ascii_lower(c) by {
        if 'A' <= c && c <= 'Z' {
            assert(ascii_lower(c) as u32 == (c as u32) + 32);
        }
    }
    assert(ascii_lowercase(ascii_lowercase(name)) =~= ascii_lowercase(name));
}

} // verus!
