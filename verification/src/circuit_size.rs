//! Presets of benchmark circuit sizes.
use vstd::prelude::*;
use crate::text::str_equal;

verus! {

/// Circuit size presets for benchmarking.
#[derive(Debug, Clone, Copy, PartialEq, Eq, Structural)]
pub enum CircuitSize {
    /// About 100 constraints.
    Tiny,
    /// About 10K constraints.
    Small,
    /// About 100K constraints.
    Medium,
    /// About 1M constraints.
    Large,
}

/// The characters of `s` in lower case, as `str::to_lowercase` gives them.
pub uninterp spec fn lowercase(s: Seq<char>) -> Seq<char>;

/// Every character is ASCII.
pub open spec fn is_ascii(s: Seq<char>) -> bool {
    forall|i: int| 0 <= i < s.len() ==> (#[trigger] s[i] as u32) < 128
}

/// An ASCII upper-case letter in lower case; any other character as it is.
pub open spec fn ascii_lower_char(c: char) -> char {
    if 'A' <= c <= 'Z' {
        ((c as u32) + 32) as char
    } else {
        c
    }
}

/// An ASCII lower-case letter in upper case; any other character as it is.
pub open spec fn ascii_upper_char(c: char) -> char {
    if 'a' <= c <= 'z' {
        ((c as u32) - 32) as char
    } else {
        c
    }
}

/// The string with its ASCII letters in lower case.
pub open spec fn ascii_lowercase(s: Seq<char>) -> Seq<char> {
    s.map_values(|c: char| ascii_lower_char(c))
}

/// The string with its ASCII letters in upper case.
pub open spec fn ascii_uppercase(s: Seq<char>) -> Seq<char> {
    s.map_values(|c: char| ascii_upper_char(c))
}

/// Lower-cases a string.
///
/// Calls `str::to_lowercase` (std). Claimed: the result's characters are
/// `lowercase(s)`; for an ASCII string, whose letters the Unicode lower-case
/// mapping sends from `A`-`Z` to `a`-`z`, that is `s` with its ASCII
/// letters lowered. What Unicode lower-casing does beyond ASCII is left
/// unstated.
#[verifier::external_body]
fn to_lowercase(s: &str) -> (r: String)
    ensures
        r@ == lowercase(s@),
        is_ascii(s@) ==> r@ == ascii_lowercase(s@),
{
    s.to_lowercase()
}

impl CircuitSize {
    /// The number of constraints of the preset.
    pub open spec fn spec_constraint_count(self) -> nat {
        match self {
            CircuitSize::Tiny => 100,
            CircuitSize::Small => 10_000,
            CircuitSize::Medium => 100_000,
            CircuitSize::Large => 1_000_000,
        }
    }

    /// The name of the preset in lower case.
    pub open spec fn name(self) -> Seq<char> {
        match self {
            CircuitSize::Tiny => "tiny"@,
            CircuitSize::Small => "small"@,
            CircuitSize::Medium => "medium"@,
            CircuitSize::Large => "large"@,
        }
    }

    /// The preset whose lower-case name is `s`, if any.
    pub open spec fn spec_from_lowercase(s: Seq<char>) -> Option<CircuitSize> {
        if s == "tiny"@ {
            Some(CircuitSize::Tiny)
        } else if s == "small"@ {
            Some(CircuitSize::Small)
        } else if s == "medium"@ {
            Some(CircuitSize::Medium)
        } else if s == "large"@ {
            Some(CircuitSize::Large)
        } else {
            None
        }
    }

    /// The number of constraints of the preset.
    pub fn constraint_count(&self) -> (r: usize)
        ensures
            r == self.spec_constraint_count(),
    {
        match self {
            CircuitSize::Tiny => 100,
            CircuitSize::Small => 10_000,
            CircuitSize::Medium => 100_000,
            CircuitSize::Large => 1_000_000,
        }
    }

    /// The preset whose name is `s`, which must already be in lower case.
    pub fn from_lowercase(s: &str) -> (r: Option<CircuitSize>)
        ensures
            r == Self::spec_from_lowercase(s@),
    {
        if str_equal(s, "tiny") {
            Some(CircuitSize::Tiny)
        } else if str_equal(s, "small") {
            Some(CircuitSize::Small)
        } else if str_equal(s, "medium") {
            Some(CircuitSize::Medium)
        } else if str_equal(s, "large") {
            Some(CircuitSize::Large)
        } else {
            None
        }
    }

    /// The preset whose name is `s`, in any case.
    pub fn from_str(s: &str) -> (r: Option<CircuitSize>)
        ensures
            r == Self::spec_from_lowercase(lowercase(s@)),
            is_ascii(s@) ==> r == Self::spec_from_lowercase(ascii_lowercase(s@)),
    {
        let l = to_lowercase(s);
        Self::from_lowercase(l.as_str())
    }
}

/// Each preset is found again from its lower-case name, and a name that
/// finds a preset is that preset's name.
pub proof fn lemma_from_lowercase_name(c: CircuitSize, s: Seq<char>)
    ensures
        CircuitSize::spec_from_lowercase(c.name()) == Some(c),
        CircuitSize::spec_from_lowercase(s) == Some(c) ==> s == c.name(),
{
    reveal_strlit("tiny");
    reveal_strlit("small");
    reveal_strlit("medium");
    reveal_strlit("large");
    assert("tiny"@.len() == 4 && "small"@.len() == 5 && "medium"@.len() == 6 && "large"@.len() == 5);
    assert("tiny"@ != "small"@);
    assert("tiny"@ != "medium"@);
    assert("tiny"@ != "large"@);
    assert("small"@ != "medium"@);
    assert("small"@[0] != "large"@[0]);
    assert("small"@ != "large"@);
    assert("medium"@ != "large"@);
}

/// For ASCII input, `from_str` ignores case: upper-casing or lower-casing
/// the ASCII letters of `s` leaves the string ASCII and the preset found
/// unchanged; and every spelling of a preset's name, in any mix of cases,
/// finds that preset.
pub proof fn lemma_from_str_ascii_case(s: Seq<char>, c: CircuitSize)
    requires
        is_ascii(s),
    ensures
        is_ascii(ascii_uppercase(s)),
        is_ascii(ascii_lowercase(s)),
        CircuitSize::spec_from_lowercase(ascii_lowercase(ascii_uppercase(s))) == CircuitSize::spec_from_lowercase(
            ascii_lowercase(s),
        ),
        CircuitSize::spec_from_lowercase(ascii_lowercase(ascii_lowercase(s))) == CircuitSize::spec_from_lowercase(
            ascii_lowercase(s),
        ),
        ascii_lowercase(s) == c.name() ==> CircuitSize::spec_from_lowercase(ascii_lowercase(s)) == Some(c),
        CircuitSize::spec_from_lowercase(ascii_lowercase(s)) == Some(c) ==> ascii_lowercase(s) == c.name(),
{
    let u = ascii_uppercase(s);
    let l = ascii_lowercase(s);
    assert forall|i: int| 0 <= i < u.len() implies (#[trigger] u[i] as u32) < 128 by {
        assert((s[i] as u32) < 128);
    }
    assert forall|i: int| 0 <= i < l.len() implies (#[trigger] l[i] as u32) < 128 by {
        assert((s[i] as u32) < 128);
    }
    assert(ascii_lowercase(u) =~= l);
    assert(ascii_lowercase(l) =~= l);
    lemma_from_lowercase_name(c, l);
}

} // verus!
