//! How the presence of bound service groups affects the starting of a
//! service.

use crate::error::Error;
use crate::text::text_eq;
use vstd::prelude::*;

verus! {

/// What `str::to_lowercase` returns for a text: the text with every
/// character replaced by its Unicode lowercase mapping.
pub uninterp spec fn lowercase(s: Seq<char>) -> Seq<char>;

/// Every character of `s` is ASCII.
pub open spec fn is_ascii_text(s: Seq<char>) -> bool {
    forall|i: int| 0 <= i < s.len() ==> (#[trigger] s[i] as int) < 128
}

/// `c` with `A`..`Z` mapped to `a`..`z`.
pub open spec fn ascii_lower_char(c: char) -> char {
    if 'A' as int <= c as int <= 'Z' as int {
        (c as int + 32) as char
    } else {
        c
    }
}

/// `s` with `A`..`Z` mapped to `a`..`z`.
pub open spec fn ascii_lowercase(s: Seq<char>) -> Seq<char> {
    s.map_values(|c: char| ascii_lower_char(c))
}

/// Calls `str::to_lowercase`; its result is named `lowercase`. On an
/// ASCII text it maps `A`..`Z` to `a`..`z` and keeps every other
/// character, as its documentation states for ASCII.
#[verifier::external_body]
fn to_lowercase(s: &str) -> (r: String)
    ensures
        r@ == lowercase(s@),
        is_ascii_text(s@) ==> r@ == ascii_lowercase(s@),
{
    s.to_lowercase()
}

/// Determines how the presence of bound service groups affects the
/// starting of a service.
#[derive(Clone, Copy, Debug, PartialEq, Eq, Hash, Structural)]
pub enum BindingMode {
    /// Binds may be satisfied at runtime, and are not required to be
    /// satisfied before a service starts.
    Relaxed,
    /// Binds *must* be satisfied before a service can start.
    Strict,
}

/// The text a binding mode is written as.
pub open spec fn binding_mode_text(m: BindingMode) -> Seq<char> {
    match m {
        BindingMode::Relaxed => "relaxed"@,
        BindingMode::Strict => "strict"@,
    }
}

/// Writing a binding mode and reading it back gives the same mode: its
/// text is its own lowercase form, and no other mode has that text.
pub proof fn law_binding_mode_text_roundtrip(m: BindingMode)
    ensures
        ascii_lowercase(binding_mode_text(m)) == binding_mode_text(m),
        is_ascii_text(binding_mode_text(m)),
        forall|n: BindingMode| #[trigger] binding_mode_text(n) == binding_mode_text(m) ==> n == m,
{
    reveal_strlit("relaxed");
    reveal_strlit("strict");
    assert(ascii_lowercase(binding_mode_text(m)) =~= binding_mode_text(m));
    assert forall|n: BindingMode| #[trigger] binding_mode_text(n) == binding_mode_text(m) implies n
        == m by {
        if n != m {
            assert(binding_mode_text(n).len() != binding_mode_text(m).len());
        }
    }
}

impl Default for BindingMode {
    /// Strict is the default, the behavior that has long been in place.
    fn default() -> (r: BindingMode)
        ensures
            r == BindingMode::Strict,
    {
        BindingMode::Strict
    }
}

impl BindingMode {
    /// The text this mode is written as: `relaxed` or `strict`.
    pub fn as_str(&self) -> (r: &'static str)
        ensures
            r@ == binding_mode_text(*self),
            *self == BindingMode::Relaxed ==> r@ == "relaxed"@,
            *self == BindingMode::Strict ==> r@ == "strict"@,
    {
        match self {
            BindingMode::Relaxed => "relaxed",
            BindingMode::Strict => "strict",
        }
    }

    /// The text this mode is written as, as an owned string.
    pub fn to_string(&self) -> (r: String)
        ensures
            r@ == binding_mode_text(*self),
    {
        String::from_str(self.as_str())
    }

    /// Reads a binding mode from the lowercase form `lowered` of `value`:
    /// `relaxed` or `strict`; anything else refuses `value`.
    pub fn from_lowercase(value: &str, lowered: &str) -> (r: Result<BindingMode, Error>)
        ensures
            match r {
                Ok(m) => lowered@ == binding_mode_text(m),
                Err(e) => lowered@ != "relaxed"@ && lowered@ != "strict"@
                    && e.refuses_binding_mode(value@),
            },
            lowered@ == "relaxed"@ ==> r == Ok::<BindingMode, Error>(BindingMode::Relaxed),
            lowered@ == "strict"@ ==> r == Ok::<BindingMode, Error>(BindingMode::Strict),
    {
        proof {
            reveal_strlit("relaxed");
            reveal_strlit("strict");
        }
        if text_eq(lowered, "relaxed") {
            Ok(BindingMode::Relaxed)
        } else if text_eq(lowered, "strict") {
            Ok(BindingMode::Strict)
        } else {
            Err(Error::BadBindingMode(String::from_str(value)))
        }
    }

    /// Reads a binding mode in any case: `relaxed` or `strict`.
    pub fn from_str(value: &str) -> (r: Result<BindingMode, Error>)
        ensures
            match r {
                Ok(m) => lowercase(value@) == binding_mode_text(m),
                Err(e) => lowercase(value@) != "relaxed"@ && lowercase(value@) != "strict"@
                    && e.refuses_binding_mode(value@),
            },
    {
        let lowered = to_lowercase(value);
        Self::from_lowercase(value, lowered.as_str())
    }
}

impl core::str::FromStr for BindingMode {
    type Err = Error;

    /// Reads a binding mode in any case, as `BindingMode::from_str` does.
    fn from_str(value: &str) -> (r: Result<BindingMode, Error>)
        ensures
            match r {
                Ok(m) => lowercase(value@) == binding_mode_text(m),
                Err(e) => lowercase(value@) != "relaxed"@ && lowercase(value@) != "strict"@
                    && e.refuses_binding_mode(value@),
            },
    {
        BindingMode::from_str(value)
    }
}

} // verus!
