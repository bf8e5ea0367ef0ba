//! Whether a supervisor binary is recent enough for this launcher, read
//! from the output of `bio-sup --version` (such as
//! `bio-sup 0.59.0/20180712161546` or `bio-sup 0.62.0-dev`).

use crate::text::chars_of;
use vstd::prelude::*;

verus! {

/// The characters `char::is_whitespace` accepts: those with the Unicode
/// `White_Space` property.
pub open spec fn is_whitespace(c: char) -> bool {
    let u = c as int;
    ||| 0x09 <= u <= 0x0D
    ||| u == 0x20
    ||| u == 0x85
    ||| u == 0xA0
    ||| u == 0x1680
    ||| 0x2000 <= u <= 0x200A
    ||| u == 0x2028
    ||| u == 0x2029
    ||| u == 0x202F
    ||| u == 0x205F
    ||| u == 0x3000
}

/// Whether `c` has the Unicode `White_Space` property, as
/// `char::is_whitespace` answers.
fn char_is_whitespace(c: char) -> (r: bool)
    ensures
        r == is_whitespace(c),
{
    let u: u32 = c as u32;
    (0x09 <= u && u <= 0x0D) || u == 0x20 || u == 0x85 || u == 0xA0 || u == 0x1680 || (0x2000 <= u
        && u <= 0x200A) || u == 0x2028 || u == 0x2029 || u == 0x202F || u == 0x205F || u == 0x3000
}

/// `s` without its trailing whitespace.
pub open spec fn trim_end(s: Seq<char>) -> Seq<char>
    decreases s.len(),
{
    if s.len() > 0 && is_whitespace(s.last()) {
        trim_end(s.drop_last())
    } else {
        s
    }
}

/// The run of non-whitespace characters that ends `s`.
pub open spec fn trailing_word(s: Seq<char>) -> Seq<char>
    decreases s.len(),
{
    if s.len() == 0 || is_whitespace(s.last()) {
        Seq::empty()
    } else {
        trailing_word(s.drop_last()).push(s.last())
    }
}

/// The last whitespace-separated word of `s` (what
/// `split_whitespace().last()` yields).
pub open spec fn last_word(s: Seq<char>) -> Seq<char> {
    trailing_word(trim_end(s))
}

/// `s` holds a character that is not whitespace.
pub open spec fn has_word(s: Seq<char>) -> bool {
    trim_end(s).len() > 0
}

/// The text of `w` before its first `/` or `-`: the version number
/// without a build stamp or a `-dev` suffix.
pub open spec fn version_field(w: Seq<char>) -> Seq<char>
    decreases w.len(),
{
    if w.len() == 0 || w[0] == '/' || w[0] == '-' {
        Seq::empty()
    } else {
        seq![w[0]] + version_field(w.drop_first())
    }
}

/// The version requirement a supervisor must meet.
pub const SUP_VERSION_REQ: &'static str = ">= 0.56";

/// `semver::Version`, a parsed semantic version, carried through unopened.
#[verifier::external_type_specification]
#[verifier::external_body]
pub struct ExVersion(semver::Version);

/// `semver::VersionReq`, a parsed version requirement, carried through
/// unopened.
#[verifier::external_type_specification]
#[verifier::external_body]
pub struct ExVersionReq(semver::VersionReq);

/// What semver's `Version::parse` makes of a text; `None` when it refuses
/// the text.
pub uninterp spec fn semver_version(text: Seq<char>) -> Option<semver::Version>;

/// What semver's `VersionReq::parse` makes of a text; `None` when it
/// refuses the text.
pub uninterp spec fn semver_requirement(text: Seq<char>) -> Option<semver::VersionReq>;

/// Whether semver's `VersionReq::matches` holds of the requirement spelled
/// by `requirement` and the version spelled by `version`.
pub uninterp spec fn semver_matches(requirement: Seq<char>, version: Seq<char>) -> bool;

/// Calls `semver::Version::parse`; its result is named `semver_version`.
#[verifier::external_body]
fn parse_version(text: &str) -> (r: Option<semver::Version>)
    ensures
        r == semver_version(text@),
{
    semver::Version::parse(text).ok()
}

/// Calls `semver::VersionReq::parse`; its result is named
/// `semver_requirement`.
#[verifier::external_body]
fn parse_requirement(text: &str) -> (r: Option<semver::VersionReq>)
    ensures
        r == semver_requirement(text@),
{
    semver::VersionReq::parse(text).ok()
}

/// Calls `semver::VersionReq::matches`, which depends on the requirement
/// and the version alone: for texts that parse to them, its result is
/// named `semver_matches`.
#[verifier::external_body]
fn requirement_matches(requirement: &semver::VersionReq, version: &semver::Version) -> (r: bool)
    ensures
        forall|rt: Seq<char>, vt: Seq<char>|
            #![trigger semver_requirement(rt), semver_version(vt)]
            semver_requirement(rt) == Some(*requirement) && semver_version(vt) == Some(*version)
                ==> r == semver_matches(rt, vt),
{
    requirement.matches(version)
}

/// Whether the version text `version` names a version that meets the
/// requirement text `requirement`: both must parse, and the version must
/// match the requirement.
pub open spec fn meets(requirement: Seq<char>, version: Seq<char>) -> bool {
    &&& semver_version(version) is Some
    &&& semver_requirement(requirement) is Some
    &&& semver_matches(requirement, version)
}

/// The positions `[start, end)` of the last word of `cs`.
fn last_word_bounds(cs: &Vec<char>) -> (r: (usize, usize))
    ensures
        r.0 <= r.1 <= cs.len(),
        cs@.subrange(r.0 as int, r.1 as int) == last_word(cs@),
        (r.0 < r.1) == has_word(cs@),
{
    let ghost s = cs@;
    let mut j = cs.len();
    assert(s.subrange(0, j as int) =~= s);
    while j > 0 && char_is_whitespace(cs[j - 1])
        invariant
            j <= cs.len(),
            s == cs@,
            trim_end(s) == trim_end(s.subrange(0, j as int)),
        decreases j,
    {
        assert(s.subrange(0, j as int).drop_last() =~= s.subrange(0, j - 1));
        j -= 1;
    }
    let end = j;
    assert(trim_end(s) == s.subrange(0, end as int));
    proof {
        assert(s.subrange(end as int, end as int) =~= Seq::<char>::empty());
    }
    while j > 0 && !char_is_whitespace(cs[j - 1])
        invariant
            j <= end <= cs.len(),
            s == cs@,
            trim_end(s) == s.subrange(0, end as int),
            trailing_word(s.subrange(0, end as int)) == trailing_word(s.subrange(0, j as int))
                + s.subrange(j as int, end as int),
        decreases j,
    {
        proof {
            let t = s.subrange(0, j as int);
            assert(t.drop_last() =~= s.subrange(0, j - 1));
            assert(trailing_word(t) == trailing_word(s.subrange(0, j - 1)).push(s[j - 1]));
            assert(trailing_word(s.subrange(0, j - 1)).push(s[j - 1]) + s.subrange(
                j as int,
                end as int,
            ) =~= trailing_word(s.subrange(0, j - 1)) + s.subrange(j - 1, end as int));
        }
        j -= 1;
    }
    proof {
        assert(trailing_word(s.subrange(0, j as int)) =~= Seq::<char>::empty());
        assert(last_word(s) =~= s.subrange(j as int, end as int));
    }
    (j, end)
}

/// The end of the version field of the word `cs[start..end]`.
fn version_field_end(cs: &Vec<char>, start: usize, end: usize) -> (k: usize)
    requires
        start <= end <= cs.len(),
    ensures
        start <= k <= end,
        cs@.subrange(start as int, k as int) == version_field(
            cs@.subrange(start as int, end as int),
        ),
{
    let ghost s = cs@;
    let mut k = start;
    assert(s.subrange(start as int, start as int) =~= Seq::<char>::empty());
    while k < end && cs[k] != '/' && cs[k] != '-'
        invariant
            start <= k <= end <= cs.len(),
            s == cs@,
            version_field(s.subrange(start as int, end as int)) == s.subrange(
                start as int,
                k as int,
            ) + version_field(s.subrange(k as int, end as int)),
        decreases end - k,
    {
        proof {
            let w = s.subrange(k as int, end as int);
            assert(w.drop_first() =~= s.subrange(k + 1, end as int));
            assert(s.subrange(start as int, k as int) + seq![s[k as int]] =~= s.subrange(
                start as int,
                k + 1,
            ));
            assert(s.subrange(start as int, k as int) + (seq![w[0]] + version_field(
                w.drop_first(),
            )) =~= s.subrange(start as int, k + 1) + version_field(s.subrange(k + 1, end as int)));
        }
        k += 1;
    }
    proof {
        assert(version_field(s.subrange(k as int, end as int)) =~= Seq::<char>::empty());
        assert(s.subrange(start as int, k as int) + Seq::<char>::empty() =~= s.subrange(
            start as int,
            k as int,
        ));
    }
    k
}

/// Whether the output of `bio-sup --version` names a supervisor version
/// that this launcher supports: its last word, cut before any `/` or `-`,
/// must parse as a semantic version that matches `SUP_VERSION_REQ`.
/// Output with no word at all (empty or only whitespace) names no version.
pub fn is_supported_supervisor_version(version_output: &str) -> (r: bool)
    ensures
        r == (has_word(version_output@) && meets(
            SUP_VERSION_REQ@,
            version_field(last_word(version_output@)),
        )),
{
    let cs = chars_of(version_output);
    let (start, end) = last_word_bounds(&cs);
    if start == end {
        return false;
    }
    let k = version_field_end(&cs, start, end);
    let version_str = version_output.substring_char(start, k);
    match parse_version(version_str) {
        None => false,
        Some(version) => match parse_requirement(SUP_VERSION_REQ) {
            None => false,
            Some(requirement) => requirement_matches(&requirement, &version),
        },
    }
}

} // verus!
