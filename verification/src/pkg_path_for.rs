//! The `pkgPathFor` template helper: the install path of the first
//! dependency of the package that satisfies a given package identifier.

use vstd::prelude::*;

verus! {

/// Why `pkgPathFor` refused to render.
#[derive(Clone, Copy, Debug, PartialEq, Eq, Structural)]
pub enum HelperError {
    /// The helper's parameter is not a package identifier.
    InvalidPackageIdent,
}

impl HelperError {
    /// The message this error renders as.
    pub fn message(&self) -> (r: String)
        ensures
            r@ == "Invalid package identifier for \"pkgPathFor\""@,
    {
        String::from_str("Invalid package identifier for \"pkgPathFor\"")
    }
}

/// The first path present in `candidates`, or the empty text when none is.
pub open spec fn first_path(candidates: Seq<Option<String>>) -> Seq<char>
    decreases candidates.len(),
{
    if candidates.len() == 0 {
        Seq::empty()
    } else {
        match candidates[0] {
            Some(p) => p@,
            None => first_path(candidates.drop_first()),
        }
    }
}

/// The helper's output is the path of the first satisfying dependency:
/// where `candidates[i]` is the first present path, the output is that
/// path; where no path is present, the output is empty.
pub proof fn law_first_path(candidates: Seq<Option<String>>, i: int)
    ensures
        0 <= i < candidates.len() && candidates[i] is Some && (forall|j: int|
            0 <= j < i ==> #[trigger] candidates[j] is None) ==> first_path(candidates)
            == candidates[i]->0@,
        (forall|j: int| 0 <= j < candidates.len() ==> #[trigger] candidates[j] is None) ==> first_path(
            candidates,
        ) == Seq::<char>::empty(),
    decreases candidates.len(),
{
    if candidates.len() > 0 {
        let rest = candidates.drop_first();
        law_first_path(rest, i - 1);
        assert forall|j: int| 0 <= j < rest.len() implies #[trigger] rest[j] == candidates[j + 1] by {}
        if 0 < i < candidates.len() && candidates[i] is Some && (forall|j: int|
            0 <= j < i ==> #[trigger] candidates[j] is None) {
            assert(candidates[0] is None);
            assert(rest[i - 1] == candidates[i]);
            assert forall|j: int| 0 <= j < i - 1 implies #[trigger] rest[j] is None by {
                assert(candidates[j + 1] is None);
            }
        }
        if forall|j: int| 0 <= j < candidates.len() ==> #[trigger] candidates[j] is None {
            assert(candidates[0] is None);
            assert forall|j: int| 0 <= j < rest.len() implies #[trigger] rest[j] is None by {
                assert(candidates[j + 1] is None);
            }
        }
    }
}

/// The `pkgPathFor` template helper.
#[derive(Clone, Copy, Debug)]
pub struct PkgPathForHelper;

impl PkgPathForHelper {
    /// Renders the helper. `param_is_ident` tells whether the helper's
    /// parameter is a package identifier; `candidates[i]` is the install
    /// path of the `i`-th dependency when that dependency satisfies the
    /// identifier, `None` otherwise. The output is the first such path,
    /// or nothing when no dependency satisfies it.
    pub fn call(&self, param_is_ident: bool, candidates: &Vec<Option<String>>) -> (r: Result<
        String,
        HelperError,
    >)
        ensures
            match r {
                Ok(out) => param_is_ident && out@ == first_path(candidates@),
                Err(e) => !param_is_ident && e == HelperError::InvalidPackageIdent,
            },
            forall|i: int|
                0 <= i < candidates@.len() && #[trigger] candidates@[i] is Some && (forall|j: int|
                    0 <= j < i ==> #[trigger] candidates@[j] is None) ==> (r matches Ok(out)
                    ==> out@ == candidates@[i]->0@),
            (forall|j: int| 0 <= j < candidates@.len() ==> #[trigger] candidates@[j] is None) ==> (
            r matches Ok(out) ==> out@ == Seq::<char>::empty()),
    {
        proof {
            assert forall|i: int|
                0 <= i < candidates@.len() && #[trigger] candidates@[i] is Some && (forall|j: int|
                    0 <= j < i ==> #[trigger] candidates@[j] is None) implies first_path(candidates@)
                == candidates@[i]->0@ by {
                law_first_path(candidates@, i);
            }
            law_first_path(candidates@, 0);
        }
        if !param_is_ident {
            return Err(HelperError::InvalidPackageIdent);
        }
        let mut i: usize = 0;
        assert(candidates@.skip(0) =~= candidates@);
        while i < candidates.len()
            invariant
                i <= candidates.len(),
                param_is_ident,
                first_path(candidates@) == first_path(candidates@.skip(i as int)),
                forall|k: int|
                    0 <= k < candidates@.len() && #[trigger] candidates@[k] is Some && (forall|j: int|
                        0 <= j < k ==> #[trigger] candidates@[j] is None) ==> first_path(candidates@)
                        == candidates@[k]->0@,
            decreases candidates.len() - i,
        {
            assert(candidates@.skip(i as int).drop_first() =~= candidates@.skip(i + 1));
            assert(candidates@.skip(i as int)[0] == candidates@[i as int]);
            match &candidates[i] {
                Some(path) => {
                    return Ok(path.clone());
                },
                None => {},
            }
            i += 1;
        }
        Ok(String::new())
    }
}

} // verus!
