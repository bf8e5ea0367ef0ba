//! Decisions of the `bio pkg` commands that are made from their options
//! alone: what `list` lists, what `dependencies` asks for, and which
//! origin `sign` signs with.

use vstd::prelude::*;

verus! {

/// What `bio pkg list` lists.
#[derive(Clone, Debug, PartialEq, Eq)]
pub enum ListingType {
    /// Every installed package.
    AllPackages,
    /// The installed packages of one origin.
    Origin(String),
    /// The installed packages matching a package identifier.
    Ident(String),
}

/// What `bio pkg list` lists, from its options: `--all` first, then
/// `--origin`, then the package identifier. The options require one of
/// them to be given.
pub fn listing_type(all: bool, origin: Option<String>, pkg_ident: Option<String>) -> (r:
    ListingType)
    requires
        all || origin is Some || pkg_ident is Some,
    ensures
        all ==> r == ListingType::AllPackages,
        !all && origin is Some ==> r == ListingType::Origin(origin->0),
        !all && origin is None ==> r == ListingType::Ident(pkg_ident->0),
{
    if all {
        ListingType::AllPackages
    } else {
        match origin {
            Some(o) => ListingType::Origin(o),
            None => match pkg_ident {
                Some(i) => ListingType::Ident(i),
                None => unreached(),
            },
        }
    }
}

/// Whether `bio pkg dependencies` shows direct or transitive dependencies.
#[derive(Clone, Copy, Debug, PartialEq, Eq, Structural)]
pub enum Scope {
    Package,
    PackageAndDependencies,
}

/// Whether `bio pkg dependencies` shows what a package needs or what
/// needs it.
#[derive(Clone, Copy, Debug, PartialEq, Eq, Structural)]
pub enum DependencyRelation {
    Requires,
    Supports,
}

/// The query of `bio pkg dependencies`, from its `--transitive` and
/// `--reverse` flags.
pub fn dependency_query(transitive: bool, reverse: bool) -> (r: (Scope, DependencyRelation))
    ensures
        r.0 == (if transitive {
            Scope::PackageAndDependencies
        } else {
            Scope::Package
        }),
        r.1 == (if reverse {
            DependencyRelation::Supports
        } else {
            DependencyRelation::Requires
        }),
{
    let scope = if transitive {
        Scope::PackageAndDependencies
    } else {
        Scope::Package
    };
    let relation = if reverse {
        DependencyRelation::Supports
    } else {
        DependencyRelation::Requires
    };
    (scope, relation)
}

/// Why `bio pkg sign` has no origin to sign with.
#[derive(Clone, Copy, Debug, PartialEq, Eq, Structural)]
pub enum SignError {
    NoOriginSpecified,
}

/// The origin `bio pkg sign` signs with: the one given on the command
/// line, else the one in the CLI configuration.
pub fn signing_origin(origin: Option<String>, configured: Option<String>) -> (r: Result<
    String,
    SignError,
>)
    ensures
        match origin {
            Some(o) => r == Ok::<String, SignError>(o),
            None => match configured {
                Some(c) => r == Ok::<String, SignError>(c),
                None => r == Err::<String, SignError>(SignError::NoOriginSpecified),
            },
        },
{
    match origin {
        Some(o) => Ok(o),
        None => match configured {
            Some(c) => Ok(c),
            None => Err(SignError::NoOriginSpecified),
        },
    }
}

} // verus!
