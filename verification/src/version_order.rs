//! The order of versions: by the first number, then the second, then the
//! third, then the identifier, where no identifier comes before any
//! identifier and two identifiers compare as texts.

use crate::semver::SemVerView;
use std::cmp::Ordering;
use crate::text::{lemma_lex_asymmetric, lemma_lex_total, lemma_lex_transitive, lex_lt};
use vstd::prelude::*;

verus! {

/// Identifier `a` comes before identifier `b`.
pub open spec fn identifier_lt(a: Option<Seq<char>>, b: Option<Seq<char>>) -> bool {
    match (a, b) {
        (None, Some(_)) => true,
        (Some(x), Some(y)) => lex_lt(x, y),
        _ => false,
    }
}

/// Version `a` comes before version `b`.
pub open spec fn version_lt(a: SemVerView, b: SemVerView) -> bool {
    ||| a.major < b.major
    ||| a.major == b.major && a.minor < b.minor
    ||| a.major == b.major && a.minor == b.minor && a.patch < b.patch
    ||| a.major == b.major && a.minor == b.minor && a.patch == b.patch && identifier_lt(
        a.identifier,
        b.identifier,
    )
}

/// How version `a` stands to version `b`.
pub open spec fn version_order(a: SemVerView, b: SemVerView) -> Ordering {
    if version_lt(a, b) {
        Ordering::Less
    } else if version_lt(b, a) {
        Ordering::Greater
    } else {
        Ordering::Equal
    }
}

/// The two versions have the same three numbers.
pub open spec fn same_numbers(a: SemVerView, b: SemVerView) -> bool {
    a.major == b.major && a.minor == b.minor && a.patch == b.patch
}

/// No version comes before itself.
pub proof fn law_order_irreflexive(a: SemVerView)
    ensures
        !version_lt(a, a),
{
}

/// Of two versions at most one comes before the other.
pub proof fn law_order_asymmetric(a: SemVerView, b: SemVerView)
    requires
        version_lt(a, b),
    ensures
        !version_lt(b, a),
{
    if let (Some(x), Some(y)) = (a.identifier, b.identifier) {
        if lex_lt(x, y) {
            lemma_lex_asymmetric(x, y);
        }
    }
}

/// The order of versions is transitive.
pub proof fn law_order_transitive(a: SemVerView, b: SemVerView, c: SemVerView)
    requires
        version_lt(a, b),
        version_lt(b, c),
    ensures
        version_lt(a, c),
{
    if let (Some(x), Some(y), Some(z)) = (a.identifier, b.identifier, c.identifier) {
        if lex_lt(x, y) && lex_lt(y, z) {
            lemma_lex_transitive(x, y, z);
        }
    }
}

/// The order of versions is total: two versions are the same, or one comes
/// before the other.
pub proof fn law_order_total(a: SemVerView, b: SemVerView)
    ensures
        a == b || version_lt(a, b) || version_lt(b, a),
{
    if same_numbers(a, b) {
        if let (Some(x), Some(y)) = (a.identifier, b.identifier) {
            if x != y {
                lemma_lex_total(x, y);
            }
        }
    }
}

/// Two versions stand as equal to each other just when they are the same
/// version, and as less just when the first comes before the second.
pub proof fn law_order_tells_versions_apart(a: SemVerView, b: SemVerView)
    ensures
        version_order(a, b) == Ordering::Equal <==> a == b,
        version_order(a, b) == Ordering::Less <==> version_lt(a, b),
        version_order(a, b) == Ordering::Greater <==> version_lt(b, a),
{
    law_order_total(a, b);
    if version_lt(a, b) {
        law_order_asymmetric(a, b);
    }
}

/// The order follows the numbers: the version with the smaller first number
/// comes first; with the same first number, the one with the smaller second
/// number; with the same first and second numbers, the one with the smaller
/// third number.
pub proof fn law_order_follows_numbers(a: SemVerView, b: SemVerView)
    ensures
        a.major < b.major ==> version_lt(a, b),
        a.major == b.major && a.minor < b.minor ==> version_lt(a, b),
        a.major == b.major && a.minor == b.minor && a.patch < b.patch ==> version_lt(a, b),
{
}

/// Two versions with the same numbers are ordered by their identifiers
/// alone: the one without an identifier comes before the one with an
/// identifier, two different identifiers order them one way or the other,
/// and with the same identifier the two are the same version.
pub proof fn law_identifiers_decide(a: SemVerView, b: SemVerView)
    requires
        same_numbers(a, b),
    ensures
        version_lt(a, b) == identifier_lt(a.identifier, b.identifier),
        a.identifier is None && b.identifier is Some ==> version_lt(a, b),
        a.identifier != b.identifier ==> (version_lt(a, b) != version_lt(b, a)),
        a.identifier == b.identifier ==> a == b,
{
    law_order_total(a, b);
    if version_lt(a, b) {
        law_order_asymmetric(a, b);
    }
}

} // verus!
