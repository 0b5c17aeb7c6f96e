//! Release versions: `MAJOR.MINOR.PATCH` with any `-prerelease` suffix
//! ignored and missing or unparseable components read as zero, compared
//! component by component; and the apply policy over them.

use std::cmp::Ordering;

use vstd::prelude::*;

use crate::text::{chars_of, parse_u64, parse_u64_chars, split_chars, split_on};
use super::ApplyPolicy;

verus! {

/// The part of a version before its first `-` (the prerelease suffix).
pub open spec fn semver_core(s: Seq<char>) -> Seq<char> {
    split_on(s, '-')[0]
}

/// Component `i` of a version: its number, or zero when it is missing or
/// does not parse as a `u64`.
pub open spec fn semver_part(s: Seq<char>, i: int) -> u64 {
    let parts = split_on(semver_core(s), '.');
    if 0 <= i < parts.len() {
        match parse_u64(parts[i]) {
            Some(n) => n,
            None => 0,
        }
    } else {
        0
    }
}

/// The `(major, minor, patch)` a version string reads as.
pub open spec fn semver(s: Seq<char>) -> (u64, u64, u64) {
    (semver_part(s, 0), semver_part(s, 1), semver_part(s, 2))
}

/// Lexicographic order on version triples.
pub open spec fn triple_lt(a: (u64, u64, u64), b: (u64, u64, u64)) -> bool {
    a.0 < b.0 || (a.0 == b.0 && (a.1 < b.1 || (a.1 == b.1 && a.2 < b.2)))
}

/// Read a version as `(major, minor, patch)`.
pub fn parse_semver(s: &str) -> (r: (u64, u64, u64))
    ensures
        r == semver(s@),
{
    let cs = chars_of(s);
    let dash = split_chars(&cs, '-');
    let core = &dash[0];
    let parts = split_chars(core, '.');
    let mut out: [u64; 3] = [0, 0, 0];
    let mut i: usize = 0;
    while i < 3
        invariant
            i <= 3,
            core@ == semver_core(s@),
            parts@.len() == split_on(core@, '.').len(),
            forall|k: int| 0 <= k < parts@.len() ==> #[trigger] parts@[k]@ == split_on(core@, '.')[k],
            forall|k: int| 0 <= k < i ==> out@[k] == #[trigger] semver_part(s@, k),
        decreases 3 - i,
    {
        let v = if i < parts.len() {
            match parse_u64_chars(&parts[i]) {
                Some(n) => n,
                None => 0,
            }
        } else {
            0
        };
        out.set(i, v);
        i = i + 1;
    }
    (out[0], out[1], out[2])
}

/// Is `a` an older version than `b`?
pub fn is_older(a: &str, b: &str) -> (r: bool)
    ensures
        r == triple_lt(semver(a@), semver(b@)),
{
    let x = parse_semver(a);
    let y = parse_semver(b);
    x.0 < y.0 || (x.0 == y.0 && (x.1 < y.1 || (x.1 == y.1 && x.2 < y.2)))
}

/// Compare two versions.
pub fn compare_semver(a: &str, b: &str) -> (r: Ordering)
    ensures
        (r == Ordering::Less) == triple_lt(semver(a@), semver(b@)),
        (r == Ordering::Equal) == (semver(a@) == semver(b@)),
        (r == Ordering::Greater) == triple_lt(semver(b@), semver(a@)),
{
    let x = parse_semver(a);
    let y = parse_semver(b);
    if x.0 < y.0 || (x.0 == y.0 && (x.1 < y.1 || (x.1 == y.1 && x.2 < y.2))) {
        Ordering::Less
    } else if x.0 == y.0 && x.1 == y.1 && x.2 == y.2 {
        Ordering::Equal
    } else {
        Ordering::Greater
    }
}

/// Whether `policy` lets an update go from `current` to `latest`.
pub open spec fn allows(policy: ApplyPolicy, current: (u64, u64, u64), latest: (u64, u64, u64)) -> bool {
    match policy {
        ApplyPolicy::Never => false,
        ApplyPolicy::All => true,
        ApplyPolicy::Minor => latest.0 == current.0,
        ApplyPolicy::Patch => latest.0 == current.0 && latest.1 == current.1,
    }
}

/// May `policy` stage the jump from `current` to `latest`?
pub fn policy_allows(policy: ApplyPolicy, current: &str, latest: &str) -> (r: bool)
    ensures
        r == allows(policy, semver(current@), semver(latest@)),
{
    let c = parse_semver(current);
    let l = parse_semver(latest);
    match policy {
        ApplyPolicy::Never => false,
        ApplyPolicy::All => true,
        ApplyPolicy::Minor => l.0 == c.0,
        ApplyPolicy::Patch => l.0 == c.0 && l.1 == c.1,
    }
}

/// Exactly one of "before", "same", "after" holds between two versions.
pub proof fn law_semver_trichotomy(a: Seq<char>, b: Seq<char>)
    ensures
        triple_lt(semver(a), semver(b)) || semver(a) == semver(b) || triple_lt(semver(b), semver(a)),
        !(triple_lt(semver(a), semver(b)) && triple_lt(semver(b), semver(a))),
        !(triple_lt(semver(a), semver(b)) && semver(a) == semver(b)),
{
}

/// "Older than" is transitive.
pub proof fn law_semver_transitive(a: Seq<char>, b: Seq<char>, c: Seq<char>)
    requires
        triple_lt(semver(a), semver(b)),
        triple_lt(semver(b), semver(c)),
    ensures
        triple_lt(semver(a), semver(c)),
{
}

/// The policies are nested: what `Patch` allows `Minor` allows, and what
/// `Minor` allows `All` allows; `Never` allows nothing.
pub proof fn law_policies_nest(current: (u64, u64, u64), latest: (u64, u64, u64))
    ensures
        allows(ApplyPolicy::Patch, current, latest) ==> allows(ApplyPolicy::Minor, current, latest),
        allows(ApplyPolicy::Minor, current, latest) ==> allows(ApplyPolicy::All, current, latest),
        !allows(ApplyPolicy::Never, current, latest),
{
}

} // verus!
