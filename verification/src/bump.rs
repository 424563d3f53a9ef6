//! The next version: which change weighs most, and what it does to the
//! current version.

use crate::changeset::{models, ChangeKind, Changeset, ChangesetModel};
use crate::text::same_text;
use crate::version::{lemma_version_text_reads_back, strict_version, version_text, Version};
use vstd::prelude::*;
use vstd::string::*;

verus! {

/// Why no next version could be computed.
#[derive(Clone, Copy, Debug, PartialEq, Eq, Structural)]
pub enum BumpError {
    /// The kind of change is none of `MAJOR`, `MINOR`, `PATCH`.
    UnknownKind,
    /// The current version is not three numbers separated by dots.
    InvalidVersion,
    /// The number to raise is already the largest a version can hold.
    Overflow,
    /// There is no pending changeset.
    NothingPending,
}

/// The kind of change that `name` names. Only the three upper-case names are
/// kinds; anything else is rejected.
pub open spec fn kind_named(name: Seq<char>) -> Option<ChangeKind> {
    if name == "MAJOR"@ {
        Some(ChangeKind::Major)
    } else if name == "MINOR"@ {
        Some(ChangeKind::Minor)
    } else if name == "PATCH"@ {
        Some(ChangeKind::Patch)
    } else {
        None
    }
}

/// The name of a kind of change.
pub open spec fn kind_name(kind: ChangeKind) -> Seq<char> {
    match kind {
        ChangeKind::Major => "MAJOR"@,
        ChangeKind::Minor => "MINOR"@,
        ChangeKind::Patch => "PATCH"@,
    }
}

/// How much a kind of change weighs: major over minor over patch.
pub open spec fn weight(kind: ChangeKind) -> nat {
    match kind {
        ChangeKind::Major => 2,
        ChangeKind::Minor => 1,
        ChangeKind::Patch => 0,
    }
}

/// The kind that weighs most among `kinds`, or `None` where there are none.
pub open spec fn strongest(kinds: Seq<ChangeKind>) -> Option<ChangeKind> {
    if kinds.contains(ChangeKind::Major) {
        Some(ChangeKind::Major)
    } else if kinds.contains(ChangeKind::Minor) {
        Some(ChangeKind::Minor)
    } else if kinds.contains(ChangeKind::Patch) {
        Some(ChangeKind::Patch)
    } else {
        None
    }
}

/// The kinds of `changesets`, in order.
pub open spec fn kinds_of(changesets: Seq<ChangesetModel>) -> Seq<ChangeKind> {
    changesets.map_values(|c: ChangesetModel| c.change)
}

/// The version that follows `current` after a change of weight `kind`.
pub open spec fn next_version_for(current: Seq<char>, kind: ChangeKind) -> Result<
    Seq<char>,
    BumpError,
> {
    match strict_version(current) {
        None => Err(BumpError::InvalidVersion),
        Some(v) => if v.raised(kind) == u32::MAX {
            Err(BumpError::Overflow)
        } else {
            let (major, minor, patch) = v.bumped(kind);
            Ok(version_text(major as nat, minor as nat, patch as nat))
        },
    }
}

/// The version that follows `current` after a change of the kind that
/// `change` names.
pub open spec fn next_version(current: Seq<char>, change: Seq<char>) -> Result<
    Seq<char>,
    BumpError,
> {
    match kind_named(change) {
        None => Err(BumpError::UnknownKind),
        Some(kind) => next_version_for(current, kind),
    }
}

/// The version that follows `current` once `changesets` are released: the
/// change that weighs most decides.
pub open spec fn release_version(current: Seq<char>, changesets: Seq<ChangesetModel>) -> Result<
    Seq<char>,
    BumpError,
> {
    match strongest(kinds_of(changesets)) {
        None => Err(BumpError::NothingPending),
        Some(kind) => next_version_for(current, kind),
    }
}

/// The model of a version computed, or of the failure to compute one.
pub open spec fn bump_outcome(r: Result<String, BumpError>) -> Result<Seq<char>, BumpError> {
    match r {
        Ok(v) => Ok(v@),
        Err(e) => Err(e),
    }
}

impl ChangeKind {
    /// Reads a kind from its name.
    pub fn parse(name: &str) -> (kind: Option<ChangeKind>)
        ensures
            kind == kind_named(name@),
    {
        if same_text(name, "MAJOR") {
            Some(ChangeKind::Major)
        } else if same_text(name, "MINOR") {
            Some(ChangeKind::Minor)
        } else if same_text(name, "PATCH") {
            Some(ChangeKind::Patch)
        } else {
            None
        }
    }

    /// The name of the kind. It reads back as the kind.
    pub fn name(&self) -> (name: &'static str)
        ensures
            name@ == kind_name(*self),
            kind_named(name@) == Some(*self),
    {
        proof {
            reveal_strlit("MAJOR");
            reveal_strlit("MINOR");
            reveal_strlit("PATCH");
            assert("MAJOR"@[1] != "MINOR"@[1]);
            assert("MAJOR"@[0] != "PATCH"@[0]);
            assert("MINOR"@[0] != "PATCH"@[0]);
        }
        match self {
            ChangeKind::Major => "MAJOR",
            ChangeKind::Minor => "MINOR",
            ChangeKind::Patch => "PATCH",
        }
    }
}

/// The next version after `current` for a change of weight `kind`.
pub fn next_version_of(current: &str, kind: ChangeKind) -> (r: Result<String, BumpError>)
    ensures
        bump_outcome(r) == next_version_for(current@, kind),
{
    match Version::parse(current) {
        None => Err(BumpError::InvalidVersion),
        Some(v) => match v.bump(kind) {
            None => Err(BumpError::Overflow),
            Some(next) => Ok(next.render()),
        },
    }
}

/// The next version after `current` for a change of the kind named
/// `change`. A name that is none of `MAJOR`, `MINOR`, `PATCH` is rejected, as
/// is a current version that is not three numbers separated by dots.
pub fn calculate_next_version(current: &str, change: &str) -> (r: Result<String, BumpError>)
    ensures
        bump_outcome(r) == next_version(current@, change@),
{
    match ChangeKind::parse(change) {
        None => Err(BumpError::UnknownKind),
        Some(kind) => next_version_of(current, kind),
    }
}

/// The kind that weighs most among `changesets`; `None` where there are
/// none.
pub fn highest_change(changesets: &[Changeset]) -> (kind: Option<ChangeKind>)
    ensures
        kind == strongest(kinds_of(models(changesets@))),
{
    let ghost kinds = kinds_of(models(changesets@));
    let mut major: bool = false;
    let mut minor: bool = false;
    let mut patch: bool = false;
    let mut at: usize = 0;
    while at < changesets.len()
        invariant
            at <= changesets.len(),
            kinds == kinds_of(models(changesets@)),
            major == kinds.take(at as int).contains(ChangeKind::Major),
            minor == kinds.take(at as int).contains(ChangeKind::Minor),
            patch == kinds.take(at as int).contains(ChangeKind::Patch),
        decreases changesets.len() - at,
    {
        proof {
            let before = kinds.take(at as int);
            let after = kinds.take(at + 1);
            assert(after =~= before.push(kinds[at as int]));
            assert(kinds[at as int] == changesets@[at as int].change);
            assert forall|k: ChangeKind| after.contains(k) == (before.contains(k) || k == kinds[at as int]) by {
                if before.contains(k) {
                    let i = choose|i: int| 0 <= i < before.len() && before[i] == k;
                    assert(after[i] == k);
                }
                if k == kinds[at as int] {
                    assert(after[at as int] == k);
                }
            }
        }
        match changesets[at].change {
            ChangeKind::Major => {
                major = true;
            },
            ChangeKind::Minor => {
                minor = true;
            },
            ChangeKind::Patch => {
                patch = true;
            },
        }
        at += 1;
    }
    assert(kinds.take(at as int) =~= kinds);
    if major {
        Some(ChangeKind::Major)
    } else if minor {
        Some(ChangeKind::Minor)
    } else if patch {
        Some(ChangeKind::Patch)
    } else {
        None
    }
}

/// The version that follows `current` once `changesets` are released.
/// Whatever the order and number of the changesets, the one kind that weighs
/// most decides.
pub fn bump_version(current: &str, changesets: &[Changeset]) -> (r: Result<String, BumpError>)
    ensures
        bump_outcome(r) == release_version(current@, models(changesets@)),
{
    match highest_change(changesets) {
        None => Err(BumpError::NothingPending),
        Some(kind) => next_version_of(current, kind),
    }
}

/// Bump arithmetic, for every version: from a version that was written out,
/// a major change leads to `major+1.0.0`, a minor change to
/// `major.minor+1.0` and a patch to `major.minor.patch+1`, each written out.
pub proof fn lemma_bump_arithmetic(v: Version, kind: ChangeKind)
    requires
        v.raised(kind) < u32::MAX,
    ensures
        next_version_for(v.text(), kind) == Ok::<Seq<char>, BumpError>(
            match kind {
                ChangeKind::Major => version_text((v.major + 1) as nat, 0, 0),
                ChangeKind::Minor => version_text(v.major as nat, (v.minor + 1) as nat, 0),
                ChangeKind::Patch => version_text(
                    v.major as nat,
                    v.minor as nat,
                    (v.patch + 1) as nat,
                ),
            },
        ),
{
    lemma_version_text_reads_back(v);
}

/// The strongest kind is one of the kinds, and none of them weighs more.
pub proof fn lemma_strongest_weighs_most(kinds: Seq<ChangeKind>)
    ensures
        kinds.len() == 0 <==> strongest(kinds) is None,
        strongest(kinds) matches Some(k) ==> kinds.contains(k) && forall|i: int|
            0 <= i < kinds.len() ==> weight(#[trigger] kinds[i]) <= weight(k),
{
    if kinds.len() > 0 {
        let first = kinds[0];
        assert(kinds.contains(first));
    }
    if strongest(kinds) is Some {
        let k = strongest(kinds)->Some_0;
        assert forall|i: int| 0 <= i < kinds.len() implies weight(#[trigger] kinds[i]) <= weight(
            k,
        ) by {
            assert(kinds.contains(kinds[i]));
        }
    }
}

/// The next version depends on the current version and on the set of pending
/// changesets only: two batches that hold the same changesets, in whatever
/// order and however often, lead to the same version.
pub proof fn lemma_release_version_of_set(
    current: Seq<char>,
    a: Seq<ChangesetModel>,
    b: Seq<ChangesetModel>,
)
    requires
        a.to_set() == b.to_set(),
    ensures
        release_version(current, a) == release_version(current, b),
{
    assert forall|k: ChangeKind| kinds_of(a).contains(k) == kinds_of(b).contains(k) by {
        lemma_kind_present(a, b, k);
        lemma_kind_present(b, a, k);
    }
}

proof fn lemma_kind_present(a: Seq<ChangesetModel>, b: Seq<ChangesetModel>, k: ChangeKind)
    requires
        a.to_set() == b.to_set(),
    ensures
        kinds_of(a).contains(k) ==> kinds_of(b).contains(k),
{
    if kinds_of(a).contains(k) {
        let i = choose|i: int| 0 <= i < kinds_of(a).len() && kinds_of(a)[i] == k;
        assert(a.contains(a[i]));
        assert(a.to_set().contains(a[i]));
        assert(b.to_set().contains(a[i]));
        assert(b.contains(a[i]));
        let j = choose|j: int| 0 <= j < b.len() && b[j] == a[i];
        assert(kinds_of(b)[j] == k);
    }
}

/// With minor changes and patches pending, and nothing else, the next version
/// is the one a minor change leads to.
pub proof fn lemma_minor_outweighs_patch(current: Seq<char>, changesets: Seq<ChangesetModel>)
    requires
        kinds_of(changesets).to_set() == set![ChangeKind::Patch, ChangeKind::Minor],
    ensures
        release_version(current, changesets) == next_version_for(current, ChangeKind::Minor),
{
    let kinds = kinds_of(changesets);
    assert(kinds.to_set().contains(ChangeKind::Minor));
    assert(!kinds.to_set().contains(ChangeKind::Major));
    assert(kinds.contains(ChangeKind::Minor));
    assert(!kinds.contains(ChangeKind::Major));
}

} // verus!
