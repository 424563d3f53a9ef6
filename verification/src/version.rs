//! Versions: reading them, bumping them, and picking the largest.

use crate::changeset::{models, ChangeKind, Changeset, ChangesetModel};
use crate::number::{append_decimal, decimal, lemma_number_of_decimal, number, parse_number};
use crate::text::{chars_of, lemma_pieces_append, lemma_pieces_of_plain, optional_text, pieces};
use vstd::prelude::*;
use vstd::string::*;

verus! {

/// A version `major.minor.patch`.
#[derive(Clone, Copy, Debug, PartialEq, Eq, Structural)]
pub struct Version {
    pub major: u32,
    pub minor: u32,
    pub patch: u32,
}

/// The numbers among `texts`, in order: what is no number is passed over.
pub open spec fn numbers_among(texts: Seq<Seq<char>>) -> Seq<u32>
    decreases texts.len(),
{
    if texts.len() == 0 {
        Seq::<u32>::empty()
    } else {
        let before = numbers_among(texts.drop_last());
        match number(texts.last()) {
            Some(n) => before.push(n),
            None => before,
        }
    }
}

/// The numbers among the pieces of `s` between dots.
pub open spec fn components(s: Seq<char>) -> Seq<u32> {
    numbers_among(pieces(s, '.'))
}

/// The version that `s` spells: exactly three pieces between dots, each of
/// them a number.
pub open spec fn strict_version(s: Seq<char>) -> Option<Version> {
    let p = pieces(s, '.');
    if p.len() == 3 && number(p[0]) is Some && number(p[1]) is Some && number(p[2]) is Some {
        Some(
            Version {
                major: number(p[0])->Some_0,
                minor: number(p[1])->Some_0,
                patch: number(p[2])->Some_0,
            },
        )
    } else {
        None
    }
}

/// The version that `s` is taken for when nothing is rejected: the numbers
/// among its pieces if there are exactly three of them, and `0.0.0` in every
/// other case.
pub open spec fn lenient_version(s: Seq<char>) -> (u32, u32, u32) {
    let c = components(s);
    if c.len() == 3 {
        (c[0], c[1], c[2])
    } else {
        (0u32, 0u32, 0u32)
    }
}

/// `major.minor.patch` written out.
pub open spec fn version_text(major: nat, minor: nat, patch: nat) -> Seq<char> {
    decimal(major) + seq!['.'] + decimal(minor) + seq!['.'] + decimal(patch)
}

/// `a` comes before `b`, or is `b`, when major, minor and patch are compared
/// in that order.
pub open spec fn at_most(a: (u32, u32, u32), b: (u32, u32, u32)) -> bool {
    ||| a.0 < b.0
    ||| a.0 == b.0 && a.1 < b.1
    ||| a.0 == b.0 && a.1 == b.1 && a.2 <= b.2
}

/// The largest of `versions`, or `None` where there is none.
pub open spec fn largest(versions: Seq<(u32, u32, u32)>) -> Option<(u32, u32, u32)>
    decreases versions.len(),
{
    if versions.len() == 0 {
        None
    } else {
        match largest(versions.drop_last()) {
            None => Some(versions.last()),
            Some(m) => if at_most(m, versions.last()) {
                Some(versions.last())
            } else {
                Some(m)
            },
        }
    }
}

/// The versions recorded in `changesets`, each read leniently.
pub open spec fn recorded_versions(changesets: Seq<ChangesetModel>) -> Seq<(u32, u32, u32)> {
    changesets.map_values(|c: ChangesetModel| lenient_version(c.version))
}

/// The text of the largest version recorded in `changesets`.
pub open spec fn largest_version_text(changesets: Seq<ChangesetModel>) -> Option<Seq<char>> {
    match largest(recorded_versions(changesets)) {
        Some(v) => Some(version_text(v.0 as nat, v.1 as nat, v.2 as nat)),
        None => None,
    }
}

/// The largest version is one of the versions, and every one of them comes
/// before it or is it. There is none exactly where there are no versions.
pub proof fn lemma_largest_is_greatest(versions: Seq<(u32, u32, u32)>)
    ensures
        versions.len() == 0 <==> largest(versions) is None,
        largest(versions) matches Some(m) ==> versions.contains(m) && forall|i: int|
            0 <= i < versions.len() ==> at_most(#[trigger] versions[i], m),
    decreases versions.len(),
{
    if versions.len() > 0 {
        let before = versions.drop_last();
        lemma_largest_is_greatest(before);
        let m = largest(versions)->Some_0;
        if largest(before) is Some && !at_most(largest(before)->Some_0, versions.last()) {
            let i = choose|i: int| 0 <= i < before.len() && before[i] == m;
            assert(versions[i] == m);
        } else {
            assert(versions[versions.len() - 1] == m);
        }
        assert forall|i: int| 0 <= i < versions.len() implies at_most(#[trigger] versions[i], m) by {
            if i < before.len() {
                assert(before[i] == versions[i]);
                assert(at_most(before[i], largest(before)->Some_0));
            }
        }
    }
}

/// A number written in decimal holds no dot.
pub proof fn lemma_decimal_has_no_dot(n: nat)
    ensures
        !decimal(n).contains('.'),
{
    crate::number::lemma_decimal_reads_back(n);
}

/// A version written out reads back as itself, strictly and leniently.
pub proof fn lemma_version_text_reads_back(v: Version)
    ensures
        strict_version(v.text()) == Some(v),
        lenient_version(v.text()) == (v.major, v.minor, v.patch),
{
    let a = decimal(v.major as nat);
    let b = decimal(v.minor as nat);
    let c = decimal(v.patch as nat);
    lemma_decimal_has_no_dot(v.major as nat);
    lemma_decimal_has_no_dot(v.minor as nat);
    lemma_decimal_has_no_dot(v.patch as nat);
    lemma_pieces_of_plain(a, '.');
    lemma_pieces_append(a, b, '.');
    lemma_pieces_append(a + seq!['.'] + b, c, '.');
    let p = pieces(v.text(), '.');
    assert(p =~= seq![a, b, c]);
    lemma_number_of_decimal(v.major);
    lemma_number_of_decimal(v.minor);
    lemma_number_of_decimal(v.patch);
    lemma_numbers_among_all(p);
    assert(numbers_among(p).len() == 3);
}

/// There are as many numbers among `texts` as there are texts exactly when
/// each of them is a number, and then they are those numbers, place by place.
pub proof fn lemma_numbers_among_all(texts: Seq<Seq<char>>)
    ensures
        numbers_among(texts).len() <= texts.len(),
        numbers_among(texts).len() == texts.len() <==> forall|i: int|
            0 <= i < texts.len() ==> number(#[trigger] texts[i]) is Some,
        numbers_among(texts).len() == texts.len() ==> forall|i: int|
            0 <= i < texts.len() ==> number(#[trigger] texts[i]) == Some(numbers_among(texts)[i]),
    decreases texts.len(),
{
    if texts.len() > 0 {
        let before = texts.drop_last();
        lemma_numbers_among_all(before);
        assert forall|i: int| 0 <= i < before.len() implies before[i] == texts[i] by {}
        if numbers_among(texts).len() == texts.len() {
            assert(number(texts.last()) is Some);
            assert forall|i: int| 0 <= i < texts.len() implies number(#[trigger] texts[i]) == Some(
                numbers_among(texts)[i],
            ) by {
                if i < before.len() {
                    assert(number(before[i]) == Some(numbers_among(before)[i]));
                }
            }
        }
        if forall|i: int| 0 <= i < texts.len() ==> number(#[trigger] texts[i]) is Some {
            assert(number(texts.last()) is Some);
            assert forall|i: int| 0 <= i < before.len() implies number(
                #[trigger] before[i],
            ) is Some by {
                assert(number(texts[i]) is Some);
            }
        }
    }
}

/// Splits `chars` at the dots and reads each piece: returns the number of
/// dots and the numbers among the pieces.
fn read_components(chars: &Vec<char>) -> (r: (usize, Vec<u32>))
    ensures
        pieces(chars@, '.').len() == r.0 + 1,
        r.1@ == components(chars@),
{
    let mut dots: usize = 0;
    let mut found: Vec<u32> = Vec::new();
    let mut start: usize = 0;
    let mut at: usize = 0;
    let ghost mut done: Seq<Seq<char>> = Seq::empty();
    proof {
        assert(chars@.take(0) =~= Seq::<char>::empty());
        assert(pieces(chars@.take(0), '.') =~= done.push(chars@.subrange(0, 0)));
    }
    while at < chars.len()
        invariant
            start <= at <= chars.len(),
            dots <= at,
            done.len() == dots,
            pieces(chars@.take(at as int), '.') == done.push(
                chars@.subrange(start as int, at as int),
            ),
            found@ == numbers_among(done),
        decreases chars.len() - at,
    {
        proof {
            assert(chars@.take(at + 1).drop_last() =~= chars@.take(at as int));
            assert(done.push(chars@.subrange(start as int, at as int)).drop_last() =~= done);
        }
        if chars[at] == '.' {
            match parse_number(chars, start, at) {
                Some(n) => {
                    found.push(n);
                },
                None => {},
            }
            proof {
                let closed = done.push(chars@.subrange(start as int, at as int));
                assert(closed.drop_last() =~= done);
                done = closed;
                assert(chars@.subrange(at + 1, at + 1) =~= Seq::<char>::empty());
            }
            dots += 1;
            start = at + 1;
        } else {
            assert(chars@.subrange(start as int, at as int).push(chars@[at as int])
                =~= chars@.subrange(start as int, at + 1));
        }
        at += 1;
    }
    match parse_number(chars, start, at) {
        Some(n) => {
            found.push(n);
        },
        None => {},
    }
    proof {
        assert(chars@.take(at as int) =~= chars@);
        assert(done.push(chars@.subrange(start as int, at as int)).drop_last() =~= done);
    }
    (dots, found)
}

impl Version {
    /// The version after a change of weight `kind`, with numbers as large as
    /// they come.
    pub open spec fn bumped(self, kind: ChangeKind) -> (int, int, int) {
        match kind {
            ChangeKind::Major => (self.major + 1, 0, 0),
            ChangeKind::Minor => (self.major as int, self.minor + 1, 0),
            ChangeKind::Patch => (self.major as int, self.minor as int, self.patch + 1),
        }
    }

    /// The number that a change of weight `kind` raises.
    pub open spec fn raised(self, kind: ChangeKind) -> u32 {
        match kind {
            ChangeKind::Major => self.major,
            ChangeKind::Minor => self.minor,
            ChangeKind::Patch => self.patch,
        }
    }

    /// The version as text.
    pub open spec fn text(self) -> Seq<char> {
        version_text(self.major as nat, self.minor as nat, self.patch as nat)
    }

    /// Reads a version: three numbers separated by dots, nothing more.
    pub fn parse(s: &str) -> (v: Option<Version>)
        ensures
            v == strict_version(s@),
    {
        let chars = chars_of(s);
        let (dots, found) = read_components(&chars);
        proof {
            lemma_numbers_among_all(pieces(s@, '.'));
        }
        if dots == 2 && found.len() == 3 {
            Some(Version { major: found[0], minor: found[1], patch: found[2] })
        } else {
            None
        }
    }

    /// The next version after a change of weight `kind`: a major change
    /// raises the first number and clears the other two, a minor change
    /// raises the second and clears the third, a patch raises the third.
    /// `None` where the number to raise is already the largest there is.
    pub fn bump(self, kind: ChangeKind) -> (next: Option<Version>)
        ensures
            self.raised(kind) < u32::MAX ==> next is Some,
            next matches Some(v) ==> (v.major as int, v.minor as int, v.patch as int)
                == self.bumped(kind),
            self.raised(kind) == u32::MAX ==> next is None,
    {
        match kind {
            ChangeKind::Major => if self.major < u32::MAX {
                Some(Version { major: self.major + 1, minor: 0, patch: 0 })
            } else {
                None
            },
            ChangeKind::Minor => if self.minor < u32::MAX {
                Some(Version { major: self.major, minor: self.minor + 1, patch: 0 })
            } else {
                None
            },
            ChangeKind::Patch => if self.patch < u32::MAX {
                Some(Version { major: self.major, minor: self.minor, patch: self.patch + 1 })
            } else {
                None
            },
        }
    }

    /// Writes the version out as `major.minor.patch`.
    pub fn render(&self) -> (s: String)
        ensures
            s@ == self.text(),
    {
        render_version(self.major, self.minor, self.patch)
    }
}

/// Writes `major.minor.patch`.
fn render_version(major: u32, minor: u32, patch: u32) -> (s: String)
    ensures
        s@ == version_text(major as nat, minor as nat, patch as nat),
{
    let mut s = String::new();
    proof {
        reveal_strlit(".");
        assert("."@ =~= seq!['.']);
    }
    append_decimal(&mut s, major);
    s.append(".");
    append_decimal(&mut s, minor);
    s.append(".");
    append_decimal(&mut s, patch);
    assert(s@ =~= version_text(major as nat, minor as nat, patch as nat));
    s
}

/// Reads a version without rejecting anything. The text is cut at the dots
/// and the pieces that are no numbers are dropped; if exactly three numbers
/// are left they are the version, and if not the version is `0.0.0`. So
/// `1.x.2.3` reads as `1.2.3`, and `1.2` as `0.0.0`. The result is always
/// `Some`.
pub fn parse_version(version: &str) -> (r: Option<(u32, u32, u32)>)
    ensures
        r == Some(lenient_version(version@)),
{
    let chars = chars_of(version);
    let (_, found) = read_components(&chars);
    if found.len() == 3 {
        Some((found[0], found[1], found[2]))
    } else {
        Some((0, 0, 0))
    }
}

/// Whether `a` comes before `b` or is `b`.
pub fn version_at_most(a: (u32, u32, u32), b: (u32, u32, u32)) -> (r: bool)
    ensures
        r == at_most(a, b),
{
    a.0 < b.0 || (a.0 == b.0 && a.1 < b.1) || (a.0 == b.0 && a.1 == b.1 && a.2 <= b.2)
}

/// The largest version recorded in `changesets`, written out; `None` where
/// there are no changesets. Each recorded version is read as `parse_version`
/// reads it, so one that is no version counts as `0.0.0`.
pub fn find_largest_version(changesets: &[Changeset]) -> (r: Option<String>)
    ensures
        optional_text(r) == largest_version_text(models(changesets@)),
{
    let ghost all = recorded_versions(models(changesets@));
    let mut best: Option<(u32, u32, u32)> = None;
    let mut at: usize = 0;
    proof {
        assert(all.take(0) =~= Seq::<(u32, u32, u32)>::empty());
    }
    while at < changesets.len()
        invariant
            at <= changesets.len(),
            all == recorded_versions(models(changesets@)),
            best == largest(all.take(at as int)),
        decreases changesets.len() - at,
    {
        let parsed = parse_version(changesets[at].version.as_str());
        proof {
            assert(all.take(at + 1).drop_last() =~= all.take(at as int));
            assert(all.take(at + 1).last() == lenient_version(changesets@[at as int]@.version));
        }
        let candidate = match parsed {
            Some(v) => v,
            None => (0, 0, 0),
        };
        best = match best {
            None => Some(candidate),
            Some(m) => if version_at_most(m, candidate) {
                Some(candidate)
            } else {
                Some(m)
            },
        };
        at += 1;
    }
    assert(all.take(at as int) =~= all);
    match best {
        Some(v) => Some(render_version(v.0, v.1, v.2)),
        None => None,
    }
}

} // verus!
