//! Choosing the files that carry the version, at project setup.
//!
//! The files found in the project are offered in a fixed order: the two
//! usual manifests first, then the rest in alphabetical order. What the
//! author picks is added to the selection, and nothing is selected twice.
//!
//! The asking itself is done by the caller. [`PathSelection`] says which
//! question comes next and takes each answer; the selection it hands out at
//! the end is never empty.

use crate::text::{blank, chars_of, is_blank, same_text, texts};
use vstd::prelude::*;
use vstd::string::*;

verus! {

/// The manifest of a Python project.
pub const PYPROJECT: &'static str = "pyproject.toml";

/// The manifest of a Rust project.
pub const CARGO: &'static str = "Cargo.toml";

/// `a` stands before `b` in the dictionary: at the first place where they
/// differ `a` has the smaller character, or `a` ends there and `b` goes on.
pub open spec fn text_before(a: Seq<char>, b: Seq<char>) -> bool
    decreases a.len(),
{
    if b.len() == 0 {
        false
    } else if a.len() == 0 {
        true
    } else if a[0] != b[0] {
        a[0] < b[0]
    } else {
        text_before(a.skip(1), b.skip(1))
    }
}

/// Each text stands before the next.
pub open spec fn ascending(list: Seq<Seq<char>>) -> bool {
    forall|i: int, j: int| 0 <= i < j < list.len() ==> text_before(list[i], list[j])
}

/// No text stands before itself.
pub proof fn lemma_before_irreflexive(a: Seq<char>)
    ensures
        !text_before(a, a),
    decreases a.len(),
{
    if a.len() > 0 {
        lemma_before_irreflexive(a.skip(1));
    }
}

/// What stands before a text stands before all that the text stands
/// before.
pub proof fn lemma_before_transitive(a: Seq<char>, b: Seq<char>, c: Seq<char>)
    requires
        text_before(a, b),
        text_before(b, c),
    ensures
        text_before(a, c),
    decreases a.len(),
{
    if a.len() > 0 && a[0] == b[0] && b[0] == c[0] {
        lemma_before_transitive(a.skip(1), b.skip(1), c.skip(1));
    }
}

/// Of two texts that differ one stands before the other.
pub proof fn lemma_before_total(a: Seq<char>, b: Seq<char>)
    ensures
        text_before(a, b) || text_before(b, a) || a == b,
    decreases a.len(),
{
    if a.len() == 0 && b.len() == 0 {
        assert(a =~= b);
    } else if a.len() == 0 {
        assert(text_before(a, b));
    } else if b.len() == 0 {
        assert(text_before(b, a));
    } else if a[0] == b[0] {
        lemma_before_total(a.skip(1), b.skip(1));
        if a.skip(1) == b.skip(1) {
            assert(a =~= seq![a[0]] + a.skip(1));
            assert(b =~= seq![b[0]] + b.skip(1));
        }
    } else {
        assert(a[0] < b[0] || b[0] < a[0]);
    }
}

/// An ascending list holds no text twice.
pub proof fn lemma_ascending_holds_once(list: Seq<Seq<char>>)
    requires
        ascending(list),
    ensures
        list.no_duplicates(),
{
    assert forall|i: int, j: int| 0 <= i < list.len() && 0 <= j < list.len() && i != j implies list[i]
        != list[j] by {
        lemma_before_irreflexive(list[i]);
        if i < j {
            assert(text_before(list[i], list[j]));
        } else {
            assert(text_before(list[j], list[i]));
        }
    }
}

/// Whether `a` stands before `b` in the dictionary.
pub fn comes_before(a: &str, b: &str) -> (before: bool)
    ensures
        before == text_before(a@, b@),
{
    let x = chars_of(a);
    let y = chars_of(b);
    let mut at: usize = 0;
    proof {
        assert(a@.skip(0) =~= a@);
        assert(b@.skip(0) =~= b@);
    }
    loop
        invariant
            at <= x.len(),
            at <= y.len(),
            x@ == a@,
            y@ == b@,
            text_before(a@, b@) == text_before(a@.skip(at as int), b@.skip(at as int)),
        decreases x.len() - at,
    {
        if at == y.len() {
            return false;
        }
        if at == x.len() {
            return true;
        }
        if x[at] != y[at] {
            return x[at] < y[at];
        }
        proof {
            assert(a@.skip(at as int).skip(1) =~= a@.skip(at + 1));
            assert(b@.skip(at as int).skip(1) =~= b@.skip(at + 1));
        }
        at += 1;
    }
}

/// Whether `item` is one of `list`.
pub fn holds(list: &Vec<String>, item: &str) -> (found: bool)
    ensures
        found == texts(list@).contains(item@),
{
    let mut at: usize = 0;
    while at < list.len()
        invariant
            at <= list.len(),
            forall|i: int| 0 <= i < at ==> texts(list@)[i] != item@,
        decreases list.len() - at,
    {
        if same_text(list[at].as_str(), item) {
            assert(texts(list@)[at as int] == item@);
            return true;
        }
        at += 1;
    }
    false
}

/// Puts `item` into the ascending `list` at its place, unless it is there
/// already.
fn insert_ascending(list: &mut Vec<String>, item: String)
    requires
        ascending(texts(old(list)@)),
    ensures
        ascending(texts(final(list)@)),
        forall|t: Seq<char>|
            #![trigger texts(final(list)@).contains(t)]
            #![trigger texts(old(list)@).contains(t)]
            texts(final(list)@).contains(t) <==> (texts(old(list)@).contains(t) || t == item@),
{
    let ghost before = texts(list@);
    let mut at: usize = 0;
    while at < list.len() && comes_before(list[at].as_str(), item.as_str())
        invariant
            at <= list.len(),
            before == texts(list@),
            forall|i: int| 0 <= i < at ==> text_before(before[i], item@),
        decreases list.len() - at,
    {
        at += 1;
    }
    if at < list.len() && same_text(list[at].as_str(), item.as_str()) {
        assert(before[at as int] == item@);
        return ;
    }
    proof {
        if at < list.len() {
            lemma_before_total(before[at as int], item@);
            assert forall|j: int| at < j < before.len() implies text_before(item@, before[j]) by {
                lemma_before_transitive(item@, before[at as int], before[j]);
            }
        }
    }
    list.insert(at, item);
    proof {
        let after = texts(list@);
        assert(after =~= before.take(at as int).push(item@) + before.skip(at as int));
        assert forall|i: int, j: int| 0 <= i < j < after.len() implies text_before(
            after[i],
            after[j],
        ) by {
            if j < at {
                assert(text_before(before[i], before[j]));
            } else if j == at {
                assert(text_before(before[i], item@));
            } else if i < at {
                assert(text_before(before[i], before[j - 1]));
            } else if i == at {
                assert(text_before(item@, before[j - 1]));
            } else {
                assert(text_before(before[i - 1], before[j - 1]));
            }
        }
        assert forall|t: Seq<char>| after.contains(t) <==> (before.contains(t) || t == item@) by {
            if after.contains(t) {
                let k = choose|k: int| 0 <= k < after.len() && after[k] == t;
                if k < at {
                    assert(before[k] == t);
                } else if k > at {
                    assert(before[k - 1] == t);
                }
            }
            if before.contains(t) {
                let k = choose|k: int| 0 <= k < before.len() && before[k] == t;
                if k < at {
                    assert(after[k] == t);
                } else {
                    assert(after[k + 1] == t);
                }
            }
            if t == item@ {
                assert(after[at as int] == t);
            }
        }
    }
}

/// The manifests that are offered first: those of the two that exist.
pub open spec fn preferred(has_pyproject: bool, has_cargo: bool) -> Seq<Seq<char>> {
    let first = if has_pyproject {
        seq![PYPROJECT@]
    } else {
        Seq::<Seq<char>>::empty()
    };
    let second = if has_cargo {
        seq![CARGO@]
    } else {
        Seq::<Seq<char>>::empty()
    };
    first + second
}

/// The files offered to the author: the manifests that exist, then, in
/// alphabetical order and each once, the files found that are not among
/// them.
pub fn version_path_candidates(
    found: &Vec<String>,
    has_pyproject: bool,
    has_cargo: bool,
) -> (candidates: Vec<String>)
    ensures
        candidates@.len() >= preferred(has_pyproject, has_cargo).len(),
        texts(candidates@).take(preferred(has_pyproject, has_cargo).len() as int) == preferred(
            has_pyproject,
            has_cargo,
        ),
        ascending(texts(candidates@).skip(preferred(has_pyproject, has_cargo).len() as int)),
        forall|t: Seq<char>|
            #![trigger texts(found@).contains(t)]
            texts(candidates@).skip(preferred(has_pyproject, has_cargo).len() as int).contains(t)
                <==> (texts(found@).contains(t) && !preferred(has_pyproject, has_cargo).contains(
                t,
            )),
{
    let ghost first = preferred(has_pyproject, has_cargo);
    let mut others: Vec<String> = Vec::new();
    let mut at: usize = 0;
    while at < found.len()
        invariant
            at <= found.len(),
            first == preferred(has_pyproject, has_cargo),
            ascending(texts(others@)),
            forall|t: Seq<char>|
                #![trigger texts(others@).contains(t)]
                #![trigger texts(found@).take(at as int).contains(t)]
                texts(others@).contains(t) <==> (texts(found@).take(at as int).contains(t)
                    && !first.contains(t)),
        decreases found.len() - at,
    {
        let name = found[at].as_str();
        let taken = (has_pyproject && same_text(name, PYPROJECT)) || (has_cargo && same_text(
            name,
            CARGO,
        ));
        let ghost before = texts(others@);
        proof {
            let seen = texts(found@).take(at as int);
            let next = texts(found@).take(at + 1);
            assert(next =~= seen.push(name@));
            assert forall|t: Seq<char>| next.contains(t) <==> (seen.contains(t) || t == name@) by {
                if seen.contains(t) {
                    let k = choose|k: int| 0 <= k < seen.len() && seen[k] == t;
                    assert(next[k] == t);
                }
                if t == name@ {
                    assert(next[at as int] == t);
                }
            }
            assert(taken == first.contains(name@)) by {
                if has_pyproject {
                    assert(first[0] == PYPROJECT@);
                }
                if has_cargo {
                    assert(first[first.len() - 1] == CARGO@);
                }
            }
        }
        if !taken {
            insert_ascending(&mut others, found[at].clone());
        }
        proof {
            let seen = texts(found@).take(at as int);
            let next = texts(found@).take(at + 1);
            let after = texts(others@);
            assert forall|t: Seq<char>| after.contains(t) <==> (next.contains(t) && !first.contains(
                t,
            )) by {
                assert(before.contains(t) <==> (seen.contains(t) && !first.contains(t)));
                assert(next.contains(t) <==> (seen.contains(t) || t == name@));
                if !taken {
                    assert(after.contains(t) <==> (before.contains(t) || t == name@));
                }
            }
        }
        at += 1;
    }
    assert(texts(found@).take(at as int) =~= texts(found@));
    let mut candidates: Vec<String> = Vec::new();
    if has_pyproject {
        candidates.push(PYPROJECT.to_owned());
    }
    if has_cargo {
        candidates.push(CARGO.to_owned());
    }
    let ghost head = texts(candidates@);
    let ghost tail = texts(others@);
    assert(head =~= first);
    candidates.append(&mut others);
    proof {
        assert(texts(candidates@) =~= head + tail);
        assert(texts(candidates@).take(first.len() as int) =~= first);
        assert(texts(candidates@).skip(first.len() as int) =~= tail);
        assert forall|t: Seq<char>| #![trigger texts(found@).contains(t)]
            tail.contains(t) <==> (texts(found@).contains(t) && !first.contains(t)) by {}
    }
    candidates
}

/// The candidates that are not selected yet, in order.
pub open spec fn unselected(candidates: Seq<Seq<char>>, selected: Seq<Seq<char>>) -> Seq<
    Seq<char>,
> {
    candidates.filter(|c: Seq<char>| !selected.contains(c))
}

/// The candidates still to offer: those not selected yet.
pub fn remaining_candidates(candidates: &Vec<String>, selected: &Vec<String>) -> (rest: Vec<
    String,
>)
    ensures
        texts(rest@) == unselected(texts(candidates@), texts(selected@)),
{
    let ghost all = texts(candidates@);
    let ghost chosen = texts(selected@);
    let mut rest: Vec<String> = Vec::new();
    let mut at: usize = 0;
    proof {
        reveal(Seq::filter);
        assert(all.take(0) =~= Seq::<Seq<char>>::empty());
        assert(texts(rest@) =~= unselected(all.take(0), chosen));
    }
    while at < candidates.len()
        invariant
            at <= candidates.len(),
            all == texts(candidates@),
            chosen == texts(selected@),
            texts(rest@) == unselected(all.take(at as int), chosen),
        decreases candidates.len() - at,
    {
        proof {
            reveal(Seq::filter);
            assert(all.take(at + 1).drop_last() =~= all.take(at as int));
            assert(all.take(at + 1).last() == candidates@[at as int]@);
        }
        if !holds(selected, candidates[at].as_str()) {
            let ghost before = rest@;
            rest.push(candidates[at].clone());
            assert(texts(rest@) =~= texts(before).push(candidates@[at as int]@));
        }
        at += 1;
    }
    assert(all.take(at as int) =~= all);
    rest
}

/// `selected` with those of `picked` added that it does not hold yet, in
/// the order in which they were picked.
pub open spec fn with_picked(selected: Seq<Seq<char>>, picked: Seq<Seq<char>>) -> Seq<Seq<char>>
    decreases picked.len(),
{
    if picked.len() == 0 {
        selected
    } else {
        let before = with_picked(selected, picked.drop_last());
        if before.contains(picked.last()) {
            before
        } else {
            before.push(picked.last())
        }
    }
}

/// Adds what the author picked to the selection. Nothing is added twice.
pub fn add_picked(selected: &mut Vec<String>, picked: &Vec<String>)
    ensures
        texts(final(selected)@) == with_picked(texts(old(selected)@), texts(picked@)),
{
    let ghost start = texts(selected@);
    let ghost all = texts(picked@);
    let mut at: usize = 0;
    assert(all.take(0) =~= Seq::<Seq<char>>::empty());
    while at < picked.len()
        invariant
            at <= picked.len(),
            all == texts(picked@),
            texts(selected@) == with_picked(start, all.take(at as int)),
        decreases picked.len() - at,
    {
        proof {
            assert(all.take(at + 1).drop_last() =~= all.take(at as int));
            assert(all.take(at + 1).last() == picked@[at as int]@);
        }
        if !holds(selected, picked[at].as_str()) {
            let ghost before = selected@;
            selected.push(picked[at].clone());
            assert(texts(selected@) =~= texts(before).push(picked@[at as int]@));
        }
        at += 1;
    }
    assert(all.take(at as int) =~= all);
}

/// `selected` with the path typed by the author, if it is one to add: not
/// blank and not selected yet. The path is added as it was typed.
pub open spec fn with_typed(selected: Seq<Seq<char>>, path: Seq<char>) -> Seq<Seq<char>> {
    if !blank(path) && !selected.contains(path) {
        selected.push(path)
    } else {
        selected
    }
}

/// Adds a path typed by the author to the selection.
pub fn add_manual_path(selected: &mut Vec<String>, path: String)
    ensures
        texts(final(selected)@) == with_typed(texts(old(selected)@), path@),
{
    if !is_blank(path.as_str()) && !holds(selected, path.as_str()) {
        let ghost before = selected@;
        selected.push(path);
        assert(texts(selected@) =~= texts(before).push(path@));
    }
}

/// A selection never holds a path twice as long as it is only added to
/// through `with_picked` and `with_typed`.
pub proof fn lemma_selection_stays_distinct(
    selected: Seq<Seq<char>>,
    picked: Seq<Seq<char>>,
    path: Seq<char>,
)
    requires
        selected.no_duplicates(),
    ensures
        with_picked(selected, picked).no_duplicates(),
        with_typed(selected, path).no_duplicates(),
    decreases picked.len(),
{
    if picked.len() > 0 {
        lemma_selection_stays_distinct(selected, picked.drop_last(), path);
    }
}

/// The items that are among `allowed`, in order.
pub open spec fn among(items: Seq<Seq<char>>, allowed: Seq<Seq<char>>) -> Seq<Seq<char>> {
    items.filter(|c: Seq<char>| allowed.contains(c))
}

/// Those of `items` that are among `allowed`.
pub fn keep_offered(items: &Vec<String>, allowed: &Vec<String>) -> (kept: Vec<String>)
    ensures
        texts(kept@) == among(texts(items@), texts(allowed@)),
{
    let ghost all = texts(items@);
    let ghost fine = texts(allowed@);
    let mut kept: Vec<String> = Vec::new();
    let mut at: usize = 0;
    proof {
        reveal(Seq::filter);
        assert(all.take(0) =~= Seq::<Seq<char>>::empty());
        assert(texts(kept@) =~= among(all.take(0), fine));
    }
    while at < items.len()
        invariant
            at <= items.len(),
            all == texts(items@),
            fine == texts(allowed@),
            texts(kept@) == among(all.take(at as int), fine),
        decreases items.len() - at,
    {
        proof {
            reveal(Seq::filter);
            assert(all.take(at + 1).drop_last() =~= all.take(at as int));
            assert(all.take(at + 1).last() == items@[at as int]@);
        }
        if holds(allowed, items[at].as_str()) {
            let ghost before = kept@;
            kept.push(items[at].clone());
            assert(texts(kept@) =~= texts(before).push(items@[at as int]@));
        }
        at += 1;
    }
    assert(all.take(at as int) =~= all);
    kept
}

/// Where the choosing of the version paths stands.
#[derive(Clone, Copy, Debug, PartialEq, Eq, Structural)]
pub enum Stage {
    /// The candidates are offered.
    Picking,
    /// Nothing was picked: a path is asked for.
    Typing,
    /// Something is selected: the author is asked whether to add a path.
    AskingMore,
    /// The author wants to add a path.
    TypingMore,
    /// The selection stands.
    Done,
}

/// What the author answered.
#[derive(Clone, Debug, PartialEq, Eq)]
pub enum Answer {
    /// These candidates were picked.
    Picked(Vec<String>),
    /// This path was typed.
    Typed(String),
    /// Whether another path is to be added.
    More(bool),
}

/// What to ask the author next.
#[derive(Clone, Debug, PartialEq, Eq)]
pub enum Question {
    /// Offer these candidates.
    Pick(Vec<String>),
    /// Ask for a path.
    Type,
    /// Ask whether another path is to be added.
    More,
    /// Nothing: the selection stands.
    Done,
}

/// The model of an [`Answer`].
pub enum AnswerModel {
    Picked(Seq<Seq<char>>),
    Typed(Seq<char>),
    More(bool),
}

/// The model of a [`Question`].
pub enum QuestionModel {
    Pick(Seq<Seq<char>>),
    Type,
    More,
    Done,
}

impl View for Answer {
    type V = AnswerModel;

    open spec fn view(&self) -> AnswerModel {
        match self {
            Answer::Picked(items) => AnswerModel::Picked(texts(items@)),
            Answer::Typed(path) => AnswerModel::Typed(path@),
            Answer::More(more) => AnswerModel::More(*more),
        }
    }
}

impl View for Question {
    type V = QuestionModel;

    open spec fn view(&self) -> QuestionModel {
        match self {
            Question::Pick(items) => QuestionModel::Pick(texts(items@)),
            Question::Type => QuestionModel::Type,
            Question::More => QuestionModel::More,
            Question::Done => QuestionModel::Done,
        }
    }
}

/// The choosing of the version paths, question by question. The candidates
/// are offered until something is selected, by picking or by typing a
/// path; then paths may be added by hand until the author has enough.
pub struct PathSelection {
    candidates: Vec<String>,
    selected: Vec<String>,
    stage: Stage,
}

/// The model of a [`PathSelection`].
pub struct SelectionModel {
    /// The files that are offered.
    pub candidates: Seq<Seq<char>>,
    /// What is selected so far, in the order in which it was selected.
    pub selected: Seq<Seq<char>>,
    /// Where the choosing stands.
    pub stage: Stage,
}

impl View for PathSelection {
    type V = SelectionModel;

    closed spec fn view(&self) -> SelectionModel {
        SelectionModel {
            candidates: texts(self.candidates@),
            selected: texts(self.selected@),
            stage: self.stage,
        }
    }
}

impl SelectionModel {
    /// Nothing is selected twice; what is selected was offered or is a path
    /// that is not blank; and once the candidates are no longer offered,
    /// something is selected.
    pub open spec fn wf(self) -> bool {
        &&& self.selected.no_duplicates()
        &&& forall|i: int|
            0 <= i < self.selected.len() ==> self.candidates.contains(#[trigger] self.selected[i])
                || !blank(self.selected[i])
        &&& (self.stage == Stage::AskingMore || self.stage == Stage::TypingMore || self.stage
            == Stage::Done) ==> self.selected.len() > 0
    }

    /// The state before anything is asked.
    pub open spec fn initial(candidates: Seq<Seq<char>>) -> Self {
        SelectionModel { candidates, selected: Seq::empty(), stage: Stage::Picking }
    }

    /// The stage after something may have been selected: on to the question
    /// for more if there is a selection, and to `otherwise` if there is none.
    pub open spec fn settled(selected: Seq<Seq<char>>, otherwise: Stage) -> Stage {
        if selected.len() > 0 {
            Stage::AskingMore
        } else {
            otherwise
        }
    }

    /// The state after `answer`. Of what was picked only candidates count.
    /// An answer to another question than the one asked changes nothing.
    pub open spec fn next(self, answer: AnswerModel) -> Self {
        match (self.stage, answer) {
            (Stage::Picking, AnswerModel::Picked(items)) => {
                let selected = with_picked(self.selected, among(items, self.candidates));
                SelectionModel {
                    selected,
                    stage: Self::settled(selected, Stage::Typing),
                    ..self
                }
            },
            (Stage::Typing, AnswerModel::Typed(path)) => {
                let selected = with_typed(self.selected, path);
                SelectionModel {
                    selected,
                    stage: Self::settled(selected, Stage::Picking),
                    ..self
                }
            },
            (Stage::AskingMore, AnswerModel::More(more)) => SelectionModel {
                stage: if more {
                    Stage::TypingMore
                } else {
                    Stage::Done
                },
                ..self
            },
            (Stage::TypingMore, AnswerModel::Typed(path)) => SelectionModel {
                selected: with_typed(self.selected, path),
                stage: Stage::AskingMore,
                ..self
            },
            _ => self,
        }
    }

    /// What is asked in this state.
    pub open spec fn question(self) -> QuestionModel {
        match self.stage {
            Stage::Picking => QuestionModel::Pick(unselected(self.candidates, self.selected)),
            Stage::Typing => QuestionModel::Type,
            Stage::TypingMore => QuestionModel::Type,
            Stage::AskingMore => QuestionModel::More,
            Stage::Done => QuestionModel::Done,
        }
    }
}

/// What is added by picking is picked, and what is added by typing is not
/// blank.
pub proof fn lemma_selection_grows_from_answers(
    selected: Seq<Seq<char>>,
    picked: Seq<Seq<char>>,
    path: Seq<char>,
)
    ensures
        forall|t: Seq<char>| #[trigger]
            with_picked(selected, picked).contains(t) ==> selected.contains(t) || picked.contains(
                t,
            ),
        forall|t: Seq<char>| #[trigger]
            with_typed(selected, path).contains(t) ==> selected.contains(t) || (t == path
                && !blank(path)),
        selected.len() <= with_picked(selected, picked).len(),
        selected.len() <= with_typed(selected, path).len(),
    decreases picked.len(),
{
    let typed = with_typed(selected, path);
    assert forall|t: Seq<char>| #[trigger] typed.contains(t) implies selected.contains(t) || (t
        == path && !blank(path)) by {
        let k = choose|k: int| 0 <= k < typed.len() && typed[k] == t;
        if k < selected.len() {
            assert(selected[k] == t);
        }
    }
    if picked.len() > 0 {
        let earlier = picked.drop_last();
        lemma_selection_grows_from_answers(selected, earlier, path);
        let before = with_picked(selected, earlier);
        let now = with_picked(selected, picked);
        assert forall|t: Seq<char>| #[trigger] now.contains(t) implies selected.contains(t)
            || picked.contains(t) by {
            let k = choose|k: int| 0 <= k < now.len() && now[k] == t;
            if k < before.len() {
                assert(before[k] == t);
                assert(before.contains(t));
                if earlier.contains(t) {
                    let j = choose|j: int| 0 <= j < earlier.len() && earlier[j] == t;
                    assert(picked[j] == t);
                }
            } else {
                assert(picked[picked.len() - 1] == t);
            }
        }
    }
}

/// Every step of the choosing keeps the selection well formed.
pub proof fn lemma_selection_stays_well_formed(state: SelectionModel, answer: AnswerModel)
    requires
        state.wf(),
    ensures
        state.next(answer).wf(),
        state.next(answer).candidates == state.candidates,
{
    let after = state.next(answer);
    match answer {
        AnswerModel::Picked(items) => {
            let offered = among(items, state.candidates);
            lemma_selection_stays_distinct(state.selected, offered, Seq::empty());
            lemma_selection_grows_from_answers(state.selected, offered, Seq::empty());
            if state.stage == Stage::Picking {
                assert forall|i: int| 0 <= i < after.selected.len() implies state.candidates.contains(
                    #[trigger] after.selected[i],
                ) || !blank(after.selected[i]) by {
                    let t = after.selected[i];
                    assert(after.selected.contains(t));
                    if !state.selected.contains(t) {
                        assert(offered.contains(t));
                        let k = choose|k: int| 0 <= k < offered.len() && offered[k] == t;
                        items.lemma_filter_pred(|c: Seq<char>| state.candidates.contains(c), k);
                    } else {
                        let k = choose|k: int|
                            0 <= k < state.selected.len() && state.selected[k] == t;
                        assert(state.candidates.contains(state.selected[k]) || !blank(
                            state.selected[k],
                        ));
                    }
                }
            }
        },
        AnswerModel::Typed(path) => {
            lemma_selection_stays_distinct(state.selected, Seq::empty(), path);
            lemma_selection_grows_from_answers(state.selected, Seq::empty(), path);
            if state.stage == Stage::Typing || state.stage == Stage::TypingMore {
                assert forall|i: int| 0 <= i < after.selected.len() implies state.candidates.contains(
                    #[trigger] after.selected[i],
                ) || !blank(after.selected[i]) by {
                    let t = after.selected[i];
                    assert(after.selected.contains(t));
                    if state.selected.contains(t) {
                        let k = choose|k: int|
                            0 <= k < state.selected.len() && state.selected[k] == t;
                        assert(state.candidates.contains(state.selected[k]) || !blank(
                            state.selected[k],
                        ));
                    }
                }
            }
        },
        AnswerModel::More(_) => {},
    }
}

impl PathSelection {
    #[verifier::type_invariant]
    spec fn inv(self) -> bool {
        self@.wf()
    }

    /// Starts the choosing among `candidates` and says what to ask first.
    pub fn start(candidates: Vec<String>) -> (r: (PathSelection, Question))
        ensures
            r.0@ == SelectionModel::initial(texts(candidates@)),
            r.0@.wf(),
            r.1@ == r.0@.question(),
    {
        let selected: Vec<String> = Vec::new();
        assert(texts(selected@) =~= Seq::<Seq<char>>::empty());
        let offer = remaining_candidates(&candidates, &selected);
        let choosing = PathSelection { candidates, selected, stage: Stage::Picking };
        (choosing, Question::Pick(offer))
    }

    /// Where the choosing stands.
    pub fn stage(&self) -> (stage: Stage)
        ensures
            stage == self@.stage,
            self@.wf(),
    {
        proof {
            use_type_invariant(self);
        }
        self.stage
    }

    /// What is selected so far.
    pub fn selected(&self) -> (paths: &Vec<String>)
        ensures
            texts(paths@) == self@.selected,
            self@.wf(),
    {
        proof {
            use_type_invariant(self);
        }
        &self.selected
    }

    /// What to ask in the state at hand.
    fn ask(&self) -> (question: Question)
        ensures
            question@ == self@.question(),
    {
        match self.stage {
            Stage::Picking => Question::Pick(
                remaining_candidates(&self.candidates, &self.selected),
            ),
            Stage::Typing => Question::Type,
            Stage::TypingMore => Question::Type,
            Stage::AskingMore => Question::More,
            Stage::Done => Question::Done,
        }
    }

    /// Takes the answer of the author and says what to ask next.
    pub fn answer(self, answer: Answer) -> (r: (PathSelection, Question))
        ensures
            r.0@ == self@.next(answer@),
            r.0@.wf(),
            r.1@ == r.0@.question(),
    {
        proof {
            use_type_invariant(&self);
            lemma_selection_stays_well_formed(self@, answer@);
        }
        let PathSelection { candidates, selected, stage } = self;
        let mut selected = selected;
        let mut stage = stage;
        match (stage, answer) {
            (Stage::Picking, Answer::Picked(items)) => {
                let offered = keep_offered(&items, &candidates);
                add_picked(&mut selected, &offered);
                stage = if selected.len() > 0 {
                    Stage::AskingMore
                } else {
                    Stage::Typing
                };
            },
            (Stage::Typing, Answer::Typed(path)) => {
                add_manual_path(&mut selected, path);
                stage = if selected.len() > 0 {
                    Stage::AskingMore
                } else {
                    Stage::Picking
                };
            },
            (Stage::AskingMore, Answer::More(more)) => {
                stage = if more {
                    Stage::TypingMore
                } else {
                    Stage::Done
                };
            },
            (Stage::TypingMore, Answer::Typed(path)) => {
                add_manual_path(&mut selected, path);
                stage = Stage::AskingMore;
            },
            _ => {},
        }
        let choosing = PathSelection { candidates, selected, stage };
        let question = choosing.ask();
        (choosing, question)
    }

    /// The selection, once it stands: never empty, nothing in it twice, and
    /// each path either offered or typed and not blank. `None` while the
    /// choosing goes on.
    pub fn into_paths(self) -> (paths: Option<Vec<String>>)
        ensures
            paths is Some <==> self@.stage == Stage::Done,
            paths matches Some(p) ==> {
                &&& texts(p@) == self@.selected
                &&& p@.len() > 0
                &&& texts(p@).no_duplicates()
                &&& forall|i: int|
                    0 <= i < p@.len() ==> self@.candidates.contains(#[trigger] texts(p@)[i])
                        || !blank(texts(p@)[i])
            },
    {
        proof {
            use_type_invariant(&self);
        }
        match self.stage {
            Stage::Done => Some(self.selected),
            _ => None,
        }
    }
}

} // verus!
