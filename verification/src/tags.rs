//! The vocabulary of tags: which tags go with which kind of change, how
//! they are offered to the author, and the icon of each.
//!
//! The vocabulary is a table. A row holds a tag, its icon, and what the tag
//! is for; the line offered to the author is made of the row, so the tag of
//! a chosen line is found by looking the line up.

use crate::changeset::ChangeKind;
use crate::text::{is_space, same_text, texts};
use vstd::prelude::*;
use vstd::string::*;

verus! {

/// The icon of a tag that the vocabulary does not hold.
pub const BOOKMARK: &'static str = "🔖";

/// One row of the vocabulary.
#[derive(Clone, Copy, Debug, PartialEq, Eq)]
pub struct TagRow {
    /// The icon of the tag.
    pub icon: &'static str,
    /// The blanks between the icon and the tag in the line that is offered.
    pub gap: &'static str,
    /// The tag.
    pub tag: &'static str,
    /// What the tag is for.
    pub about: &'static str,
}

/// The model of a [`TagRow`].
pub struct TagEntry {
    pub icon: Seq<char>,
    pub gap: Seq<char>,
    pub tag: Seq<char>,
    pub about: Seq<char>,
}

impl View for TagRow {
    type V = TagEntry;

    open spec fn view(&self) -> TagEntry {
        TagEntry { icon: self.icon@, gap: self.gap@, tag: self.tag@, about: self.about@ }
    }
}

/// The rows of a kind of change, in the order in which they are offered.
pub open spec fn vocabulary(kind: ChangeKind) -> Seq<TagEntry> {
    match kind {
        ChangeKind::Major => seq![
            TagEntry { icon: "⚰️"@, gap: "  "@, tag: "Remove"@, about: "Removed features."@ },
            TagEntry { icon: "🚚"@, gap: " "@, tag: "Rename"@, about: "Renamed features."@ },
            TagEntry { icon: "✏️"@, gap: "  "@, tag: "I/O"@, about: "Changing input/output of features."@ },
            TagEntry { icon: "💥"@, gap: " "@, tag: "Behavior"@, about: "Changing features behavior."@ },
        ],
        ChangeKind::Minor => seq![
            TagEntry { icon: "✨"@, gap: " "@, tag: "Feature"@, about: "New feature."@ },
            TagEntry { icon: "➕"@, gap: " "@, tag: "Add"@, about: "Add functionality to existing feature."@ },
            TagEntry { icon: "✏️"@, gap: "  "@, tag: "I/O"@, about: "Include optional input/output to a feature."@ },
            TagEntry { icon: "🗑️"@, gap: "  "@, tag: "Deprecated"@, about: "Deprecated features."@ },
        ],
        ChangeKind::Patch => seq![
            TagEntry { icon: "♻️"@, gap: "  "@, tag: "Refactor"@, about: "Refactor of existing code."@ },
            TagEntry { icon: "🐛"@, gap: " "@, tag: "Bug"@, about: "Fix a bug."@ },
            TagEntry { icon: "⚡️"@, gap: " "@, tag: "Optimization"@, about: "Simple optimization of code."@ },
            TagEntry { icon: "🧪"@, gap: " "@, tag: "Tests"@, about: "Include or update tests."@ },
            TagEntry { icon: "🩹"@, gap: " "@, tag: "Patch"@, about: "Include or delete logs, catch errors or related things."@ },
        ],
    }
}

/// The line that offers a row to the author: icon, tag, a colon, and what
/// the tag is for.
pub open spec fn choice_line(entry: TagEntry) -> Seq<char> {
    entry.icon + entry.gap + entry.tag + ": "@ + entry.about
}

/// The tags that go with a kind of change.
pub open spec fn allowed_tags(kind: ChangeKind) -> Seq<Seq<char>> {
    vocabulary(kind).map_values(|entry: TagEntry| entry.tag)
}

/// The lines offered to the author for a kind of change.
pub open spec fn tag_choices(kind: ChangeKind) -> Seq<Seq<char>> {
    vocabulary(kind).map_values(|entry: TagEntry| choice_line(entry))
}

/// The first of `entries` that is offered by `line`.
pub open spec fn entry_offered(entries: Seq<TagEntry>, line: Seq<char>) -> Option<TagEntry>
    decreases entries.len(),
{
    if entries.len() == 0 {
        None
    } else if choice_line(entries[0]) == line {
        Some(entries[0])
    } else {
        entry_offered(entries.skip(1), line)
    }
}

/// The first of `entries` with the tag `tag`.
pub open spec fn entry_tagged(entries: Seq<TagEntry>, tag: Seq<char>) -> Option<TagEntry>
    decreases entries.len(),
{
    if entries.len() == 0 {
        None
    } else if entries[0].tag == tag {
        Some(entries[0])
    } else {
        entry_tagged(entries.skip(1), tag)
    }
}

/// The tag of the line `line` among those offered for `kind`; `None` for a
/// line that is not offered.
pub open spec fn chosen_tag(kind: ChangeKind, line: Seq<char>) -> Option<Seq<char>> {
    match entry_offered(vocabulary(kind), line) {
        Some(entry) => Some(entry.tag),
        None => None,
    }
}

/// Every row, those of major changes first.
pub open spec fn whole_vocabulary() -> Seq<TagEntry> {
    vocabulary(ChangeKind::Major) + vocabulary(ChangeKind::Minor) + vocabulary(ChangeKind::Patch)
}

/// The icon that stands for a tag in a commit message: that of its row, and
/// the bookmark for a tag that the vocabulary does not hold.
pub open spec fn icon_of(tag: Seq<char>) -> Seq<char> {
    match entry_tagged(whole_vocabulary(), tag) {
        Some(entry) => entry.icon,
        None => BOOKMARK@,
    }
}

/// The rows of `kind`.
pub fn rows(kind: ChangeKind) -> (table: Vec<TagRow>)
    ensures
        table@.len() == vocabulary(kind).len(),
        forall|i: int| 0 <= i < table@.len() ==> (#[trigger] table@[i])@ == vocabulary(kind)[i],
{
    match kind {
        ChangeKind::Major => vec![
            TagRow { icon: "⚰️", gap: "  ", tag: "Remove", about: "Removed features." },
            TagRow { icon: "🚚", gap: " ", tag: "Rename", about: "Renamed features." },
            TagRow { icon: "✏️", gap: "  ", tag: "I/O", about: "Changing input/output of features." },
            TagRow { icon: "💥", gap: " ", tag: "Behavior", about: "Changing features behavior." },
        ],
        ChangeKind::Minor => vec![
            TagRow { icon: "✨", gap: " ", tag: "Feature", about: "New feature." },
            TagRow { icon: "➕", gap: " ", tag: "Add", about: "Add functionality to existing feature." },
            TagRow { icon: "✏️", gap: "  ", tag: "I/O", about: "Include optional input/output to a feature." },
            TagRow { icon: "🗑️", gap: "  ", tag: "Deprecated", about: "Deprecated features." },
        ],
        ChangeKind::Patch => vec![
            TagRow { icon: "♻️", gap: "  ", tag: "Refactor", about: "Refactor of existing code." },
            TagRow { icon: "🐛", gap: " ", tag: "Bug", about: "Fix a bug." },
            TagRow { icon: "⚡️", gap: " ", tag: "Optimization", about: "Simple optimization of code." },
            TagRow { icon: "🧪", gap: " ", tag: "Tests", about: "Include or update tests." },
            TagRow { icon: "🩹", gap: " ", tag: "Patch", about: "Include or delete logs, catch errors or related things." },
        ],
    }
}

/// The line that offers `row`.
pub fn offer(row: &TagRow) -> (line: String)
    ensures
        line@ == choice_line(row@),
{
    let mut line = String::from_str(row.icon);
    line.append(row.gap);
    line.append(row.tag);
    line.append(": ");
    line.append(row.about);
    line
}

/// The tags that go with `kind`.
pub fn tags_for(kind: ChangeKind) -> (tags: Vec<&'static str>)
    ensures
        tags@.len() == allowed_tags(kind).len(),
        forall|i: int| 0 <= i < tags@.len() ==> (#[trigger] tags@[i])@ == allowed_tags(kind)[i],
{
    let table = rows(kind);
    let mut tags: Vec<&'static str> = Vec::new();
    let mut at: usize = 0;
    while at < table.len()
        invariant
            at <= table.len(),
            table@.len() == vocabulary(kind).len(),
            forall|i: int| 0 <= i < table@.len() ==> (#[trigger] table@[i])@ == vocabulary(kind)[i],
            tags@.len() == at,
            forall|i: int| 0 <= i < at ==> (#[trigger] tags@[i])@ == allowed_tags(kind)[i],
        decreases table.len() - at,
    {
        tags.push(table[at].tag);
        at += 1;
    }
    tags
}

/// The lines offered to the author for `kind`.
pub fn select_tags(kind: ChangeKind) -> (choices: Vec<String>)
    ensures
        texts(choices@) == tag_choices(kind),
{
    let table = rows(kind);
    let mut choices: Vec<String> = Vec::new();
    let mut at: usize = 0;
    while at < table.len()
        invariant
            at <= table.len(),
            table@.len() == vocabulary(kind).len(),
            forall|i: int| 0 <= i < table@.len() ==> (#[trigger] table@[i])@ == vocabulary(kind)[i],
            choices@.len() == at,
            forall|i: int| 0 <= i < at ==> (#[trigger] choices@[i])@ == tag_choices(kind)[i],
        decreases table.len() - at,
    {
        choices.push(offer(&table[at]));
        at += 1;
    }
    assert(texts(choices@) =~= tag_choices(kind));
    choices
}

/// The first row of `table` that is offered by `line`.
fn row_offered(table: &Vec<TagRow>, line: &str) -> (found: Option<TagRow>)
    ensures
        found matches Some(row) ==> entry_offered(table@.map_values(|r: TagRow| r@), line@)
            == Some(row@),
        found is None ==> entry_offered(table@.map_values(|r: TagRow| r@), line@) is None,
{
    let ghost entries = table@.map_values(|r: TagRow| r@);
    let mut at: usize = 0;
    assert(entries.skip(0) =~= entries);
    while at < table.len()
        invariant
            at <= table.len(),
            entries == table@.map_values(|r: TagRow| r@),
            entry_offered(entries, line@) == entry_offered(entries.skip(at as int), line@),
        decreases table.len() - at,
    {
        proof {
            assert(entries.skip(at as int)[0] == table@[at as int]@);
            assert(entries.skip(at as int).skip(1) =~= entries.skip(at + 1));
        }
        let offered = offer(&table[at]);
        if same_text(offered.as_str(), line) {
            return Some(table[at]);
        }
        at += 1;
    }
    None
}

/// The first row of `table` with the tag `tag`.
fn row_tagged(table: &Vec<TagRow>, tag: &str) -> (found: Option<TagRow>)
    ensures
        found matches Some(row) ==> entry_tagged(table@.map_values(|r: TagRow| r@), tag@) == Some(
            row@,
        ),
        found is None ==> entry_tagged(table@.map_values(|r: TagRow| r@), tag@) is None,
{
    let ghost entries = table@.map_values(|r: TagRow| r@);
    let mut at: usize = 0;
    assert(entries.skip(0) =~= entries);
    while at < table.len()
        invariant
            at <= table.len(),
            entries == table@.map_values(|r: TagRow| r@),
            entry_tagged(entries, tag@) == entry_tagged(entries.skip(at as int), tag@),
        decreases table.len() - at,
    {
        proof {
            assert(entries.skip(at as int)[0] == table@[at as int]@);
            assert(entries.skip(at as int).skip(1) =~= entries.skip(at + 1));
        }
        if same_text(table[at].tag, tag) {
            return Some(table[at]);
        }
        at += 1;
    }
    None
}

/// The tag of `line` among the lines offered for `kind`.
pub fn tag_of_choice(kind: ChangeKind, line: &str) -> (tag: Option<&'static str>)
    ensures
        match tag {
            Some(t) => chosen_tag(kind, line@) == Some(t@),
            None => chosen_tag(kind, line@) is None,
        },
{
    let table = rows(kind);
    assert(table@.map_values(|r: TagRow| r@) =~= vocabulary(kind));
    match row_offered(&table, line) {
        Some(row) => Some(row.tag),
        None => None,
    }
}

/// Whether `tag` is one of the tags that go with `kind`.
pub fn tag_allowed(kind: ChangeKind, tag: &str) -> (allowed: bool)
    ensures
        allowed == allowed_tags(kind).contains(tag@),
{
    let tags = tags_for(kind);
    let mut at: usize = 0;
    while at < tags.len()
        invariant
            at <= tags.len(),
            tags@.len() == allowed_tags(kind).len(),
            forall|i: int| 0 <= i < tags@.len() ==> (#[trigger] tags@[i])@ == allowed_tags(kind)[i],
            forall|i: int| 0 <= i < at ==> allowed_tags(kind)[i] != tag@,
        decreases tags.len() - at,
    {
        if same_text(tags[at], tag) {
            assert(allowed_tags(kind)[at as int] == tag@);
            return true;
        }
        at += 1;
    }
    false
}

/// The icon of `tag`.
pub fn tag_icon(tag: &str) -> (icon: &'static str)
    ensures
        icon@ == icon_of(tag@),
{
    let mut table = rows(ChangeKind::Major);
    let mut minor = rows(ChangeKind::Minor);
    let mut patch = rows(ChangeKind::Patch);
    table.append(&mut minor);
    table.append(&mut patch);
    assert(table@.map_values(|r: TagRow| r@) =~= whole_vocabulary());
    match row_tagged(&table, tag) {
        Some(row) => row.icon,
        None => BOOKMARK,
    }
}

/// A line that is offered gives the tag of its row: the lines of one kind
/// all differ, so the row is found again.
pub proof fn lemma_choice_gives_its_tag(kind: ChangeKind, at: int)
    requires
        0 <= at < vocabulary(kind).len(),
    ensures
        chosen_tag(kind, tag_choices(kind)[at]) == Some(allowed_tags(kind)[at]),
        allowed_tags(kind).contains(allowed_tags(kind)[at]),
{
    lemma_rows_spelled();
    let entries = vocabulary(kind);
    let line = tag_choices(kind)[at];
    assert forall|i: int, j: int| 0 <= i < j < entries.len() implies choice_line(entries[i])
        != choice_line(entries[j]) by {
        assert(choice_line(entries[i])[0] == entries[i].icon[0]);
        assert(choice_line(entries[j])[0] == entries[j].icon[0]);
    }
    lemma_entry_offered_at(entries, at);
}

/// In a line that is offered the tag stands right before the first colon,
/// and white space stands before the tag.
pub proof fn lemma_tag_before_first_colon(kind: ChangeKind, at: int)
    requires
        0 <= at < vocabulary(kind).len(),
    ensures
        ({
            let entry = vocabulary(kind)[at];
            let line = tag_choices(kind)[at];
            let start = (entry.icon.len() + entry.gap.len()) as int;
            let end = start + entry.tag.len();
            &&& 0 < start < end < line.len()
            &&& line.subrange(start, end) == entry.tag
            &&& line[end] == ':'
            &&& is_space(line[start - 1])
            &&& forall|j: int| 0 <= j < end ==> line[j] != ':'
        }),
{
    lemma_rows_spelled();
    reveal_strlit(": ");
    let entry = vocabulary(kind)[at];
    let line = choice_line(entry);
    let start = (entry.icon.len() + entry.gap.len()) as int;
    let end = start + entry.tag.len();
    assert(line.subrange(start, end) =~= entry.tag);
    assert(line[end] == ": "@[0]);
    assert(line[start - 1] == entry.gap[entry.gap.len() - 1]);
    assert forall|j: int| 0 <= j < end implies line[j] != ':' by {
        if j < entry.icon.len() {
            assert(line[j] == entry.icon[j]);
        } else if j < start {
            assert(line[j] == entry.gap[j - entry.icon.len()]);
        } else {
            assert(line[j] == entry.tag[j - start]);
        }
    }
}

/// What the rows hold, character by character.
proof fn lemma_rows_spelled()
    ensures
        forall|kind: ChangeKind, i: int|
            0 <= i < vocabulary(kind).len() ==> {
                let entry = #[trigger] vocabulary(kind)[i];
                &&& entry.icon.len() > 0
                &&& entry.gap.len() > 0
                &&& entry.tag.len() > 0
                &&& forall|j: int| 0 <= j < entry.icon.len() ==> entry.icon[j] != ':'
                &&& forall|j: int| 0 <= j < entry.gap.len() ==> entry.gap[j] == ' '
                &&& forall|j: int| 0 <= j < entry.tag.len() ==> entry.tag[j] != ':'
            },
        forall|kind: ChangeKind, i: int, j: int|
            0 <= i < j < vocabulary(kind).len() ==> (#[trigger] vocabulary(kind)[i]).icon[0]
                != (#[trigger] vocabulary(kind)[j]).icon[0],
{
    reveal_strlit("⚰️");
    reveal_strlit("  ");
    reveal_strlit("Remove");
    reveal_strlit("🚚");
    reveal_strlit(" ");
    reveal_strlit("Rename");
    reveal_strlit("✏️");
    reveal_strlit("I/O");
    reveal_strlit("💥");
    reveal_strlit("Behavior");
    reveal_strlit("✨");
    reveal_strlit("Feature");
    reveal_strlit("➕");
    reveal_strlit("Add");
    reveal_strlit("🗑️");
    reveal_strlit("Deprecated");
    reveal_strlit("♻️");
    reveal_strlit("Refactor");
    reveal_strlit("🐛");
    reveal_strlit("Bug");
    reveal_strlit("⚡️");
    reveal_strlit("Optimization");
    reveal_strlit("🧪");
    reveal_strlit("Tests");
    reveal_strlit("🩹");
    reveal_strlit("Patch");
}

proof fn lemma_entry_offered_at(entries: Seq<TagEntry>, at: int)
    requires
        0 <= at < entries.len(),
        forall|i: int, j: int|
            0 <= i < j < entries.len() ==> choice_line(entries[i]) != choice_line(entries[j]),
    ensures
        entry_offered(entries, choice_line(entries[at])) == Some(entries[at]),
    decreases at,
{
    if at > 0 {
        let rest = entries.skip(1);
        assert(choice_line(entries[0]) != choice_line(entries[at]));
        assert forall|i: int, j: int| 0 <= i < j < rest.len() implies choice_line(rest[i])
            != choice_line(rest[j]) by {
            assert(rest[i] == entries[i + 1] && rest[j] == entries[j + 1]);
        }
        lemma_entry_offered_at(rest, at - 1);
    }
}

} // verus!
