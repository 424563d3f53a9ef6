//! The changelog block of a release.
//!
//! A block is a header line that names the version, then one group per tag.
//! The groups stand in the order in which their tags first appear among the
//! changesets; a group is a heading line and one bullet line for each
//! changeset with that tag, in the order of the changesets.

use crate::changeset::{models, Changeset, ChangesetModel};
use crate::text::{join_lines, joined_lines, lines_of, split_lines, texts};
use vstd::prelude::*;
use vstd::string::*;

verus! {

/// The first line of a block: `## [version]`.
pub open spec fn header_line(version: Seq<char>) -> Seq<char> {
    "## ["@ + version + "]\n"@
}

/// The line that opens the group of `tag`: `### tag`, set off by blank
/// lines.
pub open spec fn heading_line(tag: Seq<char>) -> Seq<char> {
    "\n### "@ + tag + "\n\n"@
}

/// The line of one changeset: `- message.`, or `- modules: message.` where
/// the changeset names what it touched.
pub open spec fn bullet_line(c: ChangesetModel) -> Seq<char> {
    if c.modules.len() == 0 {
        "- "@ + c.message + ".\n"@
    } else {
        "- "@ + c.modules + ": "@ + c.message + ".\n"@
    }
}

/// The tags of `changesets` in the order in which they first appear, each
/// of them once.
pub open spec fn first_seen_tags(changesets: Seq<ChangesetModel>) -> Seq<Seq<char>>
    decreases changesets.len(),
{
    if changesets.len() == 0 {
        Seq::<Seq<char>>::empty()
    } else {
        let before = first_seen_tags(changesets.drop_last());
        if before.contains(changesets.last().tag) {
            before
        } else {
            before.push(changesets.last().tag)
        }
    }
}

/// The changesets with tag `tag`, in their order.
pub open spec fn tagged(changesets: Seq<ChangesetModel>, tag: Seq<char>) -> Seq<ChangesetModel> {
    changesets.filter(|c: ChangesetModel| c.tag == tag)
}

/// The bullet lines of the changesets with tag `tag`.
pub open spec fn bullets(changesets: Seq<ChangesetModel>, tag: Seq<char>) -> Seq<Seq<char>> {
    tagged(changesets, tag).map_values(|c: ChangesetModel| bullet_line(c))
}

/// The group of `tag`: its heading, then its bullets.
pub open spec fn group(changesets: Seq<ChangesetModel>, tag: Seq<char>) -> Seq<Seq<char>> {
    seq![heading_line(tag)] + bullets(changesets, tag)
}

/// The groups of `tags`, one after the other.
pub open spec fn groups(changesets: Seq<ChangesetModel>, tags: Seq<Seq<char>>) -> Seq<Seq<char>>
    decreases tags.len(),
{
    if tags.len() == 0 {
        Seq::<Seq<char>>::empty()
    } else {
        groups(changesets, tags.drop_last()) + group(changesets, tags.last())
    }
}

/// The block for `changesets` released as `version`.
pub open spec fn changelog_entry(changesets: Seq<ChangesetModel>, version: Seq<char>) -> Seq<
    Seq<char>,
> {
    seq![header_line(version)] + groups(changesets, first_seen_tags(changesets))
}

/// The tags of the changesets at `places`.
pub open spec fn tags_at(changesets: Seq<ChangesetModel>, places: Seq<usize>) -> Seq<Seq<char>> {
    places.map_values(|p: usize| changesets[p as int].tag)
}

/// Writes the header line for `version`.
pub fn header(version: &str) -> (line: String)
    ensures
        line@ == header_line(version@),
{
    let mut line = String::from_str("## [");
    line.append(version);
    line.append("]\n");
    line
}

/// Writes the heading line for `tag`.
pub fn heading(tag: &str) -> (line: String)
    ensures
        line@ == heading_line(tag@),
{
    let mut line = String::from_str("\n### ");
    line.append(tag);
    line.append("\n\n");
    line
}

/// Writes the bullet line of `changeset`.
pub fn bullet(changeset: &Changeset) -> (line: String)
    ensures
        line@ == bullet_line(changeset@),
        changeset@.modules.len() == 0 ==> line@ == "- "@ + changeset@.message + ".\n"@,
        changeset@.modules.len() != 0 ==> line@ == "- "@ + changeset@.modules + ": "@
            + changeset@.message + ".\n"@,
{
    let mut line = String::from_str("- ");
    if !changeset.modules.as_str().is_empty() {
        line.append(changeset.modules.as_str());
        line.append(": ");
    }
    line.append(changeset.message.as_str());
    line.append(".\n");
    line
}

/// Whether the tag of `changesets[at]` is that of one of the changesets at
/// `places`.
fn already_listed(changesets: &[Changeset], places: &Vec<usize>, at: usize) -> (listed: bool)
    requires
        at < changesets@.len(),
        forall|k: int| 0 <= k < places@.len() ==> (#[trigger] places@[k]) < changesets@.len(),
    ensures
        listed == tags_at(models(changesets@), places@).contains(changesets@[at as int]@.tag),
{
    let ghost tags = tags_at(models(changesets@), places@);
    let ghost tag = changesets@[at as int]@.tag;
    let mut k: usize = 0;
    while k < places.len()
        invariant
            k <= places.len(),
            at < changesets@.len(),
            forall|j: int| 0 <= j < places@.len() ==> (#[trigger] places@[j]) < changesets@.len(),
            tags == tags_at(models(changesets@), places@),
            tag == changesets@[at as int]@.tag,
            forall|j: int| 0 <= j < k ==> tags[j] != tag,
        decreases places.len() - k,
    {
        if changesets[places[k]].tag == changesets[at].tag {
            assert(tags[k as int] == tag);
            return true;
        }
        k += 1;
    }
    false
}

/// Appends the bullet lines of the changesets with the tag of
/// `changesets[at]` to `content`.
fn push_bullets(content: &mut Vec<String>, changesets: &[Changeset], at: usize)
    requires
        at < changesets@.len(),
    ensures
        texts(final(content)@) == texts(old(content)@) + bullets(
            models(changesets@),
            changesets@[at as int]@.tag,
        ),
{
    let ghost all = models(changesets@);
    let ghost tag = changesets@[at as int]@.tag;
    let ghost base = texts(content@);
    let mut k: usize = 0;
    proof {
        reveal(Seq::filter);
        assert(all.take(0) =~= Seq::<ChangesetModel>::empty());
        assert(base + bullets(all.take(0), tag) =~= base);
    }
    while k < changesets.len()
        invariant
            k <= changesets.len(),
            at < changesets@.len(),
            all == models(changesets@),
            tag == changesets@[at as int]@.tag,
            texts(content@) == base + bullets(all.take(k as int), tag),
        decreases changesets.len() - k,
    {
        proof {
            reveal(Seq::filter);
            assert(all.take(k + 1).drop_last() =~= all.take(k as int));
            assert(all.take(k + 1).last() == changesets@[k as int]@);
        }
        if changesets[k].tag == changesets[at].tag {
            let ghost before = content@;
            content.push(bullet(&changesets[k]));
            proof {
                assert(texts(content@) =~= texts(before).push(bullet_line(changesets@[k as int]@)));
                assert(bullets(all.take(k + 1), tag) =~= bullets(all.take(k as int), tag).push(
                    bullet_line(changesets@[k as int]@),
                ));
            }
        }
        k += 1;
    }
    assert(all.take(k as int) =~= all);
}

/// The changelog block for `changesets` released as `version`: the header,
/// then the groups in the order in which their tags first appear.
pub fn new_changelog_entry(changesets: &[Changeset], version: &String) -> (content: Vec<String>)
    ensures
        texts(content@) == changelog_entry(models(changesets@), version@),
{
    let ghost all = models(changesets@);
    let mut listed: Vec<usize> = Vec::new();
    let mut content: Vec<String> = Vec::new();
    content.push(header(version.as_str()));
    let mut at: usize = 0;
    proof {
        assert(all.take(0) =~= Seq::<ChangesetModel>::empty());
        assert(tags_at(all, listed@) =~= first_seen_tags(all.take(0)));
        assert(texts(content@) =~= seq![header_line(version@)] + groups(
            all,
            first_seen_tags(all.take(0)),
        ));
    }
    while at < changesets.len()
        invariant
            at <= changesets.len(),
            all == models(changesets@),
            forall|k: int| 0 <= k < listed@.len() ==> (#[trigger] listed@[k]) < changesets@.len(),
            tags_at(all, listed@) == first_seen_tags(all.take(at as int)),
            texts(content@) == seq![header_line(version@)] + groups(
                all,
                first_seen_tags(all.take(at as int)),
            ),
        decreases changesets.len() - at,
    {
        proof {
            assert(all.take(at + 1).drop_last() =~= all.take(at as int));
            assert(all.take(at + 1).last() == changesets@[at as int]@);
        }
        if !already_listed(changesets, &listed, at) {
            let ghost seen = first_seen_tags(all.take(at as int));
            let ghost tag = changesets@[at as int]@.tag;
            let ghost before = content@;
            content.push(heading(changesets[at].tag.as_str()));
            assert(texts(content@) =~= texts(before).push(heading_line(tag)));
            push_bullets(&mut content, changesets, at);
            let ghost places = listed@;
            listed.push(at);
            proof {
                assert(tags_at(all, listed@) =~= tags_at(all, places).push(tag));
                assert(seen.push(tag).drop_last() =~= seen);
                assert(texts(content@) =~= seq![header_line(version@)] + groups(
                    all,
                    seen.push(tag),
                ));
            }
        }
        at += 1;
    }
    assert(all.take(at as int) =~= all);
    content
}

/// The text of a changelog file with these lines: each line, then a line
/// feed. A file without lines is a single line feed.
pub open spec fn changelog_text(lines: Seq<Seq<char>>) -> Seq<char> {
    if lines.len() == 0 {
        "\n"@
    } else {
        joined_lines(lines, "\n"@)
    }
}

/// The text of a changelog file after a release: the new block, then what
/// the file held before, line by line.
pub open spec fn released_changelog(
    changesets: Seq<ChangesetModel>,
    version: Seq<char>,
    existing: Seq<char>,
) -> Seq<char> {
    changelog_text(changelog_entry(changesets, version) + lines_of(existing))
}

/// The lines of the changelog file whose text is `text`.
pub fn open_changelog(text: &str) -> (lines: Vec<String>)
    ensures
        texts(lines@) == lines_of(text@),
{
    split_lines(text)
}

/// The lines of the changelog after a release: those of the new block,
/// then those the changelog had.
pub fn prepend_entry(entry: Vec<String>, existing: Vec<String>) -> (content: Vec<String>)
    ensures
        texts(content@) == texts(entry@) + texts(existing@),
{
    let mut content = entry;
    let mut rest = existing;
    content.append(&mut rest);
    assert(texts(content@) =~= texts(entry@) + texts(existing@));
    content
}

/// The text to write to the changelog file for the lines `content`.
pub fn create_changelog(content: &Vec<String>) -> (text: String)
    ensures
        text@ == changelog_text(texts(content@)),
{
    if content.len() == 0 {
        "\n".to_owned()
    } else {
        join_lines(content, "\n")
    }
}

/// Where each of the first-seen tags first appears: the places, in
/// `changesets`, of the changesets whose tag no earlier changeset has.
pub open spec fn first_places(changesets: Seq<ChangesetModel>) -> Seq<int>
    decreases changesets.len(),
{
    if changesets.len() == 0 {
        Seq::<int>::empty()
    } else {
        let before = first_places(changesets.drop_last());
        if first_seen_tags(changesets.drop_last()).contains(changesets.last().tag) {
            before
        } else {
            before.push(changesets.len() - 1)
        }
    }
}

/// A tag is among the first-seen tags exactly when some changeset has it.
pub proof fn lemma_first_seen_tags_cover(changesets: Seq<ChangesetModel>, tag: Seq<char>)
    ensures
        first_seen_tags(changesets).contains(tag) <==> exists|i: int|
            0 <= i < changesets.len() && (#[trigger] changesets[i]).tag == tag,
    decreases changesets.len(),
{
    if changesets.len() > 0 {
        let earlier = changesets.drop_last();
        let before = first_seen_tags(earlier);
        let last = changesets.last();
        lemma_first_seen_tags_cover(earlier, tag);
        let now = first_seen_tags(changesets);
        if now.contains(tag) {
            let p = choose|p: int| 0 <= p < now.len() && now[p] == tag;
            if p < before.len() {
                assert(before[p] == tag);
                assert(before.contains(tag));
                let i = choose|i: int| 0 <= i < earlier.len() && (#[trigger] earlier[i]).tag == tag;
                assert(changesets[i].tag == tag);
            } else {
                assert(changesets[changesets.len() - 1].tag == tag);
            }
        }
        if exists|i: int| 0 <= i < changesets.len() && (#[trigger] changesets[i]).tag == tag {
            let i = choose|i: int| 0 <= i < changesets.len() && (#[trigger] changesets[i]).tag == tag;
            if i < earlier.len() {
                assert(earlier[i].tag == tag);
                let p = choose|p: int| 0 <= p < before.len() && before[p] == tag;
                assert(now[p] == tag);
            } else if before.contains(tag) {
                let p = choose|p: int| 0 <= p < before.len() && before[p] == tag;
                assert(now[p] == tag);
            } else {
                assert(now[now.len() - 1] == tag);
            }
        }
    }
}

/// No tag stands twice among the first-seen tags: a block has one group, and
/// so one heading, for each tag.
pub proof fn lemma_first_seen_tags_once(changesets: Seq<ChangesetModel>)
    ensures
        first_seen_tags(changesets).no_duplicates(),
    decreases changesets.len(),
{
    if changesets.len() > 0 {
        lemma_first_seen_tags_once(changesets.drop_last());
    }
}

/// The first-seen tags stand in the order in which they first appear among
/// the changesets. For each of them `first_places` gives the place of the
/// first changeset that has it, and these places increase along the tags.
pub proof fn lemma_first_seen_order(changesets: Seq<ChangesetModel>)
    ensures
        first_places(changesets).len() == first_seen_tags(changesets).len(),
        forall|p: int|
            0 <= p < first_places(changesets).len() ==> {
                let at = #[trigger] first_places(changesets)[p];
                &&& 0 <= at < changesets.len()
                &&& changesets[at].tag == first_seen_tags(changesets)[p]
                &&& forall|j: int| 0 <= j < at ==> (#[trigger] changesets[j]).tag != changesets[at].tag
            },
        forall|p: int, q: int|
            0 <= p < q < first_places(changesets).len() ==> first_places(changesets)[p]
                < first_places(changesets)[q],
    decreases changesets.len(),
{
    if changesets.len() > 0 {
        let earlier = changesets.drop_last();
        let last = changesets.last();
        lemma_first_seen_order(earlier);
        lemma_first_seen_tags_cover(earlier, last.tag);
        let places = first_places(changesets);
        let old_places = first_places(earlier);
        assert forall|p: int| 0 <= p < places.len() implies {
            let at = #[trigger] places[p];
            &&& 0 <= at < changesets.len()
            &&& changesets[at].tag == first_seen_tags(changesets)[p]
            &&& forall|j: int| 0 <= j < at ==> (#[trigger] changesets[j]).tag != changesets[at].tag
        } by {
            let at = places[p];
            if p < old_places.len() {
                assert(at == old_places[p]);
                assert(changesets[at] == earlier[at]);
                assert forall|j: int| 0 <= j < at implies (#[trigger] changesets[j]).tag
                    != changesets[at].tag by {
                    assert(changesets[j] == earlier[j]);
                }
            } else {
                assert(at == changesets.len() - 1);
                assert forall|j: int| 0 <= j < at implies (#[trigger] changesets[j]).tag
                    != changesets[at].tag by {
                    assert(changesets[j] == earlier[j]);
                }
            }
        }
        assert forall|p: int, q: int| 0 <= p < q < places.len() implies places[p] < places[q] by {
            if q < old_places.len() {
                assert(old_places[p] < old_places[q]);
            } else {
                assert(places[p] == old_places[p]);
            }
        }
    }
}

/// A line that opens with a line feed. In a block these are the headings:
/// the header opens with `#` and a bullet with `-`.
pub open spec fn opens_with_feed(line: Seq<char>) -> bool {
    line.len() > 0 && line[0] == '\n'
}

/// The lines among `lines` that open with a line feed, in order.
pub open spec fn headings_among(lines: Seq<Seq<char>>) -> Seq<Seq<char>> {
    lines.filter(|line: Seq<char>| opens_with_feed(line))
}

/// The heading lines of `tags`, in order.
pub open spec fn headings_of(tags: Seq<Seq<char>>) -> Seq<Seq<char>> {
    tags.map_values(|tag: Seq<char>| heading_line(tag))
}

/// Of the three kinds of line only the heading opens with a line feed.
pub proof fn lemma_line_openings(version: Seq<char>, tag: Seq<char>, c: ChangesetModel)
    ensures
        !opens_with_feed(header_line(version)),
        opens_with_feed(heading_line(tag)),
        !opens_with_feed(bullet_line(c)),
{
    reveal_strlit("## [");
    reveal_strlit("\n### ");
    reveal_strlit("- ");
    assert(header_line(version)[0] == '#');
    assert(heading_line(tag)[0] == '\n');
    assert(bullet_line(c)[0] == '-');
}

/// Two tags with the same heading line are the same tag.
pub proof fn lemma_heading_names_its_tag(a: Seq<char>, b: Seq<char>)
    requires
        heading_line(a) == heading_line(b),
    ensures
        a == b,
{
    reveal_strlit("\n### ");
    reveal_strlit("\n\n");
    let opening = "\n### "@;
    assert(heading_line(a).len() == opening.len() + a.len() + 2);
    assert(heading_line(b).len() == opening.len() + b.len() + 2);
    assert forall|i: int| 0 <= i < a.len() implies a[i] == b[i] by {
        assert(heading_line(a)[opening.len() + i] == a[i]);
        assert(heading_line(b)[opening.len() + i] == b[i]);
    }
    assert(a =~= b);
}

proof fn lemma_no_headings_among(lines: Seq<Seq<char>>)
    requires
        forall|i: int| 0 <= i < lines.len() ==> !opens_with_feed(#[trigger] lines[i]),
    ensures
        headings_among(lines) == Seq::<Seq<char>>::empty(),
    decreases lines.len(),
{
    reveal(Seq::filter);
    if lines.len() > 0 {
        let before = lines.drop_last();
        assert forall|i: int| 0 <= i < before.len() implies !opens_with_feed(
            #[trigger] before[i],
        ) by {
            assert(before[i] == lines[i]);
        }
        lemma_no_headings_among(before);
        assert(!opens_with_feed(lines[lines.len() - 1]));
    } else {
        assert(headings_among(lines) =~= Seq::<Seq<char>>::empty());
    }
}

proof fn lemma_headings_of_groups(changesets: Seq<ChangesetModel>, tags: Seq<Seq<char>>)
    ensures
        headings_among(groups(changesets, tags)) == headings_of(tags),
    decreases tags.len(),
{
    let open = |line: Seq<char>| opens_with_feed(line);
    if tags.len() == 0 {
        lemma_no_headings_among(groups(changesets, tags));
        assert(headings_of(tags) =~= Seq::<Seq<char>>::empty());
    } else {
        let tag = tags.last();
        let before = groups(changesets, tags.drop_last());
        let top = seq![heading_line(tag)];
        let rest = bullets(changesets, tag);
        lemma_headings_of_groups(changesets, tags.drop_last());
        assert forall|i: int| 0 <= i < rest.len() implies !opens_with_feed(#[trigger] rest[i]) by {
            lemma_line_openings(Seq::<char>::empty(), tag, tagged(changesets, tag)[i]);
        }
        lemma_no_headings_among(rest);
        assert(headings_among(top) == top) by {
            reveal(Seq::filter);
            lemma_line_openings(Seq::<char>::empty(), tag, changesets[0]);
            assert(top.drop_last() =~= Seq::<Seq<char>>::empty());
            assert(headings_among(top.drop_last()) =~= Seq::<Seq<char>>::empty());
            assert(headings_among(top) =~= top);
        }
        Seq::filter_distributes_over_add(top, rest, open);
        Seq::filter_distributes_over_add(before, top + rest, open);
        assert(headings_of(tags) =~= headings_of(tags.drop_last()).push(heading_line(tag)));
        assert(headings_among(groups(changesets, tags)) =~= headings_of(tags));
    }
}

/// The headings of a block are those of the tags of its changesets, in the
/// order in which the tags first appear, and no heading stands twice.
pub proof fn lemma_headings_of_entry(changesets: Seq<ChangesetModel>, version: Seq<char>)
    ensures
        headings_among(changelog_entry(changesets, version)) == headings_of(
            first_seen_tags(changesets),
        ),
        headings_of(first_seen_tags(changesets)).no_duplicates(),
{
    let open = |line: Seq<char>| opens_with_feed(line);
    let tags = first_seen_tags(changesets);
    let top = seq![header_line(version)];
    lemma_headings_of_groups(changesets, tags);
    assert forall|i: int| 0 <= i < top.len() implies !opens_with_feed(#[trigger] top[i]) by {
        lemma_line_openings(version, version, changesets[0]);
    }
    lemma_no_headings_among(top);
    Seq::filter_distributes_over_add(top, groups(changesets, tags), open);
    assert(headings_among(changelog_entry(changesets, version)) =~= headings_of(tags));
    lemma_first_seen_tags_once(changesets);
    assert forall|i: int, j: int|
        0 <= i < tags.len() && 0 <= j < tags.len() && i != j implies headings_of(tags)[i]
        != headings_of(tags)[j] by {
        if heading_line(tags[i]) == heading_line(tags[j]) {
            lemma_heading_names_its_tag(tags[i], tags[j]);
        }
    }
}

/// The bullets of a group stand in the order of the changesets: the bullet
/// of a changeset comes after as many bullets as changesets with its tag go
/// before it.
pub proof fn lemma_bullet_place(changesets: Seq<ChangesetModel>, at: int)
    requires
        0 <= at < changesets.len(),
    ensures
        ({
            let tag = changesets[at].tag;
            let before = tagged(changesets.take(at), tag).len() as int;
            &&& before < tagged(changesets, tag).len()
            &&& tagged(changesets, tag)[before] == changesets[at]
            &&& group(changesets, tag)[before + 1] == bullet_line(changesets[at])
        }),
{
    let tag = changesets[at].tag;
    let same = |c: ChangesetModel| c.tag == tag;
    let head = changesets.take(at);
    let this = seq![changesets[at]];
    let tail = changesets.skip(at + 1);
    assert(changesets =~= head + this + tail);
    Seq::filter_distributes_over_add(head, this, same);
    Seq::filter_distributes_over_add(head + this, tail, same);
    assert(this.filter(same) =~= this) by {
        reveal(Seq::filter);
        assert(this.drop_last() =~= Seq::<ChangesetModel>::empty());
        assert(this.drop_last().filter(same) =~= Seq::<ChangesetModel>::empty());
    }
    assert(tagged(changesets, tag) =~= tagged(head, tag) + this + tagged(tail, tag));
}

/// The group of a tag is its heading followed by one bullet for each
/// changeset with the tag, and by nothing else.
pub proof fn lemma_group_lines(changesets: Seq<ChangesetModel>, tag: Seq<char>)
    ensures
        group(changesets, tag).len() == 1 + tagged(changesets, tag).len(),
        group(changesets, tag)[0] == heading_line(tag),
        forall|k: int|
            0 <= k < tagged(changesets, tag).len() ==> #[trigger] group(changesets, tag)[k + 1]
                == bullet_line(tagged(changesets, tag)[k]),
        forall|k: int|
            0 <= k < tagged(changesets, tag).len() ==> (#[trigger] tagged(changesets, tag)[k]).tag
                == tag,
{
    let pred = |c: ChangesetModel| c.tag == tag;
    assert forall|k: int| 0 <= k < tagged(changesets, tag).len() implies (#[trigger] tagged(
        changesets,
        tag,
    )[k]).tag == tag by {
        changesets.lemma_filter_pred(pred, k);
    }
}

} // verus!
