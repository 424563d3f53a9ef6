//! The decisions of the authoring flow: what the answers of the author mean
//! and what is made of them. The questions themselves are asked elsewhere.

use crate::bump::{kind_name, kind_named, next_version_for, next_version_of, BumpError};
use crate::changeset::{ChangeKind, Changeset, ChangesetModel};
use crate::pattern::{capture, regex_capture};
use crate::tags::{
    allowed_tags, chosen_tag, icon_of, lemma_choice_gives_its_tag, tag_allowed, tag_choices,
    tag_icon, tag_of_choice,
};
use crate::text::{
    blank, chars_of, contains, is_blank, is_space, lines_of, occurs, optional_text, same_text,
    space_char, split_lines, texts,
};
use vstd::prelude::*;
use vstd::string::*;

verus! {

/// The name shown in the name prompt; leaving it stands for "pick one".
pub const DEFAULT_NAME: &'static str = "Leave it blank for a random name";

/// The last entry of a list of modules: the author names one by hand.
pub const OTHER_MODULE: &'static str = "Other (specify manually)";

/// The pattern that finds the kind of change in the line the author chose.
pub const KIND_PATTERN: &'static str = "\\b(MAJOR|MINOR|PATCH)\\b";

/// The pattern that finds the tag in a line that is not one of those
/// offered: what stands before the first colon, white space left out.
pub const TAG_PATTERN: &'static str = "([^\\s:]+):";

/// The directory of pending changesets, as the commit step names it.
pub const STORE_DIR: &'static str = ".changesets";

/// The three ways to come by a message, as they are offered.
pub const METHOD_AI: &'static str = "Generate with AI based on detected changes";

pub const METHOD_TEMPLATE: &'static str = "Use message template";

pub const METHOD_SCRATCH: &'static str = "Write message from scratch";

/// A name that is the prompt's default, or blank, asks for a generated one.
pub open spec fn wants_generated_name(name: Seq<char>) -> bool {
    name == DEFAULT_NAME@ || blank(name)
}

/// Whether a name is to be generated in place of `name`.
pub fn needs_generated_name(name: &str) -> (generate: bool)
    ensures
        generate == wants_generated_name(name@),
{
    same_text(name, DEFAULT_NAME) || is_blank(name)
}

/// The kind of change named in `label`, as the pattern finds it.
pub open spec fn kind_in_label(label: Seq<char>) -> Option<ChangeKind> {
    match regex_capture(KIND_PATTERN@, label, 1) {
        Some(name) => kind_named(name),
        None => None,
    }
}

/// The kind of change for the word found in a label.
pub fn kind_of_capture(found: Option<String>) -> (kind: Option<ChangeKind>)
    ensures
        kind == match optional_text(found) {
            Some(name) => kind_named(name),
            None => None::<ChangeKind>,
        },
{
    match found {
        Some(name) => ChangeKind::parse(name.as_str()),
        None => None,
    }
}

/// The kind of change that the chosen line names: the first of the words
/// `MAJOR`, `MINOR`, `PATCH` that stands in it as a word of its own. A line
/// without one names no kind.
pub fn change_of_label(label: &str) -> (kind: Option<ChangeKind>)
    ensures
        kind == kind_in_label(label@),
{
    kind_of_capture(capture(KIND_PATTERN, label, 1))
}

/// The tag that a line names for a change of kind `kind`. A line that is
/// offered for the kind names the tag of its row. Any other line names what
/// the pattern finds before its first colon, and itself where the pattern
/// finds nothing.
pub open spec fn tag_in_label(kind: ChangeKind, label: Seq<char>) -> Seq<char> {
    named_tag(kind, label, regex_capture(TAG_PATTERN@, label, 1))
}

/// The tag that a line names, given what the pattern finds in it.
pub open spec fn named_tag(kind: ChangeKind, label: Seq<char>, found: Option<Seq<char>>) -> Seq<
    char,
> {
    match chosen_tag(kind, label) {
        Some(tag) => tag,
        None => match found {
            Some(tag) => tag,
            None => label,
        },
    }
}

/// The tag that `label` names for a change of kind `kind`, from what the
/// pattern found in the line.
pub fn tag_of_capture(kind: ChangeKind, label: &str, found: Option<String>) -> (tag: String)
    ensures
        tag@ == named_tag(kind, label@, optional_text(found)),
{
    match tag_of_choice(kind, label) {
        Some(tag) => tag.to_owned(),
        None => match found {
            Some(tag) => tag,
            None => label.to_owned(),
        },
    }
}

/// The tag that the chosen line names for a change of kind `kind`.
pub fn tag_of_label(kind: ChangeKind, label: &str) -> (tag: String)
    ensures
        tag@ == tag_in_label(kind, label@),
{
    match tag_of_choice(kind, label) {
        Some(tag) => tag.to_owned(),
        None => tag_of_capture(kind, label, capture(TAG_PATTERN, label, 1)),
    }
}

/// Each line that is offered names the tag of its row, which is one of the
/// tags of the kind.
pub proof fn lemma_offered_line_names_its_tag(kind: ChangeKind, at: int)
    requires
        0 <= at < tag_choices(kind).len(),
    ensures
        tag_in_label(kind, tag_choices(kind)[at]) == allowed_tags(kind)[at],
        allowed_tags(kind).contains(tag_in_label(kind, tag_choices(kind)[at])),
{
    lemma_choice_gives_its_tag(kind, at);
}

/// The characters of `s` up to its first white space.
pub open spec fn leading_word(s: Seq<char>) -> Seq<char>
    decreases s.len(),
{
    if s.len() == 0 || is_space(s[0]) {
        Seq::<char>::empty()
    } else {
        seq![s[0]] + leading_word(s.skip(1))
    }
}

/// The first word of `s`: white space at the start is passed over, and the
/// word ends before the next white space. Empty where `s` is blank.
pub open spec fn first_word(s: Seq<char>) -> Seq<char>
    decreases s.len(),
{
    if s.len() == 0 {
        Seq::<char>::empty()
    } else if is_space(s[0]) {
        first_word(s.skip(1))
    } else {
        leading_word(s)
    }
}

/// The icon of the chosen line: its first word.
pub fn icon_of_label(label: &str) -> (icon: String)
    ensures
        icon@ == first_word(label@),
{
    let chars = chars_of(label);
    let mut start: usize = 0;
    assert(label@.skip(0) =~= label@);
    while start < chars.len() && space_char(chars[start])
        invariant
            start <= chars.len(),
            chars@ == label@,
            first_word(label@) == first_word(label@.skip(start as int)),
        decreases chars.len() - start,
    {
        assert(label@.skip(start as int).skip(1) =~= label@.skip(start + 1));
        start += 1;
    }
    let mut end: usize = start;
    proof {
        assert(label@.subrange(start as int, start as int) =~= Seq::<char>::empty());
        if start < chars.len() {
            assert(first_word(label@.skip(start as int)) == leading_word(
                label@.skip(start as int),
            ));
        } else {
            assert(label@.skip(start as int).len() == 0);
        }
    }
    while end < chars.len() && !space_char(chars[end])
        invariant
            start <= end <= chars.len(),
            chars@ == label@,
            first_word(label@) == label@.subrange(start as int, end as int) + leading_word(
                label@.skip(end as int),
            ),
        decreases chars.len() - end,
    {
        proof {
            let rest = label@.skip(end as int);
            assert(rest.skip(1) =~= label@.skip(end + 1));
            assert(label@.subrange(start as int, end as int) + (seq![rest[0]] + leading_word(
                rest.skip(1),
            )) =~= label@.subrange(start as int, end + 1) + leading_word(rest.skip(1)));
        }
        end += 1;
    }
    proof {
        if end < chars.len() {
            assert(label@.skip(end as int)[0] == label@[end as int]);
        } else {
            assert(label@.skip(end as int).len() == 0);
        }
        assert(label@.subrange(start as int, end as int) + Seq::<char>::empty()
            =~= label@.subrange(start as int, end as int));
    }
    label.substring_char(start, end).to_owned()
}

/// A way to come by the message of a changeset.
#[derive(Clone, Copy, Debug, PartialEq, Eq, Structural)]
pub enum MessageMethod {
    /// The message is generated and may then be edited.
    Generated,
    /// The message starts from a template and must depart from it.
    Template,
    /// The message is written by hand.
    Scratch,
}

/// The ways offered to the author, in the order in which they are shown:
/// generation if it is switched on, templates if there are any, and writing
/// from scratch always.
pub open spec fn offered_methods(ai_enabled: bool, templates_available: bool) -> Seq<Seq<char>> {
    let ai = if ai_enabled {
        seq![METHOD_AI@]
    } else {
        Seq::<Seq<char>>::empty()
    };
    let template = if templates_available {
        seq![METHOD_TEMPLATE@]
    } else {
        Seq::<Seq<char>>::empty()
    };
    ai + template + seq![METHOD_SCRATCH@]
}

/// The ways to come by a message that are offered to the author.
pub fn message_methods(ai_enabled: bool, templates_available: bool) -> (methods: Vec<String>)
    ensures
        texts(methods@) == offered_methods(ai_enabled, templates_available),
{
    let mut methods: Vec<String> = Vec::new();
    if ai_enabled {
        methods.push(METHOD_AI.to_owned());
    }
    if templates_available {
        methods.push(METHOD_TEMPLATE.to_owned());
    }
    methods.push(METHOD_SCRATCH.to_owned());
    assert(texts(methods@) =~= offered_methods(ai_enabled, templates_available));
    methods
}

/// The way that a chosen line stands for.
pub open spec fn method_chosen(choice: Seq<char>) -> MessageMethod {
    if occurs(choice, "Generate with AI"@) {
        MessageMethod::Generated
    } else if occurs(choice, METHOD_TEMPLATE@) {
        MessageMethod::Template
    } else {
        MessageMethod::Scratch
    }
}

/// The way to come by the message that the author chose.
pub fn method_of_choice(choice: &str) -> (method: MessageMethod)
    ensures
        method == method_chosen(choice@),
{
    if contains(choice, "Generate with AI") {
        MessageMethod::Generated
    } else if contains(choice, METHOD_TEMPLATE) {
        MessageMethod::Template
    } else {
        MessageMethod::Scratch
    }
}

/// Whether a message written from a template can stand: it is not empty
/// and not the template itself.
pub fn template_message_accepted(message: &str, template: &str) -> (accepted: bool)
    ensures
        accepted == (message@.len() != 0 && message@ != template@),
{
    !message.is_empty() && !same_text(message, template)
}

/// The line that a commit of `changeset` is described by: icon, tag and
/// message.
pub open spec fn commit_line(changeset: ChangesetModel) -> Seq<char> {
    icon_of(changeset.tag) + " "@ + changeset.tag + ": "@ + changeset.message
}

/// The message of the commit that records `changeset`.
pub fn commit_message(changeset: &Changeset) -> (line: String)
    ensures
        line@ == commit_line(changeset@),
{
    let mut line = String::from_str(tag_icon(changeset.tag.as_str()));
    line.append(" ");
    line.append(changeset.tag.as_str());
    line.append(": ");
    line.append(changeset.message.as_str());
    line
}

/// The file that holds the changeset called `name`.
pub open spec fn record_path(name: Seq<char>) -> Seq<char> {
    STORE_DIR@ + "/"@ + name + ".toml"@
}

/// The path of the file that holds the changeset called `name`.
pub fn changeset_file(name: &str) -> (path: String)
    ensures
        path@ == record_path(name@),
{
    let mut path = String::from_str(STORE_DIR);
    path.append("/");
    path.append(name);
    path.append(".toml");
    path
}

/// The files that a commit of `changeset` takes in: its record, and what
/// it names as changed if that is a file that exists.
pub open spec fn staged_paths(changeset: ChangesetModel, module_exists: bool) -> Seq<Seq<char>> {
    if changeset.modules.len() != 0 && module_exists {
        seq![record_path(changeset.name), changeset.modules]
    } else {
        seq![record_path(changeset.name)]
    }
}

/// The files to stage for the commit of `changeset`. `module_exists` says
/// whether what the changeset names as changed is a path that exists.
pub fn paths_to_stage(changeset: &Changeset, module_exists: bool) -> (paths: Vec<String>)
    ensures
        texts(paths@) == staged_paths(changeset@, module_exists),
{
    let mut paths: Vec<String> = Vec::new();
    paths.push(changeset_file(changeset.name.as_str()));
    if !changeset.modules.as_str().is_empty() && module_exists {
        paths.push(changeset.modules.clone());
    }
    assert(texts(paths@) =~= staged_paths(changeset@, module_exists));
    paths
}

/// The lines that sum a changeset up for the author, under their title.
/// What the changeset touched is shown only if it names something.
pub open spec fn summary_of(changeset: ChangesetModel) -> Seq<Seq<char>> {
    let head = seq![
        "Changeset Summary:"@,
        "Name: "@ + changeset.name + ".toml"@,
        "Type: "@ + kind_name(changeset.change),
        "Tag: "@ + changeset.tag,
    ];
    let module = if changeset.modules.len() != 0 {
        seq!["Module: "@ + changeset.modules]
    } else {
        Seq::<Seq<char>>::empty()
    };
    head + module + seq!["Message: "@ + changeset.message, "Version: "@ + changeset.version]
}

/// `label` followed by `value`.
fn labelled(label: &str, value: &str) -> (line: String)
    ensures
        line@ == label@ + value@,
{
    let mut line = String::from_str(label);
    line.append(value);
    line
}

/// The summary of `changeset` that the author is asked to confirm.
pub fn summary_lines(changeset: &Changeset) -> (lines: Vec<String>)
    ensures
        texts(lines@) == summary_of(changeset@),
{
    let mut lines: Vec<String> = Vec::new();
    lines.push("Changeset Summary:".to_owned());
    let mut name = labelled("Name: ", changeset.name.as_str());
    name.append(".toml");
    lines.push(name);
    lines.push(labelled("Type: ", changeset.change.name()));
    lines.push(labelled("Tag: ", changeset.tag.as_str()));
    if !changeset.modules.as_str().is_empty() {
        lines.push(labelled("Module: ", changeset.modules.as_str()));
    }
    lines.push(labelled("Message: ", changeset.message.as_str()));
    lines.push(labelled("Version: ", changeset.version.as_str()));
    assert(texts(lines@) =~= summary_of(changeset@));
    lines
}

/// The lines of `listing` that are not empty, in order.
pub open spec fn listed_files(listing: Seq<char>) -> Seq<Seq<char>> {
    lines_of(listing).filter(|line: Seq<char>| line.len() != 0)
}

/// The modules offered to the author from a listing of changed files: the
/// files, and behind them the entry for naming one by hand. Nothing is
/// offered where nothing changed.
pub open spec fn offered_files(listing: Seq<char>) -> Seq<Seq<char>> {
    if listed_files(listing).len() == 0 {
        Seq::<Seq<char>>::empty()
    } else {
        listed_files(listing).push(OTHER_MODULE@)
    }
}

/// The modules to offer, from what the version control lists as changed,
/// one path to a line.
pub fn changed_files(listing: &str) -> (files: Vec<String>)
    ensures
        texts(files@) == offered_files(listing@),
{
    let lines = split_lines(listing);
    let ghost all = texts(lines@);
    let mut files: Vec<String> = Vec::new();
    let mut at: usize = 0;
    proof {
        reveal(Seq::filter);
        assert(all.take(0) =~= Seq::<Seq<char>>::empty());
    }
    while at < lines.len()
        invariant
            at <= lines.len(),
            all == texts(lines@),
            texts(files@) == all.take(at as int).filter(|line: Seq<char>| line.len() != 0),
        decreases lines.len() - at,
    {
        proof {
            reveal(Seq::filter);
            assert(all.take(at + 1).drop_last() =~= all.take(at as int));
            assert(all.take(at + 1).last() == lines@[at as int]@);
        }
        if !lines[at].as_str().is_empty() {
            let ghost before = files@;
            files.push(lines[at].clone());
            assert(texts(files@) =~= texts(before).push(lines@[at as int]@));
        }
        at += 1;
    }
    assert(all.take(at as int) =~= all);
    if files.len() > 0 {
        let ghost before = files@;
        files.push(OTHER_MODULE.to_owned());
        assert(texts(files@) =~= texts(before).push(OTHER_MODULE@));
    }
    files
}

/// Whether one of `selected` holds `marker`.
pub open spec fn any_holds(selected: Seq<Seq<char>>, marker: Seq<char>) -> bool {
    exists|i: int| 0 <= i < selected.len() && occurs(#[trigger] selected[i], marker)
}

/// Whether one of the selected lines holds `marker`.
pub fn option_selected(selected: &Vec<String>, marker: &str) -> (found: bool)
    ensures
        found == any_holds(texts(selected@), marker@),
{
    let mut at: usize = 0;
    while at < selected.len()
        invariant
            at <= selected.len(),
            forall|i: int| 0 <= i < at ==> !occurs(#[trigger] texts(selected@)[i], marker@),
        decreases selected.len() - at,
    {
        if contains(selected[at].as_str(), marker) {
            assert(occurs(texts(selected@)[at as int], marker@));
            return true;
        }
        at += 1;
    }
    false
}

/// The two toggles that the author set when the project was set up, from
/// the lines selected: message generation, and commit after create.
pub fn creation_options(selected: &Vec<String>) -> (toggles: (bool, bool))
    ensures
        toggles.0 == any_holds(texts(selected@), "AI messages"@),
        toggles.1 == any_holds(texts(selected@), "Commit after create"@),
{
    (option_selected(selected, "AI messages"), option_selected(selected, "Commit after create"))
}

/// Why the answers of the author make no changeset.
#[derive(Clone, Copy, Debug, PartialEq, Eq, Structural)]
pub enum DraftError {
    /// The name is blank, or is the text that stands for "pick one".
    NoName,
    /// The message is empty.
    EmptyMessage,
    /// The tag is none of those that go with the kind of change.
    ForeignTag,
    /// No next version follows from the current one.
    Version(BumpError),
}

/// The changeset that the answers make. The answers are checked in the
/// order name, message, tag, version, and the first that fails is reported.
pub open spec fn drafted(
    name: Seq<char>,
    change: ChangeKind,
    tag: Seq<char>,
    modules: Seq<char>,
    message: Seq<char>,
    current: Seq<char>,
) -> Result<ChangesetModel, DraftError> {
    if wants_generated_name(name) {
        Err(DraftError::NoName)
    } else if message.len() == 0 {
        Err(DraftError::EmptyMessage)
    } else if !allowed_tags(change).contains(tag) {
        Err(DraftError::ForeignTag)
    } else {
        match next_version_for(current, change) {
            Err(e) => Err(DraftError::Version(e)),
            Ok(version) => Ok(ChangesetModel { name, change, tag, modules, message, version }),
        }
    }
}

/// The model of a changeset drafted, or of the failure to draft one.
pub open spec fn draft_outcome(r: Result<Changeset, DraftError>) -> Result<
    ChangesetModel,
    DraftError,
> {
    match r {
        Ok(c) => Ok(c@),
        Err(e) => Err(e),
    }
}

/// Puts the answers of the author together. The changeset that comes out is
/// valid and has a name; it records the kind of change that was chosen and
/// the version that this change alone leads to from `current`.
pub fn process_answers(
    name: String,
    change: ChangeKind,
    tag: String,
    modules: String,
    message: String,
    current: &str,
) -> (r: Result<Changeset, DraftError>)
    ensures
        draft_outcome(r) == drafted(name@, change, tag@, modules@, message@, current@),
        r matches Ok(c) ==> {
            &&& c@.valid()
            &&& !blank(c@.name)
            &&& c@.change == change
            &&& Ok::<Seq<char>, BumpError>(c@.version) == next_version_for(current@, change)
        },
{
    if needs_generated_name(name.as_str()) {
        return Err(DraftError::NoName);
    }
    if message.as_str().is_empty() {
        return Err(DraftError::EmptyMessage);
    }
    if !tag_allowed(change, tag.as_str()) {
        return Err(DraftError::ForeignTag);
    }
    match next_version_of(current, change) {
        Err(e) => Err(DraftError::Version(e)),
        Ok(version) => Ok(Changeset { name, change, tag, modules, message, version }),
    }
}

} // verus!
