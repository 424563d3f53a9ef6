//! Settings: where they come from and what they resolve to.
//!
//! The tool reads its settings from `changeforge.toml` (section
//! `[changeforge]`) and, failing that, from `pyproject.toml` (section
//! `[tool.changeforge]`). The caller reads the two files and hands over their
//! text, or `None` for a file it could not read.
//!
//! The work is done in two steps. `primary_source` and `secondary_source` read
//! a document with the `toml` crate and keep the few facts the resolver needs
//! as a [`Source`]. `resolve_sources`, `paths_from_sources` and
//! `toggles_from_sources` decide on those facts alone.
//!
//! What is known of a document is stated in [`crate::document`]: which
//! document a text is, and how a value is written out, are named there and
//! not spelled out, so the contracts of the functions that read a file's
//! text speak of those names.

use crate::document::{
    flag_under, items, items_of, member, member_of, parse_document, read_flag, read_text, render,
    text_under, toml_document, toml_model, toml_models, toml_rendering, Toml,
};
use crate::text::{blank, is_blank, optional_str, optional_text, texts, without, without_char};
use vstd::prelude::*;
use vstd::string::*;

verus! {

/// Why no settings could be resolved.
#[derive(Clone, Copy, Debug, PartialEq, Eq, Structural)]
pub enum ConfigError {
    /// `changeforge.toml` gave no section and `pyproject.toml` could not be
    /// read.
    SecondaryMissing,
    /// `changeforge.toml` gave no section and `pyproject.toml` is not a TOML
    /// document.
    SecondaryMalformed,
    /// `pyproject.toml` has no `[tool]` table.
    MissingTools,
    /// `pyproject.toml` has no `[tool.changeforge]` table.
    MissingSection,
    /// The section has no `version_path`.
    MissingVersionPath,
    /// `version_path` is not an array.
    VersionPathNotList,
    /// `version_path` is an empty array.
    EmptyVersionPath,
}

impl ConfigError {
    /// The message shown to the user.
    pub fn message(&self) -> (m: &'static str)
        ensures
            m@ == self.message_text(),
    {
        match self {
            ConfigError::SecondaryMissing => "Error reading the `pyproject.toml` file",
            ConfigError::SecondaryMalformed => "Error getting the file pyproject.toml: it is not a TOML document",
            ConfigError::MissingTools => "The pyproject doesn't have tools associated. Please add the `changeforge` tool as [tool.changeforge].",
            ConfigError::MissingSection => "The pyproject doesn't have changeforge as tool. You should have [tool.changeforge].",
            ConfigError::MissingVersionPath => "The changeforge utility doesn't include a `version_path` field",
            ConfigError::VersionPathNotList => "The version path doesn't include a path",
            ConfigError::EmptyVersionPath => "Couldn't find any version paths in the configuration.",
        }
    }

    /// The text of `message`.
    pub open spec fn message_text(&self) -> Seq<char> {
        match self {
            ConfigError::SecondaryMissing => "Error reading the `pyproject.toml` file"@,
            ConfigError::SecondaryMalformed => "Error getting the file pyproject.toml: it is not a TOML document"@,
            ConfigError::MissingTools => "The pyproject doesn't have tools associated. Please add the `changeforge` tool as [tool.changeforge]."@,
            ConfigError::MissingSection => "The pyproject doesn't have changeforge as tool. You should have [tool.changeforge]."@,
            ConfigError::MissingVersionPath => "The changeforge utility doesn't include a `version_path` field"@,
            ConfigError::VersionPathNotList => "The version path doesn't include a path"@,
            ConfigError::EmptyVersionPath => "Couldn't find any version paths in the configuration."@,
        }
    }
}

/// Each failure has a message of its own.
pub proof fn lemma_messages_differ(a: ConfigError, b: ConfigError)
    requires
        a != b,
    ensures
        a.message_text() != b.message_text(),
{
    reveal_strlit("Error reading the `pyproject.toml` file");
    reveal_strlit("Error getting the file pyproject.toml: it is not a TOML document");
    reveal_strlit(
        "The pyproject doesn't have tools associated. Please add the `changeforge` tool as [tool.changeforge].",
    );
    reveal_strlit(
        "The pyproject doesn't have changeforge as tool. You should have [tool.changeforge].",
    );
    reveal_strlit("The changeforge utility doesn't include a `version_path` field");
    reveal_strlit("The version path doesn't include a path");
    reveal_strlit("Couldn't find any version paths in the configuration.");
    assert(ConfigError::SecondaryMissing.message_text().len() == 39);
    assert(ConfigError::SecondaryMalformed.message_text().len() == 64);
    assert(ConfigError::MissingTools.message_text().len() == 101);
    assert(ConfigError::MissingSection.message_text().len() == 83);
    assert(ConfigError::MissingVersionPath.message_text().len() == 62);
    assert(ConfigError::VersionPathNotList.message_text().len() == 39);
    assert(ConfigError::EmptyVersionPath.message_text().len() == 53);
    assert(ConfigError::SecondaryMissing.message_text()[0] == 'E');
    assert(ConfigError::VersionPathNotList.message_text()[0] == 'T');
}

/// What a section says of `version_path`.
#[derive(Clone, Debug, PartialEq, Eq)]
pub enum PathsField {
    /// The section has no such key.
    Absent,
    /// The key holds something other than an array.
    NotList,
    /// The array's elements, each written out in TOML syntax with its double
    /// quotes taken out.
    List(Vec<String>),
}

/// The model of a [`PathsField`].
pub enum PathsFieldModel {
    Absent,
    NotList,
    List(Seq<Seq<char>>),
}

impl View for PathsField {
    type V = PathsFieldModel;

    open spec fn view(&self) -> PathsFieldModel {
        match self {
            PathsField::Absent => PathsFieldModel::Absent,
            PathsField::NotList => PathsFieldModel::NotList,
            PathsField::List(paths) => PathsFieldModel::List(texts(paths@)),
        }
    }
}

/// The tool's section of a settings document, key by key. A key that is
/// absent, or holds a value of another type than the one read, gives `None`.
#[derive(Clone, Debug, PartialEq, Eq)]
pub struct Section {
    pub version_path: PathsField,
    pub changesets_dir: Option<String>,
    pub changelog_path: Option<String>,
    pub ai_enabled: Option<bool>,
    pub templates_dir: Option<String>,
    pub commit_on_create: Option<bool>,
}

/// The model of a [`Section`].
pub struct SectionModel {
    pub version_path: PathsFieldModel,
    pub changesets_dir: Option<Seq<char>>,
    pub changelog_path: Option<Seq<char>>,
    pub ai_enabled: Option<bool>,
    pub templates_dir: Option<Seq<char>>,
    pub commit_on_create: Option<bool>,
}

impl View for Section {
    type V = SectionModel;

    open spec fn view(&self) -> SectionModel {
        SectionModel {
            version_path: self.version_path@,
            changesets_dir: optional_text(self.changesets_dir),
            changelog_path: optional_text(self.changelog_path),
            ai_enabled: self.ai_enabled,
            templates_dir: optional_text(self.templates_dir),
            commit_on_create: self.commit_on_create,
        }
    }
}

/// What one settings file gave.
#[derive(Clone, Debug, PartialEq, Eq)]
pub enum Source {
    /// The file could not be read.
    Missing,
    /// The file is not a TOML document.
    Malformed,
    /// The document has no `tool` table. Only `pyproject.toml` can give this.
    NoTools,
    /// The document has no section for the tool.
    NoSection,
    /// The document has the section.
    Found(Section),
}

/// The model of a [`Source`].
pub enum SourceModel {
    Missing,
    Malformed,
    NoTools,
    NoSection,
    Found(SectionModel),
}

impl View for Source {
    type V = SourceModel;

    open spec fn view(&self) -> SourceModel {
        match self {
            Source::Missing => SourceModel::Missing,
            Source::Malformed => SourceModel::Malformed,
            Source::NoTools => SourceModel::NoTools,
            Source::NoSection => SourceModel::NoSection,
            Source::Found(section) => SourceModel::Found(section@),
        }
    }
}

/// One element of `version_path` as the tool takes it: the element written
/// out in TOML syntax, without its double quotes. So the integer `7` gives
/// the path `7`.
pub open spec fn path_entry(element: Toml) -> Seq<char> {
    match element {
        Toml::Other(written) => without(written, '"'),
        _ => without(toml_rendering(element), '"'),
    }
}

/// What `section` says of `version_path`.
pub open spec fn paths_field_of(section: Toml) -> PathsFieldModel {
    match member_of(section, "version_path"@) {
        None => PathsFieldModel::Absent,
        Some(value) => match items_of(value) {
            None => PathsFieldModel::NotList,
            Some(elements) => PathsFieldModel::List(
                elements.map_values(|e: Toml| path_entry(e)),
            ),
        },
    }
}

/// The facts read from the tool's section.
pub open spec fn section_of(section: Toml) -> SectionModel {
    SectionModel {
        version_path: paths_field_of(section),
        changesets_dir: text_under(section, "changesets_dir"@),
        changelog_path: text_under(section, "changelog_path"@),
        ai_enabled: flag_under(section, "ai_enabled"@),
        templates_dir: text_under(section, "templates_dir"@),
        commit_on_create: flag_under(section, "commit_on_create"@),
    }
}

/// What `changeforge.toml` gives: its section is `[changeforge]`.
pub open spec fn primary_source_of(file: Option<Seq<char>>) -> SourceModel {
    match file {
        None => SourceModel::Missing,
        Some(text) => match toml_document(text) {
            None => SourceModel::Malformed,
            Some(root) => match member_of(root, "changeforge"@) {
                None => SourceModel::NoSection,
                Some(section) => SourceModel::Found(section_of(section)),
            },
        },
    }
}

/// What `pyproject.toml` gives: its section is `[tool.changeforge]`.
pub open spec fn secondary_source_of(file: Option<Seq<char>>) -> SourceModel {
    match file {
        None => SourceModel::Missing,
        Some(text) => match toml_document(text) {
            None => SourceModel::Malformed,
            Some(root) => match member_of(root, "tool"@) {
                None => SourceModel::NoTools,
                Some(tools) => match member_of(tools, "changeforge"@) {
                    None => SourceModel::NoSection,
                    Some(section) => SourceModel::Found(section_of(section)),
                },
            },
        },
    }
}

fn read_paths(section: &toml::Value) -> (field: PathsField)
    ensures
        field@ == paths_field_of(toml_model(*section)),
{
    match member(section, "version_path") {
        None => PathsField::Absent,
        Some(value) => match items(value) {
            None => PathsField::NotList,
            Some(elements) => {
                let mut paths: Vec<String> = Vec::new();
                let mut at: usize = 0;
                while at < elements.len()
                    invariant
                        at <= elements.len(),
                        paths@.len() == at,
                        forall|i: int|
                            0 <= i < at ==> (#[trigger] paths@[i])@ == path_entry(
                                toml_model(elements@[i]),
                            ),
                    decreases elements.len() - at,
                {
                    let shown = render(&elements[at]);
                    paths.push(without_char(shown.as_str(), '"'));
                    at += 1;
                }
                assert(texts(paths@) =~= toml_models(elements@).map_values(
                    |e: Toml| path_entry(e),
                ));
                PathsField::List(paths)
            },
        },
    }
}

fn read_section(section: &toml::Value) -> (facts: Section)
    ensures
        facts@ == section_of(toml_model(*section)),
{
    Section {
        version_path: read_paths(section),
        changesets_dir: read_text(section, "changesets_dir"),
        changelog_path: read_text(section, "changelog_path"),
        ai_enabled: read_flag(section, "ai_enabled"),
        templates_dir: read_text(section, "templates_dir"),
        commit_on_create: read_flag(section, "commit_on_create"),
    }
}

/// Reads what `changeforge.toml` gives. `file` is the file's text, or `None`
/// where the file could not be read.
pub fn primary_source(file: Option<&str>) -> (source: Source)
    ensures
        source@ == primary_source_of(optional_str(file)),
{
    match file {
        None => Source::Missing,
        Some(text) => match parse_document(text) {
            None => Source::Malformed,
            Some(root) => match member(&root, "changeforge") {
                None => Source::NoSection,
                Some(section) => Source::Found(read_section(section)),
            },
        },
    }
}

/// Reads what `pyproject.toml` gives. `file` is the file's text, or `None`
/// where the file could not be read.
pub fn secondary_source(file: Option<&str>) -> (source: Source)
    ensures
        source@ == secondary_source_of(optional_str(file)),
{
    match file {
        None => Source::Missing,
        Some(text) => match parse_document(text) {
            None => Source::Malformed,
            Some(root) => match member(&root, "tool") {
                None => Source::NoTools,
                Some(tools) => match member(tools, "changeforge") {
                    None => Source::NoSection,
                    Some(section) => Source::Found(read_section(section)),
                },
            },
        },
    }
}

/// The feature toggles of the authoring flow.
#[derive(Clone, Debug, PartialEq, Eq)]
pub struct CFConfig {
    /// Whether a message may be generated.
    pub ai_enabled: bool,
    /// Where message templates lie, if templates are in use.
    pub templates_dir: Option<String>,
    /// Whether a new changeset is offered for commit.
    pub commit_on_create: bool,
}

/// The model of a [`CFConfig`].
pub struct CFConfigModel {
    pub ai_enabled: bool,
    pub templates_dir: Option<Seq<char>>,
    pub commit_on_create: bool,
}

impl View for CFConfig {
    type V = CFConfigModel;

    open spec fn view(&self) -> CFConfigModel {
        CFConfigModel {
            ai_enabled: self.ai_enabled,
            templates_dir: optional_text(self.templates_dir),
            commit_on_create: self.commit_on_create,
        }
    }
}

/// The settings of one invocation.
#[derive(Clone, Debug, PartialEq, Eq)]
pub struct Configuration {
    /// The files that carry the version; the first is the one it is read
    /// from. Never empty in a resolved configuration.
    pub version_paths: Vec<String>,
    /// The directory that holds the pending changesets.
    pub changesets_dir: String,
    /// The changelog file.
    pub changelog_path: String,
    /// Whether a message may be generated.
    pub ai_enabled: bool,
    /// Where message templates lie, if templates are in use.
    pub templates_dir: Option<String>,
    /// Whether a new changeset is offered for commit.
    pub commit_on_create: bool,
}

/// The model of a [`Configuration`].
pub struct ConfigurationModel {
    pub version_paths: Seq<Seq<char>>,
    pub changesets_dir: Seq<char>,
    pub changelog_path: Seq<char>,
    pub ai_enabled: bool,
    pub templates_dir: Option<Seq<char>>,
    pub commit_on_create: bool,
}

impl View for Configuration {
    type V = ConfigurationModel;

    open spec fn view(&self) -> ConfigurationModel {
        ConfigurationModel {
            version_paths: texts(self.version_paths@),
            changesets_dir: self.changesets_dir@,
            changelog_path: self.changelog_path@,
            ai_enabled: self.ai_enabled,
            templates_dir: optional_text(self.templates_dir),
            commit_on_create: self.commit_on_create,
        }
    }
}

impl Configuration {
    /// A configuration names at least one file that carries the version.
    pub open spec fn wf(&self) -> bool {
        self.version_paths@.len() > 0
    }
}

/// The section the settings are taken from. A section in `changeforge.toml`
/// is used alone, whatever it holds; in every other case `pyproject.toml`
/// decides.
pub open spec fn chosen_section(primary: SourceModel, secondary: SourceModel) -> Result<
    SectionModel,
    ConfigError,
> {
    match primary {
        SourceModel::Found(section) => Ok(section),
        _ => match secondary {
            SourceModel::Missing => Err(ConfigError::SecondaryMissing),
            SourceModel::Malformed => Err(ConfigError::SecondaryMalformed),
            SourceModel::NoTools => Err(ConfigError::MissingTools),
            SourceModel::NoSection => Err(ConfigError::MissingSection),
            SourceModel::Found(section) => Ok(section),
        },
    }
}

/// A section in `changeforge.toml` decides alone: with it, nothing that
/// `pyproject.toml` holds changes what is resolved.
pub proof fn lemma_primary_section_decides(
    section: SectionModel,
    one: SourceModel,
    other: SourceModel,
)
    ensures
        resolved(SourceModel::Found(section), one) == resolved(SourceModel::Found(section), other),
        resolved_paths(SourceModel::Found(section), one) == resolved_paths(
            SourceModel::Found(section),
            other,
        ),
        resolved_toggles(SourceModel::Found(section), one) == resolved_toggles(
            SourceModel::Found(section),
            other,
        ),
{
}

/// A configuration that is resolved names at least one file, and it fails
/// to resolve exactly where the version paths do.
pub proof fn lemma_resolved_with_paths(primary: SourceModel, secondary: SourceModel)
    ensures
        resolved(primary, secondary) matches Ok(c) ==> c.version_paths.len() > 0 && resolved_paths(
            primary,
            secondary,
        ) == Ok::<Seq<Seq<char>>, ConfigError>(c.version_paths),
        resolved(primary, secondary) matches Err(e) ==> resolved_paths(primary, secondary) == Err::<
            Seq<Seq<char>>,
            ConfigError,
        >(e),
{
}

/// The version paths a section gives.
pub open spec fn section_paths(section: SectionModel) -> Result<Seq<Seq<char>>, ConfigError> {
    match section.version_path {
        PathsFieldModel::Absent => Err(ConfigError::MissingVersionPath),
        PathsFieldModel::NotList => Err(ConfigError::VersionPathNotList),
        PathsFieldModel::List(paths) => if paths.len() == 0 {
            Err(ConfigError::EmptyVersionPath)
        } else {
            Ok(paths)
        },
    }
}

/// The version paths the two sources resolve to.
pub open spec fn resolved_paths(primary: SourceModel, secondary: SourceModel) -> Result<
    Seq<Seq<char>>,
    ConfigError,
> {
    match chosen_section(primary, secondary) {
        Ok(section) => section_paths(section),
        Err(e) => Err(e),
    }
}

/// A toggle is on unless the section switches it off.
pub open spec fn toggle(setting: Option<bool>) -> bool {
    match setting {
        Some(b) => b,
        None => true,
    }
}

/// A templates directory counts only if its name is not blank.
pub open spec fn templates_setting(setting: Option<Seq<char>>) -> Option<Seq<char>> {
    match setting {
        Some(dir) => if blank(dir) {
            None
        } else {
            Some(dir)
        },
        None => None,
    }
}

/// The toggles a section gives.
pub open spec fn section_toggles(section: SectionModel) -> CFConfigModel {
    CFConfigModel {
        ai_enabled: toggle(section.ai_enabled),
        templates_dir: templates_setting(section.templates_dir),
        commit_on_create: toggle(section.commit_on_create),
    }
}

/// The toggles where no section is found.
pub open spec fn default_toggles() -> CFConfigModel {
    CFConfigModel { ai_enabled: true, templates_dir: None, commit_on_create: true }
}

/// The toggles the two sources resolve to: those of the first section found,
/// `changeforge.toml` first, and the defaults where neither has one.
pub open spec fn resolved_toggles(primary: SourceModel, secondary: SourceModel) -> CFConfigModel {
    match primary {
        SourceModel::Found(section) => section_toggles(section),
        _ => match secondary {
            SourceModel::Found(section) => section_toggles(section),
            _ => default_toggles(),
        },
    }
}

/// The directory of changesets where the section names none.
pub open spec fn default_changesets_dir() -> Seq<char> {
    ".changesets"@
}

/// The changelog file where the section names none.
pub open spec fn default_changelog_path() -> Seq<char> {
    "CHANGELOG.md"@
}

/// `setting`, or `fallback` where there is none.
pub open spec fn text_or(setting: Option<Seq<char>>, fallback: Seq<char>) -> Seq<char> {
    match setting {
        Some(t) => t,
        None => fallback,
    }
}

/// The configuration a section gives.
pub open spec fn section_configuration(section: SectionModel) -> Result<
    ConfigurationModel,
    ConfigError,
> {
    match section_paths(section) {
        Err(e) => Err(e),
        Ok(paths) => Ok(
            ConfigurationModel {
                version_paths: paths,
                changesets_dir: text_or(section.changesets_dir, default_changesets_dir()),
                changelog_path: text_or(section.changelog_path, default_changelog_path()),
                ai_enabled: toggle(section.ai_enabled),
                templates_dir: templates_setting(section.templates_dir),
                commit_on_create: toggle(section.commit_on_create),
            },
        ),
    }
}

/// The configuration the two sources resolve to.
pub open spec fn resolved(primary: SourceModel, secondary: SourceModel) -> Result<
    ConfigurationModel,
    ConfigError,
> {
    match chosen_section(primary, secondary) {
        Ok(section) => section_configuration(section),
        Err(e) => Err(e),
    }
}

/// The model of a list of paths, or of the failure to resolve one.
pub open spec fn paths_outcome(r: Result<Vec<String>, ConfigError>) -> Result<
    Seq<Seq<char>>,
    ConfigError,
> {
    match r {
        Ok(paths) => Ok(texts(paths@)),
        Err(e) => Err(e),
    }
}

/// The model of a configuration, or of the failure to resolve one.
pub open spec fn configuration_outcome(r: Result<Configuration, ConfigError>) -> Result<
    ConfigurationModel,
    ConfigError,
> {
    match r {
        Ok(c) => Ok(c@),
        Err(e) => Err(e),
    }
}

fn choose_section(primary: Source, secondary: Source) -> (r: Result<Section, ConfigError>)
    ensures
        match r {
            Ok(section) => chosen_section(primary@, secondary@) == Ok::<SectionModel, ConfigError>(
                section@,
            ),
            Err(e) => chosen_section(primary@, secondary@) == Err::<SectionModel, ConfigError>(e),
        },
{
    match primary {
        Source::Found(section) => Ok(section),
        _ => match secondary {
            Source::Missing => Err(ConfigError::SecondaryMissing),
            Source::Malformed => Err(ConfigError::SecondaryMalformed),
            Source::NoTools => Err(ConfigError::MissingTools),
            Source::NoSection => Err(ConfigError::MissingSection),
            Source::Found(section) => Ok(section),
        },
    }
}

fn paths_of_field(field: PathsField) -> (r: Result<Vec<String>, ConfigError>)
    ensures
        paths_outcome(r) == match field@ {
            PathsFieldModel::Absent => Err::<Seq<Seq<char>>, ConfigError>(
                ConfigError::MissingVersionPath,
            ),
            PathsFieldModel::NotList => Err(ConfigError::VersionPathNotList),
            PathsFieldModel::List(paths) => if paths.len() == 0 {
                Err(ConfigError::EmptyVersionPath)
            } else {
                Ok(paths)
            },
        },
{
    match field {
        PathsField::Absent => Err(ConfigError::MissingVersionPath),
        PathsField::NotList => Err(ConfigError::VersionPathNotList),
        PathsField::List(paths) => if paths.len() == 0 {
            Err(ConfigError::EmptyVersionPath)
        } else {
            Ok(paths)
        },
    }
}

fn choose_templates(setting: Option<String>) -> (r: Option<String>)
    ensures
        optional_text(r) == templates_setting(optional_text(setting)),
{
    match setting {
        Some(dir) => if is_blank(dir.as_str()) {
            None
        } else {
            Some(dir)
        },
        None => None,
    }
}

fn choose_toggle(setting: Option<bool>) -> (b: bool)
    ensures
        b == toggle(setting),
{
    match setting {
        Some(b) => b,
        None => true,
    }
}

fn toggles_of_section(section: Section) -> (c: CFConfig)
    ensures
        c@ == section_toggles(section@),
{
    CFConfig {
        ai_enabled: choose_toggle(section.ai_enabled),
        templates_dir: choose_templates(section.templates_dir),
        commit_on_create: choose_toggle(section.commit_on_create),
    }
}

/// The version paths that two sources resolve to, or the reason there are
/// none.
pub fn paths_from_sources(primary: Source, secondary: Source) -> (r: Result<
    Vec<String>,
    ConfigError,
>)
    ensures
        paths_outcome(r) == resolved_paths(primary@, secondary@),
{
    match choose_section(primary, secondary) {
        Ok(section) => paths_of_field(section.version_path),
        Err(e) => Err(e),
    }
}

/// The feature toggles that two sources resolve to. This never fails: where
/// no section is found every toggle is on and no templates are in use.
pub fn toggles_from_sources(primary: Source, secondary: Source) -> (c: CFConfig)
    ensures
        c@ == resolved_toggles(primary@, secondary@),
{
    match primary {
        Source::Found(section) => toggles_of_section(section),
        _ => match secondary {
            Source::Found(section) => toggles_of_section(section),
            _ => CFConfig { ai_enabled: true, templates_dir: None, commit_on_create: true },
        },
    }
}

/// The configuration that two sources resolve to, or the reason there is
/// none.
pub fn resolve_sources(primary: Source, secondary: Source) -> (r: Result<
    Configuration,
    ConfigError,
>)
    ensures
        configuration_outcome(r) == resolved(primary@, secondary@),
        r matches Ok(c) ==> c.wf(),
{
    match choose_section(primary, secondary) {
        Err(e) => Err(e),
        Ok(section) => {
            let changesets_dir = match section.changesets_dir {
                Some(dir) => dir,
                None => ".changesets".to_owned(),
            };
            let changelog_path = match section.changelog_path {
                Some(path) => path,
                None => "CHANGELOG.md".to_owned(),
            };
            let ai_enabled = choose_toggle(section.ai_enabled);
            let templates_dir = choose_templates(section.templates_dir);
            let commit_on_create = choose_toggle(section.commit_on_create);
            match paths_of_field(section.version_path) {
                Err(e) => Err(e),
                Ok(version_paths) => Ok(
                    Configuration {
                        version_paths,
                        changesets_dir,
                        changelog_path,
                        ai_enabled,
                        templates_dir,
                        commit_on_create,
                    },
                ),
            }
        },
    }
}

/// The files that carry the version, from the text of `changeforge.toml` and
/// of `pyproject.toml` (`None` for a file that could not be read).
pub fn find_version_in_file(primary: Option<&str>, secondary: Option<&str>) -> (r: Result<
    Vec<String>,
    ConfigError,
>)
    ensures
        paths_outcome(r) == resolved_paths(
            primary_source_of(optional_str(primary)),
            secondary_source_of(optional_str(secondary)),
        ),
{
    paths_from_sources(primary_source(primary), secondary_source(secondary))
}

/// The feature toggles, from the text of `changeforge.toml` and of
/// `pyproject.toml` (`None` for a file that could not be read).
pub fn load_changeforge_config(primary: Option<&str>, secondary: Option<&str>) -> (c: CFConfig)
    ensures
        c@ == resolved_toggles(
            primary_source_of(optional_str(primary)),
            secondary_source_of(optional_str(secondary)),
        ),
{
    toggles_from_sources(primary_source(primary), secondary_source(secondary))
}

/// The whole configuration, from the text of `changeforge.toml` and of
/// `pyproject.toml` (`None` for a file that could not be read).
pub fn resolve(primary: Option<&str>, secondary: Option<&str>) -> (r: Result<
    Configuration,
    ConfigError,
>)
    ensures
        configuration_outcome(r) == resolved(
            primary_source_of(optional_str(primary)),
            secondary_source_of(optional_str(secondary)),
        ),
        r matches Ok(c) ==> c.wf(),
{
    resolve_sources(primary_source(primary), secondary_source(secondary))
}

} // verus!
