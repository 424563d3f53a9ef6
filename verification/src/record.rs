//! The record of a changeset in the store: a TOML document with one string
//! for each field.
//!
//! ```toml
//! name = "calm"
//! change = "MINOR"
//! tag = "Feature"
//! modules = "src/parser.rs"
//! message = "add retry"
//! version = "0.5.0"
//! ```

use crate::bump::{kind_name, kind_named};
use crate::changeset::{ChangeKind, Changeset, ChangesetModel};
use crate::document::{
    parse_document, read_text, render_string, text_under, toml_document, toml_model,
    toml_rendering, Toml,
};
use crate::text::optional_text;
use vstd::prelude::*;
use vstd::string::*;

verus! {

/// The fields of a record.
#[derive(Clone, Copy, Debug, PartialEq, Eq, Structural)]
pub enum Field {
    Name,
    Change,
    Tag,
    Modules,
    Message,
    Version,
}

/// Why a text is no record of a changeset.
#[derive(Clone, Copy, Debug, PartialEq, Eq, Structural)]
pub enum RecordError {
    /// The text is not a TOML document.
    NotADocument,
    /// The document has no string under the key of this field.
    Missing(Field),
    /// The kind of change is none of `MAJOR`, `MINOR`, `PATCH`.
    UnknownKind,
}

/// The changeset that six fields make, each given as the string found
/// under its key, or `None` where there is none. The fields are checked in
/// the order in which a record lists them, and the first that is missing is
/// reported; the kind of change is checked as soon as it is there.
pub open spec fn fields_checked(
    name: Option<Seq<char>>,
    change: Option<Seq<char>>,
    tag: Option<Seq<char>>,
    modules: Option<Seq<char>>,
    message: Option<Seq<char>>,
    version: Option<Seq<char>>,
) -> Result<ChangesetModel, RecordError> {
    if name is None {
        Err(RecordError::Missing(Field::Name))
    } else if change is None {
        Err(RecordError::Missing(Field::Change))
    } else if kind_named(change->Some_0) is None {
        Err(RecordError::UnknownKind)
    } else if tag is None {
        Err(RecordError::Missing(Field::Tag))
    } else if modules is None {
        Err(RecordError::Missing(Field::Modules))
    } else if message is None {
        Err(RecordError::Missing(Field::Message))
    } else if version is None {
        Err(RecordError::Missing(Field::Version))
    } else {
        Ok(
            ChangesetModel {
                name: name->Some_0,
                change: kind_named(change->Some_0)->Some_0,
                tag: tag->Some_0,
                modules: modules->Some_0,
                message: message->Some_0,
                version: version->Some_0,
            },
        )
    }
}

/// The changeset that a document records.
pub open spec fn fields_read(root: Toml) -> Result<ChangesetModel, RecordError> {
    fields_checked(
        text_under(root, "name"@),
        text_under(root, "change"@),
        text_under(root, "tag"@),
        text_under(root, "modules"@),
        text_under(root, "message"@),
        text_under(root, "version"@),
    )
}

/// The changeset that `text` records.
pub open spec fn record_read(text: Seq<char>) -> Result<ChangesetModel, RecordError> {
    match toml_document(text) {
        None => Err(RecordError::NotADocument),
        Some(root) => fields_read(root),
    }
}

/// One line of a record: the key, and the value as a TOML string.
pub open spec fn field_line(key: Seq<char>, value: Seq<char>) -> Seq<char> {
    key + " = "@ + toml_rendering(Toml::Str(value)) + "\n"@
}

/// The record of a changeset.
pub open spec fn record_text(changeset: ChangesetModel) -> Seq<char> {
    field_line("name"@, changeset.name) + field_line("change"@, kind_name(changeset.change))
        + field_line("tag"@, changeset.tag) + field_line("modules"@, changeset.modules)
        + field_line("message"@, changeset.message) + field_line("version"@, changeset.version)
}

/// The model of a changeset read, or of the failure to read one.
pub open spec fn record_outcome(r: Result<Changeset, RecordError>) -> Result<
    ChangesetModel,
    RecordError,
> {
    match r {
        Ok(c) => Ok(c@),
        Err(e) => Err(e),
    }
}

/// Makes a changeset of the six fields of a record, each the string found
/// under its key or `None`.
pub fn changeset_of_fields(
    name: Option<String>,
    change: Option<String>,
    tag: Option<String>,
    modules: Option<String>,
    message: Option<String>,
    version: Option<String>,
) -> (r: Result<Changeset, RecordError>)
    ensures
        record_outcome(r) == fields_checked(
            optional_text(name),
            optional_text(change),
            optional_text(tag),
            optional_text(modules),
            optional_text(message),
            optional_text(version),
        ),
{
    let name = match name {
        Some(name) => name,
        None => {
            return Err(RecordError::Missing(Field::Name));
        },
    };
    let change = match change {
        Some(change) => change,
        None => {
            return Err(RecordError::Missing(Field::Change));
        },
    };
    let kind = match ChangeKind::parse(change.as_str()) {
        Some(kind) => kind,
        None => {
            return Err(RecordError::UnknownKind);
        },
    };
    let tag = match tag {
        Some(tag) => tag,
        None => {
            return Err(RecordError::Missing(Field::Tag));
        },
    };
    let modules = match modules {
        Some(modules) => modules,
        None => {
            return Err(RecordError::Missing(Field::Modules));
        },
    };
    let message = match message {
        Some(message) => message,
        None => {
            return Err(RecordError::Missing(Field::Message));
        },
    };
    let version = match version {
        Some(version) => version,
        None => {
            return Err(RecordError::Missing(Field::Version));
        },
    };
    Ok(Changeset { name, change: kind, tag, modules, message, version })
}

/// Reads the fields of a record from its document.
fn read_fields(root: &toml::Value) -> (r: Result<Changeset, RecordError>)
    ensures
        record_outcome(r) == fields_read(toml_model(*root)),
{
    changeset_of_fields(
        read_text(root, "name"),
        read_text(root, "change"),
        read_text(root, "tag"),
        read_text(root, "modules"),
        read_text(root, "message"),
        read_text(root, "version"),
    )
}

/// Reads the changeset that `text` records.
pub fn read_record(text: &str) -> (r: Result<Changeset, RecordError>)
    ensures
        record_outcome(r) == record_read(text@),
{
    match parse_document(text) {
        None => Err(RecordError::NotADocument),
        Some(root) => read_fields(&root),
    }
}

/// Appends one line of a record to `out`.
fn append_field(out: &mut String, key: &str, value: &str)
    ensures
        final(out)@ == old(out)@ + field_line(key@, value@),
{
    out.append(key);
    out.append(" = ");
    out.append(render_string(value).as_str());
    out.append("\n");
    assert(final(out)@ =~= old(out)@ + field_line(key@, value@));
}

/// Writes the record of `changeset`.
pub fn write_record(changeset: &Changeset) -> (text: String)
    ensures
        text@ == record_text(changeset@),
{
    let mut text = String::new();
    append_field(&mut text, "name", changeset.name.as_str());
    append_field(&mut text, "change", changeset.change.name());
    append_field(&mut text, "tag", changeset.tag.as_str());
    append_field(&mut text, "modules", changeset.modules.as_str());
    append_field(&mut text, "message", changeset.message.as_str());
    append_field(&mut text, "version", changeset.version.as_str());
    assert(text@ =~= record_text(changeset@));
    text
}

} // verus!
