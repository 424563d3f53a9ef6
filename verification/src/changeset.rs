//! The changeset: one pending, unreleased change.

use crate::tags::{allowed_tags, tag_allowed};
use vstd::prelude::*;
use vstd::string::*;

verus! {

/// The weight of a change in semantic versioning.
#[derive(Clone, Copy, Debug, PartialEq, Eq, Structural)]
pub enum ChangeKind {
    /// A breaking change.
    Major,
    /// A new feature that keeps compatibility.
    Minor,
    /// A fix or another small change.
    Patch,
}

/// One pending change, as it is kept in the store until the next release.
#[derive(Clone, Debug, PartialEq, Eq)]
pub struct Changeset {
    /// The record's name; the file that holds it is named after it.
    pub name: String,
    /// The weight of the change.
    pub change: ChangeKind,
    /// The category the change is listed under in the changelog.
    pub tag: String,
    /// The file, module or function that changed; may be empty.
    pub modules: String,
    /// What changed.
    pub message: String,
    /// The version this change alone would have led to when it was written.
    /// It is shown to the author and decides nothing at release time.
    pub version: String,
}

/// The model of a [`Changeset`].
pub struct ChangesetModel {
    pub name: Seq<char>,
    pub change: ChangeKind,
    pub tag: Seq<char>,
    pub modules: Seq<char>,
    pub message: Seq<char>,
    pub version: Seq<char>,
}

impl View for Changeset {
    type V = ChangesetModel;

    open spec fn view(&self) -> ChangesetModel {
        ChangesetModel {
            name: self.name@,
            change: self.change,
            tag: self.tag@,
            modules: self.modules@,
            message: self.message@,
            version: self.version@,
        }
    }
}

/// What keeps a changeset from being a valid one.
#[derive(Clone, Copy, Debug, PartialEq, Eq, Structural)]
pub enum ChangesetError {
    /// The message is empty.
    EmptyMessage,
    /// The tag is none of those that go with the kind of change.
    ForeignTag,
}

impl ChangesetModel {
    /// A changeset says what changed, under a tag that goes with the kind
    /// of change.
    pub open spec fn valid(self) -> bool {
        self.message.len() > 0 && allowed_tags(self.change).contains(self.tag)
    }
}

impl Changeset {
    /// Checks the changeset. An empty message is reported before a tag out
    /// of place.
    pub fn validate(&self) -> (r: Result<(), ChangesetError>)
        ensures
            r is Ok <==> self@.valid(),
            r == Err::<(), ChangesetError>(ChangesetError::EmptyMessage) <==> self@.message.len()
                == 0,
            r == Err::<(), ChangesetError>(ChangesetError::ForeignTag) <==> self@.message.len() > 0
                && !allowed_tags(self@.change).contains(self@.tag),
    {
        if self.message.as_str().is_empty() {
            Err(ChangesetError::EmptyMessage)
        } else if !tag_allowed(self.change, self.tag.as_str()) {
            Err(ChangesetError::ForeignTag)
        } else {
            Ok(())
        }
    }
}

/// The models of a sequence of changesets.
pub open spec fn models(changesets: Seq<Changeset>) -> Seq<ChangesetModel> {
    changesets.map_values(|c: Changeset| c@)
}

} // verus!
