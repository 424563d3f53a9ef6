//! A release from end to end, on values in memory.
//!
//! From the current version, the pending changesets, the changelog and the
//! files that carry the version, a release is worked out in full before
//! anything is written: the next version, the new changelog, and the new
//! text of each file.

use crate::bump::{bump_version, release_version, BumpError};
use crate::changelog::{
    create_changelog, new_changelog_entry, open_changelog, prepend_entry, released_changelog,
};
use crate::changeset::{models, Changeset, ChangesetModel};
use crate::propagate::{all_substituted, propagate};
use crate::text::texts;
use vstd::prelude::*;
use vstd::string::*;

verus! {

/// What a release writes.
#[derive(Clone, Debug, PartialEq, Eq)]
pub struct Release {
    /// The next version.
    pub version: String,
    /// The new text of the changelog file.
    pub changelog: String,
    /// The new text of each file that carries the version, in the order in
    /// which the files were given.
    pub files: Vec<String>,
}

/// The model of a [`Release`].
pub struct ReleaseModel {
    pub version: Seq<char>,
    pub changelog: Seq<char>,
    pub files: Seq<Seq<char>>,
}

impl View for Release {
    type V = ReleaseModel;

    open spec fn view(&self) -> ReleaseModel {
        ReleaseModel {
            version: self.version@,
            changelog: self.changelog@,
            files: texts(self.files@),
        }
    }
}

/// The release of `changesets` on top of version `current`.
pub open spec fn planned(
    current: Seq<char>,
    changesets: Seq<ChangesetModel>,
    changelog: Seq<char>,
    files: Seq<Seq<char>>,
) -> Result<ReleaseModel, BumpError> {
    match release_version(current, changesets) {
        Err(e) => Err(e),
        Ok(version) => Ok(
            ReleaseModel {
                version,
                changelog: released_changelog(changesets, version, changelog),
                files: all_substituted(files, current, version),
            },
        ),
    }
}

/// The model of a release planned, or of the failure to plan one.
pub open spec fn release_outcome(r: Result<Release, BumpError>) -> Result<
    ReleaseModel,
    BumpError,
> {
    match r {
        Ok(release) => Ok(release@),
        Err(e) => Err(e),
    }
}

/// Works out the release of `changesets` on top of version `current`.
/// `changelog` is the present text of the changelog file and `files` are
/// the present texts of the files that carry the version. Nothing is
/// planned where there is no pending changeset or no next version.
pub fn plan_release(
    current: &str,
    changesets: &[Changeset],
    changelog: &str,
    files: &Vec<String>,
) -> (r: Result<Release, BumpError>)
    ensures
        release_outcome(r) == planned(current@, models(changesets@), changelog@, texts(files@)),
{
    match bump_version(current, changesets) {
        Err(e) => Err(e),
        Ok(version) => {
            let entry = new_changelog_entry(changesets, &version);
            let content = prepend_entry(entry, open_changelog(changelog));
            let text = create_changelog(&content);
            let updated = propagate(files, current, version.as_str());
            Ok(Release { version, changelog: text, files: updated })
        },
    }
}

} // verus!
