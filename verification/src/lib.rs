//! Release bookkeeping for a single repository.
//!
//! Small records of change, the changesets, pile up while work goes on. At
//! release time they are folded into one next version, one block of the
//! changelog, and a new text for every file that carries the version; then
//! the records are cleared away.
//!
//! Everything here works on values in memory and is verified with Verus.
//! Reading and writing files, asking the author and running other programs
//! belong to the caller, who hands over what was read and carries out what
//! comes back.
//!
//! - [`config`]: the settings, from `changeforge.toml` or `pyproject.toml`.
//! - [`reader`]: the current version, from the lines of a file.
//! - [`version`], [`bump`]: reading versions, and computing the next one.
//! - [`changelog`]: the block of a release, grouped by tag.
//! - [`propagate`]: the new version in every file that held the old one.
//! - [`record`], [`store`]: the record of a changeset, and what to delete
//!   when the store of records is cleared.
//! - [`release`]: a release in one step.
//! - [`authoring`], [`tags`], [`selection`], [`setup`], [`layout`]: what is
//!   decided while a changeset is written or a project is set up.
//! - [`text`], [`number`]: texts and numbers underneath.
//!
//! Two outside crates are called, `toml` and `regex`. What is taken on trust
//! about them is stated where they are called, in [`document`] and
//! [`pattern`].

pub mod authoring;
pub mod bump;
pub mod changelog;
pub mod changeset;
pub mod config;
pub mod document;
pub mod layout;
pub mod number;
pub mod pattern;
pub mod propagate;
pub mod reader;
pub mod record;
pub mod release;
pub mod selection;
pub mod setup;
pub mod store;
pub mod tags;
pub mod text;
pub mod version;

pub use bump::{bump_version, calculate_next_version, BumpError};
pub use changelog::{create_changelog, new_changelog_entry, open_changelog};
pub use changeset::{ChangeKind, Changeset};
pub use config::{
    find_version_in_file, load_changeforge_config, resolve, CFConfig, ConfigError, Configuration,
};
pub use propagate::{propagate, update_version_path};
pub use reader::{find_version, open_path, VersionError};
pub use record::{read_record, write_record, RecordError};
pub use release::{plan_release, Release};
pub use store::delete_changesets;
pub use version::{find_largest_version, parse_version, Version};
