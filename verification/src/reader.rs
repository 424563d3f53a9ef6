//! Reading the current version out of a file that carries it.
//!
//! The file is scanned line by line. The first line with one of the two
//! markers decides: it must hold a quoted token of three numbers separated by
//! dots, and that token is the version.

use crate::pattern::{capture, regex_capture};
use crate::text::{contains, occurs, optional_text, texts};
use vstd::prelude::*;
use vstd::string::*;

verus! {

/// The regular expression a version token must match; group 1 is the
/// version without its quotes.
pub const VERSION_PATTERN: &'static str = "\"(\\d+\\.\\d+\\.\\d+)\"";

/// The marker of a version line in most manifests.
pub const PLAIN_MARKER: &'static str = "version =";

/// The marker of a version line in a Python module.
pub const DUNDER_MARKER: &'static str = "__version__ =";

/// A line with a marker is a version line.
pub open spec fn has_marker(line: Seq<char>) -> bool {
    occurs(line, PLAIN_MARKER@) || occurs(line, DUNDER_MARKER@)
}

/// The version token of a line, as the pattern finds it.
pub open spec fn version_token(line: Seq<char>) -> Option<Seq<char>> {
    regex_capture(VERSION_PATTERN@, line, 1)
}

/// What one line says about the version.
#[derive(Clone, Debug, PartialEq, Eq)]
pub enum LineScan {
    /// The line has no marker: it is passed over.
    Unmarked,
    /// The line has a marker and this version token.
    Version(String),
    /// The line has a marker and no version token.
    Malformed,
}

/// The model of a [`LineScan`].
pub enum LineScanModel {
    Unmarked,
    Version(Seq<char>),
    Malformed,
}

impl View for LineScan {
    type V = LineScanModel;

    open spec fn view(&self) -> LineScanModel {
        match self {
            LineScan::Unmarked => LineScanModel::Unmarked,
            LineScan::Version(v) => LineScanModel::Version(v@),
            LineScan::Malformed => LineScanModel::Malformed,
        }
    }
}

/// What a line says, given whether it has a marker and the token found in it.
pub open spec fn judged(marked: bool, token: Option<Seq<char>>) -> LineScanModel {
    if !marked {
        LineScanModel::Unmarked
    } else {
        match token {
            Some(v) => LineScanModel::Version(v),
            None => LineScanModel::Malformed,
        }
    }
}

/// What `line` says about the version.
pub open spec fn line_scan(line: Seq<char>) -> LineScanModel {
    judged(has_marker(line), version_token(line))
}

/// Why no version could be read.
#[derive(Clone, Debug, PartialEq, Eq)]
pub enum VersionError {
    /// The first line with a marker holds no version token.
    Malformed { line: String },
    /// No line of the file has a marker.
    NoMarker { path: String },
}

/// The model of a [`VersionError`].
pub enum VersionErrorModel {
    Malformed { line: Seq<char> },
    NoMarker { path: Seq<char> },
}

impl View for VersionError {
    type V = VersionErrorModel;

    open spec fn view(&self) -> VersionErrorModel {
        match self {
            VersionError::Malformed { line } => VersionErrorModel::Malformed { line: line@ },
            VersionError::NoMarker { path } => VersionErrorModel::NoMarker { path: path@ },
        }
    }
}

impl VersionErrorModel {
    /// The message shown to the user: it quotes the line, or names the
    /// file and the two markers that were looked for.
    pub open spec fn message_text(self) -> Seq<char> {
        match self {
            VersionErrorModel::Malformed { line } => "In the line \""@ + line
                + "\" it cannot be found a version number."@,
            VersionErrorModel::NoMarker { path } => "Couldn't find the version in the path "@ + path
                + ". Try with the following version names: [\"version\", \"__version__\"]"@,
        }
    }
}

impl VersionError {
    /// The message shown to the user.
    pub fn message(&self) -> (m: String)
        ensures
            m@ == self@.message_text(),
    {
        match self {
            VersionError::Malformed { line } => {
                let mut m = String::from_str("In the line \"");
                m.append(line.as_str());
                m.append("\" it cannot be found a version number.");
                m
            },
            VersionError::NoMarker { path } => {
                let mut m = String::from_str("Couldn't find the version in the path ");
                m.append(path.as_str());
                m.append(". Try with the following version names: [\"version\", \"__version__\"]");
                m
            },
        }
    }
}

/// The version that the lines of the file at `path` give: the first line
/// with a marker decides.
pub open spec fn version_of_lines(path: Seq<char>, lines: Seq<Seq<char>>) -> Result<
    Seq<char>,
    VersionErrorModel,
>
    decreases lines.len(),
{
    if lines.len() == 0 {
        Err(VersionErrorModel::NoMarker { path })
    } else {
        match line_scan(lines[0]) {
            LineScanModel::Unmarked => version_of_lines(path, lines.skip(1)),
            LineScanModel::Version(v) => Ok(v),
            LineScanModel::Malformed => Err(VersionErrorModel::Malformed { line: lines[0] }),
        }
    }
}

/// The first line with a marker decides alone: its token is the version,
/// and without a token it is the error, whatever the lines after it hold.
pub proof fn lemma_first_marked_line_decides(path: Seq<char>, lines: Seq<Seq<char>>, at: int)
    requires
        0 <= at < lines.len(),
        has_marker(lines[at]),
        forall|j: int| 0 <= j < at ==> !has_marker(#[trigger] lines[j]),
    ensures
        version_of_lines(path, lines) == match version_token(lines[at]) {
            Some(v) => Ok::<Seq<char>, VersionErrorModel>(v),
            None => Err(VersionErrorModel::Malformed { line: lines[at] }),
        },
    decreases at,
{
    if at > 0 {
        let rest = lines.skip(1);
        assert(!has_marker(lines[0]));
        assert forall|j: int| 0 <= j < at - 1 implies !has_marker(#[trigger] rest[j]) by {
            assert(rest[j] == lines[j + 1]);
        }
        lemma_first_marked_line_decides(path, rest, at - 1);
    }
}

/// A file without a marked line gives no version, and the error names the
/// file.
pub proof fn lemma_unmarked_file(path: Seq<char>, lines: Seq<Seq<char>>)
    requires
        forall|j: int| 0 <= j < lines.len() ==> !has_marker(#[trigger] lines[j]),
    ensures
        version_of_lines(path, lines) == Err::<Seq<char>, VersionErrorModel>(
            VersionErrorModel::NoMarker { path },
        ),
    decreases lines.len(),
{
    if lines.len() > 0 {
        let rest = lines.skip(1);
        assert(!has_marker(lines[0]));
        assert forall|j: int| 0 <= j < rest.len() implies !has_marker(#[trigger] rest[j]) by {
            assert(rest[j] == lines[j + 1]);
        }
        lemma_unmarked_file(path, rest);
    }
}

/// The model of a version read, or of the failure to read one.
pub open spec fn version_outcome(r: Result<String, VersionError>) -> Result<
    Seq<char>,
    VersionErrorModel,
> {
    match r {
        Ok(v) => Ok(v@),
        Err(e) => Err(e@),
    }
}

/// Whether `line` carries one of the two markers.
pub fn is_version_line(line: &str) -> (marked: bool)
    ensures
        marked == has_marker(line@),
{
    contains(line, PLAIN_MARKER) || contains(line, DUNDER_MARKER)
}

/// What a line says, from whether it has a marker and the token that the
/// pattern found in it.
pub fn judge_line(marked: bool, token: Option<String>) -> (scan: LineScan)
    ensures
        scan@ == judged(marked, optional_text(token)),
{
    if !marked {
        LineScan::Unmarked
    } else {
        match token {
            Some(v) => LineScan::Version(v),
            None => LineScan::Malformed,
        }
    }
}

/// What `line` says about the version.
pub fn scan_line(line: &str) -> (scan: LineScan)
    ensures
        scan@ == line_scan(line@),
{
    if is_version_line(line) {
        judge_line(true, capture(VERSION_PATTERN, line, 1))
    } else {
        LineScan::Unmarked
    }
}

/// Reads the version from the lines of the file at `path`. The path is used
/// only to name the file in the error.
pub fn open_path(path: &str, lines: &Vec<String>) -> (r: Result<String, VersionError>)
    ensures
        version_outcome(r) == version_of_lines(path@, texts(lines@)),
{
    let ghost all = texts(lines@);
    let mut at: usize = 0;
    assert(all.skip(0) =~= all);
    while at < lines.len()
        invariant
            at <= lines.len(),
            all == texts(lines@),
            version_of_lines(path@, all) == version_of_lines(path@, all.skip(at as int)),
        decreases lines.len() - at,
    {
        proof {
            assert(all.skip(at as int)[0] == lines@[at as int]@);
            assert(all.skip(at as int).skip(1) =~= all.skip(at + 1));
        }
        match scan_line(lines[at].as_str()) {
            LineScan::Unmarked => {},
            LineScan::Version(v) => {
                return Ok(v);
            },
            LineScan::Malformed => {
                return Err(VersionError::Malformed { line: lines[at].clone() });
            },
        }
        at += 1;
    }
    assert(all.skip(at as int).len() == 0);
    Err(VersionError::NoMarker { path: path.to_owned() })
}

/// Reads the current version: `lines` are the lines of the first of the
/// configured files, which is the one that decides.
pub fn find_version(paths: &Vec<String>, lines: &Vec<String>) -> (r: Result<String, VersionError>)
    requires
        paths@.len() > 0,
    ensures
        version_outcome(r) == version_of_lines(paths@[0]@, texts(lines@)),
{
    open_path(paths[0].as_str(), lines)
}

} // verus!
