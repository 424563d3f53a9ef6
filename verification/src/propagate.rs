//! Carrying a new version into the files that hold the old one.
//!
//! The rewrite of one file is a plain substitution of text: every occurrence
//! of the old version becomes the new one, wherever it stands. The files are
//! rewritten one after the other, and nothing is undone when one of them
//! fails: [`Propagation`] keeps track of how far the run came.

use crate::text::{replace_all, substituted, texts};
use vstd::prelude::*;
use vstd::string::*;

verus! {

/// The new text of a file that carries the version: `content` with every
/// occurrence of `current` replaced by `new_version`. The substitution is
/// literal and not tied to the line that declares the version, so an
/// occurrence inside a longer token is replaced as well.
pub fn update_version_path(content: &str, current: &str, new_version: &str) -> (updated: String)
    ensures
        updated@ == substituted(content@, current@, new_version@),
{
    replace_all(content, current, new_version)
}

/// The texts of `contents`, each with `current` replaced by `new_version`.
pub open spec fn all_substituted(
    contents: Seq<Seq<char>>,
    current: Seq<char>,
    new_version: Seq<char>,
) -> Seq<Seq<char>> {
    contents.map_values(|content: Seq<char>| substituted(content, current, new_version))
}

/// The new texts of all the files that carry the version, in their order.
pub fn propagate(contents: &Vec<String>, current: &str, new_version: &str) -> (updated: Vec<
    String,
>)
    ensures
        texts(updated@) == all_substituted(texts(contents@), current@, new_version@),
{
    let mut updated: Vec<String> = Vec::new();
    let mut at: usize = 0;
    while at < contents.len()
        invariant
            at <= contents.len(),
            updated@.len() == at,
            forall|i: int|
                0 <= i < at ==> (#[trigger] updated@[i])@ == substituted(
                    contents@[i]@,
                    current@,
                    new_version@,
                ),
        decreases contents.len() - at,
    {
        updated.push(update_version_path(contents[at].as_str(), current, new_version));
        at += 1;
    }
    assert(texts(updated@) =~= all_substituted(texts(contents@), current@, new_version@));
    updated
}

/// Where a run over the files stands.
#[derive(Clone, Copy, Debug, PartialEq, Eq, Structural)]
pub enum Phase {
    /// The text of the next file is awaited.
    Reading,
    /// The next file's new text was handed out and is being written.
    Writing,
    /// Every file was rewritten.
    Finished,
    /// The next file could not be read or written; the run is over.
    Failed,
}

/// What the caller reports back.
#[derive(Clone, Debug, PartialEq, Eq)]
pub enum FileEvent {
    /// The file was read; this is its text.
    Read(String),
    /// The file could not be read.
    ReadFailed,
    /// The new text was written.
    Written,
    /// The new text could not be written.
    WriteFailed,
}

/// What the caller is to do next.
#[derive(Clone, Debug, PartialEq, Eq)]
pub enum FileAction {
    /// Read the file with this index and report its text.
    Read { file: usize },
    /// Overwrite the file with this index with `content`.
    Write { file: usize, content: String },
    /// Nothing: every file was rewritten.
    Finish,
    /// Stop: the file with this index failed. The files before it were
    /// rewritten, this one and those after it were not.
    Abort { file: usize },
}

/// The model of a [`FileEvent`].
pub enum FileEventModel {
    Read(Seq<char>),
    ReadFailed,
    Written,
    WriteFailed,
}

/// The model of a [`FileAction`].
pub enum FileActionModel {
    Read { file: nat },
    Write { file: nat, content: Seq<char> },
    Finish,
    Abort { file: nat },
}

impl View for FileEvent {
    type V = FileEventModel;

    open spec fn view(&self) -> FileEventModel {
        match self {
            FileEvent::Read(text) => FileEventModel::Read(text@),
            FileEvent::ReadFailed => FileEventModel::ReadFailed,
            FileEvent::Written => FileEventModel::Written,
            FileEvent::WriteFailed => FileEventModel::WriteFailed,
        }
    }
}

impl View for FileAction {
    type V = FileActionModel;

    open spec fn view(&self) -> FileActionModel {
        match self {
            FileAction::Read { file } => FileActionModel::Read { file: *file as nat },
            FileAction::Write { file, content } => FileActionModel::Write {
                file: *file as nat,
                content: content@,
            },
            FileAction::Finish => FileActionModel::Finish,
            FileAction::Abort { file } => FileActionModel::Abort { file: *file as nat },
        }
    }
}

/// A run over the files that carry the version, one file at a time: read,
/// substitute, write, and on to the next. The caller does the reading and
/// writing and reports each outcome to `advance`.
pub struct Propagation {
    files: usize,
    current: String,
    new_version: String,
    done: usize,
    writing: bool,
    failed: bool,
}

/// The model of a [`Propagation`].
pub struct PropagationModel {
    /// How many files there are.
    pub files: nat,
    /// The version to replace.
    pub current: Seq<char>,
    /// The version to put in its place.
    pub new_version: Seq<char>,
    /// How many files were rewritten so far: the files before this index.
    pub done: nat,
    /// Where the run stands.
    pub phase: Phase,
}

impl View for Propagation {
    type V = PropagationModel;

    closed spec fn view(&self) -> PropagationModel {
        PropagationModel {
            files: self.files as nat,
            current: self.current@,
            new_version: self.new_version@,
            done: self.done as nat,
            phase: if self.failed {
                Phase::Failed
            } else if self.done == self.files {
                Phase::Finished
            } else if self.writing {
                Phase::Writing
            } else {
                Phase::Reading
            },
        }
    }
}

impl PropagationModel {
    /// A run never counts more files than there are; it is finished exactly
    /// when all are rewritten, and while it reads or writes one is left.
    pub open spec fn wf(self) -> bool {
        &&& self.done <= self.files
        &&& self.phase == Phase::Finished ==> self.done == self.files
        &&& (self.phase == Phase::Reading || self.phase == Phase::Writing || self.phase
            == Phase::Failed) ==> self.done < self.files
    }

    /// The state at the start of a run over `files` files.
    pub open spec fn initial(files: nat, current: Seq<char>, new_version: Seq<char>) -> Self {
        PropagationModel {
            files,
            current,
            new_version,
            done: 0,
            phase: if files == 0 {
                Phase::Finished
            } else {
                Phase::Reading
            },
        }
    }

    /// What is to be done in a state that awaits no report.
    pub open spec fn pending(self) -> FileActionModel {
        match self.phase {
            Phase::Reading => FileActionModel::Read { file: self.done },
            Phase::Finished => FileActionModel::Finish,
            _ => FileActionModel::Abort { file: self.done },
        }
    }

    /// The state after `event` is reported. A report that does not answer
    /// what was asked for ends the run as a failure of the file at hand.
    pub open spec fn next(self, event: FileEventModel) -> Self {
        match (self.phase, event) {
            (Phase::Reading, FileEventModel::Read(_)) => PropagationModel {
                phase: Phase::Writing,
                ..self
            },
            (Phase::Writing, FileEventModel::Written) => PropagationModel {
                done: self.done + 1,
                phase: if self.done + 1 == self.files {
                    Phase::Finished
                } else {
                    Phase::Reading
                },
                ..self
            },
            (Phase::Finished, _) => self,
            _ => PropagationModel { phase: Phase::Failed, ..self },
        }
    }

    /// What the caller is told to do when `event` is reported.
    pub open spec fn action(self, event: FileEventModel) -> FileActionModel {
        match (self.phase, event) {
            (Phase::Reading, FileEventModel::Read(text)) => FileActionModel::Write {
                file: self.done,
                content: substituted(text, self.current, self.new_version),
            },
            _ => self.next(event).pending(),
        }
    }
}

impl Propagation {
    #[verifier::type_invariant]
    spec fn inv(self) -> bool {
        &&& self.done <= self.files
        &&& self.writing ==> self.done < self.files
        &&& self.failed ==> self.done < self.files
    }

    /// Starts a run over `files` files and says what to do first.
    pub fn start(files: usize, current: String, new_version: String) -> (r: (
        Propagation,
        FileAction,
    ))
        ensures
            r.0@ == PropagationModel::initial(files as nat, current@, new_version@),
            r.0@.wf(),
            r.1@ == r.0@.pending(),
    {
        let run = Propagation {
            files,
            current,
            new_version,
            done: 0,
            writing: false,
            failed: false,
        };
        let first = if files == 0 {
            FileAction::Finish
        } else {
            FileAction::Read { file: 0 }
        };
        (run, first)
    }

    /// Where the run stands.
    pub fn phase(&self) -> (phase: Phase)
        ensures
            phase == self@.phase,
            self@.wf(),
    {
        proof {
            use_type_invariant(self);
        }
        if self.failed {
            Phase::Failed
        } else if self.done == self.files {
            Phase::Finished
        } else if self.writing {
            Phase::Writing
        } else {
            Phase::Reading
        }
    }

    /// How many files were rewritten so far. They are the first files of the
    /// list: after a failure the files from this index on are untouched.
    pub fn rewritten(&self) -> (done: usize)
        ensures
            done == self@.done,
            self@.wf(),
    {
        proof {
            use_type_invariant(self);
        }
        self.done
    }

    /// Takes the report on the last action and says what to do next.
    pub fn advance(&mut self, event: FileEvent) -> (action: FileAction)
        ensures
            old(self)@.wf(),
            final(self)@ == old(self)@.next(event@),
            final(self)@.wf(),
            action@ == old(self)@.action(event@),
    {
        proof {
            use_type_invariant(&*self);
        }
        match self.phase() {
            Phase::Reading => match event {
                FileEvent::Read(text) => {
                    self.writing = true;
                    FileAction::Write {
                        file: self.done,
                        content: update_version_path(
                            text.as_str(),
                            self.current.as_str(),
                            self.new_version.as_str(),
                        ),
                    }
                },
                _ => {
                    self.failed = true;
                    FileAction::Abort { file: self.done }
                },
            },
            Phase::Writing => match event {
                FileEvent::Written => {
                    self.writing = false;
                    self.done = self.done + 1;
                    if self.done == self.files {
                        FileAction::Finish
                    } else {
                        FileAction::Read { file: self.done }
                    }
                },
                _ => {
                    self.failed = true;
                    FileAction::Abort { file: self.done }
                },
            },
            Phase::Finished => FileAction::Finish,
            Phase::Failed => FileAction::Abort { file: self.done },
        }
    }
}

/// A run that fails leaves a mixed state behind and says so: it stands at
/// the file that failed, the files before it are rewritten, and no later
/// report brings it back to life or moves it on.
pub proof fn lemma_failure_is_final(state: PropagationModel, event: FileEventModel)
    requires
        state.wf(),
        state.phase == Phase::Failed,
    ensures
        state.next(event) == state,
        state.action(event) == (FileActionModel::Abort { file: state.done }),
        state.done < state.files,
{
}

/// A run counts a file as rewritten only when its write was reported, and
/// one file at a time: a report never takes a file off the count, and adds
/// one exactly when it is `Written` and answers a write.
pub proof fn lemma_progress_by_writes(state: PropagationModel, event: FileEventModel)
    requires
        state.wf(),
    ensures
        state.next(event).done == if state.phase == Phase::Writing && event
            == FileEventModel::Written {
            state.done + 1
        } else {
            state.done
        },
        state.next(event).files == state.files,
{
}

} // verus!
