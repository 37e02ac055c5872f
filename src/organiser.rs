//! The decisions taken for one file: a small machine that says which file
//! system operation comes next and, from what that operation reported, what
//! comes after it, until the file reaches its outcome or fails.
use vstd::prelude::*;
use crate::fingerprint::{fingerprint_of, target_name};
use crate::discovery::{is_candidate_of, Mode};
use crate::naming::{
    append_bytes, canonical_name_of, extension_of, is_fingerprint, lemma_canonical_split, same_name,
    stem_of,
};

verus! {

/// What became of one file.
#[derive(Clone, Copy, Debug, PartialEq, Eq, Structural)]
pub enum Outcome {
    /// The file already had its canonical name; nothing was changed.
    Unchanged,
    /// Another file already held the canonical name: this one was deleted and
    /// the other one took over its modification time.
    DuplicateRemoved,
    /// The file was renamed to its canonical name.
    Renamed,
}

/// Why organising failed, named by the phase that failed.
#[derive(Clone, Copy, Debug, PartialEq, Eq, Structural)]
pub enum OrganiseError {
    /// The directory could not be listed.
    FailedToListDirectory,
    /// A file's contents, or whether its canonical name is taken, could not be read.
    FailedToReadFile,
    /// A duplicate file could not be deleted.
    FailedToRemoveDuplicateFile,
    /// A file could not be renamed to its canonical name.
    FailedToRenameNewFile,
    /// A duplicate was deleted, but the surviving file's modification time could not be set.
    FailedToSetLastModified,
}

impl OrganiseError {
    /// A short description of the failure, for a log line.
    pub fn description(&self) -> (r: &'static str)
        ensures
            r@ == match self {
                OrganiseError::FailedToListDirectory => "failed to list files"@,
                OrganiseError::FailedToReadFile => "failed to read file"@,
                OrganiseError::FailedToRemoveDuplicateFile => "failed to remove duplicate file"@,
                OrganiseError::FailedToRenameNewFile => "failed to rename new file"@,
                OrganiseError::FailedToSetLastModified => "failed to set last modified time on file"@,
            },
    {
        match self {
            OrganiseError::FailedToListDirectory => "failed to list files",
            OrganiseError::FailedToReadFile => "failed to read file",
            OrganiseError::FailedToRemoveDuplicateFile => "failed to remove duplicate file",
            OrganiseError::FailedToRenameNewFile => "failed to rename new file",
            OrganiseError::FailedToSetLastModified => "failed to set last modified time on file",
        }
    }
}

/// Where the work on one file stands.
#[derive(Clone, Copy, Debug, PartialEq, Eq, Structural)]
pub enum Phase {
    /// Waiting for the file's contents.
    AwaitContents,
    /// Waiting to learn whether the canonical name is taken.
    AwaitTarget,
    /// Waiting for the rename to the canonical name.
    AwaitRename,
    /// Waiting for the deletion of the duplicate.
    AwaitRemove,
    /// Waiting for the modification time of the surviving file to be set.
    AwaitStamp,
    /// The file has reached its outcome or failed.
    Done,
}

/// The file system operation to perform next.
#[derive(Debug)]
pub enum Action {
    /// Read the file's whole contents.
    ReadContents,
    /// Find out whether a file with this name exists in the directory.
    CheckTarget(Vec<u8>),
    /// Rename the file to this name, in the same directory.
    RenameTo(Vec<u8>),
    /// Note the file's modification time (the current time if it cannot be
    /// read), then delete the file.
    RemoveDuplicate,
    /// Set the modification time of the file with this name to the one noted.
    StampTarget(Vec<u8>),
    /// Nothing more is done: the file's result.
    Finish(Result<Outcome, OrganiseError>),
}

/// What the operation asked for reported.
#[derive(Debug)]
pub enum Event {
    /// The file's contents were read.
    ContentsRead(Vec<u8>),
    /// The file could not be read.
    ReadFailed,
    /// Whether the canonical name is taken.
    TargetChecked(bool),
    /// Whether the canonical name is taken could not be found out.
    CheckFailed,
    /// The rename succeeded.
    RenameDone,
    /// The rename failed.
    RenameFailed,
    /// The duplicate was deleted.
    RemoveDone,
    /// The duplicate could not be deleted.
    RemoveFailed,
    /// The surviving file's modification time was set.
    StampDone,
    /// The surviving file's modification time could not be set.
    StampFailed,
}

/// Whether `event` answers the operation asked for in `phase`.
pub open spec fn answers(phase: Phase, event: Event) -> bool {
    match phase {
        Phase::AwaitContents => event is ContentsRead || event is ReadFailed,
        Phase::AwaitTarget => event is TargetChecked || event is CheckFailed,
        Phase::AwaitRename => event is RenameDone || event is RenameFailed,
        Phase::AwaitRemove => event is RemoveDone || event is RemoveFailed,
        Phase::AwaitStamp => event is StampDone || event is StampFailed,
        Phase::Done => false,
    }
}

/// The work on one directory entry.
pub struct FileTask {
    /// The entry's name in its directory.
    pub name: Vec<u8>,
    /// The canonical name, once the contents are known.
    pub target: Vec<u8>,
    /// Where the work stands.
    pub phase: Phase,
}

fn copy_bytes(v: &Vec<u8>) -> (r: Vec<u8>)
    ensures
        r@ == v@,
{
    let mut r: Vec<u8> = Vec::new();
    append_bytes(&mut r, v);
    assert(r@ =~= v@);
    r
}

impl FileTask {
    /// Starts the work on the entry named `name`; the first operation is to
    /// read its contents.
    pub fn new(name: &Vec<u8>) -> (r: (FileTask, Action))
        ensures
            r.0.name@ == name@,
            r.0.target@ == Seq::<u8>::empty(),
            r.0.phase == Phase::AwaitContents,
            r.1 is ReadContents,
    {
        (FileTask { name: copy_bytes(name), target: Vec::new(), phase: Phase::AwaitContents }, Action::ReadContents)
    }

    /// Whether `event` answers the operation last asked for.
    pub fn accepts(&self, event: &Event) -> (r: bool)
        ensures
            r == answers(self.phase, *event),
    {
        match self.phase {
            Phase::AwaitContents => matches!(event, Event::ContentsRead(_) | Event::ReadFailed),
            Phase::AwaitTarget => matches!(event, Event::TargetChecked(_) | Event::CheckFailed),
            Phase::AwaitRename => matches!(event, Event::RenameDone | Event::RenameFailed),
            Phase::AwaitRemove => matches!(event, Event::RemoveDone | Event::RemoveFailed),
            Phase::AwaitStamp => matches!(event, Event::StampDone | Event::StampFailed),
            Phase::Done => false,
        }
    }

    /// Takes in what the last operation reported and returns the next one.
    ///
    /// Once the contents are read, the canonical name is derived from them;
    /// a file that already has it is finished untouched. Otherwise a free
    /// canonical name is taken by a rename, and a taken one means this file is
    /// a duplicate: it is deleted and the survivor gets its modification time.
    /// Each failure ends the work with the error of its phase.
    pub fn step(&mut self, event: Event) -> (r: Action)
        requires
            answers(old(self).phase, event),
        ensures
            final(self).name == old(self).name,
            event matches Event::ContentsRead(c) ==> final(self).target@ == canonical_name_of(
                old(self).name@,
                fingerprint_of(c@),
            ),
            event matches Event::ContentsRead(c) ==> (final(self).target@ == old(self).name@ ==> (
            final(self).phase == Phase::Done && r matches Action::Finish(Ok(Outcome::Unchanged)))),
            event matches Event::ContentsRead(c) ==> (final(self).target@ != old(self).name@ ==> (
            final(self).phase == Phase::AwaitTarget && (r matches Action::CheckTarget(x) && x@
                == final(self).target@))),
            !(event is ContentsRead) ==> final(self).target == old(self).target,
            event is ReadFailed ==> final(self).phase == Phase::Done && r matches Action::Finish(Err(OrganiseError::FailedToReadFile)),
            event matches Event::TargetChecked(taken) ==> (if taken {
                final(self).phase == Phase::AwaitRemove && r is RemoveDuplicate
            } else {
                final(self).phase == Phase::AwaitRename && (r matches Action::RenameTo(x) && x@ == old(self).target@)
            }),
            event is CheckFailed ==> final(self).phase == Phase::Done && r matches Action::Finish(Err(OrganiseError::FailedToReadFile)),
            event is RenameDone ==> final(self).phase == Phase::Done && r matches Action::Finish(Ok(Outcome::Renamed)),
            event is RenameFailed ==> final(self).phase == Phase::Done && r matches Action::Finish(Err(OrganiseError::FailedToRenameNewFile)),
            event is RemoveDone ==> final(self).phase == Phase::AwaitStamp && (r matches Action::StampTarget(x) && x@ == old(self).target@),
            event is RemoveFailed ==> final(self).phase == Phase::Done && r matches Action::Finish(Err(OrganiseError::FailedToRemoveDuplicateFile)),
            event is StampDone ==> final(self).phase == Phase::Done && r matches Action::Finish(Ok(Outcome::DuplicateRemoved)),
            event is StampFailed ==> final(self).phase == Phase::Done && r matches Action::Finish(Err(OrganiseError::FailedToSetLastModified)),
    {
        match event {
            Event::ContentsRead(contents) => {
                let t = target_name(&self.name, &contents);
                if same_name(&t, &self.name) {
                    self.target = t;
                    self.phase = Phase::Done;
                    Action::Finish(Ok(Outcome::Unchanged))
                } else {
                    let x = copy_bytes(&t);
                    self.target = t;
                    self.phase = Phase::AwaitTarget;
                    Action::CheckTarget(x)
                }
            },
            Event::ReadFailed | Event::CheckFailed => {
                self.phase = Phase::Done;
                Action::Finish(Err(OrganiseError::FailedToReadFile))
            },
            Event::TargetChecked(taken) => {
                if taken {
                    self.phase = Phase::AwaitRemove;
                    Action::RemoveDuplicate
                } else {
                    self.phase = Phase::AwaitRename;
                    Action::RenameTo(copy_bytes(&self.target))
                }
            },
            Event::RenameDone => {
                self.phase = Phase::Done;
                Action::Finish(Ok(Outcome::Renamed))
            },
            Event::RenameFailed => {
                self.phase = Phase::Done;
                Action::Finish(Err(OrganiseError::FailedToRenameNewFile))
            },
            Event::RemoveDone => {
                self.phase = Phase::AwaitStamp;
                Action::StampTarget(copy_bytes(&self.target))
            },
            Event::RemoveFailed => {
                self.phase = Phase::Done;
                Action::Finish(Err(OrganiseError::FailedToRemoveDuplicateFile))
            },
            Event::StampDone => {
                self.phase = Phase::Done;
                Action::Finish(Ok(Outcome::DuplicateRemoved))
            },
            Event::StampFailed => {
                self.phase = Phase::Done;
                Action::Finish(Err(OrganiseError::FailedToSetLastModified))
            },
        }
    }
}

/// The modification time that the surviving file takes over from a removed
/// duplicate: the duplicate's own time, or `now` when it could not be read.
pub fn survivor_time<T>(noted: Option<T>, now: T) -> (r: T)
    ensures
        r == match noted {
            Some(t) => t,
            None => now,
        },
{
    match noted {
        Some(t) => t,
        None => now,
    }
}

/// Organising again changes nothing: a file that already carries its canonical
/// name for a fingerprint has that same name as its canonical name, so a full
/// scan finds it unchanged, and a fast scan does not examine it at all.
pub proof fn lemma_organised_name_is_stable(name: Seq<u8>, fp: Seq<u8>)
    requires
        is_fingerprint(fp),
    ensures
        canonical_name_of(canonical_name_of(name, fp), fp) == canonical_name_of(name, fp),
        !is_candidate_of(Mode::Fast, canonical_name_of(name, fp)),
        is_candidate_of(Mode::Full, canonical_name_of(name, fp)),
{
    lemma_canonical_split(name, fp);
}

/// Files with identical contents and the same extension compete for one
/// canonical name, so only one of them keeps it and the others are removed as
/// duplicates; the stem of that name is the fingerprint of the contents.
pub proof fn lemma_identical_contents_share_name(a: Seq<u8>, b: Seq<u8>, ca: Seq<u8>, cb: Seq<u8>)
    requires
        ca == cb,
        extension_of(a) == extension_of(b),
    ensures
        canonical_name_of(a, fingerprint_of(ca)) == canonical_name_of(b, fingerprint_of(cb)),
        is_fingerprint(fingerprint_of(ca)) ==> stem_of(canonical_name_of(a, fingerprint_of(ca)))
            == fingerprint_of(ca),
{
    if is_fingerprint(fingerprint_of(ca)) {
        lemma_canonical_split(a, fingerprint_of(ca));
    }
}

} // verus!
