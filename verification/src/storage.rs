//! The data directory: its layout, the schema upgrades the database goes
//! through, and the order of file operations that replaces a file safely.
use vstd::prelude::*;

verus! {

/// The directories made below the data root when the planner starts.
pub fn storage_directories() -> (dirs: Vec<&'static str>)
    ensures
        dirs@.len() == 7,
        dirs@[0]@ == "database"@,
        dirs@[1]@ == "notes"@,
        dirs@[2]@ == "daily"@,
        dirs@[3]@ == "assets/images"@,
        dirs@[4]@ == "assets/attachments"@,
        dirs@[5]@ == "backups"@,
        dirs@[6]@ == "config"@,
{
    vec!["database", "notes", "daily", "assets/images", "assets/attachments", "backups", "config"]
}

/// The schema upgrades applied after the initial schema.
#[derive(Clone, Copy, PartialEq, Eq, Structural, Debug)]
pub enum Migration {
    /// Projects.
    Projects,
    /// Task schedules, daily items and the knowledge base.
    SchedulesAndKnowledge,
}

pub open spec fn migration_version(m: Migration) -> int {
    match m {
        Migration::Projects => 2,
        Migration::SchedulesAndKnowledge => 3,
    }
}

/// An upgrade is applied while the recorded schema version is below its own.
pub fn migration_pending(version: i64, m: Migration) -> (due: bool)
    ensures
        due == (version < migration_version(m)),
{
    match m {
        Migration::Projects => version < 2,
        Migration::SchedulesAndKnowledge => version < 3,
    }
}

/// The temporary file a replacement writes, beside the file it replaces:
/// `.<name>.<token>.tmp`, where the token is unique to the replacement.
pub open spec fn temp_file_name_of(file_name: Seq<char>, token: Seq<char>) -> Seq<char> {
    "."@ + file_name + "."@ + token + ".tmp"@
}

/// The name of the temporary file for replacing `file_name`.
pub fn temp_file_name(file_name: &str, token: &str) -> (name: String)
    ensures
        name@ == temp_file_name_of(file_name@, token@),
{
    let mut name = ".".to_owned();
    name.append(file_name);
    name.append(".");
    name.append(token);
    name.append(".tmp");
    name
}

/// The temporary file never has the name of the file it replaces, and
/// replacements with different tokens (of one length) never share one.
pub proof fn lemma_temp_file_names_distinct(
    file_name: Seq<char>,
    token: Seq<char>,
    other_token: Seq<char>,
)
    ensures
        temp_file_name_of(file_name, token) != file_name,
        token.len() == other_token.len() && token != other_token ==> temp_file_name_of(
            file_name,
            token,
        ) != temp_file_name_of(file_name, other_token),
{
    reveal_strlit(".");
    reveal_strlit(".tmp");
    let a = temp_file_name_of(file_name, token);
    assert(a.len() > file_name.len());
    if token.len() == other_token.len() && token != other_token {
        let b = temp_file_name_of(file_name, other_token);
        let start: int = (file_name.len() + 2) as int;
        if a == b {
            assert(a.subrange(start, start + token.len()) =~= token);
            assert(b.subrange(start, start + other_token.len()) =~= other_token);
        }
    }
}

/// Where replacing a file stands: the next file operation to perform, or
/// the end with its result. The new content goes to a temporary file of a
/// name unique to this replacement, created beside the file (never over an
/// existing one), written, flushed and synced to disk, and then renamed over
/// the file in one step, so a reader sees the old content or the new one and
/// the file is never missing. When anything fails after the temporary file
/// was created, it is deleted again; no other file is touched.
pub enum FileReplace {
    /// Make the directory that will hold the file.
    CreateParent,
    /// Create the temporary file; this fails when a file of that name exists.
    CreateTemp,
    /// Write the new content to the temporary file.
    WriteTemp,
    /// Flush the temporary file and sync it to disk.
    SyncTemp,
    /// Rename the temporary file over the file, replacing it in one step.
    InstallTemp,
    /// An operation failed with `error`: delete the temporary file (failure
    /// is ignored), then fail with `error`.
    RemoveTemp { error: String },
    /// Done.
    Finished { result: Result<(), String> },
}

pub open spec fn is_finished(s: FileReplace) -> bool {
    s is Finished
}

/// The temporary file exists and belongs to this replacement.
pub open spec fn holds_temp(s: FileReplace) -> bool {
    s is WriteTemp || s is SyncTemp || s is InstallTemp || s is RemoveTemp
}

/// How many operations are left at most.
pub open spec fn steps_left(s: FileReplace) -> nat {
    match s {
        FileReplace::CreateParent => 6,
        FileReplace::CreateTemp => 5,
        FileReplace::WriteTemp => 4,
        FileReplace::SyncTemp => 3,
        FileReplace::InstallTemp => 2,
        FileReplace::RemoveTemp { .. } => 1,
        FileReplace::Finished { .. } => 0,
    }
}

/// The state after performing `s`'s operation, which succeeded when `ok`,
/// and otherwise failed with `error`.
pub open spec fn replace_next(s: FileReplace, ok: bool, error: String) -> FileReplace {
    match s {
        FileReplace::CreateParent => if ok {
            FileReplace::CreateTemp
        } else {
            FileReplace::Finished { result: Err(error) }
        },
        FileReplace::CreateTemp => if ok {
            FileReplace::WriteTemp
        } else {
            FileReplace::Finished { result: Err(error) }
        },
        FileReplace::WriteTemp => if ok {
            FileReplace::SyncTemp
        } else {
            FileReplace::RemoveTemp { error }
        },
        FileReplace::SyncTemp => if ok {
            FileReplace::InstallTemp
        } else {
            FileReplace::RemoveTemp { error }
        },
        FileReplace::InstallTemp => if ok {
            FileReplace::Finished { result: Ok(()) }
        } else {
            FileReplace::RemoveTemp { error }
        },
        FileReplace::RemoveTemp { error: first } => FileReplace::Finished { result: Err(first) },
        FileReplace::Finished { result } => FileReplace::Finished { result },
    }
}

impl FileReplace {
    /// The first operation: make the parent directory when the path has one.
    pub fn start(has_parent: bool) -> (s: FileReplace)
        ensures
            s == (if has_parent {
                FileReplace::CreateParent
            } else {
                FileReplace::CreateTemp
            }),
    {
        if has_parent {
            FileReplace::CreateParent
        } else {
            FileReplace::CreateTemp
        }
    }

    /// Moves on once the current operation has been performed.
    pub fn next(self, ok: bool, error: String) -> (s: FileReplace)
        ensures
            s == replace_next(self, ok, error),
    {
        match self {
            FileReplace::CreateParent => if ok {
                FileReplace::CreateTemp
            } else {
                FileReplace::Finished { result: Err(error) }
            },
            FileReplace::CreateTemp => if ok {
                FileReplace::WriteTemp
            } else {
                FileReplace::Finished { result: Err(error) }
            },
            FileReplace::WriteTemp => if ok {
                FileReplace::SyncTemp
            } else {
                FileReplace::RemoveTemp { error }
            },
            FileReplace::SyncTemp => if ok {
                FileReplace::InstallTemp
            } else {
                FileReplace::RemoveTemp { error }
            },
            FileReplace::InstallTemp => if ok {
                FileReplace::Finished { result: Ok(()) }
            } else {
                FileReplace::RemoveTemp { error }
            },
            FileReplace::RemoveTemp { error: first } => FileReplace::Finished {
                result: Err(first),
            },
            FileReplace::Finished { result } => FileReplace::Finished { result },
        }
    }

    /// Whether the replacement has ended.
    pub fn is_done(&self) -> (done: bool)
        ensures
            done == is_finished(*self),
    {
        match self {
            FileReplace::Finished { .. } => true,
            _ => false,
        }
    }

    /// The result, once finished.
    pub fn into_result(self) -> (r: Option<Result<(), String>>)
        ensures
            r == (match self {
                FileReplace::Finished { result } => Some(result),
                _ => None::<Result<(), String>>,
            }),
    {
        match self {
            FileReplace::Finished { result } => Some(result),
            _ => None,
        }
    }
}

/// Every operation brings the replacement closer to its end, so it
/// finishes after at most six operations.
pub proof fn lemma_replace_terminates(s: FileReplace, ok: bool, error: String)
    requires
        !is_finished(s),
    ensures
        steps_left(replace_next(s, ok, error)) < steps_left(s),
{
}

/// The file is replaced only from a temporary file that was fully written
/// and synced, and a replacement succeeds only by that one rename.
pub proof fn lemma_install_only_after_sync(s: FileReplace, ok: bool, error: String)
    ensures
        replace_next(s, ok, error) is InstallTemp ==> s is SyncTemp && ok,
        replace_next(s, ok, error) is SyncTemp ==> s is WriteTemp && ok,
        replace_next(s, ok, error) == (FileReplace::Finished { result: Ok(()) }) ==> (s
            is InstallTemp && ok) || s == (FileReplace::Finished { result: Ok(()) }),
{
}

/// Only a temporary file this replacement created is ever deleted: a
/// deletion follows a failure while the replacement held its temporary
/// file, and a failure to create it deletes nothing.
pub proof fn lemma_only_own_temp_deleted(s: FileReplace, ok: bool, error: String)
    ensures
        replace_next(s, ok, error) is RemoveTemp ==> holds_temp(s) && !ok,
        s is CreateTemp && !ok ==> replace_next(s, ok, error) == (FileReplace::Finished {
            result: Err(error),
        }),
{
}

/// Once the temporary file exists, a failure never leaves it behind: the
/// replacement deletes it and then fails with the error of the operation
/// that failed.
pub proof fn lemma_failure_cleans_up(s: FileReplace, error: String, other: String)
    requires
        s is WriteTemp || s is SyncTemp || s is InstallTemp,
    ensures
        replace_next(s, false, error) == (FileReplace::RemoveTemp { error }),
        replace_next(FileReplace::RemoveTemp { error }, true, other) == (FileReplace::Finished {
            result: Err(error),
        }),
        replace_next(FileReplace::RemoveTemp { error }, false, other) == (FileReplace::Finished {
            result: Err(error),
        }),
{
}

} // verus!
