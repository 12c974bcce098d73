//! The rules of the backup archive: which names are safe, how entries and
//! archives are named, and which old backups give way to new ones.

use crate::text::{chars_of, ends_with, has_suffix, join, push_char};
use vstd::multiset::Multiset;
use vstd::prelude::*;
use vstd::seq_lib::{to_multiset_build, to_multiset_insert};
use vstd::string::StringExecFns;

verus! {

/// How backups are kept: how many at most, and which paths under the data
/// directory stay out of them.
#[derive(Clone, Debug)]
pub struct BackupSettings {
    pub max_backups: u32,
    pub excluded_paths: Vec<String>,
}

/// One backup archive on disk; `created_at` counts milliseconds since the
/// epoch, where the time is known.
#[derive(Clone, Debug)]
pub struct BackupInfo {
    pub name: String,
    pub path: String,
    pub size: u64,
    pub created_at: Option<i64>,
}

/// What a finished backup reports.
#[derive(Clone, Debug)]
pub struct BackupResult {
    pub message: String,
    pub backup_name: String,
    pub size: u64,
}

/// Why an operation on files or archives failed. The variants that stand
/// for a failure of the system or of a library carry its message.
#[derive(Debug)]
pub enum AppError {
    Io(String),
    Tauri(String),
    Zip(String),
    WalkDir(String),
    NotFound(String),
    PathTraversal(String),
    OperationFailed(String),
}

/// What the caller is told of an error.
pub open spec fn app_error_text(error: AppError) -> Seq<char> {
    match error {
        AppError::Io(detail) => "I/O Error: "@ + detail@,
        AppError::Tauri(detail) => "Tauri Error: "@ + detail@,
        AppError::Zip(detail) => "Zip Error: "@ + detail@,
        AppError::WalkDir(detail) => "Directory walking error: "@ + detail@,
        AppError::NotFound(what) => "Not Found: "@ + what@,
        AppError::PathTraversal(path) => "Path Traversal Attempt: Invalid path '"@ + path@ + "'"@,
        AppError::OperationFailed(detail) => "Operation Failed: "@ + detail@,
    }
}

impl AppError {
    /// What the caller is told.
    pub fn message(&self) -> (text: String)
        ensures
            text@ == app_error_text(*self),
    {
        match self {
            AppError::Io(detail) => join("I/O Error: ", detail.as_str()),
            AppError::Tauri(detail) => join("Tauri Error: ", detail.as_str()),
            AppError::Zip(detail) => join("Zip Error: ", detail.as_str()),
            AppError::WalkDir(detail) => join("Directory walking error: ", detail.as_str()),
            AppError::NotFound(what) => join("Not Found: ", what.as_str()),
            AppError::PathTraversal(path) => {
                let mut text = join("Path Traversal Attempt: Invalid path '", path.as_str());
                text.append("'");
                text
            },
            AppError::OperationFailed(detail) => join("Operation Failed: ", detail.as_str()),
        }
    }
}

/// Whether a file name could lead out of the backup directory: it holds
/// `..`, a slash or a backslash.
pub open spec fn leaves_directory(name: Seq<char>) -> bool {
    ||| exists|i: int|
        0 <= i && i + 1 < name.len() && name[i] == '.' && #[trigger] name[i + 1] == '.'
    ||| exists|i: int| 0 <= i < name.len() && #[trigger] name[i] == '/'
    ||| exists|i: int| 0 <= i < name.len() && #[trigger] name[i] == '\\'
}

/// Accepts the name of a backup file that stays inside the backup
/// directory, and refuses any other as an attempt at path traversal.
pub fn validate_backup_filename(filename: &str) -> (result: Result<(), AppError>)
    ensures
        match result {
            Ok(_) => !leaves_directory(filename@),
            Err(AppError::PathTraversal(name)) => leaves_directory(filename@) && name@
                == filename@,
            Err(_) => false,
        },
{
    let v = chars_of(filename);
    let mut i: usize = 0;
    while i < v.len()
        invariant
            i <= v.len(),
            v@ == filename@,
            forall|k: int| 0 <= k < i ==> v@[k] != '/' && v@[k] != '\\',
            forall|k: int| 0 <= k && k + 1 < i ==> !(v@[k] == '.' && #[trigger] v@[k + 1] == '.'),
        decreases v.len() - i,
    {
        let c = v[i];
        if c == '/' || c == '\\' || (c == '.' && i > 0 && v[i - 1] == '.') {
            proof {
                if c == '.' {
                    assert(v@[i - 1] == '.' && v@[(i - 1) + 1] == '.');
                }
            }
            return Err(AppError::PathTraversal(String::from_str(filename)));
        }
        i += 1;
    }
    Ok(())
}

/// A path with every backslash turned into a slash.
pub open spec fn with_slashes(path: Seq<char>) -> Seq<char> {
    path.map_values(
        |c: char|
            if c == '\\' {
                '/'
            } else {
                c
            },
    )
}

/// The name of an archive entry: the path below the source directory,
/// written with slashes, under `prefix` where one is given.
pub open spec fn entry_name(relative: Seq<char>, prefix: Seq<char>) -> Seq<char> {
    if prefix.len() == 0 {
        with_slashes(relative)
    } else {
        prefix + seq!['/'] + with_slashes(relative)
    }
}

/// Names the archive entry of the file or directory at `relative`, a path
/// below the directory that is archived.
pub fn zip_entry_name(relative: &str, prefix: &str) -> (name: String)
    ensures
        name@ == entry_name(relative@, prefix@),
{
    let v = chars_of(relative);
    let mut name = String::from_str(prefix);
    if !prefix.is_empty() {
        push_char(&mut name, '/');
    }
    let ghost start = name@;
    let mut i: usize = 0;
    while i < v.len()
        invariant
            i <= v.len(),
            v@ == relative@,
            name@ == start + with_slashes(v@.take(i as int)),
        decreases v.len() - i,
    {
        let c = if v[i] == '\\' {
            '/'
        } else {
            v[i]
        };
        push_char(&mut name, c);
        i += 1;
        assert(with_slashes(v@.take(i as int)) =~= with_slashes(v@.take(i - 1)).push(c));
    }
    assert(v@.take(v.len() as int) == v@);
    name
}

/// Whether an archive entry stands for a directory: its name ends in a
/// slash.
pub fn is_directory_entry(name: &str) -> (is_it: bool)
    ensures
        is_it == (name@.len() > 0 && name@.last() == '/'),
{
    let v = chars_of(name);
    v.len() > 0 && v[v.len() - 1] == '/'
}

/// Whether a file name has the extension of an archive: it ends in `.zip`
/// and has something before that.
pub open spec fn is_archive_name(file_name: Seq<char>) -> bool {
    file_name.len() > 4 && ends_with(file_name, ".zip"@)
}

/// Whether the file called `file_name` counts as a backup archive.
pub fn is_backup_archive(file_name: &str) -> (is_it: bool)
    ensures
        is_it == is_archive_name(file_name@),
{
    chars_of(file_name).len() > 4 && has_suffix(file_name, ".zip")
}

/// The name of the archive made of the file or directory `file_name`.
pub fn archive_name(file_name: &str) -> (name: String)
    ensures
        name@ == file_name@ + ".zip"@,
{
    join(file_name, ".zip")
}

/// The name of the backup taken at `timestamp`.
pub fn backup_file_name(timestamp: &str) -> (name: String)
    ensures
        name@ == "backup-"@ + timestamp@ + ".zip"@,
{
    let mut name = join("backup-", timestamp);
    name.append(".zip");
    name
}

/// What a finished backup called `backup_name` of `size` bytes reports.
pub fn backup_result(backup_name: &str, size: u64) -> (result: BackupResult)
    ensures
        result.backup_name@ == backup_name@,
        result.size == size,
        result.message@ == "备份 "@ + backup_name@ + " 创建成功。"@,
{
    let mut message = join("备份 ", backup_name);
    message.append(" 创建成功。");
    BackupResult { message, backup_name: String::from_str(backup_name), size }
}

/// What is reported once the data were restored from `backup_name`.
pub fn restore_message(backup_name: &str) -> (message: String)
    ensures
        message@ == "数据已成功从 "@ + backup_name@ + " 恢复。应用配置需要重新加载。"@,
{
    let mut message = join("数据已成功从 ", backup_name);
    message.append(" 恢复。应用配置需要重新加载。");
    message
}

/// The settings of the backup that is taken before data are restored:
/// nothing is deleted for it, and logs and system litter stay out.
pub fn emergency_settings() -> (settings: BackupSettings)
    ensures
        settings.max_backups == 999,
        settings.excluded_paths@.len() == 2,
        settings.excluded_paths@[0]@ == ".DS_Store"@,
        settings.excluded_paths@[1]@ == "logs"@,
{
    let mut excluded_paths: Vec<String> = Vec::new();
    excluded_paths.push(String::from_str(".DS_Store"));
    excluded_paths.push(String::from_str("logs"));
    BackupSettings { max_backups: 999, excluded_paths }
}

/// How many of `count` backups are too many when `max_backups` may stay.
pub open spec fn surplus(count: int, max_backups: int) -> int {
    if count > max_backups {
        count - max_backups
    } else {
        0
    }
}

/// The names of the backups to delete, oldest first, so that at most
/// `max_backups` stay. `backups` lists what there is, newest first.
pub fn backups_to_delete(backups: &Vec<BackupInfo>, max_backups: u32) -> (names: Vec<String>)
    ensures
        names@.len() == surplus(backups@.len() as int, max_backups as int),
        forall|k: int|
            0 <= k < names@.len() ==> (#[trigger] names@[k])@ == backups@[backups@.len() - 1
                - k].name@,
{
    let count = backups.len();
    let mut names: Vec<String> = Vec::new();
    if count <= max_backups as usize {
        return names;
    }
    let extra = count - max_backups as usize;
    let mut k: usize = 0;
    while k < extra
        invariant
            k <= extra <= count,
            count == backups@.len(),
            names@.len() == k,
            forall|j: int|
                0 <= j < k ==> (#[trigger] names@[j])@ == backups@[count - 1 - j].name@,
        decreases extra - k,
    {
        names.push(backups[count - 1 - k].name.clone());
        k += 1;
    }
    names
}

/// The place of a backup in the order of age: a known time counts as
/// itself, an unknown time as earlier than any known one.
pub open spec fn age_rank(created_at: Option<i64>) -> int {
    match created_at {
        Some(time) => time as int,
        None => i64::MIN - 1,
    }
}

/// Whether `backups` are listed from the newest to the oldest.
pub open spec fn newest_first(backups: Seq<BackupInfo>) -> bool {
    forall|i: int, j: int|
        0 <= i < j < backups.len() ==> age_rank(#[trigger] backups[i].created_at) >= age_rank(
            #[trigger] backups[j].created_at,
        )
}

fn not_newer(a: Option<i64>, b: Option<i64>) -> (holds: bool)
    ensures
        holds == (age_rank(a) <= age_rank(b)),
{
    match (a, b) {
        (None, _) => true,
        (Some(_), None) => false,
        (Some(x), Some(y)) => x <= y,
    }
}

/// Lists the same backups from the newest to the oldest; a backup whose
/// time is unknown comes after all whose time is known.
pub fn sort_newest_first(backups: Vec<BackupInfo>) -> (sorted: Vec<BackupInfo>)
    ensures
        newest_first(sorted@),
        sorted@.to_multiset() == backups@.to_multiset(),
{
    let mut rest = backups;
    let mut sorted: Vec<BackupInfo> = Vec::new();
    assert(sorted@.to_multiset().add(rest@.to_multiset()) =~= backups@.to_multiset()) by {
        sorted@.to_multiset_ensures();
    }
    while rest.len() > 0
        invariant
            newest_first(sorted@),
            sorted@.to_multiset().add(rest@.to_multiset()) == backups@.to_multiset(),
        decreases rest.len(),
    {
        let ghost rest_before = rest@;
        let ghost sorted_before = sorted@;
        let item = rest.pop().unwrap();
        let mut at: usize = 0;
        while at < sorted.len() && !not_newer(sorted[at].created_at, item.created_at)
            invariant
                at <= sorted.len(),
                forall|k: int|
                    0 <= k < at ==> age_rank(#[trigger] sorted@[k].created_at) > age_rank(
                        item.created_at,
                    ),
            decreases sorted.len() - at,
        {
            at += 1;
        }
        proof {
            assert(rest_before =~= rest@.push(item));
            to_multiset_build(rest@, item);
            to_multiset_insert(sorted_before, at as int, item);
            assert(sorted_before.insert(at as int, item).to_multiset().add(rest@.to_multiset())
                =~= sorted_before.to_multiset().add(rest_before.to_multiset()));
        }
        sorted.insert(at, item);
        assert(newest_first(sorted@)) by {
            assert forall|i: int, j: int| 0 <= i < j < sorted@.len() implies age_rank(
                #[trigger] sorted@[i].created_at,
            ) >= age_rank(#[trigger] sorted@[j].created_at) by {
                let a = if i < at {
                    i
                } else {
                    i - 1
                };
                let b = if j < at {
                    j
                } else {
                    j - 1
                };
                if i != at && j != at {
                    assert(sorted@[i] == sorted_before[a]);
                    assert(sorted@[j] == sorted_before[b]);
                } else if i == at {
                    assert(sorted@[j] == sorted_before[b]);
                    if at < b {
                        assert(age_rank(sorted_before[at as int].created_at) >= age_rank(
                            sorted_before[b].created_at,
                        ));
                    }
                } else {
                    assert(sorted@[i] == sorted_before[a]);
                }
            }
        }
    }
    assert(rest@.to_multiset() =~= Multiset::<BackupInfo>::empty()) by {
        rest@.to_multiset_ensures();
    }
    assert(sorted@.to_multiset().add(Multiset::<BackupInfo>::empty()) =~= sorted@.to_multiset());
    sorted
}

} // verus!
