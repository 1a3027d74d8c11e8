//! Backups of the files a preset changes: the index that maps each
//! original file to its backup file, and the file operations that backing
//! up and restoring consist of.

use std::collections::BTreeMap;

use vstd::prelude::*;
use vstd::string::*;

use crate::error::Error;
use crate::str_map::{entries_map, keys_unique, StrMap};
use crate::text::{join_path, joined_path};

verus! {

/// The backup index: the backup file name of each original file path.
pub type BackupIndex = StrMap<String>;

/// The contents of a backup index.
pub open spec fn index_view(m: Map<Seq<char>, String>) -> Map<Seq<char>, Seq<char>> {
    m.map_values(|s: String| s@)
}

/// A lower-case hexadecimal digit.
pub open spec fn is_lower_hex(c: char) -> bool {
    ('0' as int <= c as int <= '9' as int) || ('a' as int <= c as int <= 'f' as int)
}

/// The hyphenated lower-case text of a random (version 4) UUID: five groups
/// of 8, 4, 4, 4 and 12 hex digits; the version digit is `4` and the
/// variant digit is one of `8`, `9`, `a`, `b`.
pub open spec fn is_uuid_v4_text(s: Seq<char>) -> bool {
    &&& s.len() == 36
    &&& forall|i: int| 0 <= i < 36 ==> if i == 8 || i == 13 || i == 18 || i == 23 {
        #[trigger] s[i] == '-'
    } else {
        is_lower_hex(s[i])
    }
    &&& s[14] == '4'
    &&& (s[19] == '8' || s[19] == '9' || s[19] == 'a' || s[19] == 'b')
}

/// A backup file name of preset `preset_id`: the preset id, `+`, the text of
/// a fresh random UUID and `.backup`.
pub open spec fn is_backup_file_name(n: Seq<char>, preset_id: Seq<char>) -> bool {
    exists|u: Seq<char>| #[trigger] is_uuid_v4_text(u) && n == file_safe_id(preset_id) + "+"@ + u + ".backup"@
}

/// A preset id as it stands in a file name: each `/` becomes `_`, so that the
/// name stays a single path component.
pub open spec fn file_safe_id(id: Seq<char>) -> Seq<char> {
    id.map_values(|c: char| if c == '/' { '_' } else { c })
}

/// What comes before the name of a file directly inside the directory
/// `dir`: nothing for the current directory, `dir` when it ends with `/`,
/// and otherwise `dir` followed by `/`.
pub open spec fn dir_prefix(dir: Seq<char>) -> Seq<char> {
    if dir.len() == 0 || dir.last() == '/' {
        dir
    } else {
        dir + "/"@
    }
}

/// `id` with each `/` replaced by `_`.
fn file_safe(id: &str) -> (res: String)
    ensures
        res@ == file_safe_id(id@),
{
    let n = id.unicode_len();
    let mut res = String::new();
    let mut i: usize = 0;
    proof {
        reveal_strlit("_");
    }
    while i < n
        invariant
            i <= n,
            n == id@.len(),
            "_"@ == seq!['_'],
            res@ == file_safe_id(id@.take(i as int)),
        decreases n - i,
    {
        let c = id.get_char(i);
        if c == '/' {
            res.append("_");
        } else {
            res.append(id.substring_char(i, i + 1));
        }
        proof {
            assert(id@.subrange(i as int, i + 1) =~= seq![c]);
            assert(file_safe_id(id@.take(i + 1)) =~= file_safe_id(id@.take(i as int)).push(
                if c == '/' { '_' } else { c },
            ));
        }
        i = i + 1;
    }
    proof {
        assert(id@.take(n as int) =~= id@);
    }
    res
}

/// The index that a JSON text holds, when it is a JSON object whose values
/// are all strings.
pub uninterp spec fn parsed_index(text: Seq<char>) -> Option<Map<Seq<char>, Seq<char>>>;

/// The pretty-printed JSON object of an index.
pub uninterp spec fn index_json(index: Map<Seq<char>, Seq<char>>) -> Seq<char>;

/// Calls `uuid::Uuid::new_v4` and renders it with `hyphenated()`: the
/// result is the text of a random UUID whose version is 4 and whose variant
/// is RFC 4122, in lower-case hex. Which UUID comes out is left open; the
/// call panics if the operating system gives no random bytes.
#[verifier::external_body]
fn new_uuid_text() -> (res: String)
    ensures
        is_uuid_v4_text(res@),
{
    uuid::Uuid::new_v4().hyphenated().to_string()
}

/// Calls `serde_json::from_str` for a map from strings to strings: gives the
/// entries of the object that `text` holds, each key once, or the parser's
/// message when `text` is no such object.
#[verifier::external_body]
fn parse_index_json(text: &str) -> (res: Result<Vec<(String, String)>, String>)
    ensures
        match res {
            Ok(v) => keys_unique(v@) && parsed_index(text@) == Some(index_view(entries_map(v@))),
            Err(_) => parsed_index(text@) is None,
        },
{
    match serde_json::from_str::<BTreeMap<String, String>>(text) {
        Ok(m) => Ok(m.into_iter().collect()),
        Err(e) => Err(e.to_string()),
    }
}

/// Calls `serde_json::to_string_pretty` on the map that `entries` holds
/// (keys in sorted order): gives its pretty-printed JSON object, which
/// `serde_json::from_str` reads back as the same map (every string is
/// written with its characters escaped as JSON requires). It always
/// succeeds: serialization fails only where a `Serialize` impl fails or a
/// map has keys that are not strings, and a map from strings to strings has
/// neither.
#[verifier::external_body]
fn index_to_json(entries: &Vec<(String, String)>) -> (res: Result<String, String>)
    requires
        keys_unique(entries@),
    ensures
        res is Ok,
        res matches Ok(t) ==> t@ == index_json(index_view(entries_map(entries@))) && parsed_index(t@)
            == Some(index_view(entries_map(entries@))),
{
    let m: BTreeMap<String, String> = entries.iter().cloned().collect();
    match serde_json::to_string_pretty(&m) {
        Ok(t) => Ok(t),
        Err(e) => Err(e.to_string()),
    }
}

/// A file to copy.
pub struct FileCopy {
    pub from: String,
    pub to: String,
}

/// A file to write.
pub struct FileWrite {
    pub path: String,
    pub contents: String,
}

/// A backup that is ready to be taken: once `copy` is done, `original` is
/// recorded as backed up in `backup_file_name`.
pub struct PendingBackup {
    pub original: String,
    pub backup_file_name: String,
    pub copy: FileCopy,
}

/// How copying a backup file back went.
pub enum RestoreOutcome {
    /// The backup file is not in the backup directory; nothing was copied.
    BackupMissing,
    /// Copying failed with the given reason.
    CopyFailed(String),
    /// The file was copied back.
    Copied,
}

/// The backup directory of a preset and its index.
pub struct BackupInfo {
    pub backup_dir: String,
    pub indexs: BackupIndex,
}

/// `a` followed by `b`.
fn cat2(a: &str, b: &str) -> (res: String)
    ensures
        res@ == a@ + b@,
{
    let mut res = a.to_owned();
    res.append(b);
    res
}

/// `a`, `b`, `c`, `d` and `e` one after the other.
fn cat5(a: &str, b: &str, c: &str, d: &str, e: &str) -> (res: String)
    ensures
        res@ == a@ + b@ + c@ + d@ + e@,
{
    let mut res = a.to_owned();
    res.append(b);
    res.append(c);
    res.append(d);
    res.append(e);
    res
}

impl BackupInfo {
    /// Chooses a fresh backup file name of preset `preset_id` for
    /// `original_file_path`, and the copy that takes the backup.
    pub fn prepare_backup(&self, preset_id: &str, original_file_path: &str) -> (res: PendingBackup)
        ensures
            res.original@ == original_file_path@,
            is_backup_file_name(res.backup_file_name@, preset_id@),
            forall|i: int| 0 <= i < res.backup_file_name@.len() ==> #[trigger] res.backup_file_name@[i] != '/',
            res.copy.from@ == original_file_path@,
            res.copy.to@ == joined_path(self.backup_dir@, res.backup_file_name@),
            res.copy.to@ == dir_prefix(self.backup_dir@) + res.backup_file_name@,
    {
        let uuid = new_uuid_text();
        let safe_id = file_safe(preset_id);
        let name = cat5(safe_id.as_str(), "+", uuid.as_str(), ".backup", "");
        proof {
            reveal_strlit("");
            reveal_strlit("+");
            reveal_strlit(".backup");
            assert(name@ =~= file_safe_id(preset_id@) + "+"@ + uuid@ + ".backup"@);
            assert forall|i: int| 0 <= i < name@.len() implies #[trigger] name@[i] != '/' by {
                if i < safe_id@.len() {
                    assert(name@[i] == safe_id@[i]);
                } else if i < safe_id@.len() + 1 {
                } else if i < safe_id@.len() + 1 + uuid@.len() {
                    assert(name@[i] == uuid@[i - safe_id@.len() - 1]);
                    let k = i - safe_id@.len() - 1;
                    if k == 8 || k == 13 || k == 18 || k == 23 {
                        assert(uuid@[k] == '-');
                    } else {
                        assert(is_lower_hex(uuid@[k]));
                    }
                }
            }
            assert(name@.len() > 0 && name@[0] != '/');
            reveal_strlit("/");
            assert(joined_path(self.backup_dir@, name@) =~= dir_prefix(self.backup_dir@) + name@);
        }
        let to = join_path(self.backup_dir.as_str(), name.as_str());
        PendingBackup {
            original: original_file_path.to_owned(),
            backup_file_name: name,
            copy: FileCopy { from: original_file_path.to_owned(), to },
        }
    }

    /// Records the outcome of the copy of a pending backup: the index maps
    /// the original file to its backup file when the copy succeeded, and is
    /// left as it was when it failed.
    pub fn backup_file(&mut self, pending: &PendingBackup, copied: Result<(), String>) -> (res: Result<(), Error>)
        ensures
            final(self).backup_dir == old(self).backup_dir,
            match copied {
                Ok(_) => {
                    &&& res is Ok
                    &&& final(self).indexs@ == old(self).indexs@.insert(
                        pending.original@,
                        pending.backup_file_name,
                    )
                },
                Err(e) => {
                    &&& final(self).indexs@ == old(self).indexs@
                    &&& res matches Err(Error::OpenFile(m)) && m@ == "Failed to copy file from '"@
                        + pending.copy.from@ + "' to '"@ + pending.copy.to@ + "': "@ + e@
                },
            },
    {
        match copied {
            Ok(()) => {
                self.indexs.insert(pending.original.clone(), pending.backup_file_name.clone());
                Ok(())
            },
            Err(e) => {
                let mut m = cat5(
                    "Failed to copy file from '",
                    pending.copy.from.as_str(),
                    "' to '",
                    pending.copy.to.as_str(),
                    "': ",
                );
                m.append(e.as_str());
                Err(Error::OpenFile(m))
            },
        }
    }

    /// The copy that restores `original_file_path` from its backup file; an
    /// error when the index has no backup of it.
    pub fn restore_file(&self, original_file_path: &str) -> (res: Result<FileCopy, Error>)
        ensures
            match res {
                Ok(c) => {
                    &&& self.indexs@.contains_key(original_file_path@)
                    &&& c.from@ == joined_path(self.backup_dir@, self.indexs@[original_file_path@]@)
                    &&& c.to@ == original_file_path@
                },
                Err(e) => {
                    &&& !self.indexs@.contains_key(original_file_path@)
                    &&& e matches Error::OpenFile(m) && m@ == "No backup reference found for file '"@
                        + original_file_path@ + "' in the index."@
                },
            },
    {
        match self.indexs.get(original_file_path) {
            Some(name) => Ok(
                FileCopy {
                    from: join_path(self.backup_dir.as_str(), name.as_str()),
                    to: original_file_path.to_owned(),
                },
            ),
            None => {
                let m = cat5(
                    "No backup reference found for file '",
                    original_file_path,
                    "' in the index.",
                    "",
                    "",
                );
                proof {
                    reveal_strlit("");
                    assert(m@ =~= "No backup reference found for file '"@ + original_file_path@
                        + "' in the index."@);
                }
                Err(Error::OpenFile(m))
            },
        }
    }

    /// The result of restoring a file by `copy`, given how the copy went.
    pub fn finish_restore(copy: &FileCopy, outcome: RestoreOutcome) -> (res: Result<(), Error>)
        ensures
            match outcome {
                RestoreOutcome::BackupMissing => res matches Err(Error::OpenFile(m)) && m@
                    == "Backup file '"@ + copy.from@ + "' is missing from the backup directory."@,
                RestoreOutcome::CopyFailed(e) => res matches Err(Error::OpenFile(m)) && m@
                    == "Failed to restore file from '"@ + copy.from@ + "' to '"@ + copy.to@ + "': "@ + e@,
                RestoreOutcome::Copied => res is Ok,
            },
    {
        match outcome {
            RestoreOutcome::BackupMissing => {
                let m = cat5(
                    "Backup file '",
                    copy.from.as_str(),
                    "' is missing from the backup directory.",
                    "",
                    "",
                );
                proof {
                    reveal_strlit("");
                    assert(m@ =~= "Backup file '"@ + copy.from@ + "' is missing from the backup directory."@);
                }
                Err(Error::OpenFile(m))
            },
            RestoreOutcome::CopyFailed(e) => {
                let mut m = cat5(
                    "Failed to restore file from '",
                    copy.from.as_str(),
                    "' to '",
                    copy.to.as_str(),
                    "': ",
                );
                m.append(e.as_str());
                Err(Error::OpenFile(m))
            },
            RestoreOutcome::Copied => Ok(()),
        }
    }

    /// The write that stores the index as `index.json` in the backup
    /// directory; it is always given.
    pub fn update_indexer(&self) -> (res: Result<FileWrite, Error>)
        ensures
            update_indexer_post(*self, res),
    {
        match index_to_json(self.indexs.entries()) {
            Ok(text) => Ok(
                FileWrite { path: join_path(self.backup_dir.as_str(), "index.json"), contents: text },
            ),
            Err(e) => Err(Error::OpenFile(cat2("Failed to serialize updated index: ", e.as_str()))),
        }
    }

    /// The outcome of writing the index by `write`, given how the write went.
    pub fn index_write_outcome(write: &FileWrite, written: Result<(), String>) -> (res: Result<(), Error>)
        ensures
            match written {
                Ok(_) => res is Ok,
                Err(e) => res matches Err(Error::OpenFile(m)) && m@ == "Failed to write updated index.json to '"@
                    + write.path@ + "': "@ + e@,
            },
    {
        match written {
            Ok(()) => Ok(()),
            Err(e) => Err(BackupInfo::index_write_failed(write, e.as_str())),
        }
    }

    /// The error of a failed write of the index.
    pub fn index_write_failed(write: &FileWrite, reason: &str) -> (res: Error)
        ensures
            res matches Error::OpenFile(m) && m@ == "Failed to write updated index.json to '"@
                + write.path@ + "': "@ + reason@,
    {
        let m = cat5("Failed to write updated index.json to '", write.path.as_str(), "': ", reason, "");
        proof {
            reveal_strlit("");
            assert(m@ =~= "Failed to write updated index.json to '"@ + write.path@ + "': "@ + reason@);
        }
        Error::OpenFile(m)
    }
}

/// A backup directory to create for a preset, with its empty index.
pub struct NewBackupDir {
    pub dir: String,
    pub index_path: String,
    pub index_contents: Result<String, Error>,
}

/// Finds and creates backup directories.
pub struct BackupManager {}

impl BackupManager {
    /// Where the index of a backup directory is stored.
    pub fn index_file_path(backup_dir_path: &str) -> (res: String)
        ensures
            res@ == joined_path(backup_dir_path@, "index.json"@),
    {
        join_path(backup_dir_path, "index.json")
    }

    /// The backup directory `backup_dir_path` with the index read from its
    /// `index.json`, given what reading that file gave.
    pub fn get_backup_info(backup_dir_path: &str, index_content: Result<String, String>) -> (res: Result<
        BackupInfo,
        Error,
    >)
        ensures
            get_backup_info_post(backup_dir_path@, index_content, res),
    {
        let text = match index_content {
            Ok(t) => t,
            Err(e) => {
                return Err(Error::OpenFile(cat2("Failed to read index.json: ", e.as_str())));
            },
        };
        match parse_index_json(text.as_str()) {
            Ok(entries) => {
                let mut indexs: BackupIndex = StrMap::new();
                let mut i: usize = 0;
                while i < entries.len()
                    invariant
                        i <= entries@.len(),
                        indexs@ == entries_map(entries@.take(i as int)),
                    decreases entries@.len() - i,
                {
                    indexs.insert(entries[i].0.clone(), entries[i].1.clone());
                    proof {
                        assert(entries@.take(i + 1).drop_last() =~= entries@.take(i as int));
                    }
                    i = i + 1;
                }
                proof {
                    assert(entries@.take(entries@.len() as int) =~= entries@);
                }
                Ok(BackupInfo { backup_dir: backup_dir_path.to_owned(), indexs })
            },
            Err(e) => {
                let m = cat2("Failed to parse index.json: ", e.as_str());
                proof {
                    assert("Failed to parse index.json: "@.is_prefix_of(m@)) by {
                        assert(m@.subrange(0, "Failed to parse index.json: "@.len() as int)
                            =~= "Failed to parse index.json: "@);
                    }
                }
                Err(Error::OpenFile(m))
            },
        }
    }

    /// The backup directory of a preset opened for a stage: as
    /// `get_backup_info`, but a failure is a backup error carrying the
    /// message of the underlying error.
    pub fn open_for_stage(backup_dir_path: &str, index_content: Result<String, String>) -> (res: Result<
        BackupInfo,
        Error,
    >)
        ensures
            open_for_stage_post(backup_dir_path@, index_content, res),
    {
        let ghost content = index_content;
        match BackupManager::get_backup_info(backup_dir_path, index_content) {
            Ok(info) => Ok(info),
            Err(e) => {
                let m = e.message();
                proof {
                    let p = "Failed to open file: "@ + "Failed to parse index.json: "@;
                    if let Err(e0) = content {
                        assert(m@ =~= "Failed to open file: "@ + "Failed to read index.json: "@ + e0@);
                    }
                    if let Ok(text) = content {
                        if parsed_index(text@) is None {
                            assert(m@.subrange(0, p.len() as int) =~= p);
                        }
                    }
                }
                Err(Error::BackupError(m))
            },
        }
    }

    /// A new backup directory for preset `preset_id`, named after the preset
    /// and a fresh random UUID, with the text of its empty index.
    pub fn create_preset_backup_dir(preset_id: &str) -> (res: NewBackupDir)
        ensures
            exists|u: Seq<char>| #[trigger] is_uuid_v4_text(u) && res.dir@
                == "/usr/share/bakeryos/preset/backups/"@ + preset_id@ + "+"@ + u,
            res.index_path@ == joined_path(res.dir@, "index.json"@),
            res.index_contents matches Ok(t) && t@ == index_json(Map::empty()) && parsed_index(t@)
                == Some(Map::<Seq<char>, Seq<char>>::empty()),
    {
        let uuid = new_uuid_text();
        let dir = cat5("/usr/share/bakeryos/preset/backups/", preset_id, "+", uuid.as_str(), "");
        proof {
            reveal_strlit("");
            assert(dir@ =~= "/usr/share/bakeryos/preset/backups/"@ + preset_id@ + "+"@ + uuid@);
        }
        let empty: BackupIndex = StrMap::new();
        let index_contents = match index_to_json(empty.entries()) {
            Ok(t) => {
                assert(index_view(empty@) =~= Map::<Seq<char>, Seq<char>>::empty());
                Ok(t)
            },
            Err(e) => Err(Error::OpenFile(cat2("Failed to serialize empty backup index: ", e.as_str()))),
        };
        let index_path = join_path(dir.as_str(), "index.json");
        NewBackupDir { dir, index_path, index_contents }
    }

    /// The error of a backup directory that could not be created.
    pub fn dir_create_failed(dir: &str, reason: &str) -> (res: Error)
        ensures
            res matches Error::OpenFile(m) && m@ == "Failed to create backup directory '"@ + dir@ + "': "@
                + reason@,
    {
        let m = cat5("Failed to create backup directory '", dir, "': ", reason, "");
        proof {
            reveal_strlit("");
            assert(m@ =~= "Failed to create backup directory '"@ + dir@ + "': "@ + reason@);
        }
        Error::OpenFile(m)
    }

    /// The error of an index that could not be written into a new backup
    /// directory.
    pub fn index_create_failed(dir: &str, reason: &str) -> (res: Error)
        ensures
            res matches Error::OpenFile(m) && m@ == "Failed to create index.json in '"@ + dir@ + "': "@
                + reason@,
    {
        let m = cat5("Failed to create index.json in '", dir, "': ", reason, "");
        proof {
            reveal_strlit("");
            assert(m@ =~= "Failed to create index.json in '"@ + dir@ + "': "@ + reason@);
        }
        Error::OpenFile(m)
    }
}

/// Restoring a file that has just been backed up copies its backup file
/// back over it: after `prepare_backup` and a successful `backup_file`, the
/// copy that `restore_file` gives for the same file goes from the backup
/// file that was written back to the original path.
pub proof fn lemma_restore_after_backup(before: BackupInfo, after: BackupInfo, pending: PendingBackup)
    requires
        pending.copy.to@ == joined_path(before.backup_dir@, pending.backup_file_name@),
        after.backup_dir == before.backup_dir,
        after.indexs@ == before.indexs@.insert(pending.original@, pending.backup_file_name),
    ensures
        after.indexs@.contains_key(pending.original@),
        joined_path(after.backup_dir@, after.indexs@[pending.original@]@) == pending.copy.to@,
{
}

/// Backing up one file leaves what the index holds of every other file as
/// it was, and a failed copy leaves the whole index as it was.
pub proof fn lemma_backup_keeps_other_files(
    before: BackupInfo,
    after: BackupInfo,
    pending: PendingBackup,
    other: Seq<char>,
)
    requires
        after.indexs@ == before.indexs@.insert(pending.original@, pending.backup_file_name),
        other != pending.original@,
    ensures
        after.indexs@.contains_key(other) == before.indexs@.contains_key(other),
        before.indexs@.contains_key(other) ==> after.indexs@[other] == before.indexs@[other],
{
}

/// What `update_indexer` gives for `info`: the write of `index.json` in the
/// backup directory, holding the index as JSON that reads back as the index.
pub open spec fn update_indexer_post(info: BackupInfo, res: Result<FileWrite, Error>) -> bool {
    res matches Ok(w) && w.path@ == joined_path(info.backup_dir@, "index.json"@) && w.contents@
        == index_json(index_view(info.indexs@)) && parsed_index(w.contents@) == Some(index_view(info.indexs@))
}

/// What `get_backup_info` gives for the directory `dir`, given what reading
/// its `index.json` gave: the read error, the parse error, or the directory
/// with the index that the text holds.
pub open spec fn get_backup_info_post(dir: Seq<char>, content: Result<String, String>, res: Result<BackupInfo, Error>) -> bool {
    match content {
        Err(e) => res matches Err(Error::OpenFile(m)) && m@ == "Failed to read index.json: "@ + e@,
        Ok(text) => match parsed_index(text@) {
            Some(index) => res matches Ok(info) && info.backup_dir@ == dir && index_view(info.indexs@) == index,
            None => res matches Err(Error::OpenFile(m)) && "Failed to parse index.json: "@.is_prefix_of(m@),
        },
    }
}

/// What `open_for_stage` gives for the directory `dir`, given what reading
/// its `index.json` gave: as `get_backup_info`, with its errors turned into
/// backup errors carrying their messages.
pub open spec fn open_for_stage_post(dir: Seq<char>, content: Result<String, String>, res: Result<BackupInfo, Error>) -> bool {
    match content {
        Err(e) => res matches Err(Error::BackupError(m)) && m@ == "Failed to open file: "@
            + "Failed to read index.json: "@ + e@,
        Ok(text) => match parsed_index(text@) {
            Some(index) => res matches Ok(info) && info.backup_dir@ == dir && index_view(info.indexs@) == index,
            None => res matches Err(Error::BackupError(m)) && ("Failed to open file: "@
                + "Failed to parse index.json: "@).is_prefix_of(m@),
        },
    }
}

/// The index that `update_indexer` writes is the index that
/// `get_backup_info` reads back from it: reading the written text back for
/// the same directory gives that directory with the same index.
pub proof fn lemma_index_round_trip(
    info: BackupInfo,
    written: Result<FileWrite, Error>,
    reread: Result<BackupInfo, Error>,
)
    requires
        update_indexer_post(info, written),
        written matches Ok(w) && get_backup_info_post(info.backup_dir@, Ok(w.contents), reread),
    ensures
        reread matches Ok(r) && r.backup_dir@ == info.backup_dir@ && index_view(r.indexs@) == index_view(
            info.indexs@,
        ),
{
}

} // verus!
