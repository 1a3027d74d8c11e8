//! Backing up and restoring the files of a stage: one file after another,
//! stopping at the first that fails, and writing the index only when all
//! of them succeeded.

use vstd::prelude::*;

use crate::backup::{
    dir_prefix, index_view, is_backup_file_name, open_for_stage_post, update_indexer_post, BackupInfo, BackupManager, FileCopy,
    FileWrite, PendingBackup, RestoreOutcome,
};
use crate::error::Error;
use crate::preset::{copy_strings, strings};
use crate::sequence::{Sequence, SequenceState};
use crate::text::joined_path;

verus! {

/// A copy of a file copy.
fn copy_of(c: &FileCopy) -> (res: FileCopy)
    ensures
        res == *c,
{
    FileCopy { from: c.from.clone(), to: c.to.clone() }
}

/// The state of a backup of the files of a stage.
pub struct BackupRunState {
    pub info: BackupInfo,
    pub preset_id: Seq<char>,
    pub files: Seq<Seq<char>>,
    pub seq: SequenceState,
    pub pending: Option<PendingBackup>,
}

/// Backs up the files of a stage into a backup directory: ask for the next
/// copy, make it, record how it went; then write the index.
pub struct BackupRun {
    info: BackupInfo,
    preset_id: String,
    files: Vec<String>,
    seq: Sequence,
    pending: Option<PendingBackup>,
}

impl View for BackupRun {
    type V = BackupRunState;

    closed spec fn view(&self) -> BackupRunState {
        BackupRunState {
            info: self.info,
            preset_id: self.preset_id@,
            files: strings(self.files@),
            seq: self.seq@,
            pending: self.pending,
        }
    }
}

/// What holds of a backup between calls: one action per file, and a
/// pending backup only while its copy is the next action.
pub open spec fn backup_run_ready(s: BackupRunState) -> bool {
    &&& s.seq.count == s.files.len()
    &&& s.pending is Some ==> s.seq.failure is None && s.seq.next < s.seq.count
}

impl BackupRun {
    /// Starts backing up `files` into `backup_dir` for preset `preset_id`,
    /// given what reading the directory's `index.json` gave.
    pub fn start(preset_id: &str, backup_dir: &str, files: &[String], index_content: Result<String, String>) -> (res: Result<
        BackupRun,
        Error,
    >)
        ensures
            open_for_stage_post(
                backup_dir@,
                index_content,
                match res {
                    Ok(r) => Ok::<BackupInfo, Error>(r@.info),
                    Err(e) => Err(e),
                },
            ),
            res matches Ok(r) ==> {
                &&& backup_run_ready(r@)
                &&& r@.preset_id == preset_id@
                &&& r@.files == strings(files@)
                &&& r@.seq.count == files@.len()
                &&& r@.seq.next == 0
                &&& r@.seq.failure is None
                &&& r@.seq.recorded.len() == 0
                &&& r@.pending is None
            },
    {
        match BackupManager::open_for_stage(backup_dir, index_content) {
            Ok(info) => {
                let files = copy_strings(files);
                Ok(
                    BackupRun {
                        info,
                        preset_id: preset_id.to_owned(),
                        seq: Sequence::new(files.len()),
                        files,
                        pending: None,
                    },
                )
            },
            Err(e) => Err(e),
        }
    }

    /// The next file to copy into the backup directory, under a fresh
    /// backup file name; none once a copy has failed or all are done.
    pub fn next_copy(&mut self) -> (res: Option<FileCopy>)
        requires
            backup_run_ready(old(self)@),
            old(self)@.pending is None,
        ensures
            backup_run_ready(final(self)@),
            final(self)@.info == old(self)@.info,
            final(self)@.preset_id == old(self)@.preset_id,
            final(self)@.files == old(self)@.files,
            final(self)@.seq == old(self)@.seq,
            match res {
                None => final(self)@.pending is None && !(old(self)@.seq.failure is None
                    && old(self)@.seq.next < old(self)@.seq.count),
                Some(c) => {
                    let file = old(self)@.files[old(self)@.seq.next];
                    &&& old(self)@.seq.failure is None
                    &&& old(self)@.seq.next < old(self)@.seq.count
                    &&& final(self)@.pending matches Some(p) && {
                        &&& p.original@ == file
                        &&& is_backup_file_name(p.backup_file_name@, old(self)@.preset_id)
                        &&& p.copy.from@ == file
                        &&& p.copy.to@ == joined_path(old(self)@.info.backup_dir@, p.backup_file_name@)
                        &&& p.copy.to@ == dir_prefix(old(self)@.info.backup_dir@) + p.backup_file_name@
                        &&& forall|i: int| 0 <= i < p.backup_file_name@.len() ==> #[trigger] p.backup_file_name@[i] != '/'
                        &&& c == p.copy
                    }
                },
            },
    {
        match self.seq.next() {
            Some(i) => {
                proof {
                    assert(i as int == old(self)@.seq.next);
                    assert(old(self)@.files[i as int] == self.files@[i as int]@);
                }
                let p = self.info.prepare_backup(self.preset_id.as_str(), self.files[i].as_str());
                let c = copy_of(&p.copy);
                self.pending = Some(p);
                Some(c)
            },
            None => None,
        }
    }

    /// Records how the copy of the pending backup went: a successful copy
    /// puts the file into the index; a failed one ends the backup with its
    /// error.
    pub fn record_copy(&mut self, copied: Result<(), String>)
        requires
            backup_run_ready(old(self)@),
            old(self)@.pending is Some,
        ensures
            backup_run_ready(final(self)@),
            final(self)@.pending is None,
            final(self)@.preset_id == old(self)@.preset_id,
            final(self)@.files == old(self)@.files,
            final(self)@.info.backup_dir == old(self)@.info.backup_dir,
            final(self)@.seq.count == old(self)@.seq.count,
            final(self)@.seq.recorded.len() == old(self)@.seq.recorded.len() + 1,
            ({
                let p = old(self)@.pending.unwrap();
                match copied {
                    Ok(_) => {
                        &&& final(self)@.info.indexs@ == old(self)@.info.indexs@.insert(p.original@, p.backup_file_name)
                        &&& final(self)@.seq.next == old(self)@.seq.next + 1
                        &&& final(self)@.seq.failure is None
                    },
                    Err(e) => {
                        &&& final(self)@.info.indexs@ == old(self)@.info.indexs@
                        &&& final(self)@.seq.next == old(self)@.seq.next
                        &&& final(self)@.seq.failure matches Some(Error::OpenFile(m)) && m@
                            == "Failed to copy file from '"@ + p.copy.from@ + "' to '"@ + p.copy.to@ + "': "@ + e@
                    },
                }
            }),
    {
        let mut pending = None;
        std::mem::swap(&mut pending, &mut self.pending);
        match pending {
            Some(p) => {
                let outcome = self.info.backup_file(&p, copied);
                self.seq.record(outcome);
            },
            None => {},
        }
    }

    /// Ends the backup: the error of the copy that failed, without writing
    /// the index; or, when every copy succeeded, the write of the index.
    pub fn finish(self) -> (res: Result<FileWrite, Error>)
        requires
            backup_run_ready(self@),
            self@.pending is None,
            self@.seq.failure is Some || self@.seq.next == self@.seq.count,
        ensures
            match self@.seq.failure {
                Some(e) => res == Err::<FileWrite, Error>(e),
                None => update_indexer_post(self@.info, res),
            },
    {
        match self.seq.finish() {
            Err(e) => Err(e),
            Ok(()) => self.info.update_indexer(),
        }
    }
}

/// The state of a restore of the files of a stage.
pub struct RestoreRunState {
    pub info: BackupInfo,
    pub files: Seq<Seq<char>>,
    pub seq: SequenceState,
    pub copy: Option<FileCopy>,
}

/// Restores the files of a stage from a backup directory: ask for the next
/// copy, make it, record how it went; then write the index.
pub struct RestoreRun {
    info: BackupInfo,
    files: Vec<String>,
    seq: Sequence,
    copy: Option<FileCopy>,
}

impl View for RestoreRun {
    type V = RestoreRunState;

    closed spec fn view(&self) -> RestoreRunState {
        RestoreRunState { info: self.info, files: strings(self.files@), seq: self.seq@, copy: self.copy }
    }
}

/// What holds of a restore between calls: one action per file, and a copy
/// only while it is the next action.
pub open spec fn restore_run_ready(s: RestoreRunState) -> bool {
    &&& s.seq.count == s.files.len()
    &&& s.copy is Some ==> s.seq.failure is None && s.seq.next < s.seq.count
}

impl RestoreRun {
    /// Starts restoring `files` from `backup_dir`, given what reading the
    /// directory's `index.json` gave.
    pub fn start(backup_dir: &str, files: &[String], index_content: Result<String, String>) -> (res: Result<
        RestoreRun,
        Error,
    >)
        ensures
            open_for_stage_post(
                backup_dir@,
                index_content,
                match res {
                    Ok(r) => Ok::<BackupInfo, Error>(r@.info),
                    Err(e) => Err(e),
                },
            ),
            res matches Ok(r) ==> {
                &&& restore_run_ready(r@)
                &&& r@.files == strings(files@)
                &&& r@.seq.count == files@.len()
                &&& r@.seq.next == 0
                &&& r@.seq.failure is None
                &&& r@.seq.recorded.len() == 0
                &&& r@.copy is None
            },
    {
        match BackupManager::open_for_stage(backup_dir, index_content) {
            Ok(info) => {
                let files = copy_strings(files);
                Ok(RestoreRun { info, seq: Sequence::new(files.len()), files, copy: None })
            },
            Err(e) => Err(e),
        }
    }

    /// The copy that restores the next file; none once a restore has failed
    /// or all are done. A file of which the index has no backup ends the
    /// restore with that error.
    pub fn next_restore(&mut self) -> (res: Option<FileCopy>)
        requires
            restore_run_ready(old(self)@),
            old(self)@.copy is None,
        ensures
            restore_run_ready(final(self)@),
            final(self)@.info == old(self)@.info,
            final(self)@.files == old(self)@.files,
            final(self)@.seq.count == old(self)@.seq.count,
            final(self)@.seq.next == old(self)@.seq.next,
            !(old(self)@.seq.failure is None && old(self)@.seq.next < old(self)@.seq.count) ==> {
                &&& res is None
                &&& final(self)@ == old(self)@
            },
            old(self)@.seq.failure is None && old(self)@.seq.next < old(self)@.seq.count ==> {
                let file = old(self)@.files[old(self)@.seq.next];
                let index = old(self)@.info.indexs@;
                if index.contains_key(file) {
                    &&& res matches Some(c) && c.from@ == joined_path(old(self)@.info.backup_dir@, index[file]@)
                        && c.to@ == file
                    &&& final(self)@.copy == res
                    &&& final(self)@.seq == old(self)@.seq
                } else {
                    &&& res is None
                    &&& final(self)@.copy is None
                    &&& final(self)@.seq.recorded.len() == old(self)@.seq.recorded.len() + 1
                    &&& final(self)@.seq.failure matches Some(Error::OpenFile(m)) && m@
                        == "No backup reference found for file '"@ + file + "' in the index."@
                }
            },
    {
        match self.seq.next() {
            Some(i) => {
                proof {
                    assert(i as int == old(self)@.seq.next);
                    assert(old(self)@.files[i as int] == self.files@[i as int]@);
                }
                match self.info.restore_file(self.files[i].as_str()) {
                    Ok(c) => {
                        let res = copy_of(&c);
                        self.copy = Some(c);
                        Some(res)
                    },
                    Err(e) => {
                        self.seq.record(Err(e));
                        None
                    },
                }
            },
            None => None,
        }
    }

    /// Records how copying the next file back went: a missing backup file or
    /// a failed copy ends the restore with its error.
    pub fn record_restore(&mut self, outcome: RestoreOutcome)
        requires
            restore_run_ready(old(self)@),
            old(self)@.copy is Some,
        ensures
            restore_run_ready(final(self)@),
            final(self)@.copy is None,
            final(self)@.info == old(self)@.info,
            final(self)@.files == old(self)@.files,
            final(self)@.seq.count == old(self)@.seq.count,
            final(self)@.seq.recorded.len() == old(self)@.seq.recorded.len() + 1,
            ({
                let c = old(self)@.copy.unwrap();
                match outcome {
                    RestoreOutcome::Copied => final(self)@.seq.next == old(self)@.seq.next + 1
                        && final(self)@.seq.failure is None,
                    RestoreOutcome::BackupMissing => {
                        &&& final(self)@.seq.next == old(self)@.seq.next
                        &&& final(self)@.seq.failure matches Some(Error::OpenFile(m)) && m@ == "Backup file '"@
                            + c.from@ + "' is missing from the backup directory."@
                    },
                    RestoreOutcome::CopyFailed(e) => {
                        &&& final(self)@.seq.next == old(self)@.seq.next
                        &&& final(self)@.seq.failure matches Some(Error::OpenFile(m)) && m@
                            == "Failed to restore file from '"@ + c.from@ + "' to '"@ + c.to@ + "': "@ + e@
                    },
                }
            }),
    {
        let mut copy = None;
        std::mem::swap(&mut copy, &mut self.copy);
        match copy {
            Some(c) => {
                let result = BackupInfo::finish_restore(&c, outcome);
                self.seq.record(result);
            },
            None => {},
        }
    }

    /// Ends the restore: the error of the file that failed, without writing
    /// the index; or, when every file was restored, the write of the index,
    /// which holds what it held before.
    pub fn finish(self) -> (res: Result<FileWrite, Error>)
        requires
            restore_run_ready(self@),
            self@.copy is None,
            self@.seq.failure is Some || self@.seq.next == self@.seq.count,
        ensures
            match self@.seq.failure {
                Some(e) => res == Err::<FileWrite, Error>(e),
                None => update_indexer_post(self@.info, res),
            },
    {
        match self.seq.finish() {
            Err(e) => Err(e),
            Ok(()) => self.info.update_indexer(),
        }
    }
}

/// A file backed up into a directory is found again by a restore that reads
/// the index written there: once the backup's index maps the file to its
/// backup file and `update_indexer` has written it, opening the directory on
/// that text gives an index whose restore copy for the file comes from the
/// backup file that the backup's copy wrote.
pub proof fn lemma_restore_finds_backup(
    backed: BackupInfo,
    written: Result<FileWrite, Error>,
    reread: Result<BackupInfo, Error>,
    pending: PendingBackup,
)
    requires
        backed.indexs@.contains_key(pending.original@),
        backed.indexs@[pending.original@] == pending.backup_file_name,
        pending.copy.to@ == joined_path(backed.backup_dir@, pending.backup_file_name@),
        update_indexer_post(backed, written),
        written matches Ok(w) && open_for_stage_post(backed.backup_dir@, Ok(w.contents), reread),
    ensures
        reread matches Ok(r) && r.indexs@.contains_key(pending.original@) && joined_path(
            r.backup_dir@,
            r.indexs@[pending.original@]@,
        ) == pending.copy.to@,
{
    let f = pending.original@;
    let r = reread->Ok_0;
    assert(index_view(r.indexs@) == index_view(backed.indexs@));
    assert(index_view(backed.indexs@).contains_key(f));
    assert(index_view(r.indexs@).contains_key(f));
    assert(index_view(r.indexs@)[f] == r.indexs@[f]@);
}

} // verus!
