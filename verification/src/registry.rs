//! The scan registry: one record per scan identifier, and the operations
//! that create a record, append to its log, end it, and read it.
//!
//! Each operation is one step on the whole registry. A caller that shares a
//! registry between threads holds a lock for the length of one operation.

use crate::progress::{
    format_log_line, log_line, update_views, updates_of, updates_since,
};
use crate::types::{
    copy_lines, texts, threat_views, FileInfo, FileInfoView, ProgressUpdate, ScanResult,
    ScanResultView, ScanStats, ScanStatus, Threat, ThreatView,
};
use crate::verdict::{lemma_counts_add_up, tally, tally_threats, verdict, verdict_of};
use vstd::hash_map::StringHashMap;
use vstd::prelude::*;

verus! {

/// The statistics of a record agree with its findings, and a verdict agrees
/// with the statistics.
pub open spec fn consistent(record: ScanResultView) -> bool {
    &&& record.threats.len() <= usize::MAX
    &&& record.stats == tally(record.threats)
    &&& (record.status == ScanStatus::Safe || record.status == ScanStatus::Suspicious
        || record.status == ScanStatus::Unsafe) ==> record.status == verdict_of(record.stats)
}

/// The record of a scan that was just submitted: still scanning, with an
/// empty log and without findings.
pub open spec fn initial_record(file_info: FileInfoView) -> ScanResultView {
    ScanResultView {
        status: ScanStatus::Scanning,
        threats: seq![],
        stats: ScanStats { threats_found: 0, malicious: 0, suspicious: 0, neutral: 0 },
        logs: seq![],
        file_info: Some(file_info),
    }
}

/// The record with one more line at the end of its log.
pub open spec fn with_line(record: ScanResultView, line: Seq<char>) -> ScanResultView {
    ScanResultView { logs: record.logs.push(line), ..record }
}

/// The record of a scan that failed: its status is the error status, and the
/// line that describes the failure ends its log.
pub open spec fn with_failure(record: ScanResultView, line: Seq<char>) -> ScanResultView {
    ScanResultView { status: ScanStatus::Error, logs: record.logs.push(line), ..record }
}

/// The record of a scan that ended with the given findings: the statistics
/// and the verdict are those of the findings, and the log is the one given.
pub open spec fn final_record(
    threats: Seq<ThreatView>,
    logs: Seq<Seq<char>>,
    file_info: FileInfoView,
) -> ScanResultView {
    ScanResultView {
        status: verdict_of(tally(threats)),
        threats,
        stats: tally(threats),
        logs,
        file_info: Some(file_info),
    }
}

/// The registry after a record was created: a new identifier gets the
/// initial record, and a known identifier keeps the record it has.
pub open spec fn created(
    records: Map<Seq<char>, ScanResultView>,
    id: Seq<char>,
    file_info: FileInfoView,
) -> Map<Seq<char>, ScanResultView> {
    if records.contains_key(id) {
        records
    } else {
        records.insert(id, initial_record(file_info))
    }
}

/// The registry after a line was appended to the log of `id`. Nothing
/// changes where `id` is unknown.
pub open spec fn appended(
    records: Map<Seq<char>, ScanResultView>,
    id: Seq<char>,
    line: Seq<char>,
) -> Map<Seq<char>, ScanResultView> {
    if records.contains_key(id) {
        records.insert(id, with_line(records[id], line))
    } else {
        records
    }
}

/// The registry after the scan `id` failed. Nothing changes where `id` is
/// unknown.
pub open spec fn failed(
    records: Map<Seq<char>, ScanResultView>,
    id: Seq<char>,
    line: Seq<char>,
) -> Map<Seq<char>, ScanResultView> {
    if records.contains_key(id) {
        records.insert(id, with_failure(records[id], line))
    } else {
        records
    }
}

/// The registry after the scan `id` ended with the given findings. The log
/// that the record has gathered stays; an unknown `id` gets a record with an
/// empty log.
pub open spec fn finalized(
    records: Map<Seq<char>, ScanResultView>,
    id: Seq<char>,
    threats: Seq<ThreatView>,
    file_info: FileInfoView,
) -> Map<Seq<char>, ScanResultView> {
    let logs = if records.contains_key(id) {
        records[id].logs
    } else {
        seq![]
    };
    records.insert(id, final_record(threats, logs, file_info))
}

/// The record of `id` is in the registry, and its log begins with `log`.
pub open spec fn extends(
    records: Map<Seq<char>, ScanResultView>,
    id: Seq<char>,
    log: Seq<Seq<char>>,
) -> bool {
    &&& records.contains_key(id)
    &&& log.len() <= records[id].logs.len()
    &&& records[id].logs.subrange(0, log.len() as int) == log
}

/// What a reader of the progress log gets in one poll.
#[derive(Debug, PartialEq, Eq)]
pub struct ProgressBatch {
    /// The entries behind the reader's cursor, oldest first.
    pub updates: Vec<ProgressUpdate>,
    /// The cursor for the next poll: the number of entries read so far.
    pub cursor: usize,
    /// The scan has ended: no entry will follow these.
    pub finished: bool,
}

/// The index from which a reader with the given cursor reads a log.
pub open spec fn read_from(cursor: usize, logs: Seq<Seq<char>>) -> int {
    if cursor <= logs.len() {
        cursor as int
    } else {
        logs.len() as int
    }
}

/// The registry of scans.
pub struct ScanStore {
    records: StringHashMap<ScanResult>,
}

impl View for ScanStore {
    type V = Map<Seq<char>, ScanResultView>;

    closed spec fn view(&self) -> Map<Seq<char>, ScanResultView> {
        Map::new(
            |id: Seq<char>| self.records@.contains_key(id),
            |id: Seq<char>| self.records@[id]@,
        )
    }
}

impl ScanStore {
    #[verifier::type_invariant]
    spec fn all_consistent(self) -> bool {
        forall|id: Seq<char>| #[trigger]
            self.records@.contains_key(id) ==> consistent(self.records@[id]@)
    }

    /// An empty registry.
    pub fn new() -> (store: Self)
        ensures
            store@ == Map::<Seq<char>, ScanResultView>::empty(),
    {
        let store = ScanStore { records: StringHashMap::new() };
        assert(store@ =~= Map::<Seq<char>, ScanResultView>::empty());
        store
    }

    /// Tells whether a record stands under `scan_id`.
    pub fn contains(&self, scan_id: &str) -> (r: bool)
        ensures
            r == self@.contains_key(scan_id@),
    {
        self.records.contains_key(scan_id)
    }

    /// Creates the record of a new scan: still scanning, with an empty log
    /// and without findings. An identifier that is in use is refused: the
    /// registry stays as it is, and the answer is `false`.
    pub fn create(&mut self, scan_id: &str, file_info: FileInfo) -> (fresh: bool)
        ensures
            fresh == !old(self)@.contains_key(scan_id@),
            final(self)@ == created(old(self)@, scan_id@, file_info@),
    {
        if self.records.contains_key(scan_id) {
            return false;
        }
        let record = ScanResult {
            status: ScanStatus::Scanning,
            threats: Vec::new(),
            stats: ScanStats { threats_found: 0, malicious: 0, suspicious: 0, neutral: 0 },
            logs: Vec::new(),
            file_info: Some(file_info),
        };
        proof {
            assert(record@.threats =~= seq![]);
            assert(record@.logs =~= seq![]);
            assert(record@ == initial_record(file_info@));
        }
        self.store(scan_id, record);
        true
    }

    /// Appends a line to the log of `scan_id`. Nothing happens where no
    /// record stands under `scan_id`.
    pub fn append_line(&mut self, scan_id: &str, line: String)
        ensures
            final(self)@ == appended(old(self)@, scan_id@, line@),
    {
        let found = match self.records.get(scan_id) {
            Some(record) => Some(record.clone()),
            None => None,
        };
        match found {
            Some(mut record) => {
                proof {
                    use_type_invariant(&*self);
                }
                let ghost before = record@;
                record.logs.push(line);
                assert(record@.logs =~= before.logs.push(line@));
                self.store(scan_id, record);
            },
            None => {},
        }
    }

    /// Ends the scan `scan_id` as failed, with a line for its log. Nothing
    /// happens where no record stands under `scan_id`.
    pub fn fail(&mut self, scan_id: &str, line: String)
        ensures
            final(self)@ == failed(old(self)@, scan_id@, line@),
    {
        let found = match self.records.get(scan_id) {
            Some(record) => Some(record.clone()),
            None => None,
        };
        match found {
            Some(mut record) => {
                proof {
                    use_type_invariant(&*self);
                }
                let ghost before = record@;
                record.status = ScanStatus::Error;
                record.logs.push(line);
                assert(record@.logs =~= before.logs.push(line@));
                self.store(scan_id, record);
            },
            None => {},
        }
    }

    /// Ends the scan `scan_id` with its findings: one step sets the verdict,
    /// the findings and the statistics, and keeps the log.
    pub fn finalize(&mut self, scan_id: &str, threats: Vec<Threat>, file_info: FileInfo)
        ensures
            final(self)@ == finalized(old(self)@, scan_id@, threat_views(threats@), file_info@),
    {
        let logs: Vec<String> = match self.records.get(scan_id) {
            Some(record) => copy_lines(&record.logs),
            None => Vec::new(),
        };
        let stats = tally_threats(&threats);
        let status = verdict(&stats);
        assert(texts(logs@) =~= if old(self)@.contains_key(scan_id@) {
            old(self)@[scan_id@].logs
        } else {
            seq![]
        });
        let record = ScanResult { status, threats, stats, logs, file_info: Some(file_info) };
        self.store(scan_id, record);
    }

    /// The record of `scan_id` as it stands, or nothing where the identifier
    /// is unknown. The record is consistent whatever its status.
    pub fn get(&self, scan_id: &str) -> (r: Option<ScanResult>)
        ensures
            match r {
                Some(record) => self@.contains_key(scan_id@) && record@ == self@[scan_id@]
                    && consistent(record@),
                None => !self@.contains_key(scan_id@),
            },
    {
        proof {
            use_type_invariant(self);
        }
        match self.records.get(scan_id) {
            Some(record) => Some(record.clone()),
            None => None,
        }
    }

    /// The log entries of `scan_id` behind a reader's cursor, or nothing where
    /// the identifier is unknown. The cursor that comes back is the length of
    /// the log, so the next poll goes on where this one ended.
    pub fn poll(&self, scan_id: &str, cursor: usize) -> (r: Option<ProgressBatch>)
        ensures
            match r {
                Some(batch) => {
                    let record = self@[scan_id@];
                    &&& self@.contains_key(scan_id@)
                    &&& record.logs.len() <= usize::MAX
                    &&& update_views(batch.updates@) == updates_of(
                        record.logs.subrange(
                            read_from(cursor, record.logs),
                            record.logs.len() as int,
                        ),
                    )
                    &&& batch.updates@.len() == record.logs.len() - read_from(cursor, record.logs)
                    &&& batch.cursor == if cursor <= record.logs.len() {
                        record.logs.len() as usize
                    } else {
                        cursor
                    }
                    &&& batch.finished == record.status.terminal()
                },
                None => !self@.contains_key(scan_id@),
            },
    {
        match self.records.get(scan_id) {
            Some(record) => {
                let updates = updates_since(&record.logs, cursor);
                let n: usize = record.logs.len();
                let next: usize = if cursor <= n {
                    n
                } else {
                    cursor
                };
                proof {
                    let lines = texts(record.logs@);
                    let start = read_from(cursor, lines);
                    assert(lines.len() == n);
                    assert(record@.logs == lines);
                    assert(updates_of(lines.subrange(start, n as int)).len() == n - start);
                    assert(update_views(updates@).len() == updates@.len());
                }
                Some(ProgressBatch { updates, cursor: next, finished: record.status.is_terminal() })
            },
            None => None,
        }
    }

    fn store(&mut self, scan_id: &str, record: ScanResult)
        requires
            consistent(record@),
        ensures
            final(self)@ == old(self)@.insert(scan_id@, record@),
    {
        proof {
            use_type_invariant(&*self);
        }
        let mut taken = ScanStore { records: StringHashMap::new() };
        core::mem::swap(self, &mut taken);
        let mut records = taken.records;
        records.insert(scan_id.to_owned(), record);
        *self = ScanStore { records };
        assert(self@ =~= old(self)@.insert(scan_id@, record@));
    }
}

/// Whatever is done to a registry, every record in it is consistent: in
/// particular no reader sees a verdict with statistics that disagree with the
/// findings.
pub proof fn lemma_operations_keep_consistency(
    records: Map<Seq<char>, ScanResultView>,
    id: Seq<char>,
    line: Seq<char>,
    threats: Seq<ThreatView>,
    file_info: FileInfoView,
)
    requires
        forall|k: Seq<char>| #[trigger] records.contains_key(k) ==> consistent(records[k]),
        threats.len() <= usize::MAX,
    ensures
        forall|k: Seq<char>| #[trigger]
            created(records, id, file_info).contains_key(k) ==> consistent(
                created(records, id, file_info)[k],
            ),
        forall|k: Seq<char>| #[trigger]
            appended(records, id, line).contains_key(k) ==> consistent(
                appended(records, id, line)[k],
            ),
        forall|k: Seq<char>| #[trigger]
            failed(records, id, line).contains_key(k) ==> consistent(failed(records, id, line)[k]),
        forall|k: Seq<char>| #[trigger]
            finalized(records, id, threats, file_info).contains_key(k) ==> consistent(
                finalized(records, id, threats, file_info)[k],
            ),
{
    lemma_counts_add_up(seq![]);
    assert(consistent(initial_record(file_info))) by {
        assert(tally(seq![]) == (ScanStats {
            threats_found: 0,
            malicious: 0,
            suspicious: 0,
            neutral: 0,
        }));
    }
    if records.contains_key(id) {
        assert(consistent(records[id]));
    }
}

/// No operation takes a line out of a log or changes one: the log of a record
/// before an operation is the beginning of its log after it.
pub proof fn lemma_operations_keep_log(
    records: Map<Seq<char>, ScanResultView>,
    id: Seq<char>,
    other: Seq<char>,
    line: Seq<char>,
    threats: Seq<ThreatView>,
    file_info: FileInfoView,
)
    requires
        records.contains_key(id),
    ensures
        extends(created(records, other, file_info), id, records[id].logs),
        extends(appended(records, other, line), id, records[id].logs),
        extends(failed(records, other, line), id, records[id].logs),
        extends(finalized(records, other, threats, file_info), id, records[id].logs),
{
    let before = records[id].logs;
    assert(before.subrange(0, before.len() as int) =~= before);
    assert(before.push(line).subrange(0, before.len() as int) =~= before);
}

/// A scan that was submitted under a new identifier is in the registry,
/// still scanning, with an empty log and without findings, and no other
/// record has changed.
pub proof fn lemma_submitted_scan_is_scanning(
    records: Map<Seq<char>, ScanResultView>,
    id: Seq<char>,
    file_info: FileInfoView,
)
    requires
        !records.contains_key(id),
    ensures
        created(records, id, file_info).contains_key(id),
        created(records, id, file_info)[id].status == ScanStatus::Scanning,
        created(records, id, file_info)[id].logs.len() == 0,
        created(records, id, file_info)[id].threats.len() == 0,
        created(records, id, file_info)[id].file_info == Some(file_info),
        forall|other: Seq<char>| #[trigger]
            records.contains_key(other) ==> created(records, id, file_info)[other]
                == records[other],
{
}

/// Appends a progress entry to the log of `scan_id`: the line for `progress`
/// percent and `message`. Nothing happens where no record stands under
/// `scan_id`.
pub fn send_progress(scan_id: &str, progress: u32, message: &str, scan_store: &mut ScanStore)
    ensures
        final(scan_store)@ == appended(old(scan_store)@, scan_id@, log_line(progress, message@)),
{
    scan_store.append_line(scan_id, format_log_line(progress, message));
}

} // verus!
