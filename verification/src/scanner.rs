//! The scan job: the stages of one scan, as steps between what the job waits
//! for. A step takes what has happened, writes to the registry, and says what
//! is to be done next. Whoever runs the job reads the file, waits and removes
//! the file; the job decides.
//!
//! A job gives its record a terminal status only in the step that takes the
//! report of the file's removal: whoever reads a terminal status reads it
//! after the file is gone.

use crate::indicators::{check_indicators, indicators};
use crate::progress::{lemma_log_line_round_trip, log_line, update_of};
use crate::registry::{
    appended, failed, final_record, finalized, initial_record, send_progress, ScanStore,
};
use crate::text::{decode_lossy, utf8_lossy};
use crate::types::{
    copy_threats, threat_views, FileInfo, FileInfoView, ScanResultView, ScanStatus, Threat,
    ThreatView,
};
use crate::verdict::{lemma_tally_adds_up, verdict_of};
use vstd::prelude::*;
use vstd::string::StringExecFns;
use vstd::utf8::encode_utf8;

verus! {

/// How long a job settles before it reports completion, in milliseconds.
pub const SETTLE_MILLIS: u64 = 1000;

/// What a scan job waits for.
#[derive(Clone, Copy, Debug, PartialEq, Eq, Structural)]
pub enum ScanPhase {
    /// The content of the file.
    Reading,
    /// The end of the settle delay.
    Settling,
    /// The removal of the file, before the scan ends with a verdict.
    Cleaning,
    /// The removal of the file, before the scan ends as failed.
    Aborting,
    /// Nothing: the job is over.
    Done,
}

/// What has happened since the last step of a job.
#[derive(Debug, PartialEq, Eq)]
pub enum ScanEvent {
    /// The file was read: its content.
    FileRead(Vec<u8>),
    /// The file could not be read: the reason.
    ReadFailed(String),
    /// The settle delay is over.
    Settled,
    /// The file is gone.
    FileRemoved,
}

/// An event, with its content as a sequence.
pub enum ScanEventView {
    FileRead(Seq<u8>),
    ReadFailed(Seq<char>),
    Settled,
    FileRemoved,
}

impl View for ScanEvent {
    type V = ScanEventView;

    open spec fn view(&self) -> ScanEventView {
        match self {
            ScanEvent::FileRead(content) => ScanEventView::FileRead(content@),
            ScanEvent::ReadFailed(reason) => ScanEventView::ReadFailed(reason@),
            ScanEvent::Settled => ScanEventView::Settled,
            ScanEvent::FileRemoved => ScanEventView::FileRemoved,
        }
    }
}

/// What is to be done for a job before its next step.
#[derive(Clone, Copy, Debug, PartialEq, Eq, Structural)]
pub enum ScanAction {
    /// Read the file, and report its content or the failure.
    ReadFile,
    /// Wait for the given number of milliseconds.
    Settle(u64),
    /// Remove the file, and report that it is gone; a file that was gone
    /// already counts as removed.
    RemoveFile,
    /// Nothing: the job is over.
    Finish,
}

/// One scan in progress.
#[derive(Debug, PartialEq, Eq)]
pub struct ScanJob {
    pub scan_id: String,
    pub file_info: FileInfo,
    pub phase: ScanPhase,
    /// The findings: empty until the content was examined.
    pub threats: Vec<Threat>,
    /// Why the file could not be read: nothing until a read has failed.
    pub failure: Option<String>,
}

/// A job, with its texts and lists as sequences.
pub struct ScanJobView {
    pub scan_id: Seq<char>,
    pub file_info: FileInfoView,
    pub phase: ScanPhase,
    pub threats: Seq<ThreatView>,
    pub failure: Option<Seq<char>>,
}

/// The view of a reason that may be absent.
pub open spec fn failure_view(failure: Option<String>) -> Option<Seq<char>> {
    match failure {
        Some(reason) => Some(reason@),
        None => None,
    }
}

/// The reason that a job has kept, and the empty text where it has none.
pub open spec fn reason_of(failure: Option<Seq<char>>) -> Seq<char> {
    match failure {
        Some(reason) => reason,
        None => Seq::<char>::empty(),
    }
}

impl View for ScanJob {
    type V = ScanJobView;

    open spec fn view(&self) -> ScanJobView {
        ScanJobView {
            scan_id: self.scan_id@,
            file_info: self.file_info@,
            phase: self.phase,
            threats: threat_views(self.threats@),
            failure: failure_view(self.failure),
        }
    }
}

/// The message of the entry at 10 percent.
pub open spec fn reading_message() -> Seq<char> {
    "Reading file content..."@
}

/// The message of the entry at 30 percent.
pub open spec fn headers_message() -> Seq<char> {
    "Scanning file headers..."@
}

/// The message of the entry at 50 percent, which only an executable gets.
pub open spec fn executable_message() -> Seq<char> {
    "PE executable detected, analyzing..."@
}

/// The message of the entry at 60 percent.
pub open spec fn analysis_message() -> Seq<char> {
    "Performing signature analysis..."@
}

/// The message of the entry at 90 percent.
pub open spec fn finalizing_message() -> Seq<char> {
    "Finalizing results..."@
}

/// The message of the entry at 100 percent.
pub open spec fn complete_message() -> Seq<char> {
    "Scan complete!"@
}

/// The log line for a file that could not be read.
pub open spec fn failure_line(reason: Seq<char>) -> Seq<char> {
    "Error reading file: "@ + reason
}

/// The content starts with the two bytes that mark an executable.
pub open spec fn is_executable(content: Seq<u8>) -> bool {
    content.len() >= 2 && content[0] == 0x4du8 && content[1] == 0x5au8
}

/// The findings for the content of a file: those of the indicators in its
/// text, decoded lossily.
pub open spec fn findings(content: Seq<u8>) -> Seq<ThreatView> {
    indicators(encode_utf8(utf8_lossy(content)))
}

/// What a phase waits for, as the action that brings it.
pub open spec fn awaited(phase: ScanPhase) -> ScanAction {
    match phase {
        ScanPhase::Reading => ScanAction::ReadFile,
        ScanPhase::Settling => ScanAction::Settle(SETTLE_MILLIS),
        ScanPhase::Cleaning => ScanAction::RemoveFile,
        ScanPhase::Aborting => ScanAction::RemoveFile,
        ScanPhase::Done => ScanAction::Finish,
    }
}

/// The registry after a job has begun: the entry at 10 percent is logged.
pub open spec fn begun(
    records: Map<Seq<char>, ScanResultView>,
    id: Seq<char>,
) -> Map<Seq<char>, ScanResultView> {
    appended(records, id, log_line(10, reading_message()))
}

/// The registry after the content of a file was examined: the entries at 30,
/// 60 and 90 percent are logged, and for an executable the entry at 50.
pub open spec fn examined(
    records: Map<Seq<char>, ScanResultView>,
    id: Seq<char>,
    content: Seq<u8>,
) -> Map<Seq<char>, ScanResultView> {
    let at_30 = appended(records, id, log_line(30, headers_message()));
    let at_50 = if is_executable(content) {
        appended(at_30, id, log_line(50, executable_message()))
    } else {
        at_30
    };
    let at_60 = appended(at_50, id, log_line(60, analysis_message()));
    appended(at_60, id, log_line(90, finalizing_message()))
}

/// The registry after a job has settled: the entry at 100 percent is logged.
pub open spec fn settled(
    records: Map<Seq<char>, ScanResultView>,
    id: Seq<char>,
) -> Map<Seq<char>, ScanResultView> {
    appended(records, id, log_line(100, complete_message()))
}

/// The registry after a job has completed: the record has the job's
/// findings, their statistics and their verdict.
pub open spec fn completed(
    records: Map<Seq<char>, ScanResultView>,
    job: ScanJobView,
) -> Map<Seq<char>, ScanResultView> {
    finalized(records, job.scan_id, job.threats, job.file_info)
}

/// The registry after a job has given up: the record has the error status,
/// and the line with the job's reason ends its log.
pub open spec fn aborted(
    records: Map<Seq<char>, ScanResultView>,
    job: ScanJobView,
) -> Map<Seq<char>, ScanResultView> {
    failed(records, job.scan_id, failure_line(reason_of(job.failure)))
}

/// The phase that an event moves a job to. An event that the job does not
/// wait for leaves it where it is.
pub open spec fn next_phase(phase: ScanPhase, event: ScanEventView) -> ScanPhase {
    match (phase, event) {
        (ScanPhase::Reading, ScanEventView::FileRead(_)) => ScanPhase::Settling,
        (ScanPhase::Reading, ScanEventView::ReadFailed(_)) => ScanPhase::Aborting,
        (ScanPhase::Settling, ScanEventView::Settled) => ScanPhase::Cleaning,
        (ScanPhase::Cleaning, ScanEventView::FileRemoved) => ScanPhase::Done,
        (ScanPhase::Aborting, ScanEventView::FileRemoved) => ScanPhase::Done,
        _ => phase,
    }
}

/// The job after a step: in its next phase, with the findings once the
/// content was examined, and with the reason once a read has failed.
pub open spec fn next_job(job: ScanJobView, event: ScanEventView) -> ScanJobView {
    ScanJobView {
        phase: next_phase(job.phase, event),
        threats: match (job.phase, event) {
            (ScanPhase::Reading, ScanEventView::FileRead(content)) => findings(content),
            _ => job.threats,
        },
        failure: match (job.phase, event) {
            (ScanPhase::Reading, ScanEventView::ReadFailed(reason)) => Some(reason),
            _ => job.failure,
        },
        ..job
    }
}

/// The registry after a step. A step that examines content logs the stages,
/// and the end of the settle delay logs completion. The report that the file
/// is gone ends the scan: with its verdict where the job was cleaning up, as
/// failed where the job was giving up. No other step writes to the registry.
pub open spec fn next_records(
    job: ScanJobView,
    event: ScanEventView,
    records: Map<Seq<char>, ScanResultView>,
) -> Map<Seq<char>, ScanResultView> {
    match (job.phase, event) {
        (ScanPhase::Reading, ScanEventView::FileRead(content)) => examined(
            records,
            job.scan_id,
            content,
        ),
        (ScanPhase::Settling, ScanEventView::Settled) => settled(records, job.scan_id),
        (ScanPhase::Cleaning, ScanEventView::FileRemoved) => completed(records, job),
        (ScanPhase::Aborting, ScanEventView::FileRemoved) => aborted(records, job),
        _ => records,
    }
}

/// The percentage that a reader takes from a line of a log.
#[verifier::opaque]
pub open spec fn line_percent(line: Seq<char>) -> u32 {
    update_of(line).progress
}

/// The percentages that a reader takes from the lines of a log.
pub open spec fn percents(logs: Seq<Seq<char>>) -> Seq<u32> {
    logs.map_values(|line: Seq<char>| line_percent(line))
}

/// No number in the sequence is less than one before it.
pub open spec fn non_decreasing(numbers: Seq<u32>) -> bool {
    forall|i: int, j: int| 0 <= i <= j < numbers.len() ==> numbers[i] <= numbers[j]
}

/// The registry after a scan of `content` that ran from submission to
/// completion with no other writer on its record.
pub open spec fn after_normal_scan(
    records: Map<Seq<char>, ScanResultView>,
    job: ScanJobView,
    content: Seq<u8>,
) -> Map<Seq<char>, ScanResultView> {
    let read = ScanEventView::FileRead(content);
    let examined = next_records(job, read, begun(records, job.scan_id));
    let reading = next_job(job, read);
    let settled = next_records(reading, ScanEventView::Settled, examined);
    let cleaning = next_job(reading, ScanEventView::Settled);
    next_records(cleaning, ScanEventView::FileRemoved, settled)
}

/// The registry after a scan whose file could not be read, with no other
/// writer on its record.
pub open spec fn after_failed_scan(
    records: Map<Seq<char>, ScanResultView>,
    job: ScanJobView,
    reason: Seq<char>,
) -> Map<Seq<char>, ScanResultView> {
    let failed = ScanEventView::ReadFailed(reason);
    let waiting = next_records(job, failed, begun(records, job.scan_id));
    next_records(next_job(job, failed), ScanEventView::FileRemoved, waiting)
}

/// The log of a scan of `content` that ran from submission to completion.
pub open spec fn normal_log(content: Seq<u8>) -> Seq<Seq<char>> {
    let head = seq![log_line(10, reading_message()), log_line(30, headers_message())];
    let tail = seq![
        log_line(60, analysis_message()),
        log_line(90, finalizing_message()),
        log_line(100, complete_message()),
    ];
    if is_executable(content) {
        head + seq![log_line(50, executable_message())] + tail
    } else {
        head + tail
    }
}

/// A reader takes from the line of an entry the percentage of the entry.
pub proof fn lemma_line_percent(progress: u32, message: Seq<char>)
    ensures
        line_percent(log_line(progress, message)) == progress,
{
    reveal(line_percent);
    lemma_log_line_round_trip(progress, message);
}

/// The percentages of a normal log never fall, and end at exactly 100.
pub proof fn lemma_normal_log_percents(content: Seq<u8>)
    ensures
        non_decreasing(percents(normal_log(content))),
        percents(normal_log(content)).len() > 0,
        percents(normal_log(content)).last() == 100,
{
    lemma_line_percent(10, reading_message());
    lemma_line_percent(30, headers_message());
    lemma_line_percent(50, executable_message());
    lemma_line_percent(60, analysis_message());
    lemma_line_percent(90, finalizing_message());
    lemma_line_percent(100, complete_message());
    if is_executable(content) {
        assert(percents(normal_log(content)) =~= seq![
            10u32,
            30u32,
            50u32,
            60u32,
            90u32,
            100u32,
        ]);
    } else {
        assert(percents(normal_log(content)) =~= seq![10u32, 30u32, 60u32, 90u32, 100u32]);
    }
}

/// The record that a normal scan leaves has the normal log.
pub proof fn lemma_normal_scan_log(
    records: Map<Seq<char>, ScanResultView>,
    job: ScanJobView,
    content: Seq<u8>,
)
    requires
        job.phase == ScanPhase::Reading,
        records.contains_key(job.scan_id),
        records[job.scan_id] == initial_record(job.file_info),
    ensures
        after_normal_scan(records, job, content).contains_key(job.scan_id),
        after_normal_scan(records, job, content)[job.scan_id] == final_record(
            findings(content),
            normal_log(content),
            job.file_info,
        ),
{
    let id = job.scan_id;
    let r1 = begun(records, id);
    assert(r1[id].logs =~= seq![log_line(10, reading_message())]);
    let r2 = examined(r1, id, content);
    let r3 = settled(r2, id);
    assert(r3[id].logs =~= normal_log(content));
}

/// A scan that completes normally leaves a record whose log percentages never
/// fall and end at exactly 100, whose status is the verdict of its statistics,
/// and whose statistics add up to the number of its findings. The job is over
/// then.
pub proof fn lemma_normal_scan(
    records: Map<Seq<char>, ScanResultView>,
    job: ScanJobView,
    content: Seq<u8>,
)
    requires
        job.phase == ScanPhase::Reading,
        records.contains_key(job.scan_id),
        records[job.scan_id] == initial_record(job.file_info),
    ensures
        ({
            let after = after_normal_scan(records, job, content);
            let record = after[job.scan_id];
            &&& after.contains_key(job.scan_id)
            &&& next_phase(
                next_phase(
                    next_phase(job.phase, ScanEventView::FileRead(content)),
                    ScanEventView::Settled,
                ),
                ScanEventView::FileRemoved,
            ) == ScanPhase::Done
            &&& non_decreasing(percents(record.logs))
            &&& percents(record.logs).len() > 0
            &&& percents(record.logs).last() == 100
            &&& record.status.terminal()
            &&& record.status == verdict_of(record.stats)
            &&& record.threats == findings(content)
            &&& record.stats.threats_found == record.threats.len()
            &&& record.stats.malicious + record.stats.suspicious + record.stats.neutral
                == record.stats.threats_found
        }),
{
    lemma_normal_scan_log(records, job, content);
    lemma_normal_log_percents(content);
    assert(findings(content).len() <= 3);
    lemma_tally_adds_up(findings(content));
}

/// A record gets its terminal status after the file is gone. The one step
/// that takes the record of a job from scanning to a terminal status is the
/// step that takes the report of the removal, and the job had asked for the
/// removal before; that step ends the job.
pub proof fn lemma_terminal_status_follows_removal(
    job: ScanJobView,
    event: ScanEventView,
    records: Map<Seq<char>, ScanResultView>,
)
    requires
        records.contains_key(job.scan_id),
        records[job.scan_id].status == ScanStatus::Scanning,
    ensures
        next_records(job, event, records).contains_key(job.scan_id),
        next_records(job, event, records)[job.scan_id].status.terminal() ==> {
            &&& event == ScanEventView::FileRemoved
            &&& awaited(job.phase) == ScanAction::RemoveFile
            &&& next_phase(job.phase, event) == ScanPhase::Done
        },
{
}

/// The step that takes the report of the removal ends the scan: while a
/// job waits for the removal, that report leaves its record terminal and the
/// job over, so no record in the registry stays scanning once the file is
/// gone.
pub proof fn lemma_removal_ends_scan(job: ScanJobView, records: Map<Seq<char>, ScanResultView>)
    requires
        awaited(job.phase) == ScanAction::RemoveFile,
        records.contains_key(job.scan_id),
    ensures
        next_records(job, ScanEventView::FileRemoved, records).contains_key(job.scan_id),
        next_records(job, ScanEventView::FileRemoved, records)[job.scan_id].status.terminal(),
        next_phase(job.phase, ScanEventView::FileRemoved) == ScanPhase::Done,
{
}

/// A file that cannot be read ends the scan as failed, with the reason at the
/// end of the log: no record of a job that read in vain stays scanning.
pub proof fn lemma_failed_read_ends_scan(
    records: Map<Seq<char>, ScanResultView>,
    job: ScanJobView,
    reason: Seq<char>,
)
    requires
        job.phase == ScanPhase::Reading,
        records.contains_key(job.scan_id),
    ensures
        ({
            let after = after_failed_scan(records, job, reason);
            &&& after.contains_key(job.scan_id)
            &&& after[job.scan_id].status == ScanStatus::Error
            &&& after[job.scan_id].logs == records[job.scan_id].logs.push(
                log_line(10, reading_message()),
            ).push(failure_line(reason))
            &&& after[job.scan_id].threats == records[job.scan_id].threats
            &&& next_phase(
                next_phase(job.phase, ScanEventView::ReadFailed(reason)),
                ScanEventView::FileRemoved,
            ) == ScanPhase::Done
        }),
{
}

/// A job that is over leaves the registry alone: the result of an ended scan
/// reads the same however often it is asked for.
pub proof fn lemma_finished_job_is_silent(
    job: ScanJobView,
    event: ScanEventView,
    records: Map<Seq<char>, ScanResultView>,
)
    requires
        job.phase == ScanPhase::Done,
    ensures
        next_records(job, event, records) == records,
        next_job(job, event) == job,
{
}

/// No step takes a line out of a log or changes one: the log before a step is
/// the beginning of the log after it, so a reader that has read `k` entries
/// goes on at index `k`.
pub proof fn lemma_step_keeps_log(
    job: ScanJobView,
    event: ScanEventView,
    records: Map<Seq<char>, ScanResultView>,
    id: Seq<char>,
)
    requires
        records.contains_key(id),
    ensures
        ({
            let before = records[id].logs;
            let after = next_records(job, event, records);
            &&& after.contains_key(id)
            &&& before.len() <= after[id].logs.len()
            &&& after[id].logs.subrange(0, before.len() as int) == before
        }),
{
    let before = records[id].logs;
    let after = next_records(job, event, records);
    assert(after.contains_key(id));
    assert(after[id].logs.subrange(0, before.len() as int) =~= before);
}

/// Begins the scan of a submitted file: logs the entry at 10 percent. The job
/// waits for the content of the file.
pub fn begin_scan(scan_id: String, file_info: FileInfo, scan_store: &mut ScanStore) -> (job:
    ScanJob)
    ensures
        job@ == (ScanJobView {
            scan_id: scan_id@,
            file_info: file_info@,
            phase: ScanPhase::Reading,
            threats: seq![],
            failure: None,
        }),
        final(scan_store)@ == begun(old(scan_store)@, scan_id@),
{
    send_progress(scan_id.as_str(), 10, "Reading file content...", scan_store);
    let job = ScanJob {
        scan_id,
        file_info,
        phase: ScanPhase::Reading,
        threats: Vec::new(),
        failure: None,
    };
    assert(job@.threats =~= seq![]);
    job
}

/// The action that brings what the job waits for.
pub fn awaited_action(job: &ScanJob) -> (action: ScanAction)
    ensures
        action == awaited(job.phase),
{
    match job.phase {
        ScanPhase::Reading => ScanAction::ReadFile,
        ScanPhase::Settling => ScanAction::Settle(SETTLE_MILLIS),
        ScanPhase::Cleaning => ScanAction::RemoveFile,
        ScanPhase::Aborting => ScanAction::RemoveFile,
        ScanPhase::Done => ScanAction::Finish,
    }
}

/// Tells whether the content starts with the mark of an executable.
pub fn has_executable_mark(content: &[u8]) -> (r: bool)
    ensures
        r == is_executable(content@),
{
    content.len() >= 2 && content[0] == 0x4d && content[1] == 0x5a
}

/// Examines the content of a file: logs the stages, and looks for the
/// indicators in the text of the content.
pub fn examine(scan_id: &str, content: &[u8], scan_store: &mut ScanStore) -> (threats: Vec<Threat>)
    ensures
        threat_views(threats@) == findings(content@),
        final(scan_store)@ == examined(old(scan_store)@, scan_id@, content@),
{
    send_progress(scan_id, 30, "Scanning file headers...", scan_store);
    if has_executable_mark(content) {
        send_progress(scan_id, 50, "PE executable detected, analyzing...", scan_store);
    }
    send_progress(scan_id, 60, "Performing signature analysis...", scan_store);
    let text = decode_lossy(content);
    let threats = check_indicators(text.as_str());
    send_progress(scan_id, 90, "Finalizing results...", scan_store);
    threats
}

/// Takes one step of a scan job. The event is the outcome of the action that
/// the job waited for; an event that the job does not wait for changes
/// nothing. The answer is the job after the step and the action that brings
/// what it waits for next. The record of the job gets its terminal status in
/// the step that takes `FileRemoved`, and in no other.
pub fn scan_file(job: ScanJob, event: ScanEvent, scan_store: &mut ScanStore) -> (r: (
    ScanJob,
    ScanAction,
))
    ensures
        r.0@ == next_job(job@, event@),
        r.1 == awaited(next_phase(job.phase, event@)),
        final(scan_store)@ == next_records(job@, event@, old(scan_store)@),
{
    let ScanJob { scan_id, file_info, phase, threats, failure } = job;
    match (phase, event) {
        (ScanPhase::Reading, ScanEvent::FileRead(content)) => {
            let found = examine(scan_id.as_str(), content.as_slice(), scan_store);
            (
                ScanJob { scan_id, file_info, phase: ScanPhase::Settling, threats: found, failure },
                ScanAction::Settle(SETTLE_MILLIS),
            )
        },
        (ScanPhase::Reading, ScanEvent::ReadFailed(reason)) => (
            ScanJob {
                scan_id,
                file_info,
                phase: ScanPhase::Aborting,
                threats,
                failure: Some(reason),
            },
            ScanAction::RemoveFile,
        ),
        (ScanPhase::Settling, ScanEvent::Settled) => {
            send_progress(scan_id.as_str(), 100, "Scan complete!", scan_store);
            (
                ScanJob { scan_id, file_info, phase: ScanPhase::Cleaning, threats, failure },
                ScanAction::RemoveFile,
            )
        },
        (ScanPhase::Cleaning, ScanEvent::FileRemoved) => {
            let found = copy_threats(&threats);
            scan_store.finalize(scan_id.as_str(), found, file_info.clone());
            (
                ScanJob { scan_id, file_info, phase: ScanPhase::Done, threats, failure },
                ScanAction::Finish,
            )
        },
        (ScanPhase::Aborting, ScanEvent::FileRemoved) => {
            let mut line = "Error reading file: ".to_owned();
            match &failure {
                Some(reason) => {
                    line.append(reason.as_str());
                },
                None => {},
            }
            assert(line@ =~= failure_line(reason_of(failure_view(failure))));
            scan_store.fail(scan_id.as_str(), line);
            (
                ScanJob { scan_id, file_info, phase: ScanPhase::Done, threats, failure },
                ScanAction::Finish,
            )
        },
        (phase, _) => {
            let waiting = ScanJob { scan_id, file_info, phase, threats, failure };
            let action = awaited_action(&waiting);
            (waiting, action)
        },
    }
}

} // verus!
