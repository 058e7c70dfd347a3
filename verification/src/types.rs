//! The records that a scan produces, and their mathematical views.

use vstd::prelude::*;

verus! {

/// How serious a finding is.
#[derive(Clone, Copy, Debug, PartialEq, Eq, Structural)]
pub enum Severity {
    Malicious,
    Suspicious,
    Neutral,
}

impl Severity {
    /// The name under which a severity is reported.
    pub open spec fn name(self) -> Seq<char> {
        match self {
            Severity::Malicious => "malicious"@,
            Severity::Suspicious => "suspicious"@,
            Severity::Neutral => "neutral"@,
        }
    }

    /// The name under which this severity is reported.
    pub fn as_str(&self) -> (s: &'static str)
        ensures
            s@ == self.name(),
    {
        match self {
            Severity::Malicious => "malicious",
            Severity::Suspicious => "suspicious",
            Severity::Neutral => "neutral",
        }
    }
}

/// Where a scan stands. `Scanning` is the only status that is not terminal.
#[derive(Clone, Copy, Debug, PartialEq, Eq, Structural)]
pub enum ScanStatus {
    Scanning,
    Safe,
    Suspicious,
    Unsafe,
    Error,
}

impl ScanStatus {
    /// The name under which a status is reported.
    pub open spec fn name(self) -> Seq<char> {
        match self {
            ScanStatus::Scanning => "scanning"@,
            ScanStatus::Safe => "safe"@,
            ScanStatus::Suspicious => "suspicious"@,
            ScanStatus::Unsafe => "unsafe"@,
            ScanStatus::Error => "error"@,
        }
    }

    /// A scan with a terminal status has ended.
    pub open spec fn terminal(self) -> bool {
        self != ScanStatus::Scanning
    }

    /// The name under which this status is reported.
    pub fn as_str(&self) -> (s: &'static str)
        ensures
            s@ == self.name(),
    {
        match self {
            ScanStatus::Scanning => "scanning",
            ScanStatus::Safe => "safe",
            ScanStatus::Suspicious => "suspicious",
            ScanStatus::Unsafe => "unsafe",
            ScanStatus::Error => "error",
        }
    }

    /// Tells whether the scan has ended.
    pub fn is_terminal(&self) -> (r: bool)
        ensures
            r == self.terminal(),
    {
        match self {
            ScanStatus::Scanning => false,
            _ => true,
        }
    }
}

/// One finding of a detector.
#[derive(Debug, PartialEq, Eq)]
pub struct Threat {
    pub threat_type: String,
    pub details: String,
    pub severity: Severity,
    pub threat_id: String,
}

/// A finding, with its texts as sequences of characters.
pub struct ThreatView {
    pub threat_type: Seq<char>,
    pub details: Seq<char>,
    pub severity: Severity,
    pub threat_id: Seq<char>,
}

impl View for Threat {
    type V = ThreatView;

    open spec fn view(&self) -> ThreatView {
        ThreatView {
            threat_type: self.threat_type@,
            details: self.details@,
            severity: self.severity,
            threat_id: self.threat_id@,
        }
    }
}

impl Clone for Threat {
    fn clone(&self) -> (res: Self)
        ensures
            res@ == self@,
    {
        Threat {
            threat_type: self.threat_type.clone(),
            details: self.details.clone(),
            severity: self.severity,
            threat_id: self.threat_id.clone(),
        }
    }
}

/// How many findings a scan made, in all and by severity.
#[derive(Clone, Copy, Debug, PartialEq, Eq, Structural)]
pub struct ScanStats {
    pub threats_found: usize,
    pub malicious: usize,
    pub suspicious: usize,
    pub neutral: usize,
}

/// What is known of an uploaded file.
#[derive(Debug, PartialEq, Eq)]
pub struct FileInfo {
    pub filename: String,
    pub size: u64,
    pub sha256: String,
}

/// File information, with its texts as sequences of characters.
pub struct FileInfoView {
    pub filename: Seq<char>,
    pub size: u64,
    pub sha256: Seq<char>,
}

impl View for FileInfo {
    type V = FileInfoView;

    open spec fn view(&self) -> FileInfoView {
        FileInfoView { filename: self.filename@, size: self.size, sha256: self.sha256@ }
    }
}

impl Clone for FileInfo {
    fn clone(&self) -> (res: Self)
        ensures
            res@ == self@,
    {
        FileInfo {
            filename: self.filename.clone(),
            size: self.size,
            sha256: self.sha256.clone(),
        }
    }
}

/// The record of one scan.
#[derive(Debug, PartialEq, Eq)]
pub struct ScanResult {
    pub status: ScanStatus,
    pub threats: Vec<Threat>,
    pub stats: ScanStats,
    pub logs: Vec<String>,
    pub file_info: Option<FileInfo>,
}

/// A scan record, with its lists as sequences.
pub struct ScanResultView {
    pub status: ScanStatus,
    pub threats: Seq<ThreatView>,
    pub stats: ScanStats,
    pub logs: Seq<Seq<char>>,
    pub file_info: Option<FileInfoView>,
}

/// The views of a list of findings.
pub open spec fn threat_views(threats: Seq<Threat>) -> Seq<ThreatView> {
    threats.map_values(|t: Threat| t@)
}

/// The texts of a list of strings.
pub open spec fn texts(lines: Seq<String>) -> Seq<Seq<char>> {
    lines.map_values(|line: String| line@)
}

/// The view of file information that may be absent.
pub open spec fn file_info_view(info: Option<FileInfo>) -> Option<FileInfoView> {
    match info {
        Some(info) => Some(info@),
        None => None,
    }
}

impl View for ScanResult {
    type V = ScanResultView;

    open spec fn view(&self) -> ScanResultView {
        ScanResultView {
            status: self.status,
            threats: threat_views(self.threats@),
            stats: self.stats,
            logs: texts(self.logs@),
            file_info: file_info_view(self.file_info),
        }
    }
}

/// Copies a list of findings.
pub fn copy_threats(threats: &Vec<Threat>) -> (res: Vec<Threat>)
    ensures
        threat_views(res@) == threat_views(threats@),
{
    let mut res: Vec<Threat> = Vec::new();
    let n: usize = threats.len();
    let mut i: usize = 0;
    while i < n
        invariant
            n == threats@.len(),
            i <= n,
            res@.len() == i,
            forall|j: int| 0 <= j < i ==> res@[j]@ == threats@[j]@,
        decreases n - i,
    {
        res.push(threats[i].clone());
        i += 1;
    }
    assert(threat_views(res@) =~= threat_views(threats@));
    res
}

/// Copies a list of strings.
pub fn copy_lines(lines: &Vec<String>) -> (res: Vec<String>)
    ensures
        texts(res@) == texts(lines@),
{
    let mut res: Vec<String> = Vec::new();
    let n: usize = lines.len();
    let mut i: usize = 0;
    while i < n
        invariant
            n == lines@.len(),
            i <= n,
            res@.len() == i,
            forall|j: int| 0 <= j < i ==> res@[j]@ == lines@[j]@,
        decreases n - i,
    {
        res.push(lines[i].clone());
        i += 1;
    }
    assert(texts(res@) =~= texts(lines@));
    res
}

impl Clone for ScanResult {
    fn clone(&self) -> (res: Self)
        ensures
            res@ == self@,
    {
        ScanResult {
            status: self.status,
            threats: copy_threats(&self.threats),
            stats: self.stats,
            logs: copy_lines(&self.logs),
            file_info: match &self.file_info {
                Some(info) => Some(info.clone()),
                None => None,
            },
        }
    }
}

/// One step of progress, as a reader of the log sees it.
#[derive(Debug, PartialEq, Eq)]
pub struct ProgressUpdate {
    pub progress: u32,
    pub message: String,
}

/// A progress step, with its message as a sequence of characters.
pub struct ProgressUpdateView {
    pub progress: u32,
    pub message: Seq<char>,
}

impl View for ProgressUpdate {
    type V = ProgressUpdateView;

    open spec fn view(&self) -> ProgressUpdateView {
        ProgressUpdateView { progress: self.progress, message: self.message@ }
    }
}

impl Clone for ProgressUpdate {
    fn clone(&self) -> (res: Self)
        ensures
            res@ == self@,
    {
        ProgressUpdate { progress: self.progress, message: self.message.clone() }
    }
}

/// The answer to an accepted upload.
#[derive(Debug, PartialEq, Eq)]
pub struct UploadResponse {
    pub scan_id: String,
}

impl View for UploadResponse {
    type V = Seq<char>;

    open spec fn view(&self) -> Seq<char> {
        self.scan_id@
    }
}

impl Clone for UploadResponse {
    fn clone(&self) -> (res: Self)
        ensures
            res@ == self@,
    {
        UploadResponse { scan_id: self.scan_id.clone() }
    }
}

} // verus!
