//! Counting findings by severity, and the verdict that the counts give.

use crate::types::{threat_views, ScanStats, ScanStatus, Severity, Threat, ThreatView};
use vstd::prelude::*;

verus! {

/// How many of `threats` have the given severity.
pub open spec fn count_of(threats: Seq<ThreatView>, severity: Severity) -> nat
    decreases threats.len(),
{
    if threats.len() == 0 {
        0
    } else {
        count_of(threats.drop_last(), severity) + if threats.last().severity == severity {
            1nat
        } else {
            0nat
        }
    }
}

/// The statistics of a list of findings.
pub open spec fn tally(threats: Seq<ThreatView>) -> ScanStats {
    ScanStats {
        threats_found: threats.len() as usize,
        malicious: count_of(threats, Severity::Malicious) as usize,
        suspicious: count_of(threats, Severity::Suspicious) as usize,
        neutral: count_of(threats, Severity::Neutral) as usize,
    }
}

/// The verdict that statistics give: unsafe with a malicious finding,
/// suspicious with any other finding, safe with none.
pub open spec fn verdict_of(stats: ScanStats) -> ScanStatus {
    if stats.malicious > 0 {
        ScanStatus::Unsafe
    } else if stats.suspicious > 0 || stats.neutral > 0 {
        ScanStatus::Suspicious
    } else {
        ScanStatus::Safe
    }
}

/// Every finding has exactly one severity: the three counts add up to the
/// number of findings.
pub proof fn lemma_counts_add_up(threats: Seq<ThreatView>)
    ensures
        count_of(threats, Severity::Malicious) + count_of(threats, Severity::Suspicious)
            + count_of(threats, Severity::Neutral) == threats.len(),
    decreases threats.len(),
{
    if threats.len() > 0 {
        lemma_counts_add_up(threats.drop_last());
    }
}

/// The statistics of a list that fits in memory add up: the counts by
/// severity sum to the number of findings, which is the length of the list.
pub proof fn lemma_tally_adds_up(threats: Seq<ThreatView>)
    requires
        threats.len() <= usize::MAX,
    ensures
        tally(threats).threats_found == threats.len(),
        tally(threats).malicious + tally(threats).suspicious + tally(threats).neutral == tally(
            threats,
        ).threats_found,
{
    lemma_counts_add_up(threats);
}

/// The verdict rule, case by case, and that it never leaves a scan running.
pub proof fn lemma_verdict_law(stats: ScanStats)
    ensures
        stats.malicious > 0 ==> verdict_of(stats) == ScanStatus::Unsafe,
        stats.malicious == 0 && (stats.suspicious > 0 || stats.neutral > 0) ==> verdict_of(stats)
            == ScanStatus::Suspicious,
        stats.malicious == 0 && stats.suspicious == 0 && stats.neutral == 0 ==> verdict_of(stats)
            == ScanStatus::Safe,
        verdict_of(stats).terminal(),
        verdict_of(stats) != ScanStatus::Error,
{
}

/// Counts the findings, in all and by severity.
pub fn tally_threats(threats: &Vec<Threat>) -> (stats: ScanStats)
    ensures
        stats == tally(threat_views(threats@)),
        stats.threats_found == threats@.len(),
        stats.malicious + stats.suspicious + stats.neutral == stats.threats_found,
{
    let ghost views = threat_views(threats@);
    let n: usize = threats.len();
    let mut malicious: usize = 0;
    let mut suspicious: usize = 0;
    let mut neutral: usize = 0;
    let mut i: usize = 0;
    while i < n
        invariant
            n == threats@.len(),
            views == threat_views(threats@),
            i <= n,
            malicious == count_of(views.subrange(0, i as int), Severity::Malicious),
            suspicious == count_of(views.subrange(0, i as int), Severity::Suspicious),
            neutral == count_of(views.subrange(0, i as int), Severity::Neutral),
            malicious + suspicious + neutral == i,
        decreases n - i,
    {
        proof {
            assert(views.subrange(0, i + 1).drop_last() =~= views.subrange(0, i as int));
            assert(views.subrange(0, i + 1).last() == threats@[i as int]@);
        }
        match threats[i].severity {
            Severity::Malicious => {
                malicious += 1;
            },
            Severity::Suspicious => {
                suspicious += 1;
            },
            Severity::Neutral => {
                neutral += 1;
            },
        }
        i += 1;
    }
    assert(views.subrange(0, n as int) =~= views);
    ScanStats { threats_found: n, malicious, suspicious, neutral }
}

/// Gives the verdict for the statistics of a scan.
pub fn verdict(stats: &ScanStats) -> (status: ScanStatus)
    ensures
        status == verdict_of(*stats),
        stats.malicious > 0 ==> status == ScanStatus::Unsafe,
        stats.malicious == 0 && (stats.suspicious > 0 || stats.neutral > 0) ==> status
            == ScanStatus::Suspicious,
        stats.malicious == 0 && stats.suspicious == 0 && stats.neutral == 0 ==> status
            == ScanStatus::Safe,
{
    if stats.malicious > 0 {
        ScanStatus::Unsafe
    } else if stats.suspicious > 0 || stats.neutral > 0 {
        ScanStatus::Suspicious
    } else {
        ScanStatus::Safe
    }
}

} // verus!
