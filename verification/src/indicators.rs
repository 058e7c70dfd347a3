//! The built-in detector: findings for keywords and for pairs of API names.

use crate::bytes::{contains, occurs_in};
use crate::types::{threat_views, Severity, Threat, ThreatView};
use vstd::prelude::*;
use vstd::string::StringSliceAdditionalSpecFns;

verus! {

/// The finding for a suspicious keyword.
pub open spec fn suspicious_string() -> ThreatView {
    ThreatView {
        threat_type: "Suspicious String"@,
        details: "File contains suspicious keywords"@,
        severity: Severity::Suspicious,
        threat_id: "S001"@,
    }
}

/// The finding for the calls that inject code into another process.
pub open spec fn process_injection() -> ThreatView {
    ThreatView {
        threat_type: "Process Injection API"@,
        details: "Contains process injection function calls"@,
        severity: Severity::Malicious,
        threat_id: "S002"@,
    }
}

/// The finding for the calls that change the registry.
pub open spec fn registry_modification() -> ThreatView {
    ThreatView {
        threat_type: "Registry Modification"@,
        details: "Contains registry manipulation functions"@,
        severity: Severity::Suspicious,
        threat_id: "S003"@,
    }
}

/// The text holds a suspicious keyword.
pub open spec fn has_keyword(text: Seq<u8>) -> bool {
    occurs_in(text, "malware".spec_bytes()) || occurs_in(text, "virus".spec_bytes())
}

/// The text names both calls that inject code into another process.
pub open spec fn has_injection_calls(text: Seq<u8>) -> bool {
    occurs_in(text, "CreateRemoteThread".spec_bytes()) && occurs_in(
        text,
        "VirtualAllocEx".spec_bytes(),
    )
}

/// The text names both calls that change the registry.
pub open spec fn has_registry_calls(text: Seq<u8>) -> bool {
    occurs_in(text, "RegSetValue".spec_bytes()) && occurs_in(text, "RegCreateKey".spec_bytes())
}

/// `finding` where `present` holds, and nothing otherwise.
pub open spec fn when(present: bool, finding: ThreatView) -> Seq<ThreatView> {
    if present {
        seq![finding]
    } else {
        seq![]
    }
}

/// The findings for a text, given by its UTF-8 bytes, in the order in which
/// the indicators are looked for.
pub open spec fn indicators(text: Seq<u8>) -> Seq<ThreatView> {
    when(has_keyword(text), suspicious_string()) + when(
        has_injection_calls(text),
        process_injection(),
    ) + when(has_registry_calls(text), registry_modification())
}

/// Looks for the indicators in a text.
pub fn check_indicators(content: &str) -> (threats: Vec<Threat>)
    ensures
        threat_views(threats@) == indicators(content.spec_bytes()),
{
    let text = content.as_bytes();
    let mut threats: Vec<Threat> = Vec::new();
    assert(threat_views(threats@) =~= seq![]);

    if contains(text, "malware".as_bytes()) || contains(text, "virus".as_bytes()) {
        let ghost before = threats@;
        threats.push(
            Threat {
                threat_type: "Suspicious String".to_owned(),
                details: "File contains suspicious keywords".to_owned(),
                severity: Severity::Suspicious,
                threat_id: "S001".to_owned(),
            },
        );
        assert(threat_views(threats@) =~= threat_views(before) + seq![suspicious_string()]);
    }
    if contains(text, "CreateRemoteThread".as_bytes()) && contains(
        text,
        "VirtualAllocEx".as_bytes(),
    ) {
        let ghost before = threats@;
        threats.push(
            Threat {
                threat_type: "Process Injection API".to_owned(),
                details: "Contains process injection function calls".to_owned(),
                severity: Severity::Malicious,
                threat_id: "S002".to_owned(),
            },
        );
        assert(threat_views(threats@) =~= threat_views(before) + seq![process_injection()]);
    }
    if contains(text, "RegSetValue".as_bytes()) && contains(text, "RegCreateKey".as_bytes()) {
        let ghost before = threats@;
        threats.push(
            Threat {
                threat_type: "Registry Modification".to_owned(),
                details: "Contains registry manipulation functions".to_owned(),
                severity: Severity::Suspicious,
                threat_id: "S003".to_owned(),
            },
        );
        assert(threat_views(threats@) =~= threat_views(before) + seq![registry_modification()]);
    }
    assert(threat_views(threats@) =~= indicators(content.spec_bytes()));
    threats
}

} // verus!
