//! Runtime ownership evidence: snapshots of live owners, request and activation
//! receipts and helper traces, held to the envelope that binds them.

use vstd::prelude::*;

use crate::json;
use crate::json::{Json, JsonView};
use crate::pressure::PRESSURE_HELPER_SCHEMA;
use crate::table::{Table, TableKey};
use crate::text;

verus! {

/// The schema of runtime ownership snapshots.
pub const RUNTIME_SNAPSHOT_SCHEMA: &'static str = "openasr.runtime-ownership-receipt.v1";

/// The schema of the result of validating a bundle.
pub const BUNDLE_RESULT_SCHEMA: &'static str =
    "openasr.runtime-ownership-evidence-bundle-result.v1";

/// The largest artifact that is read.
pub const MAX_OWNERSHIP_ARTIFACT_BYTES: u64 = 0x0200_0000;

/// The numbers that evidence must record.
#[derive(Clone, Copy, Debug, PartialEq, Eq, Structural)]
pub enum NaturalField {
    DaemonPid,
    DaemonStarted,
    RetainedBytes,
    CandidateRequired,
    ObservedAvailable,
    ReleasedAvailable,
    LowestAvailable,
    SafetyFloor,
    Committed,
    Touched,
    Timeout,
}

/// The name of a number.
pub open spec fn natural_field_name(field: NaturalField) -> Seq<char> {
    match field {
        NaturalField::DaemonPid => "daemon_start_identity.pid"@,
        NaturalField::DaemonStarted => "daemon_start_identity.started_at_unix_secs"@,
        NaturalField::RetainedBytes => "live_owners.resources.retained.bytes"@,
        NaturalField::CandidateRequired => "candidate_required_bytes"@,
        NaturalField::ObservedAvailable => "observed_available_bytes"@,
        NaturalField::ReleasedAvailable => "released.observed_available_bytes"@,
        NaturalField::LowestAvailable => "lowest_available_bytes"@,
        NaturalField::SafetyFloor => "safety_floor_bytes"@,
        NaturalField::Committed => "committed_bytes"@,
        NaturalField::Touched => "touched_bytes"@,
        NaturalField::Timeout => "timeout_seconds"@,
    }
}

impl NaturalField {
    /// The name.
    pub fn name(self) -> (name: String)
        ensures
            name@ == natural_field_name(self),
    {
        match self {
            NaturalField::DaemonPid => "daemon_start_identity.pid".to_owned(),
            NaturalField::DaemonStarted => "daemon_start_identity.started_at_unix_secs".to_owned(),
            NaturalField::RetainedBytes => "live_owners.resources.retained.bytes".to_owned(),
            NaturalField::CandidateRequired => "candidate_required_bytes".to_owned(),
            NaturalField::ObservedAvailable => "observed_available_bytes".to_owned(),
            NaturalField::ReleasedAvailable => "released.observed_available_bytes".to_owned(),
            NaturalField::LowestAvailable => "lowest_available_bytes".to_owned(),
            NaturalField::SafetyFloor => "safety_floor_bytes".to_owned(),
            NaturalField::Committed => "committed_bytes".to_owned(),
            NaturalField::Touched => "touched_bytes".to_owned(),
            NaturalField::Timeout => "timeout_seconds".to_owned(),
        }
    }
}

/// The texts that evidence must record.
#[derive(Clone, Copy, Debug, PartialEq, Eq, Structural)]
pub enum TextField {
    DaemonNonce,
    LaneProvider,
}

/// The name of a text.
pub open spec fn text_field_name(field: TextField) -> Seq<char> {
    match field {
        TextField::DaemonNonce => "daemon_start_identity.nonce"@,
        TextField::LaneProvider => "live_owners.lane.provider"@,
    }
}

impl TextField {
    /// The name.
    pub fn name(self) -> (name: String)
        ensures
            name@ == text_field_name(self),
    {
        match self {
            TextField::DaemonNonce => "daemon_start_identity.nonce".to_owned(),
            TextField::LaneProvider => "live_owners.lane.provider".to_owned(),
        }
    }
}

/// The phases of an ownership scenario.
#[derive(Clone, Copy, Debug, PartialEq, Eq, Structural)]
pub enum OwnershipEvidencePhaseKind {
    ColdRequestCompleted,
    WarmRequestCompleted,
    OwnerReleased,
    Reconciled,
    BaselineAdmissible,
    ForecastSucceeded,
    FactsChanged,
    ActivationRejected,
    OldRuntimeTranscribed,
    Recovered,
    OldRuntimeActive,
    PressureReady,
    PressureReleased,
}

/// The name of a phase.
pub open spec fn phase_name(phase: OwnershipEvidencePhaseKind) -> Seq<char> {
    match phase {
        OwnershipEvidencePhaseKind::ColdRequestCompleted => "ColdRequestCompleted"@,
        OwnershipEvidencePhaseKind::WarmRequestCompleted => "WarmRequestCompleted"@,
        OwnershipEvidencePhaseKind::OwnerReleased => "OwnerReleased"@,
        OwnershipEvidencePhaseKind::Reconciled => "Reconciled"@,
        OwnershipEvidencePhaseKind::BaselineAdmissible => "BaselineAdmissible"@,
        OwnershipEvidencePhaseKind::ForecastSucceeded => "ForecastSucceeded"@,
        OwnershipEvidencePhaseKind::FactsChanged => "FactsChanged"@,
        OwnershipEvidencePhaseKind::ActivationRejected => "ActivationRejected"@,
        OwnershipEvidencePhaseKind::OldRuntimeTranscribed => "OldRuntimeTranscribed"@,
        OwnershipEvidencePhaseKind::Recovered => "Recovered"@,
        OwnershipEvidencePhaseKind::OldRuntimeActive => "OldRuntimeActive"@,
        OwnershipEvidencePhaseKind::PressureReady => "PressureReady"@,
        OwnershipEvidencePhaseKind::PressureReleased => "PressureReleased"@,
    }
}

impl OwnershipEvidencePhaseKind {
    /// The name.
    pub fn name(self) -> (name: String)
        ensures
            name@ == phase_name(self),
    {
        match self {
            OwnershipEvidencePhaseKind::ColdRequestCompleted => "ColdRequestCompleted".to_owned(),
            OwnershipEvidencePhaseKind::WarmRequestCompleted => "WarmRequestCompleted".to_owned(),
            OwnershipEvidencePhaseKind::OwnerReleased => "OwnerReleased".to_owned(),
            OwnershipEvidencePhaseKind::Reconciled => "Reconciled".to_owned(),
            OwnershipEvidencePhaseKind::BaselineAdmissible => "BaselineAdmissible".to_owned(),
            OwnershipEvidencePhaseKind::ForecastSucceeded => "ForecastSucceeded".to_owned(),
            OwnershipEvidencePhaseKind::FactsChanged => "FactsChanged".to_owned(),
            OwnershipEvidencePhaseKind::ActivationRejected => "ActivationRejected".to_owned(),
            OwnershipEvidencePhaseKind::OldRuntimeTranscribed => "OldRuntimeTranscribed".to_owned(),
            OwnershipEvidencePhaseKind::Recovered => "Recovered".to_owned(),
            OwnershipEvidencePhaseKind::OldRuntimeActive => "OldRuntimeActive".to_owned(),
            OwnershipEvidencePhaseKind::PressureReady => "PressureReady".to_owned(),
            OwnershipEvidencePhaseKind::PressureReleased => "PressureReleased".to_owned(),
        }
    }
}

/// Why ownership evidence is refused. A hash mismatch carries the number of the
/// artifact.
#[derive(Clone, Copy, Debug, PartialEq, Eq, Structural)]
pub enum OwnershipError {
    NotNatural(NaturalField),
    NotText(TextField),
    HashMismatch(usize),
    DaemonMismatch,
    RetainedUnknown,
    SnapshotNotJson,
    SnapshotUnusable,
    OwnersNotArray,
    PlacementUnknown,
    ResourcesNotArray,
    ResourceUnpriced,
    RetainedOverflow,
    RequestNotUtf8,
    RequestInvalid,
    RequestWithoutEvidence,
    RequestNotBound,
    RequestNotCold,
    RequestNotWarm,
    ActivationNotUtf8,
    ActivationInvalid,
    ActivationNotBound,
    HelperLineNotJson,
    HelperUnsafe,
    HelperNotUtf8,
    HelperLineCount,
    HelperChanged,
    HelperUnproven,
    PhaseMissing(OwnershipEvidencePhaseKind),
    LiveStateChanged,
    LifecycleUnproven,
    NoReleaseOwner,
    SnapshotNotLoaded,
    RequestNotLoaded,
    ActivationWithoutReceipt,
    NoCandidate,
    ActivationNotLoaded,
    NoReadyPhase,
    NoReleasedPhase,
    ReadyWithoutHelper,
    ReleasedWithoutHelper,
    HelperBindingsDiffer,
    HelperNotLoaded,
    ReadyWithoutObservation,
    NotRegularFile,
    FileTooLarge,
    NotADirectory,
    EnvelopeCount,
    EnvelopeWithoutName,
    EnvelopeNotChild,
    ReleasesDiffer,
    ScenariosIncomplete,
}

/// The message of an ownership error.
pub open spec fn ownership_message(error: OwnershipError) -> Seq<char> {
    match error {
        OwnershipError::NotNatural(field) => natural_field_name(field) + " must be an unsigned integer"@,
        OwnershipError::NotText(field) => text_field_name(field) + " must be a string"@,
        OwnershipError::HashMismatch(_) => "ownership artifact hash mismatch"@,
        OwnershipError::DaemonMismatch => "runtime artifact daemon start identity does not match its envelope phase"@,
        OwnershipError::RetainedUnknown => "live runtime resource has unknown or unavailable retained bytes"@,
        OwnershipError::SnapshotNotJson => "runtime snapshot is not JSON"@,
        OwnershipError::SnapshotUnusable => "runtime snapshot is unavailable, live-incomplete, or ledger-mismatched"@,
        OwnershipError::OwnersNotArray => "runtime snapshot live_owners must be an array"@,
        OwnershipError::PlacementUnknown => "runtime snapshot contains an owner with unknown placement"@,
        OwnershipError::ResourcesNotArray => "runtime owner resources must be an array"@,
        OwnershipError::ResourceUnpriced => "runtime snapshot contains an unpriced live resource"@,
        OwnershipError::RetainedOverflow => "runtime retained-byte total overflowed"@,
        OwnershipError::RequestNotUtf8 => "request receipt is not UTF-8"@,
        OwnershipError::RequestInvalid => "request artifact is not a valid short-audio receipt"@,
        OwnershipError::RequestWithoutEvidence => "ownership request receipt has no formal evidence.v1 binding"@,
        OwnershipError::RequestNotBound => "ownership request receipt does not bind the exact passing release cell"@,
        OwnershipError::RequestNotCold => "cold ownership request receipt is not a cold run"@,
        OwnershipError::RequestNotWarm => "warm ownership request receipt is not a same-process warm run"@,
        OwnershipError::ActivationNotUtf8 => "activation receipt is not UTF-8"@,
        OwnershipError::ActivationInvalid => "activation artifact is not a valid activation receipt"@,
        OwnershipError::ActivationNotBound => "activation rejection receipt does not bind the exact envelope candidate"@,
        OwnershipError::HelperLineNotJson => "pressure helper trace line is not JSON"@,
        OwnershipError::HelperUnsafe => "pressure helper trace lacks its safety contract"@,
        OwnershipError::HelperNotUtf8 => "pressure helper trace is not UTF-8"@,
        OwnershipError::HelperLineCount => "passing pressure helper trace must contain exactly ready and released events"@,
        OwnershipError::HelperChanged => "pressure helper identity or guardrail changed while holding memory"@,
        OwnershipError::HelperUnproven => "pressure helper trace does not prove the envelope's safe causal state flip"@,
        OwnershipError::PhaseMissing(phase) => "validated runtime snapshot is missing phase "@ + phase_name(phase),
        OwnershipError::LiveStateChanged => "old runtime live-owner state changed across the protected activation sequence"@,
        OwnershipError::LifecycleUnproven => "cold/warm ownership snapshots do not prove stable reuse, release, and reconciliation"@,
        OwnershipError::NoReleaseOwner => "protected old runtime snapshot has no lane-bound release provider owner"@,
        OwnershipError::SnapshotNotLoaded => "runtime snapshot binding was not loaded"@,
        OwnershipError::RequestNotLoaded => "request receipt binding was not loaded"@,
        OwnershipError::ActivationWithoutReceipt => "activation rejection phase has no receipt binding"@,
        OwnershipError::NoCandidate => "pressure scenario has no rejection candidate observation"@,
        OwnershipError::ActivationNotLoaded => "activation receipt binding was not loaded"@,
        OwnershipError::NoReadyPhase => "real pressure envelope has no ready phase"@,
        OwnershipError::NoReleasedPhase => "real pressure envelope has no released phase"@,
        OwnershipError::ReadyWithoutHelper => "pressure ready phase has no helper receipt"@,
        OwnershipError::ReleasedWithoutHelper => "pressure released phase has no helper receipt"@,
        OwnershipError::HelperBindingsDiffer => "pressure ready/released phases do not bind the same helper trace"@,
        OwnershipError::HelperNotLoaded => "pressure helper trace binding was not loaded"@,
        OwnershipError::ReadyWithoutObservation => "pressure ready phase has no candidate observation"@,
        OwnershipError::NotRegularFile => "ownership artifact must be a regular non-symlink file"@,
        OwnershipError::FileTooLarge => "ownership artifact exceeds the bounded verifier limit"@,
        OwnershipError::NotADirectory => "ownership artifact directory must be a real directory"@,
        OwnershipError::EnvelopeCount => "ownership bundle requires one diagnostic envelope or exactly three scenario envelopes"@,
        OwnershipError::EnvelopeWithoutName => "ownership envelope has no safe UTF-8 filename"@,
        OwnershipError::EnvelopeNotChild => "ownership envelope must be a direct child of the artifact directory"@,
        OwnershipError::ReleasesDiffer => "ownership scenario envelopes do not bind one exact release cell"@,
        OwnershipError::ScenariosIncomplete => "ownership bundle must contain one envelope for every required scenario"@,
    }
}

impl OwnershipError {
    /// The message shown for the error.
    pub fn message(self) -> (text: String)
        ensures
            text@ == ownership_message(self),
    {
        match self {
            OwnershipError::NotNatural(field) => {
                let mut out = (field.name().as_str()).to_owned();
                out.append(" must be an unsigned integer");
                out
            },
            OwnershipError::NotText(field) => {
                let mut out = (field.name().as_str()).to_owned();
                out.append(" must be a string");
                out
            },
            OwnershipError::HashMismatch(_) => "ownership artifact hash mismatch".to_owned(),
            OwnershipError::DaemonMismatch => "runtime artifact daemon start identity does not match its envelope phase".to_owned(),
            OwnershipError::RetainedUnknown => "live runtime resource has unknown or unavailable retained bytes".to_owned(),
            OwnershipError::SnapshotNotJson => "runtime snapshot is not JSON".to_owned(),
            OwnershipError::SnapshotUnusable => "runtime snapshot is unavailable, live-incomplete, or ledger-mismatched".to_owned(),
            OwnershipError::OwnersNotArray => "runtime snapshot live_owners must be an array".to_owned(),
            OwnershipError::PlacementUnknown => "runtime snapshot contains an owner with unknown placement".to_owned(),
            OwnershipError::ResourcesNotArray => "runtime owner resources must be an array".to_owned(),
            OwnershipError::ResourceUnpriced => "runtime snapshot contains an unpriced live resource".to_owned(),
            OwnershipError::RetainedOverflow => "runtime retained-byte total overflowed".to_owned(),
            OwnershipError::RequestNotUtf8 => "request receipt is not UTF-8".to_owned(),
            OwnershipError::RequestInvalid => "request artifact is not a valid short-audio receipt".to_owned(),
            OwnershipError::RequestWithoutEvidence => "ownership request receipt has no formal evidence.v1 binding".to_owned(),
            OwnershipError::RequestNotBound => "ownership request receipt does not bind the exact passing release cell".to_owned(),
            OwnershipError::RequestNotCold => "cold ownership request receipt is not a cold run".to_owned(),
            OwnershipError::RequestNotWarm => "warm ownership request receipt is not a same-process warm run".to_owned(),
            OwnershipError::ActivationNotUtf8 => "activation receipt is not UTF-8".to_owned(),
            OwnershipError::ActivationInvalid => "activation artifact is not a valid activation receipt".to_owned(),
            OwnershipError::ActivationNotBound => "activation rejection receipt does not bind the exact envelope candidate".to_owned(),
            OwnershipError::HelperLineNotJson => "pressure helper trace line is not JSON".to_owned(),
            OwnershipError::HelperUnsafe => "pressure helper trace lacks its safety contract".to_owned(),
            OwnershipError::HelperNotUtf8 => "pressure helper trace is not UTF-8".to_owned(),
            OwnershipError::HelperLineCount => "passing pressure helper trace must contain exactly ready and released events".to_owned(),
            OwnershipError::HelperChanged => "pressure helper identity or guardrail changed while holding memory".to_owned(),
            OwnershipError::HelperUnproven => "pressure helper trace does not prove the envelope's safe causal state flip".to_owned(),
            OwnershipError::PhaseMissing(phase) => {
                let mut out = "validated runtime snapshot is missing phase ".to_owned();
                out.append(phase.name().as_str());
                out
            },
            OwnershipError::LiveStateChanged => "old runtime live-owner state changed across the protected activation sequence".to_owned(),
            OwnershipError::LifecycleUnproven => "cold/warm ownership snapshots do not prove stable reuse, release, and reconciliation".to_owned(),
            OwnershipError::NoReleaseOwner => "protected old runtime snapshot has no lane-bound release provider owner".to_owned(),
            OwnershipError::SnapshotNotLoaded => "runtime snapshot binding was not loaded".to_owned(),
            OwnershipError::RequestNotLoaded => "request receipt binding was not loaded".to_owned(),
            OwnershipError::ActivationWithoutReceipt => "activation rejection phase has no receipt binding".to_owned(),
            OwnershipError::NoCandidate => "pressure scenario has no rejection candidate observation".to_owned(),
            OwnershipError::ActivationNotLoaded => "activation receipt binding was not loaded".to_owned(),
            OwnershipError::NoReadyPhase => "real pressure envelope has no ready phase".to_owned(),
            OwnershipError::NoReleasedPhase => "real pressure envelope has no released phase".to_owned(),
            OwnershipError::ReadyWithoutHelper => "pressure ready phase has no helper receipt".to_owned(),
            OwnershipError::ReleasedWithoutHelper => "pressure released phase has no helper receipt".to_owned(),
            OwnershipError::HelperBindingsDiffer => "pressure ready/released phases do not bind the same helper trace".to_owned(),
            OwnershipError::HelperNotLoaded => "pressure helper trace binding was not loaded".to_owned(),
            OwnershipError::ReadyWithoutObservation => "pressure ready phase has no candidate observation".to_owned(),
            OwnershipError::NotRegularFile => "ownership artifact must be a regular non-symlink file".to_owned(),
            OwnershipError::FileTooLarge => "ownership artifact exceeds the bounded verifier limit".to_owned(),
            OwnershipError::NotADirectory => "ownership artifact directory must be a real directory".to_owned(),
            OwnershipError::EnvelopeCount => "ownership bundle requires one diagnostic envelope or exactly three scenario envelopes".to_owned(),
            OwnershipError::EnvelopeWithoutName => "ownership envelope has no safe UTF-8 filename".to_owned(),
            OwnershipError::EnvelopeNotChild => "ownership envelope must be a direct child of the artifact directory".to_owned(),
            OwnershipError::ReleasesDiffer => "ownership scenario envelopes do not bind one exact release cell".to_owned(),
            OwnershipError::ScenariosIncomplete => "ownership bundle must contain one envelope for every required scenario".to_owned(),
        }
    }
}

impl OwnershipError {
    /// The message shown for the error, with the name of the artifact at fault.
    pub fn message_for(self, label: &str) -> (text: String)
        ensures
            text@ == ownership_message(self) + ": "@ + label@,
    {
        let mut text = self.message();
        text.append(": ");
        text.append(label);
        text
    }
}

impl TableKey for OwnershipEvidencePhaseKind {
    fn same(&self, other: &Self) -> (same: bool) {
        *self == *other
    }
}

/// Reads bytes as UTF-8 text with `std::str::from_utf8`: the text that they
/// encode, or nothing where they are no UTF-8 encoding.
#[verifier::external_body]
pub(crate) fn text_from_utf8(bytes: &[u8]) -> (text: Option<String>)
    ensures
        match text {
            Some(text) => vstd::utf8::valid_utf8(bytes@) && text@ == vstd::utf8::decode_utf8(
                bytes@,
            ),
            None => !vstd::utf8::valid_utf8(bytes@),
        },
{
    std::str::from_utf8(bytes).ok().map(str::to_owned)
}

/// The SHA-256 digest of bytes in lower-case hexadecimal, as
/// `sha2::Sha256::digest` gives it.
pub uninterp spec fn sha256_text(bytes: Seq<u8>) -> Seq<char>;

/// Hashes bytes with `sha2::Sha256::digest` and writes the digest in lower-case
/// hexadecimal. The result depends on the bytes alone.
#[verifier::external_body]
pub(crate) fn sha256_hex(bytes: &[u8]) -> (digest: String)
    ensures
        digest@ == sha256_text(bytes@),
{
    format!("{:x}", <sha2::Sha256 as sha2::Digest>::digest(bytes))
}

/// When a daemon started, and as which process.
#[derive(Debug)]
pub struct OwnershipDaemonStartIdentity {
    pub pid: u32,
    pub nonce: String,
    pub started_at_unix_secs: u64,
}

/// The value of a field; null where it is absent or the value is no object.
pub open spec fn member(value: JsonView, name: Seq<char>) -> JsonView {
    match value.field(name) {
        Some(value) => value,
        None => JsonView::Null,
    }
}

/// The value of a field of a field; null where either is absent.
pub open spec fn nested(value: JsonView, outer: Seq<char>, inner: Seq<char>) -> JsonView {
    member(member(value, outer), inner)
}

/// Reads an unsigned number that must be there.
pub fn value_u64(value: Option<&Json>, field: NaturalField) -> (number: Result<u64, OwnershipError>)
    ensures
        number == (match value {
            Some(value) => match value@.natural() {
                Some(number) => Ok(number),
                None => Err(OwnershipError::NotNatural(field)),
            },
            None => Err(OwnershipError::NotNatural(field)),
        }),
{
    match value {
        Some(value) => match value.as_natural() {
            Some(number) => Ok(number),
            None => Err(OwnershipError::NotNatural(field)),
        },
        None => Err(OwnershipError::NotNatural(field)),
    }
}

/// Reads a text that must be there.
pub fn value_str<'a>(value: Option<&'a Json>, field: TextField) -> (text: Result<
    &'a str,
    OwnershipError,
>)
    ensures
        match text {
            Ok(text) => value matches Some(value) && value@.text() == Some(text@),
            Err(error) => error == OwnershipError::NotText(field) && (value is None
                || value->0@.text() is None),
        },
{
    match value {
        Some(value) => match value.as_text() {
            Some(text) => Ok(text),
            None => Err(OwnershipError::NotText(field)),
        },
        None => Err(OwnershipError::NotText(field)),
    }
}

/// Why a recorded start identity is not the expected one.
pub open spec fn daemon_fault(
    value: JsonView,
    expected: OwnershipDaemonStartIdentity,
) -> Option<OwnershipError> {
    let pid = member(value, "pid"@).natural();
    let nonce = member(value, "nonce"@).text();
    let started = member(value, "started_at_unix_secs"@).natural();
    if pid is None {
        Some(OwnershipError::NotNatural(NaturalField::DaemonPid))
    } else if pid->0 != expected.pid {
        Some(OwnershipError::DaemonMismatch)
    } else if nonce is None {
        Some(OwnershipError::NotText(TextField::DaemonNonce))
    } else if nonce->0 != expected.nonce@ {
        Some(OwnershipError::DaemonMismatch)
    } else if started is None {
        Some(OwnershipError::NotNatural(NaturalField::DaemonStarted))
    } else if started->0 != expected.started_at_unix_secs {
        Some(OwnershipError::DaemonMismatch)
    } else {
        None
    }
}

/// The result that an optional fault stands for.
pub open spec fn unless(fault: Option<OwnershipError>) -> Result<(), OwnershipError> {
    match fault {
        Some(error) => Err(error),
        None => Ok(()),
    }
}

/// Holds a recorded start identity to the expected one. Nothing stands for a
/// snapshot without the field.
pub fn daemon_identity_matches(
    value: Option<&Json>,
    expected: &OwnershipDaemonStartIdentity,
) -> (result: Result<(), OwnershipError>)
    ensures
        result == unless(
            daemon_fault(
                (match value {
                    Some(value) => value@,
                    None => JsonView::Null,
                }),
                *expected,
            ),
        ),
{
    let identity = match value {
        Some(identity) => identity,
        None => {
            return Err(OwnershipError::NotNatural(NaturalField::DaemonPid));
        },
    };
    match value_u64(identity.field("pid"), NaturalField::DaemonPid) {
        Ok(pid) => {
            if pid != expected.pid as u64 {
                return Err(OwnershipError::DaemonMismatch);
            }
        },
        Err(error) => {
            return Err(error);
        },
    }
    match value_str(identity.field("nonce"), TextField::DaemonNonce) {
        Ok(nonce) => {
            if !text::same_text(nonce, expected.nonce.as_str()) {
                return Err(OwnershipError::DaemonMismatch);
            }
        },
        Err(error) => {
            return Err(error);
        },
    }
    match value_u64(identity.field("started_at_unix_secs"), NaturalField::DaemonStarted) {
        Ok(started) => {
            if started != expected.started_at_unix_secs {
                return Err(OwnershipError::DaemonMismatch);
            }
        },
        Err(error) => {
            return Err(error);
        },
    }
    Ok(())
}

/// The bytes that a live resource retains.
pub open spec fn retained_of(resource: JsonView) -> Result<u64, OwnershipError> {
    if nested(resource, "retained"@, "status"@).text() != Some("known"@) {
        Err(OwnershipError::RetainedUnknown)
    } else {
        match nested(resource, "retained"@, "bytes"@).natural() {
            Some(bytes) => Ok(bytes),
            None => Err(OwnershipError::NotNatural(NaturalField::RetainedBytes)),
        }
    }
}

/// The bytes that a live resource retains.
pub fn known_retained_bytes(resource: &Json) -> (bytes: Result<u64, OwnershipError>)
    ensures
        bytes == retained_of(resource@),
{
    match resource.field("retained") {
        Some(retained) => {
            if !retained.text_field_is("status", "known") {
                return Err(OwnershipError::RetainedUnknown);
            }
            value_u64(retained.field("bytes"), NaturalField::RetainedBytes)
        },
        None => Err(OwnershipError::RetainedUnknown),
    }
}

/// The bytes that the first `count` resources retain, added to `start`.
pub open spec fn retained_after(resources: Seq<JsonView>, count: nat, start: u64) -> Result<
    u64,
    OwnershipError,
>
    decreases count,
{
    if count == 0 {
        Ok(start)
    } else {
        match retained_after(resources, (count - 1) as nat, start) {
            Err(error) => Err(error),
            Ok(total) => {
                let resource = resources[count - 1];
                if member(resource, "ledger_binding"@).text() == Some("unknown"@) {
                    Err(OwnershipError::ResourceUnpriced)
                } else {
                    match retained_of(resource) {
                        Err(error) => Err(error),
                        Ok(bytes) => if total + bytes > u64::MAX {
                            Err(OwnershipError::RetainedOverflow)
                        } else {
                            Ok((total + bytes) as u64)
                        },
                    }
                }
            },
        }
    }
}

/// What an owner adds to the bytes retained and to whether the release provider
/// owns anything.
pub open spec fn owner_added(owner: JsonView, provider: Seq<char>, before: (u64, bool)) -> Result<
    (u64, bool),
    OwnershipError,
> {
    let placement = member(owner, "placement"@).text();
    let lane = nested(owner, "lane"@, "provider"@).text();
    let resources = member(owner, "resources"@);
    if placement == Some("unknown"@) {
        Err(OwnershipError::PlacementUnknown)
    } else if placement == Some("lane-bound"@) && lane is None {
        Err(OwnershipError::NotText(TextField::LaneProvider))
    } else {
        let owned = before.1 || (placement == Some("lane-bound"@) && text::lowered(lane->0)
            == text::lowered(provider));
        match resources.items() {
            None => Err(OwnershipError::ResourcesNotArray),
            Some(items) => match retained_after(items, items.len(), before.0) {
                Err(error) => Err(error),
                Ok(total) => Ok((total, owned)),
            },
        }
    }
}

/// The bytes retained by the first `count` owners, and whether one of them is
/// bound to a lane of the release provider.
pub open spec fn owners_after(owners: Seq<JsonView>, count: nat, provider: Seq<char>) -> Result<
    (u64, bool),
    OwnershipError,
>
    decreases count,
{
    if count == 0 {
        Ok((0, false))
    } else {
        match owners_after(owners, (count - 1) as nat, provider) {
            Err(error) => Err(error),
            Ok(before) => owner_added(owners[count - 1], provider, before),
        }
    }
}

/// What a runtime snapshot shows: the live owners, their number, the bytes they
/// retain, and whether one is bound to a lane of the release provider.
pub struct SnapshotView {
    pub live_owners: JsonView,
    pub live_owner_count: nat,
    pub retained_bytes: u64,
    pub has_release_provider: bool,
}

/// Whether a snapshot is one of a live, complete and reconciled runtime.
pub open spec fn snapshot_is_usable(value: JsonView) -> bool {
    &&& member(value, "schema"@).text() == Some(RUNTIME_SNAPSHOT_SCHEMA@)
    &&& member(value, "availability"@).text() == Some("available"@)
    &&& nested(value, "snapshot_completeness"@, "live_state_complete"@).boolean() == Some(true)
    &&& nested(value, "lease_reconciliation"@, "status"@).text() == Some("matched"@)
}

/// What a parsed snapshot shows, or why it is refused.
pub open spec fn snapshot_facts(
    value: JsonView,
    daemon: OwnershipDaemonStartIdentity,
    provider: Seq<char>,
) -> Result<SnapshotView, OwnershipError> {
    let owners = member(value, "live_owners"@);
    if !snapshot_is_usable(value) {
        Err(OwnershipError::SnapshotUnusable)
    } else if daemon_fault(member(value, "daemon_start_identity"@), daemon) is Some {
        Err(daemon_fault(member(value, "daemon_start_identity"@), daemon)->0)
    } else {
        match owners.items() {
            None => Err(OwnershipError::OwnersNotArray),
            Some(items) => match owners_after(items, items.len(), provider) {
                Err(error) => Err(error),
                Ok(total) => Ok(
                    SnapshotView {
                        live_owners: owners,
                        live_owner_count: items.len(),
                        retained_bytes: total.0,
                        has_release_provider: total.1,
                    },
                ),
            },
        }
    }
}

/// What a runtime snapshot shows. The live owners stand in the snapshot.
#[derive(Debug)]
pub struct RuntimeSnapshotFacts {
    pub snapshot: Json,
    pub live_owner_count: usize,
    pub retained_bytes: u64,
    pub has_release_provider: bool,
}

impl View for RuntimeSnapshotFacts {
    type V = SnapshotView;

    open spec fn view(&self) -> SnapshotView {
        SnapshotView {
            live_owners: member(self.snapshot@, "live_owners"@),
            live_owner_count: self.live_owner_count as nat,
            retained_bytes: self.retained_bytes,
            has_release_provider: self.has_release_provider,
        }
    }
}

proof fn lemma_retained_stays_refused(resources: Seq<JsonView>, from: nat, to: nat, start: u64)
    requires
        from <= to,
        retained_after(resources, from, start) is Err,
    ensures
        retained_after(resources, to, start) == retained_after(resources, from, start),
    decreases to,
{
    if from < to {
        lemma_retained_stays_refused(resources, from, (to - 1) as nat, start);
    }
}

proof fn lemma_owners_stay_refused(owners: Seq<JsonView>, from: nat, to: nat, provider: Seq<char>)
    requires
        from <= to,
        owners_after(owners, from, provider) is Err,
    ensures
        owners_after(owners, to, provider) == owners_after(owners, from, provider),
    decreases to,
{
    if from < to {
        lemma_owners_stay_refused(owners, from, (to - 1) as nat, provider);
    }
}

/// Adds up the bytes that resources retain.
fn add_retained(
    resources: &Vec<Json>,
    Ghost(view): Ghost<Seq<JsonView>>,
    start: u64,
) -> (total: Result<u64, OwnershipError>)
    requires
        view.len() == resources@.len(),
        forall|i: int| 0 <= i < resources@.len() ==> view[i] == (#[trigger] resources@[i])@,
    ensures
        total == retained_after(view, view.len(), start),
{
    let mut total: u64 = start;
    let mut i: usize = 0;
    while i < resources.len()
        invariant
            view.len() == resources@.len(),
            forall|k: int| 0 <= k < resources@.len() ==> view[k] == (#[trigger] resources@[k])@,
            i <= resources@.len(),
            retained_after(view, i as nat, start) == Ok::<u64, OwnershipError>(total),
        decreases resources@.len() - i,
    {
        assert(view[i as int] == resources@[i as int]@);
        let added: Result<u64, OwnershipError> = if resources[i].text_field_is(
            "ledger_binding",
            "unknown",
        ) {
            Err(OwnershipError::ResourceUnpriced)
        } else {
            match known_retained_bytes(&resources[i]) {
                Ok(bytes) => match total.checked_add(bytes) {
                    Some(sum) => Ok(sum),
                    None => Err(OwnershipError::RetainedOverflow),
                },
                Err(error) => Err(error),
            }
        };
        assert(added == retained_after(view, (i + 1) as nat, start));
        match added {
            Ok(sum) => {
                total = sum;
            },
            Err(error) => {
                proof {
                    lemma_retained_stays_refused(view, (i + 1) as nat, view.len(), start);
                }
                return Err(error);
            },
        }
        i += 1;
    }
    Ok(total)
}

/// Adds an owner to the totals of a snapshot.
fn add_owner(owner: &Json, provider: &str, before: (u64, bool)) -> (total: Result<
    (u64, bool),
    OwnershipError,
>)
    ensures
        total == owner_added(owner@, provider@, before),
{
    if owner.text_field_is("placement", "unknown") {
        return Err(OwnershipError::PlacementUnknown);
    }
    let mut owned = before.1;
    if owner.text_field_is("placement", "lane-bound") {
        let lane = match owner.field("lane") {
            Some(lane) => lane.field("provider"),
            None => None,
        };
        match value_str(lane, TextField::LaneProvider) {
            Ok(name) => {
                if text::same_ignoring_case(name, provider) {
                    owned = true;
                }
            },
            Err(error) => {
                return Err(error);
            },
        }
    }
    let resources = match owner.field("resources") {
        Some(resources) => resources,
        None => {
            return Err(OwnershipError::ResourcesNotArray);
        },
    };
    match resources.as_items() {
        Some(items) => match add_retained(items, Ghost(resources@->Array_0), before.0) {
            Ok(total) => Ok((total, owned)),
            Err(error) => Err(error),
        },
        None => Err(OwnershipError::ResourcesNotArray),
    }
}

/// Adds up the owners of a snapshot.
fn add_owners(owners: &Vec<Json>, Ghost(view): Ghost<Seq<JsonView>>, provider: &str) -> (total:
    Result<(u64, bool), OwnershipError>)
    requires
        view.len() == owners@.len(),
        forall|i: int| 0 <= i < owners@.len() ==> view[i] == (#[trigger] owners@[i])@,
    ensures
        total == owners_after(view, view.len(), provider@),
{
    let mut total: (u64, bool) = (0, false);
    let mut i: usize = 0;
    while i < owners.len()
        invariant
            view.len() == owners@.len(),
            forall|k: int| 0 <= k < owners@.len() ==> view[k] == (#[trigger] owners@[k])@,
            i <= owners@.len(),
            owners_after(view, i as nat, provider@) == Ok::<(u64, bool), OwnershipError>(total),
        decreases owners@.len() - i,
    {
        assert(view[i as int] == owners@[i as int]@);
        match add_owner(&owners[i], provider, total) {
            Ok(sum) => {
                total = sum;
            },
            Err(error) => {
                proof {
                    assert(owners_after(view, (i + 1) as nat, provider@) == Err::<
                        (u64, bool),
                        OwnershipError,
                    >(error));
                    lemma_owners_stay_refused(view, (i + 1) as nat, view.len(), provider@);
                }
                return Err(error);
            },
        }
        i += 1;
    }
    Ok(total)
}

/// Whether a field of a field is a text with exactly these characters.
fn nested_text_is(value: &Json, outer: &str, inner: &str, expected: &str) -> (same: bool)
    ensures
        same == (nested(value@, outer@, inner@).text() == Some(expected@)),
{
    match value.field(outer) {
        Some(found) => found.text_field_is(inner, expected),
        None => false,
    }
}

/// Reads what a parsed runtime snapshot shows.
pub fn read_runtime_snapshot(
    value: Json,
    expected_daemon: &OwnershipDaemonStartIdentity,
    release_provider: &str,
) -> (facts: Result<RuntimeSnapshotFacts, OwnershipError>)
    ensures
        match facts {
            Ok(facts) => snapshot_facts(value@, *expected_daemon, release_provider@) == Ok::<
                SnapshotView,
                OwnershipError,
            >(facts@),
            Err(error) => snapshot_facts(value@, *expected_daemon, release_provider@) == Err::<
                SnapshotView,
                OwnershipError,
            >(error),
        },
{
    let complete = match value.field("snapshot_completeness") {
        Some(found) => match found.boolean_field("live_state_complete") {
            Some(complete) => complete,
            None => false,
        },
        None => false,
    };
    if !value.text_field_is("schema", RUNTIME_SNAPSHOT_SCHEMA) || !value.text_field_is(
        "availability",
        "available",
    ) || !complete || !nested_text_is(&value, "lease_reconciliation", "status", "matched") {
        return Err(OwnershipError::SnapshotUnusable);
    }
    match daemon_identity_matches(value.field("daemon_start_identity"), expected_daemon) {
        Ok(_) => {},
        Err(error) => {
            return Err(error);
        },
    }
    let (count, total) = match value.field("live_owners") {
        Some(owners) => match owners.as_items() {
            Some(items) => match add_owners(items, Ghost(owners@->Array_0), release_provider) {
                Ok(total) => (items.len(), total),
                Err(error) => {
                    return Err(error);
                },
            },
            None => {
                return Err(OwnershipError::OwnersNotArray);
            },
        },
        None => {
            return Err(OwnershipError::OwnersNotArray);
        },
    };
    Ok(
        RuntimeSnapshotFacts {
            snapshot: value,
            live_owner_count: count,
            retained_bytes: total.0,
            has_release_provider: total.1,
        },
    )
}

/// What the bytes of a snapshot show, or why they are refused.
pub open spec fn snapshot_of(
    bytes: Seq<u8>,
    daemon: OwnershipDaemonStartIdentity,
    provider: Seq<char>,
) -> Result<SnapshotView, OwnershipError> {
    match json::parsed_json_bytes(bytes) {
        Some(value) => snapshot_facts(value, daemon, provider),
        None => Err(OwnershipError::SnapshotNotJson),
    }
}

/// Reads what a runtime snapshot shows and holds it to the daemon that must have
/// written it.
pub fn validate_runtime_snapshot(
    bytes: &[u8],
    expected_daemon: &OwnershipDaemonStartIdentity,
    release_provider: &str,
) -> (facts: Result<RuntimeSnapshotFacts, OwnershipError>)
    ensures
        match facts {
            Ok(facts) => snapshot_of(bytes@, *expected_daemon, release_provider@) == Ok::<
                SnapshotView,
                OwnershipError,
            >(facts@),
            Err(error) => snapshot_of(bytes@, *expected_daemon, release_provider@) == Err::<
                SnapshotView,
                OwnershipError,
            >(error),
        },
{
    match json::parse_json_bytes(bytes) {
        Some(value) => read_runtime_snapshot(value, expected_daemon, release_provider),
        None => Err(OwnershipError::SnapshotNotJson),
    }
}

/// The release cell that evidence is for.
#[derive(Debug)]
pub struct OwnershipReleaseBinding {
    pub release_subject: String,
    pub core_commit: String,
    pub pack_sha256: String,
    pub capability_matrix_sha256: String,
    pub capability_cell_sha256: String,
    pub capability_epoch: u64,
    pub provider: String,
    pub device_target: String,
    pub binary_sha256: String,
    pub plugin_sha256: String,
    pub model_id: String,
    pub quant: String,
    pub family: String,
    pub topology: String,
    pub placement: String,
    pub output_plan: String,
    pub capture_mode: String,
    pub scheduler_mode: String,
}

/// Whether two release cells are the same in every part.
pub open spec fn same_release(a: OwnershipReleaseBinding, b: OwnershipReleaseBinding) -> bool {
    &&& a.release_subject@ == b.release_subject@
    &&& a.core_commit@ == b.core_commit@
    &&& a.pack_sha256@ == b.pack_sha256@
    &&& a.capability_matrix_sha256@ == b.capability_matrix_sha256@
    &&& a.capability_cell_sha256@ == b.capability_cell_sha256@
    &&& a.capability_epoch == b.capability_epoch
    &&& a.provider@ == b.provider@
    &&& a.device_target@ == b.device_target@
    &&& a.binary_sha256@ == b.binary_sha256@
    &&& a.plugin_sha256@ == b.plugin_sha256@
    &&& a.model_id@ == b.model_id@
    &&& a.quant@ == b.quant@
    &&& a.family@ == b.family@
    &&& a.topology@ == b.topology@
    &&& a.placement@ == b.placement@
    &&& a.output_plan@ == b.output_plan@
    &&& a.capture_mode@ == b.capture_mode@
    &&& a.scheduler_mode@ == b.scheduler_mode@
}

/// Whether two release cells are the same in every part.
pub fn is_same_release(a: &OwnershipReleaseBinding, b: &OwnershipReleaseBinding) -> (same: bool)
    ensures
        same == same_release(*a, *b),
{
    text::same_text(a.release_subject.as_str(), b.release_subject.as_str()) && text::same_text(
        a.core_commit.as_str(),
        b.core_commit.as_str(),
    ) && text::same_text(a.pack_sha256.as_str(), b.pack_sha256.as_str()) && text::same_text(
        a.capability_matrix_sha256.as_str(),
        b.capability_matrix_sha256.as_str(),
    ) && text::same_text(a.capability_cell_sha256.as_str(), b.capability_cell_sha256.as_str())
        && a.capability_epoch == b.capability_epoch && text::same_text(
        a.provider.as_str(),
        b.provider.as_str(),
    ) && text::same_text(a.device_target.as_str(), b.device_target.as_str()) && text::same_text(
        a.binary_sha256.as_str(),
        b.binary_sha256.as_str(),
    ) && text::same_text(a.plugin_sha256.as_str(), b.plugin_sha256.as_str()) && text::same_text(
        a.model_id.as_str(),
        b.model_id.as_str(),
    ) && text::same_text(a.quant.as_str(), b.quant.as_str()) && text::same_text(
        a.family.as_str(),
        b.family.as_str(),
    ) && text::same_text(a.topology.as_str(), b.topology.as_str()) && text::same_text(
        a.placement.as_str(),
        b.placement.as_str(),
    ) && text::same_text(a.output_plan.as_str(), b.output_plan.as_str()) && text::same_text(
        a.capture_mode.as_str(),
        b.capture_mode.as_str(),
    ) && text::same_text(a.scheduler_mode.as_str(), b.scheduler_mode.as_str())
}

/// What a decode gives out.
#[derive(Clone, Copy, Debug, PartialEq, Eq, Structural)]
pub enum ShortAudioOutputPlanKind {
    FullLogits,
    CompleteScores,
    NativeFirstMaxToken,
}

/// Whether native capture ran.
#[derive(Clone, Copy, Debug, PartialEq, Eq, Structural)]
pub enum ShortAudioCaptureMode {
    Disabled,
    Enabled,
    Unsupported,
    Other,
}

/// Whether the scheduler ran.
#[derive(Clone, Copy, Debug, PartialEq, Eq, Structural)]
pub enum ShortAudioSchedulerMode {
    Disabled,
    Enabled,
    Other,
}

/// The release evidence in a request receipt.
#[derive(Debug)]
pub struct RequestEvidence {
    pub candidate_release_subject: String,
    pub core_commit: String,
    pub matrix_sha256: String,
    pub is_token_transcript: bool,
    pub family: String,
    pub model_id: String,
    pub quant: String,
    pub topology: String,
    pub provider: String,
    pub placement: String,
    pub output_plan: Option<ShortAudioOutputPlanKind>,
    pub capture_mode: ShortAudioCaptureMode,
    pub scheduler_mode: ShortAudioSchedulerMode,
    pub result: String,
    pub binary_sha256: String,
    pub plugin_sha256: String,
    pub pack_sha256: String,
}

/// What a request receipt says of its run.
#[derive(Debug)]
pub struct RequestReceipt {
    pub core_commit: String,
    pub pack_model_id: String,
    pub pack_content_sha256: String,
    pub pack_quant: String,
    pub warmup: String,
    pub evidence: Option<RequestEvidence>,
}

/// How the execution core read a request receipt.
#[derive(Debug)]
pub enum RequestDecode {
    NotUtf8,
    Invalid,
    Receipt(RequestReceipt),
}

/// Whether a recorded output plan is the one that the release names.
pub open spec fn output_plan_matches(
    kind: Option<ShortAudioOutputPlanKind>,
    name: Seq<char>,
) -> bool {
    match kind {
        Some(ShortAudioOutputPlanKind::FullLogits) => name == "full_logits"@,
        Some(ShortAudioOutputPlanKind::CompleteScores) => name == "complete_scores"@,
        Some(ShortAudioOutputPlanKind::NativeFirstMaxToken) => name == "native_first_max_token"@,
        None => false,
    }
}

/// Whether a recorded capture mode is the one that the release names.
pub open spec fn capture_mode_matches(mode: ShortAudioCaptureMode, name: Seq<char>) -> bool {
    match mode {
        ShortAudioCaptureMode::Disabled => name == "disabled"@,
        ShortAudioCaptureMode::Enabled => name == "enabled"@,
        ShortAudioCaptureMode::Unsupported => name == "unsupported"@,
        ShortAudioCaptureMode::Other => false,
    }
}

/// Whether a recorded scheduler mode is the one that the release names.
pub open spec fn scheduler_mode_matches(mode: ShortAudioSchedulerMode, name: Seq<char>) -> bool {
    match mode {
        ShortAudioSchedulerMode::Disabled => name == "disabled"@,
        ShortAudioSchedulerMode::Enabled => name == "enabled"@,
        ShortAudioSchedulerMode::Other => false,
    }
}

/// Whether a request receipt and its evidence bind exactly a release cell that
/// passed.
pub open spec fn request_binds(
    receipt: RequestReceipt,
    evidence: RequestEvidence,
    release: OwnershipReleaseBinding,
) -> bool {
    &&& receipt.core_commit@ == release.core_commit@
    &&& receipt.pack_content_sha256@ == release.pack_sha256@
    &&& (receipt.pack_model_id@ == release.model_id@ || receipt.pack_model_id@ == release.model_id@
        + ":"@ + release.quant@)
    &&& receipt.pack_quant@ == release.quant@
    &&& evidence.candidate_release_subject@ == release.release_subject@
    &&& evidence.core_commit@ == release.core_commit@
    &&& evidence.matrix_sha256@ == release.capability_matrix_sha256@
    &&& evidence.is_token_transcript
    &&& evidence.family@ == release.family@
    &&& evidence.model_id@ == release.model_id@
    &&& evidence.quant@ == release.quant@
    &&& evidence.topology@ == release.topology@
    &&& text::lowered(evidence.provider@) == text::lowered(release.provider@)
    &&& evidence.placement@ == release.placement@
    &&& output_plan_matches(evidence.output_plan, release.output_plan@)
    &&& capture_mode_matches(evidence.capture_mode, release.capture_mode@)
    &&& scheduler_mode_matches(evidence.scheduler_mode, release.scheduler_mode@)
    &&& evidence.result@ == "pass"@
    &&& evidence.binary_sha256@ == release.binary_sha256@
    &&& evidence.plugin_sha256@ == release.plugin_sha256@
    &&& evidence.pack_sha256@ == release.pack_sha256@
}

/// Why a request receipt is refused in a phase.
pub open spec fn request_fault(
    decode: RequestDecode,
    release: OwnershipReleaseBinding,
    phase: OwnershipEvidencePhaseKind,
) -> Option<OwnershipError> {
    match decode {
        RequestDecode::NotUtf8 => Some(OwnershipError::RequestNotUtf8),
        RequestDecode::Invalid => Some(OwnershipError::RequestInvalid),
        RequestDecode::Receipt(receipt) => if receipt.evidence is None {
            Some(OwnershipError::RequestWithoutEvidence)
        } else if !request_binds(receipt, receipt.evidence->0, release) {
            Some(OwnershipError::RequestNotBound)
        } else if phase == OwnershipEvidencePhaseKind::ColdRequestCompleted && receipt.warmup@
            != "cold"@ {
            Some(OwnershipError::RequestNotCold)
        } else if phase == OwnershipEvidencePhaseKind::WarmRequestCompleted && receipt.warmup@
            != "warm"@ {
            Some(OwnershipError::RequestNotWarm)
        } else {
            None
        },
    }
}

fn does_output_plan_match(kind: Option<ShortAudioOutputPlanKind>, name: &str) -> (yes: bool)
    ensures
        yes == output_plan_matches(kind, name@),
{
    match kind {
        Some(ShortAudioOutputPlanKind::FullLogits) => text::same_text(name, "full_logits"),
        Some(ShortAudioOutputPlanKind::CompleteScores) => text::same_text(name, "complete_scores"),
        Some(ShortAudioOutputPlanKind::NativeFirstMaxToken) => text::same_text(
            name,
            "native_first_max_token",
        ),
        None => false,
    }
}

fn does_capture_mode_match(mode: ShortAudioCaptureMode, name: &str) -> (yes: bool)
    ensures
        yes == capture_mode_matches(mode, name@),
{
    match mode {
        ShortAudioCaptureMode::Disabled => text::same_text(name, "disabled"),
        ShortAudioCaptureMode::Enabled => text::same_text(name, "enabled"),
        ShortAudioCaptureMode::Unsupported => text::same_text(name, "unsupported"),
        ShortAudioCaptureMode::Other => false,
    }
}

fn does_scheduler_mode_match(mode: ShortAudioSchedulerMode, name: &str) -> (yes: bool)
    ensures
        yes == scheduler_mode_matches(mode, name@),
{
    match mode {
        ShortAudioSchedulerMode::Disabled => text::same_text(name, "disabled"),
        ShortAudioSchedulerMode::Enabled => text::same_text(name, "enabled"),
        ShortAudioSchedulerMode::Other => false,
    }
}

fn does_request_bind(
    receipt: &RequestReceipt,
    evidence: &RequestEvidence,
    release: &OwnershipReleaseBinding,
) -> (yes: bool)
    ensures
        yes == request_binds(*receipt, *evidence, *release),
{
    let mut tagged = release.model_id.clone();
    tagged.append(":");
    tagged.append(release.quant.as_str());
    text::same_text(receipt.core_commit.as_str(), release.core_commit.as_str()) && text::same_text(
        receipt.pack_content_sha256.as_str(),
        release.pack_sha256.as_str(),
    ) && (text::same_text(receipt.pack_model_id.as_str(), release.model_id.as_str())
        || text::same_text(receipt.pack_model_id.as_str(), tagged.as_str())) && text::same_text(
        receipt.pack_quant.as_str(),
        release.quant.as_str(),
    ) && text::same_text(
        evidence.candidate_release_subject.as_str(),
        release.release_subject.as_str(),
    ) && text::same_text(evidence.core_commit.as_str(), release.core_commit.as_str())
        && text::same_text(
        evidence.matrix_sha256.as_str(),
        release.capability_matrix_sha256.as_str(),
    ) && evidence.is_token_transcript && text::same_text(
        evidence.family.as_str(),
        release.family.as_str(),
    ) && text::same_text(evidence.model_id.as_str(), release.model_id.as_str()) && text::same_text(
        evidence.quant.as_str(),
        release.quant.as_str(),
    ) && text::same_text(evidence.topology.as_str(), release.topology.as_str())
        && text::same_ignoring_case(evidence.provider.as_str(), release.provider.as_str())
        && text::same_text(evidence.placement.as_str(), release.placement.as_str())
        && does_output_plan_match(evidence.output_plan, release.output_plan.as_str())
        && does_capture_mode_match(evidence.capture_mode, release.capture_mode.as_str())
        && does_scheduler_mode_match(evidence.scheduler_mode, release.scheduler_mode.as_str())
        && text::same_text(evidence.result.as_str(), "pass") && text::same_text(
        evidence.binary_sha256.as_str(),
        release.binary_sha256.as_str(),
    ) && text::same_text(evidence.plugin_sha256.as_str(), release.plugin_sha256.as_str())
        && text::same_text(evidence.pack_sha256.as_str(), release.pack_sha256.as_str())
}

/// Holds a request receipt to the release cell and to its phase.
pub fn validate_request_receipt(
    decode: &RequestDecode,
    release: &OwnershipReleaseBinding,
    phase: OwnershipEvidencePhaseKind,
) -> (result: Result<(), OwnershipError>)
    ensures
        result == unless(request_fault(*decode, *release, phase)),
{
    let receipt = match decode {
        RequestDecode::NotUtf8 => {
            return Err(OwnershipError::RequestNotUtf8);
        },
        RequestDecode::Invalid => {
            return Err(OwnershipError::RequestInvalid);
        },
        RequestDecode::Receipt(receipt) => receipt,
    };
    match &receipt.evidence {
        None => {
            return Err(OwnershipError::RequestWithoutEvidence);
        },
        Some(evidence) => {
            if !does_request_bind(receipt, evidence, release) {
                return Err(OwnershipError::RequestNotBound);
            }
        },
    }
    if phase == OwnershipEvidencePhaseKind::ColdRequestCompleted && !text::same_text(
        receipt.warmup.as_str(),
        "cold",
    ) {
        return Err(OwnershipError::RequestNotCold);
    }
    if phase == OwnershipEvidencePhaseKind::WarmRequestCompleted && !text::same_text(
        receipt.warmup.as_str(),
        "warm",
    ) {
        return Err(OwnershipError::RequestNotWarm);
    }
    Ok(())
}

/// What admission saw of a candidate.
#[derive(Debug)]
pub struct OwnershipAdmissionObservation {
    pub candidate_sha256: String,
    pub policy_requested_bytes: u64,
    pub policy_remaining_bytes: u64,
    pub observed_requested_bytes: u64,
    pub observed_remaining_bytes: u64,
}

/// What was observed of a candidate under pressure.
#[derive(Debug)]
pub struct OwnershipCandidateObservation {
    pub admission: OwnershipAdmissionObservation,
    pub safety_floor_bytes: u64,
    pub helper_committed_bytes: u64,
    pub helper_touched_bytes: u64,
}

/// What an activation receipt says of the rejection it records.
#[derive(Debug)]
pub struct OwnershipActivationReceipt {
    pub daemon_start_identity: OwnershipDaemonStartIdentity,
    pub release_subject: String,
    pub core_commit: String,
    pub pack_sha256: String,
    pub capability_matrix_sha256: String,
    pub capability_epoch: u64,
    pub provider: String,
    pub device_target: String,
    pub fresh_reserve: OwnershipAdmissionObservation,
}

/// How the execution core read an activation receipt.
#[derive(Debug)]
pub enum ActivationDecode {
    NotUtf8,
    Invalid,
    Receipt(OwnershipActivationReceipt),
}

/// Whether two start identities are the same.
pub open spec fn same_daemon(
    a: OwnershipDaemonStartIdentity,
    b: OwnershipDaemonStartIdentity,
) -> bool {
    a.pid == b.pid && a.nonce@ == b.nonce@ && a.started_at_unix_secs == b.started_at_unix_secs
}

/// Whether two admission observations are the same.
pub open spec fn same_admission(
    a: OwnershipAdmissionObservation,
    b: OwnershipAdmissionObservation,
) -> bool {
    &&& a.candidate_sha256@ == b.candidate_sha256@
    &&& a.policy_requested_bytes == b.policy_requested_bytes
    &&& a.policy_remaining_bytes == b.policy_remaining_bytes
    &&& a.observed_requested_bytes == b.observed_requested_bytes
    &&& a.observed_remaining_bytes == b.observed_remaining_bytes
}

/// Whether an activation receipt binds exactly the candidate of an envelope.
pub open spec fn activation_binds(
    receipt: OwnershipActivationReceipt,
    release: OwnershipReleaseBinding,
    candidate: OwnershipCandidateObservation,
    daemon: OwnershipDaemonStartIdentity,
) -> bool {
    &&& same_daemon(receipt.daemon_start_identity, daemon)
    &&& receipt.release_subject@ == release.release_subject@
    &&& receipt.core_commit@ == release.core_commit@
    &&& receipt.pack_sha256@ == release.pack_sha256@
    &&& receipt.capability_matrix_sha256@ == release.capability_matrix_sha256@
    &&& receipt.capability_epoch == release.capability_epoch
    &&& text::lowered(receipt.provider@) == text::lowered(release.provider@)
    &&& receipt.device_target@ == release.device_target@
    &&& same_admission(receipt.fresh_reserve, candidate.admission)
}

/// Why an activation receipt is refused.
pub open spec fn activation_fault(
    decode: ActivationDecode,
    release: OwnershipReleaseBinding,
    candidate: OwnershipCandidateObservation,
    daemon: OwnershipDaemonStartIdentity,
) -> Option<OwnershipError> {
    match decode {
        ActivationDecode::NotUtf8 => Some(OwnershipError::ActivationNotUtf8),
        ActivationDecode::Invalid => Some(OwnershipError::ActivationInvalid),
        ActivationDecode::Receipt(receipt) => if activation_binds(
            receipt,
            release,
            candidate,
            daemon,
        ) {
            None
        } else {
            Some(OwnershipError::ActivationNotBound)
        },
    }
}

fn is_same_admission(
    a: &OwnershipAdmissionObservation,
    b: &OwnershipAdmissionObservation,
) -> (same: bool)
    ensures
        same == same_admission(*a, *b),
{
    text::same_text(a.candidate_sha256.as_str(), b.candidate_sha256.as_str())
        && a.policy_requested_bytes == b.policy_requested_bytes && a.policy_remaining_bytes
        == b.policy_remaining_bytes && a.observed_requested_bytes == b.observed_requested_bytes
        && a.observed_remaining_bytes == b.observed_remaining_bytes
}

/// Holds an activation receipt to the release cell, the candidate and the daemon
/// of its envelope.
pub fn validate_activation_receipt(
    decode: &ActivationDecode,
    release: &OwnershipReleaseBinding,
    candidate: &OwnershipCandidateObservation,
    daemon: &OwnershipDaemonStartIdentity,
) -> (result: Result<(), OwnershipError>)
    ensures
        result == unless(activation_fault(*decode, *release, *candidate, *daemon)),
{
    let receipt = match decode {
        ActivationDecode::NotUtf8 => {
            return Err(OwnershipError::ActivationNotUtf8);
        },
        ActivationDecode::Invalid => {
            return Err(OwnershipError::ActivationInvalid);
        },
        ActivationDecode::Receipt(receipt) => receipt,
    };
    let started = &receipt.daemon_start_identity;
    if started.pid == daemon.pid && text::same_text(started.nonce.as_str(), daemon.nonce.as_str())
        && started.started_at_unix_secs == daemon.started_at_unix_secs && text::same_text(
        receipt.release_subject.as_str(),
        release.release_subject.as_str(),
    ) && text::same_text(receipt.core_commit.as_str(), release.core_commit.as_str())
        && text::same_text(receipt.pack_sha256.as_str(), release.pack_sha256.as_str())
        && text::same_text(
        receipt.capability_matrix_sha256.as_str(),
        release.capability_matrix_sha256.as_str(),
    ) && receipt.capability_epoch == release.capability_epoch && text::same_ignoring_case(
        receipt.provider.as_str(),
        release.provider.as_str(),
    ) && text::same_text(receipt.device_target.as_str(), release.device_target.as_str())
        && is_same_admission(&receipt.fresh_reserve, &candidate.admission) {
        Ok(())
    } else {
        Err(OwnershipError::ActivationNotBound)
    }
}

/// Whether a helper event has this name and result and the safety contract of
/// the helper.
pub open spec fn helper_event_is_safe(event: JsonView, name: Seq<char>, result: Seq<char>) -> bool {
    &&& event.text_field("schema"@) == Some(PRESSURE_HELPER_SCHEMA@)
    &&& event.text_field("event"@) == Some(name)
    &&& event.text_field("result"@) == Some(result)
    &&& event.boolean_field("job_kill_on_close"@) == Some(true)
    &&& event.boolean_field("parent_death_cleanup"@) == Some(true)
    &&& event.boolean_field("page_locking"@) == Some(false)
}

/// Whether a boolean field has this value.
fn boolean_field_is(value: &Json, name: &str, expected: bool) -> (same: bool)
    ensures
        same == (value@.boolean_field(name@) == Some(expected)),
{
    match value.boolean_field(name) {
        Some(found) => found == expected,
        None => false,
    }
}

/// Holds a parsed helper event to its name, its result and the safety contract.
pub fn check_helper_event(event: &Json, expected_event: &str, expected_result: &str) -> (safe: bool)
    ensures
        safe == helper_event_is_safe(event@, expected_event@, expected_result@),
{
    event.text_field_is("schema", PRESSURE_HELPER_SCHEMA) && event.text_field_is(
        "event",
        expected_event,
    ) && event.text_field_is("result", expected_result) && boolean_field_is(
        event,
        "job_kill_on_close",
        true,
    ) && boolean_field_is(event, "parent_death_cleanup", true) && boolean_field_is(
        event,
        "page_locking",
        false,
    )
}

/// A helper event read from a line, or why the line is refused.
pub open spec fn helper_event_of(
    line: Seq<char>,
    name: Seq<char>,
    result: Seq<char>,
) -> Result<JsonView, OwnershipError> {
    match json::parsed_json(line) {
        None => Err(OwnershipError::HelperLineNotJson),
        Some(event) => if helper_event_is_safe(event, name, result) {
            Ok(event)
        } else {
            Err(OwnershipError::HelperUnsafe)
        },
    }
}

/// Reads a helper event from a line and holds it to its name, its result and the
/// safety contract.
pub fn parse_helper_event(line: &str, expected_event: &str, expected_result: &str) -> (event:
    Result<Json, OwnershipError>)
    ensures
        match event {
            Ok(event) => helper_event_of(line@, expected_event@, expected_result@) == Ok::<
                JsonView,
                OwnershipError,
            >(event@),
            Err(error) => helper_event_of(line@, expected_event@, expected_result@) == Err::<
                JsonView,
                OwnershipError,
            >(error),
        },
{
    match json::parse_json(line) {
        None => Err(OwnershipError::HelperLineNotJson),
        Some(event) => {
            if check_helper_event(&event, expected_event, expected_result) {
                Ok(event)
            } else {
                Err(OwnershipError::HelperUnsafe)
            }
        },
    }
}

/// Whether the helper kept its identity and guardrails while it held memory.
pub open spec fn helper_is_unchanged(ready: JsonView, released: JsonView) -> bool {
    &&& json::same_value(member(ready, "helper_pid"@), member(released, "helper_pid"@))
    &&& json::same_value(member(ready, "parent_pid"@), member(released, "parent_pid"@))
    &&& json::same_value(
        member(ready, "candidate_required_bytes"@),
        member(released, "candidate_required_bytes"@),
    )
    &&& json::same_value(
        member(ready, "safety_floor_bytes"@),
        member(released, "safety_floor_bytes"@),
    )
}

/// Why the events of a helper do not prove that memory was pushed below the
/// candidate's request, stayed above the floor and came back.
pub open spec fn helper_fault(
    ready: JsonView,
    released: JsonView,
    observation: OwnershipCandidateObservation,
) -> Option<OwnershipError> {
    let requested = member(ready, "candidate_required_bytes"@).natural();
    let ready_available = member(ready, "observed_available_bytes"@).natural();
    let released_available = member(released, "observed_available_bytes"@).natural();
    let lowest = member(released, "lowest_available_bytes"@).natural();
    let floor = member(ready, "safety_floor_bytes"@).natural();
    let committed = member(ready, "committed_bytes"@).natural();
    let touched = member(ready, "touched_bytes"@).natural();
    let timeout = member(ready, "timeout_seconds"@).natural();
    if !helper_is_unchanged(ready, released) {
        Some(OwnershipError::HelperChanged)
    } else if requested is None {
        Some(OwnershipError::NotNatural(NaturalField::CandidateRequired))
    } else if ready_available is None {
        Some(OwnershipError::NotNatural(NaturalField::ObservedAvailable))
    } else if released_available is None {
        Some(OwnershipError::NotNatural(NaturalField::ReleasedAvailable))
    } else if lowest is None {
        Some(OwnershipError::NotNatural(NaturalField::LowestAvailable))
    } else if floor is None {
        Some(OwnershipError::NotNatural(NaturalField::SafetyFloor))
    } else if committed is None {
        Some(OwnershipError::NotNatural(NaturalField::Committed))
    } else if touched is None {
        Some(OwnershipError::NotNatural(NaturalField::Touched))
    } else if timeout is None {
        Some(OwnershipError::NotNatural(NaturalField::Timeout))
    } else if requested->0 != observation.admission.observed_requested_bytes || floor->0
        != observation.safety_floor_bytes || committed->0 != observation.helper_committed_bytes
        || touched->0 != observation.helper_touched_bytes || committed->0 == 0 || touched->0 == 0
        || ready_available->0 >= requested->0 || released_available->0 < requested->0 || lowest->0
        < floor->0 || timeout->0 > 120 {
        Some(OwnershipError::HelperUnproven)
    } else {
        None
    }
}

/// Whether a field has the same value in two objects.
fn same_member(left: &Json, right: &Json, name: &str) -> (same: bool)
    ensures
        same == json::same_value(member(left@, name@), member(right@, name@)),
{
    match (left.field(name), right.field(name)) {
        (Some(a), Some(b)) => json::is_same_value(a, b),
        (None, None) => true,
        (Some(a), None) => match a {
            Json::Null => true,
            _ => false,
        },
        (None, Some(b)) => match b {
            Json::Null => true,
            _ => false,
        },
    }
}

/// Holds the two events of a helper to each other and to the observation of an
/// envelope.
pub fn check_helper_events(
    ready: &Json,
    released: &Json,
    observation: &OwnershipCandidateObservation,
) -> (result: Result<(), OwnershipError>)
    ensures
        result == unless(helper_fault(ready@, released@, *observation)),
{
    if !(same_member(ready, released, "helper_pid") && same_member(ready, released, "parent_pid")
        && same_member(ready, released, "candidate_required_bytes") && same_member(
        ready,
        released,
        "safety_floor_bytes",
    )) {
        return Err(OwnershipError::HelperChanged);
    }
    let requested: u64 = match value_u64(
        ready.field("candidate_required_bytes"),
        NaturalField::CandidateRequired,
    ) {
        Ok(value) => value,
        Err(error) => {
            return Err(error);
        },
    };
    let ready_available: u64 = match value_u64(
        ready.field("observed_available_bytes"),
        NaturalField::ObservedAvailable,
    ) {
        Ok(value) => value,
        Err(error) => {
            return Err(error);
        },
    };
    let released_available: u64 = match value_u64(
        released.field("observed_available_bytes"),
        NaturalField::ReleasedAvailable,
    ) {
        Ok(value) => value,
        Err(error) => {
            return Err(error);
        },
    };
    let lowest: u64 = match value_u64(
        released.field("lowest_available_bytes"),
        NaturalField::LowestAvailable,
    ) {
        Ok(value) => value,
        Err(error) => {
            return Err(error);
        },
    };
    let floor: u64 = match value_u64(ready.field("safety_floor_bytes"), NaturalField::SafetyFloor) {
        Ok(value) => value,
        Err(error) => {
            return Err(error);
        },
    };
    let committed: u64 = match value_u64(ready.field("committed_bytes"), NaturalField::Committed) {
        Ok(value) => value,
        Err(error) => {
            return Err(error);
        },
    };
    let touched: u64 = match value_u64(ready.field("touched_bytes"), NaturalField::Touched) {
        Ok(value) => value,
        Err(error) => {
            return Err(error);
        },
    };
    let timeout: u64 = match value_u64(ready.field("timeout_seconds"), NaturalField::Timeout) {
        Ok(value) => value,
        Err(error) => {
            return Err(error);
        },
    };
    if requested != observation.admission.observed_requested_bytes || floor
        != observation.safety_floor_bytes || committed != observation.helper_committed_bytes
        || touched != observation.helper_touched_bytes || committed == 0 || touched == 0
        || ready_available >= requested || released_available < requested || lowest < floor
        || timeout > 120 {
        return Err(OwnershipError::HelperUnproven);
    }
    Ok(())
}

/// The lines of a text that hold more than white space, among the first `count`.
pub open spec fn written_lines(lines: Seq<Seq<char>>, count: nat) -> Seq<Seq<char>>
    decreases count,
{
    if count == 0 {
        seq![]
    } else {
        let before = written_lines(lines, (count - 1) as nat);
        if text::trimmed(lines[count - 1]).len() == 0 {
            before
        } else {
            before.push(lines[count - 1])
        }
    }
}

/// Why a helper trace is refused.
pub open spec fn helper_trace_fault(
    bytes: Seq<u8>,
    observation: OwnershipCandidateObservation,
) -> Option<OwnershipError> {
    let all = text::lines_of(vstd::utf8::decode_utf8(bytes));
    let lines = written_lines(all, all.len());
    if !vstd::utf8::valid_utf8(bytes) {
        Some(OwnershipError::HelperNotUtf8)
    } else if lines.len() != 2 {
        Some(OwnershipError::HelperLineCount)
    } else {
        match helper_event_of(lines[0], "ready"@, "holding"@) {
            Err(error) => Some(error),
            Ok(ready) => match helper_event_of(lines[1], "released"@, "pass"@) {
                Err(error) => Some(error),
                Ok(released) => helper_fault(ready, released, observation),
            },
        }
    }
}

/// Collects the lines of a text that hold more than white space.
fn collect_written_lines(raw: &str) -> (lines: Vec<String>)
    ensures
        text::texts(lines@) == written_lines(text::lines_of(raw@), text::lines_of(raw@).len()),
{
    let all = text::split_lines(raw);
    let ghost texts = text::lines_of(raw@);
    let mut lines: Vec<String> = Vec::new();
    let mut i: usize = 0;
    assert(texts.len() == all@.len()) by {
        assert(text::texts(all@).len() == all@.len());
    }
    assert(text::texts(lines@) =~= seq![]);
    while i < all.len()
        invariant
            texts == text::texts(all@),
            texts.len() == all@.len(),
            i <= all@.len(),
            text::texts(lines@) == written_lines(texts, i as nat),
        decreases all@.len() - i,
    {
        assert(texts[i as int] == all@[i as int]@);
        let ghost before = text::texts(lines@);
        if !text::trim_text(all[i].as_str()).as_str().is_empty() {
            let line = all[i].clone();
            lines.push(line);
            assert(text::texts(lines@) =~= before.push(line@));
        }
        i += 1;
    }
    lines
}

/// Holds a helper trace to the observation of an envelope: it must show that
/// memory was pushed below the candidate's request, stayed above the floor and
/// came back.
pub fn validate_pressure_helper_trace(
    bytes: &[u8],
    observation: &OwnershipCandidateObservation,
) -> (result: Result<(), OwnershipError>)
    ensures
        result == unless(helper_trace_fault(bytes@, *observation)),
{
    let raw = match text_from_utf8(bytes) {
        Some(raw) => raw,
        None => {
            return Err(OwnershipError::HelperNotUtf8);
        },
    };
    let lines = collect_written_lines(raw.as_str());
    assert(text::texts(lines@).len() == lines@.len());
    if lines.len() != 2 {
        return Err(OwnershipError::HelperLineCount);
    }
    assert(text::texts(lines@)[0] == lines@[0]@);
    assert(text::texts(lines@)[1] == lines@[1]@);
    let ready = match parse_helper_event(lines[0].as_str(), "ready", "holding") {
        Ok(ready) => ready,
        Err(error) => {
            return Err(error);
        },
    };
    let released = match parse_helper_event(lines[1].as_str(), "released", "pass") {
        Ok(released) => released,
        Err(error) => {
            return Err(error);
        },
    };
    check_helper_events(&ready, &released, observation)
}

/// An accepted helper trace shows a safe crossing: while memory was held less
/// than the request was available, it was available again after the release, and
/// no observation lay below the floor.
pub proof fn law_helper_events_prove_safe_crossing(
    ready: JsonView,
    released: JsonView,
    observation: OwnershipCandidateObservation,
)
    requires
        helper_fault(ready, released, observation) is None,
    ensures
        ({
            let requested = observation.admission.observed_requested_bytes;
            &&& member(ready, "observed_available_bytes"@).natural() matches Some(held) && held
                < requested
            &&& member(released, "observed_available_bytes"@).natural() matches Some(back) && back
                >= requested
            &&& member(released, "lowest_available_bytes"@).natural() matches Some(lowest) && lowest
                >= observation.safety_floor_bytes
            &&& observation.helper_committed_bytes > 0
        }),
{
}

/// An artifact that an envelope binds: its name and its digest.
#[derive(Debug)]
pub struct OwnershipEvidenceArtifact {
    pub label: String,
    pub sha256: String,
}

/// What an envelope proves.
#[derive(Clone, Copy, Debug, PartialEq, Eq, Structural)]
pub enum OwnershipEvidenceScenario {
    ColdWarmLifecycle,
    DeterministicPressureRace,
    RealHostPressureRollback,
}

/// One phase of a scenario, with the artifacts that it binds.
#[derive(Debug)]
pub struct OwnershipEvidencePhase {
    pub kind: OwnershipEvidencePhaseKind,
    pub daemon_start_identity: OwnershipDaemonStartIdentity,
    pub runtime_snapshot: OwnershipEvidenceArtifact,
    pub request_receipt: Option<OwnershipEvidenceArtifact>,
    pub activation_receipt: Option<OwnershipEvidenceArtifact>,
    pub pressure_helper_receipt: Option<OwnershipEvidenceArtifact>,
    pub observation: Option<OwnershipCandidateObservation>,
}

/// An ownership envelope. `artifacts` lists every artifact that it binds.
#[derive(Debug)]
pub struct OwnershipEvidenceEnvelope {
    pub release: OwnershipReleaseBinding,
    pub scenario: OwnershipEvidenceScenario,
    pub artifacts: Vec<OwnershipEvidenceArtifact>,
    pub phases: Vec<OwnershipEvidencePhase>,
}

/// The content of a bound artifact: its bytes, and how the execution core reads
/// them as a request receipt and as an activation receipt.
#[derive(Debug)]
pub struct LoadedArtifact {
    pub bytes: Vec<u8>,
    pub request: RequestDecode,
    pub activation: ActivationDecode,
}

/// Checks what the file system says of an artifact before it is read.
pub fn check_artifact_file(is_regular_file: bool, length: u64) -> (result: Result<
    (),
    OwnershipError,
>)
    ensures
        result == if !is_regular_file {
            Err(OwnershipError::NotRegularFile)
        } else if length > MAX_OWNERSHIP_ARTIFACT_BYTES {
            Err(OwnershipError::FileTooLarge)
        } else {
            Ok(())
        },
{
    if !is_regular_file {
        return Err(OwnershipError::NotRegularFile);
    }
    if length > MAX_OWNERSHIP_ARTIFACT_BYTES {
        return Err(OwnershipError::FileTooLarge);
    }
    Ok(())
}

/// Whether bytes have the digest that a binding names.
pub fn read_bound_artifact(bytes: &[u8], binding: &OwnershipEvidenceArtifact) -> (bound: bool)
    ensures
        bound == (sha256_text(bytes@) == binding.sha256@),
{
    text::same_text(sha256_hex(bytes).as_str(), binding.sha256.as_str())
}

/// The first bound artifact, from the one at `from` on, whose content has another
/// digest.
pub open spec fn hash_fault(
    artifacts: Seq<OwnershipEvidenceArtifact>,
    loaded: Seq<LoadedArtifact>,
    from: int,
) -> Option<OwnershipError>
    decreases artifacts.len() - from,
{
    if from < 0 || from >= artifacts.len() {
        None
    } else if sha256_text(loaded[from].bytes@) != artifacts[from].sha256@ {
        Some(OwnershipError::HashMismatch(from as usize))
    } else {
        hash_fault(artifacts, loaded, from + 1)
    }
}

/// The last of the first `count` bindings with a label; -1 when there is none.
pub open spec fn last_binding(
    artifacts: Seq<OwnershipEvidenceArtifact>,
    label: Seq<char>,
    count: int,
) -> int
    decreases count,
{
    if count <= 0 {
        -1
    } else if artifacts[count - 1].label@ == label {
        count - 1
    } else {
        last_binding(artifacts, label, count - 1)
    }
}

/// The content bound under a label.
pub open spec fn content_of(
    envelope: OwnershipEvidenceEnvelope,
    loaded: Seq<LoadedArtifact>,
    label: Seq<char>,
) -> Option<LoadedArtifact> {
    let at = last_binding(envelope.artifacts@, label, envelope.artifacts@.len() as int);
    if at < 0 {
        None
    } else {
        Some(loaded[at])
    }
}

/// Looks up the content bound under a label.
fn find_content<'a>(
    envelope: &OwnershipEvidenceEnvelope,
    loaded: &'a Vec<LoadedArtifact>,
    label: &str,
) -> (content: Option<&'a LoadedArtifact>)
    requires
        loaded@.len() == envelope.artifacts@.len(),
    ensures
        match content {
            Some(content) => content_of(*envelope, loaded@, label@) == Some(*content),
            None => content_of(*envelope, loaded@, label@) is None,
        },
{
    let mut i: usize = envelope.artifacts.len();
    while i > 0
        invariant
            loaded@.len() == envelope.artifacts@.len(),
            i <= envelope.artifacts@.len(),
            last_binding(envelope.artifacts@, label@, envelope.artifacts@.len() as int)
                == last_binding(envelope.artifacts@, label@, i as int),
        decreases i,
    {
        if text::same_text(envelope.artifacts[i - 1].label.as_str(), label) {
            return Some(&loaded[i - 1]);
        }
        i -= 1;
    }
    None
}

/// What a phase shows: its snapshot, once its request receipt, where it has one,
/// is found to bind the release.
pub open spec fn phase_result(
    envelope: OwnershipEvidenceEnvelope,
    loaded: Seq<LoadedArtifact>,
    phase: OwnershipEvidencePhase,
) -> Result<SnapshotView, OwnershipError> {
    match content_of(envelope, loaded, phase.runtime_snapshot.label@) {
        None => Err(OwnershipError::SnapshotNotLoaded),
        Some(content) => match snapshot_of(
            content.bytes@,
            phase.daemon_start_identity,
            envelope.release.provider@,
        ) {
            Err(error) => Err(error),
            Ok(facts) => match phase.request_receipt {
                None => Ok(facts),
                Some(request) => match content_of(envelope, loaded, request.label@) {
                    None => Err(OwnershipError::RequestNotLoaded),
                    Some(content) => match request_fault(
                        content.request,
                        envelope.release,
                        phase.kind,
                    ) {
                        Some(error) => Err(error),
                        None => Ok(facts),
                    },
                },
            },
        },
    }
}

/// What the first `count` phases show; a later phase of a kind replaces an
/// earlier one.
pub open spec fn phases_after(
    envelope: OwnershipEvidenceEnvelope,
    loaded: Seq<LoadedArtifact>,
    count: nat,
) -> Result<Map<OwnershipEvidencePhaseKind, SnapshotView>, OwnershipError>
    decreases count,
{
    if count == 0 {
        Ok(Map::empty())
    } else {
        match phases_after(envelope, loaded, (count - 1) as nat) {
            Err(error) => Err(error),
            Ok(facts) => {
                let phase = envelope.phases@[count - 1];
                match phase_result(envelope, loaded, phase) {
                    Err(error) => Err(error),
                    Ok(snapshot) => Ok(facts.insert(phase.kind, snapshot)),
                }
            },
        }
    }
}

/// The first phase of a kind at or after `from`; their number when there is none.
pub open spec fn first_phase(
    phases: Seq<OwnershipEvidencePhase>,
    kind: OwnershipEvidencePhaseKind,
    from: int,
) -> int
    decreases phases.len() - from,
{
    if from < 0 || from >= phases.len() {
        phases.len() as int
    } else if phases[from].kind == kind {
        from
    } else {
        first_phase(phases, kind, from + 1)
    }
}

/// The first phase of a kind.
pub open spec fn phase_of(
    envelope: OwnershipEvidenceEnvelope,
    kind: OwnershipEvidencePhaseKind,
) -> Option<OwnershipEvidencePhase> {
    let at = first_phase(envelope.phases@, kind, 0);
    if at < envelope.phases@.len() {
        Some(envelope.phases@[at])
    } else {
        None
    }
}

/// Looks up the first phase of a kind.
fn find_phase(envelope: &OwnershipEvidenceEnvelope, kind: OwnershipEvidencePhaseKind) -> (phase:
    Option<&OwnershipEvidencePhase>)
    ensures
        match phase {
            Some(phase) => phase_of(*envelope, kind) == Some(*phase),
            None => phase_of(*envelope, kind) is None,
        },
{
    let mut i: usize = 0;
    while i < envelope.phases.len()
        invariant
            i <= envelope.phases@.len(),
            first_phase(envelope.phases@, kind, 0) == first_phase(
                envelope.phases@,
                kind,
                i as int,
            ),
        decreases envelope.phases@.len() - i,
    {
        if envelope.phases[i].kind == kind {
            return Some(&envelope.phases[i]);
        }
        i += 1;
    }
    None
}

/// The candidate observation that a rejection is held to: the one made once the
/// facts had changed or the pressure was ready.
pub open spec fn rejection_candidate(
    envelope: OwnershipEvidenceEnvelope,
) -> Option<OwnershipCandidateObservation> {
    let phase = match envelope.scenario {
        OwnershipEvidenceScenario::DeterministicPressureRace => phase_of(
            envelope,
            OwnershipEvidencePhaseKind::FactsChanged,
        ),
        OwnershipEvidenceScenario::RealHostPressureRollback => phase_of(
            envelope,
            OwnershipEvidencePhaseKind::PressureReady,
        ),
        OwnershipEvidenceScenario::ColdWarmLifecycle => None,
    };
    match phase {
        Some(phase) => phase.observation,
        None => None,
    }
}

/// Why the activation rejection of an envelope is refused.
pub open spec fn rejection_fault(
    envelope: OwnershipEvidenceEnvelope,
    loaded: Seq<LoadedArtifact>,
) -> Option<OwnershipError> {
    match phase_of(envelope, OwnershipEvidencePhaseKind::ActivationRejected) {
        None => None,
        Some(phase) => if phase.activation_receipt is None {
            Some(OwnershipError::ActivationWithoutReceipt)
        } else if rejection_candidate(envelope) is None {
            Some(OwnershipError::NoCandidate)
        } else {
            match content_of(envelope, loaded, phase.activation_receipt->0.label@) {
                None => Some(OwnershipError::ActivationNotLoaded),
                Some(content) => activation_fault(
                    content.activation,
                    envelope.release,
                    rejection_candidate(envelope)->0,
                    phase.daemon_start_identity,
                ),
            }
        },
    }
}

/// Whether two bindings name the same artifact and digest.
pub open spec fn same_binding(a: OwnershipEvidenceArtifact, b: OwnershipEvidenceArtifact) -> bool {
    a.label@ == b.label@ && a.sha256@ == b.sha256@
}

/// Why the helper trace of an envelope is refused.
pub open spec fn pressure_fault(
    envelope: OwnershipEvidenceEnvelope,
    loaded: Seq<LoadedArtifact>,
) -> Option<OwnershipError> {
    let ready = phase_of(envelope, OwnershipEvidencePhaseKind::PressureReady);
    let released = phase_of(envelope, OwnershipEvidencePhaseKind::PressureReleased);
    if envelope.scenario != OwnershipEvidenceScenario::RealHostPressureRollback {
        None
    } else if ready is None {
        Some(OwnershipError::NoReadyPhase)
    } else if released is None {
        Some(OwnershipError::NoReleasedPhase)
    } else if ready->0.pressure_helper_receipt is None {
        Some(OwnershipError::ReadyWithoutHelper)
    } else if released->0.pressure_helper_receipt is None {
        Some(OwnershipError::ReleasedWithoutHelper)
    } else if !same_binding(
        ready->0.pressure_helper_receipt->0,
        released->0.pressure_helper_receipt->0,
    ) {
        Some(OwnershipError::HelperBindingsDiffer)
    } else {
        match content_of(envelope, loaded, ready->0.pressure_helper_receipt->0.label@) {
            None => Some(OwnershipError::HelperNotLoaded),
            Some(content) => if ready->0.observation is None {
                Some(OwnershipError::ReadyWithoutObservation)
            } else {
                helper_trace_fault(content.bytes@, ready->0.observation->0)
            },
        }
    }
}

/// Why the live owners are not the same in all of the phases from the one at
/// `from` on as in the first.
pub open spec fn live_state_fault(
    facts: Map<OwnershipEvidencePhaseKind, SnapshotView>,
    kinds: Seq<OwnershipEvidencePhaseKind>,
    from: int,
) -> Option<OwnershipError>
    decreases kinds.len() - from,
{
    if from < 0 || from >= kinds.len() {
        None
    } else if !facts.contains_key(kinds[from]) {
        Some(OwnershipError::PhaseMissing(kinds[from]))
    } else if from > 0 && !json::same_value(
        facts[kinds[from]].live_owners,
        facts[kinds[0]].live_owners,
    ) {
        Some(OwnershipError::LiveStateChanged)
    } else {
        live_state_fault(facts, kinds, from + 1)
    }
}

/// The phases across which a scenario protects the live owners.
pub open spec fn protected_phases(scenario: OwnershipEvidenceScenario) -> Seq<
    OwnershipEvidencePhaseKind,
> {
    match scenario {
        OwnershipEvidenceScenario::ColdWarmLifecycle => seq![],
        OwnershipEvidenceScenario::DeterministicPressureRace => seq![
            OwnershipEvidencePhaseKind::BaselineAdmissible,
            OwnershipEvidencePhaseKind::ForecastSucceeded,
            OwnershipEvidencePhaseKind::FactsChanged,
            OwnershipEvidencePhaseKind::ActivationRejected,
            OwnershipEvidencePhaseKind::OldRuntimeTranscribed,
            OwnershipEvidencePhaseKind::Reconciled,
            OwnershipEvidencePhaseKind::Recovered,
        ],
        OwnershipEvidenceScenario::RealHostPressureRollback => seq![
            OwnershipEvidencePhaseKind::OldRuntimeActive,
            OwnershipEvidencePhaseKind::PressureReady,
            OwnershipEvidencePhaseKind::ActivationRejected,
            OwnershipEvidencePhaseKind::OldRuntimeTranscribed,
            OwnershipEvidencePhaseKind::Reconciled,
            OwnershipEvidencePhaseKind::PressureReleased,
            OwnershipEvidencePhaseKind::Recovered,
        ],
    }
}

/// Whether snapshots show that a warm request reused the cold one's owners, that
/// something was released and that the release was reconciled.
pub open spec fn lifecycle_is_proven(
    cold: SnapshotView,
    warm: SnapshotView,
    released: SnapshotView,
    reconciled: SnapshotView,
) -> bool {
    &&& json::same_value(cold.live_owners, warm.live_owners)
    &&& cold.has_release_provider
    &&& warm.has_release_provider
    &&& (released.live_owner_count < cold.live_owner_count || released.retained_bytes
        < cold.retained_bytes)
    &&& json::same_value(released.live_owners, reconciled.live_owners)
}

/// Why the snapshots of a scenario do not follow each other as it demands.
pub open spec fn transitions_fault(
    scenario: OwnershipEvidenceScenario,
    facts: Map<OwnershipEvidencePhaseKind, SnapshotView>,
) -> Option<OwnershipError> {
    match scenario {
        OwnershipEvidenceScenario::ColdWarmLifecycle => if !facts.contains_key(
            OwnershipEvidencePhaseKind::ColdRequestCompleted,
        ) {
            Some(OwnershipError::PhaseMissing(OwnershipEvidencePhaseKind::ColdRequestCompleted))
        } else if !facts.contains_key(OwnershipEvidencePhaseKind::WarmRequestCompleted) {
            Some(OwnershipError::PhaseMissing(OwnershipEvidencePhaseKind::WarmRequestCompleted))
        } else if !facts.contains_key(OwnershipEvidencePhaseKind::OwnerReleased) {
            Some(OwnershipError::PhaseMissing(OwnershipEvidencePhaseKind::OwnerReleased))
        } else if !facts.contains_key(OwnershipEvidencePhaseKind::Reconciled) {
            Some(OwnershipError::PhaseMissing(OwnershipEvidencePhaseKind::Reconciled))
        } else if !lifecycle_is_proven(
            facts[OwnershipEvidencePhaseKind::ColdRequestCompleted],
            facts[OwnershipEvidencePhaseKind::WarmRequestCompleted],
            facts[OwnershipEvidencePhaseKind::OwnerReleased],
            facts[OwnershipEvidencePhaseKind::Reconciled],
        ) {
            Some(OwnershipError::LifecycleUnproven)
        } else {
            None
        },
        _ => match live_state_fault(facts, protected_phases(scenario), 0) {
            Some(error) => Some(error),
            None => if !facts[OwnershipEvidencePhaseKind::OldRuntimeTranscribed].has_release_provider {
                Some(OwnershipError::NoReleaseOwner)
            } else {
                None
            },
        },
    }
}

/// The labels of the first `count` bindings.
pub open spec fn labels(artifacts: Seq<OwnershipEvidenceArtifact>, count: nat) -> Set<Seq<char>>
    decreases count,
{
    if count == 0 {
        Set::empty()
    } else {
        labels(artifacts, (count - 1) as nat).insert(artifacts[count - 1].label@)
    }
}

/// Whether the artifacts of an envelope bear out what it claims: the number of
/// distinct artifacts, or why not.
pub open spec fn envelope_result(
    envelope: OwnershipEvidenceEnvelope,
    loaded: Seq<LoadedArtifact>,
) -> Result<nat, OwnershipError> {
    match hash_fault(envelope.artifacts@, loaded, 0) {
        Some(error) => Err(error),
        None => match phases_after(envelope, loaded, envelope.phases@.len()) {
            Err(error) => Err(error),
            Ok(facts) => if rejection_fault(envelope, loaded) is Some {
                Err(rejection_fault(envelope, loaded)->0)
            } else if pressure_fault(envelope, loaded) is Some {
                Err(pressure_fault(envelope, loaded)->0)
            } else if transitions_fault(envelope.scenario, facts) is Some {
                Err(transitions_fault(envelope.scenario, facts)->0)
            } else {
                Ok(labels(envelope.artifacts@, envelope.artifacts@.len()).len())
            },
        },
    }
}

/// What the snapshots of a table show.
pub open spec fn facts_view(
    facts: Table<OwnershipEvidencePhaseKind, RuntimeSnapshotFacts>,
) -> Map<OwnershipEvidencePhaseKind, SnapshotView> {
    facts.map().map_values(|facts: RuntimeSnapshotFacts| facts@)
}

/// The snapshot of a phase that must be there.
pub fn phase_facts(
    facts: &Table<OwnershipEvidencePhaseKind, RuntimeSnapshotFacts>,
    kind: OwnershipEvidencePhaseKind,
) -> (found: Result<&RuntimeSnapshotFacts, OwnershipError>)
    requires
        facts.wf(),
    ensures
        match found {
            Ok(found) => facts_view(*facts).contains_key(kind) && found@ == facts_view(*facts)[kind],
            Err(error) => !facts_view(*facts).contains_key(kind) && error
                == OwnershipError::PhaseMissing(kind),
        },
{
    match facts.get(&kind) {
        Some(found) => Ok(found),
        None => Err(OwnershipError::PhaseMissing(kind)),
    }
}

/// Whether two snapshots show the same live owners.
fn same_owners(left: &RuntimeSnapshotFacts, right: &RuntimeSnapshotFacts) -> (same: bool)
    ensures
        same == json::same_value(left@.live_owners, right@.live_owners),
{
    same_member(&left.snapshot, &right.snapshot, "live_owners")
}

/// Checks that the live owners are the same in all of these phases.
pub fn require_same_live_state(
    facts: &Table<OwnershipEvidencePhaseKind, RuntimeSnapshotFacts>,
    kinds: &[OwnershipEvidencePhaseKind],
) -> (result: Result<(), OwnershipError>)
    requires
        facts.wf(),
        kinds@.len() > 0,
    ensures
        result == unless(live_state_fault(facts_view(*facts), kinds@, 0)),
{
    let first = match phase_facts(facts, kinds[0]) {
        Ok(first) => first,
        Err(error) => {
            return Err(error);
        },
    };
    let mut i: usize = 1;
    while i < kinds.len()
        invariant
            facts.wf(),
            1 <= i <= kinds@.len(),
            facts_view(*facts).contains_key(kinds@[0]),
            first@ == facts_view(*facts)[kinds@[0]],
            live_state_fault(facts_view(*facts), kinds@, 0) == live_state_fault(
                facts_view(*facts),
                kinds@,
                i as int,
            ),
        decreases kinds@.len() - i,
    {
        match phase_facts(facts, kinds[i]) {
            Ok(found) => {
                if !same_owners(found, first) {
                    return Err(OwnershipError::LiveStateChanged);
                }
            },
            Err(error) => {
                return Err(error);
            },
        }
        i += 1;
    }
    Ok(())
}

proof fn lemma_live_state_covers(
    facts: Map<OwnershipEvidencePhaseKind, SnapshotView>,
    kinds: Seq<OwnershipEvidencePhaseKind>,
    from: int,
    at: int,
)
    requires
        0 <= from <= at < kinds.len(),
        live_state_fault(facts, kinds, from) is None,
    ensures
        facts.contains_key(kinds[at]),
        at > 0 ==> json::same_value(facts[kinds[at]].live_owners, facts[kinds[0]].live_owners),
    decreases at - from,
{
    if from < at {
        lemma_live_state_covers(facts, kinds, from + 1, at);
    }
}

/// Checks that the snapshots of a scenario follow each other as it demands.
pub fn validate_snapshot_transitions(
    scenario: OwnershipEvidenceScenario,
    facts: &Table<OwnershipEvidencePhaseKind, RuntimeSnapshotFacts>,
) -> (result: Result<(), OwnershipError>)
    requires
        facts.wf(),
    ensures
        result == unless(transitions_fault(scenario, facts_view(*facts))),
{
    match scenario {
        OwnershipEvidenceScenario::ColdWarmLifecycle => {
            let cold = match phase_facts(facts, OwnershipEvidencePhaseKind::ColdRequestCompleted) {
                Ok(found) => found,
                Err(error) => {
                    return Err(error);
                },
            };
            let warm = match phase_facts(facts, OwnershipEvidencePhaseKind::WarmRequestCompleted) {
                Ok(found) => found,
                Err(error) => {
                    return Err(error);
                },
            };
            let released = match phase_facts(facts, OwnershipEvidencePhaseKind::OwnerReleased) {
                Ok(found) => found,
                Err(error) => {
                    return Err(error);
                },
            };
            let reconciled = match phase_facts(facts, OwnershipEvidencePhaseKind::Reconciled) {
                Ok(found) => found,
                Err(error) => {
                    return Err(error);
                },
            };
            if !same_owners(cold, warm) || !cold.has_release_provider || !warm.has_release_provider
                || (released.live_owner_count >= cold.live_owner_count && released.retained_bytes
                >= cold.retained_bytes) || !same_owners(released, reconciled) {
                return Err(OwnershipError::LifecycleUnproven);
            }
            Ok(())
        },
        OwnershipEvidenceScenario::DeterministicPressureRace => {
            let kinds: [OwnershipEvidencePhaseKind; 7] = [
                OwnershipEvidencePhaseKind::BaselineAdmissible,
                OwnershipEvidencePhaseKind::ForecastSucceeded,
                OwnershipEvidencePhaseKind::FactsChanged,
                OwnershipEvidencePhaseKind::ActivationRejected,
                OwnershipEvidencePhaseKind::OldRuntimeTranscribed,
                OwnershipEvidencePhaseKind::Reconciled,
                OwnershipEvidencePhaseKind::Recovered,
            ];
            assert(kinds@ =~= protected_phases(scenario));
            check_protected(facts, &kinds, 4)
        },
        OwnershipEvidenceScenario::RealHostPressureRollback => {
            let kinds: [OwnershipEvidencePhaseKind; 7] = [
                OwnershipEvidencePhaseKind::OldRuntimeActive,
                OwnershipEvidencePhaseKind::PressureReady,
                OwnershipEvidencePhaseKind::ActivationRejected,
                OwnershipEvidencePhaseKind::OldRuntimeTranscribed,
                OwnershipEvidencePhaseKind::Reconciled,
                OwnershipEvidencePhaseKind::PressureReleased,
                OwnershipEvidencePhaseKind::Recovered,
            ];
            assert(kinds@ =~= protected_phases(scenario));
            check_protected(facts, &kinds, 3)
        },
    }
}

/// Checks that the live owners are the same in all of these phases and that the
/// one at `at` shows an owner of the release provider.
fn check_protected(
    facts: &Table<OwnershipEvidencePhaseKind, RuntimeSnapshotFacts>,
    kinds: &[OwnershipEvidencePhaseKind],
    at: usize,
) -> (result: Result<(), OwnershipError>)
    requires
        facts.wf(),
        at < kinds@.len(),
    ensures
        result == unless(
            (match live_state_fault(facts_view(*facts), kinds@, 0) {
                Some(error) => Some(error),
                None => if !facts_view(*facts)[kinds@[at as int]].has_release_provider {
                    Some(OwnershipError::NoReleaseOwner)
                } else {
                    None
                },
            }),
        ),
{
    match require_same_live_state(facts, kinds) {
        Ok(_) => {},
        Err(error) => {
            return Err(error);
        },
    }
    proof {
        lemma_live_state_covers(facts_view(*facts), kinds@, 0, at as int);
    }
    match phase_facts(facts, kinds[at]) {
        Ok(found) => {
            if !found.has_release_provider {
                return Err(OwnershipError::NoReleaseOwner);
            }
            Ok(())
        },
        Err(error) => Err(error),
    }
}

/// In an accepted pressure scenario every protected phase shows the live owners
/// of the first, so a rejected activation left the old runtime as it was.
pub proof fn law_rejection_keeps_the_old_runtime(
    scenario: OwnershipEvidenceScenario,
    facts: Map<OwnershipEvidencePhaseKind, SnapshotView>,
    at: int,
)
    requires
        scenario != OwnershipEvidenceScenario::ColdWarmLifecycle,
        transitions_fault(scenario, facts) is None,
        0 < at < protected_phases(scenario).len(),
    ensures
        facts.contains_key(protected_phases(scenario)[at]),
        json::same_value(
            facts[protected_phases(scenario)[at]].live_owners,
            facts[protected_phases(scenario)[0]].live_owners,
        ),
        facts[OwnershipEvidencePhaseKind::OldRuntimeTranscribed].has_release_provider,
{
    lemma_live_state_covers(facts, protected_phases(scenario), 0, at);
}

proof fn lemma_phases_stay_refused(
    envelope: OwnershipEvidenceEnvelope,
    loaded: Seq<LoadedArtifact>,
    from: nat,
    to: nat,
)
    requires
        from <= to,
        phases_after(envelope, loaded, from) is Err,
    ensures
        phases_after(envelope, loaded, to) == phases_after(envelope, loaded, from),
    decreases to,
{
    if from < to {
        lemma_phases_stay_refused(envelope, loaded, from, (to - 1) as nat);
    }
}

/// Reads what a phase shows.
fn read_phase(
    envelope: &OwnershipEvidenceEnvelope,
    loaded: &Vec<LoadedArtifact>,
    phase: &OwnershipEvidencePhase,
) -> (facts: Result<RuntimeSnapshotFacts, OwnershipError>)
    requires
        loaded@.len() == envelope.artifacts@.len(),
    ensures
        match facts {
            Ok(facts) => phase_result(*envelope, loaded@, *phase) == Ok::<
                SnapshotView,
                OwnershipError,
            >(facts@),
            Err(error) => phase_result(*envelope, loaded@, *phase) == Err::<
                SnapshotView,
                OwnershipError,
            >(error),
        },
{
    let facts = match find_content(envelope, loaded, phase.runtime_snapshot.label.as_str()) {
        None => {
            return Err(OwnershipError::SnapshotNotLoaded);
        },
        Some(content) => match validate_runtime_snapshot(
            content.bytes.as_slice(),
            &phase.daemon_start_identity,
            envelope.release.provider.as_str(),
        ) {
            Ok(facts) => facts,
            Err(error) => {
                return Err(error);
            },
        },
    };
    if let Some(request) = &phase.request_receipt {
        match find_content(envelope, loaded, request.label.as_str()) {
            None => {
                return Err(OwnershipError::RequestNotLoaded);
            },
            Some(content) => {
                match validate_request_receipt(&content.request, &envelope.release, phase.kind) {
                    Ok(_) => {},
                    Err(error) => {
                        return Err(error);
                    },
                }
            },
        }
    }
    Ok(facts)
}

/// Reads what the phases of an envelope show.
fn read_phases(envelope: &OwnershipEvidenceEnvelope, loaded: &Vec<LoadedArtifact>) -> (result:
    Result<Table<OwnershipEvidencePhaseKind, RuntimeSnapshotFacts>, OwnershipError>)
    requires
        loaded@.len() == envelope.artifacts@.len(),
    ensures
        match result {
            Ok(facts) => facts.wf() && phases_after(
                *envelope,
                loaded@,
                envelope.phases@.len(),
            ) == Ok::<Map<OwnershipEvidencePhaseKind, SnapshotView>, OwnershipError>(
                facts_view(facts),
            ),
            Err(error) => phases_after(*envelope, loaded@, envelope.phases@.len()) == Err::<
                Map<OwnershipEvidencePhaseKind, SnapshotView>,
                OwnershipError,
            >(error),
        },
{
    let mut facts: Table<OwnershipEvidencePhaseKind, RuntimeSnapshotFacts> = Table::new();
    assert(facts_view(facts) =~= Map::<OwnershipEvidencePhaseKind, SnapshotView>::empty());
    let mut i: usize = 0;
    while i < envelope.phases.len()
        invariant
            loaded@.len() == envelope.artifacts@.len(),
            i <= envelope.phases@.len(),
            facts.wf(),
            phases_after(*envelope, loaded@, i as nat) == Ok::<
                Map<OwnershipEvidencePhaseKind, SnapshotView>,
                OwnershipError,
            >(facts_view(facts)),
        decreases envelope.phases@.len() - i,
    {
        let ghost before = facts_view(facts);
        match read_phase(envelope, loaded, &envelope.phases[i]) {
            Ok(found) => {
                let kind = envelope.phases[i].kind;
                let ghost shown = found@;
                facts.insert(kind, found);
                assert(facts_view(facts) =~= before.insert(kind, shown));
            },
            Err(error) => {
                proof {
                    assert(phases_after(*envelope, loaded@, (i + 1) as nat) == Err::<
                        Map<OwnershipEvidencePhaseKind, SnapshotView>,
                        OwnershipError,
                    >(error));
                    lemma_phases_stay_refused(
                        *envelope,
                        loaded@,
                        (i + 1) as nat,
                        envelope.phases@.len(),
                    );
                }
                return Err(error);
            },
        }
        i += 1;
    }
    Ok(facts)
}

/// Checks the activation rejection of an envelope.
fn check_rejection(envelope: &OwnershipEvidenceEnvelope, loaded: &Vec<LoadedArtifact>) -> (result:
    Result<(), OwnershipError>)
    requires
        loaded@.len() == envelope.artifacts@.len(),
    ensures
        result == unless(rejection_fault(*envelope, loaded@)),
{
    let phase = match find_phase(envelope, OwnershipEvidencePhaseKind::ActivationRejected) {
        Some(phase) => phase,
        None => {
            return Ok(());
        },
    };
    let activation = match &phase.activation_receipt {
        Some(activation) => activation,
        None => {
            return Err(OwnershipError::ActivationWithoutReceipt);
        },
    };
    let source = match envelope.scenario {
        OwnershipEvidenceScenario::DeterministicPressureRace => find_phase(
            envelope,
            OwnershipEvidencePhaseKind::FactsChanged,
        ),
        OwnershipEvidenceScenario::RealHostPressureRollback => find_phase(
            envelope,
            OwnershipEvidencePhaseKind::PressureReady,
        ),
        OwnershipEvidenceScenario::ColdWarmLifecycle => None,
    };
    let candidate = match source {
        Some(source) => match &source.observation {
            Some(candidate) => candidate,
            None => {
                return Err(OwnershipError::NoCandidate);
            },
        },
        None => {
            return Err(OwnershipError::NoCandidate);
        },
    };
    match find_content(envelope, loaded, activation.label.as_str()) {
        None => Err(OwnershipError::ActivationNotLoaded),
        Some(content) => validate_activation_receipt(
            &content.activation,
            &envelope.release,
            candidate,
            &phase.daemon_start_identity,
        ),
    }
}

/// Checks the helper trace of an envelope.
fn check_pressure(envelope: &OwnershipEvidenceEnvelope, loaded: &Vec<LoadedArtifact>) -> (result:
    Result<(), OwnershipError>)
    requires
        loaded@.len() == envelope.artifacts@.len(),
    ensures
        result == unless(pressure_fault(*envelope, loaded@)),
{
    if envelope.scenario != OwnershipEvidenceScenario::RealHostPressureRollback {
        return Ok(());
    }
    let ready = match find_phase(envelope, OwnershipEvidencePhaseKind::PressureReady) {
        Some(ready) => ready,
        None => {
            return Err(OwnershipError::NoReadyPhase);
        },
    };
    let released = match find_phase(envelope, OwnershipEvidencePhaseKind::PressureReleased) {
        Some(released) => released,
        None => {
            return Err(OwnershipError::NoReleasedPhase);
        },
    };
    let ready_binding = match &ready.pressure_helper_receipt {
        Some(binding) => binding,
        None => {
            return Err(OwnershipError::ReadyWithoutHelper);
        },
    };
    let released_binding = match &released.pressure_helper_receipt {
        Some(binding) => binding,
        None => {
            return Err(OwnershipError::ReleasedWithoutHelper);
        },
    };
    if !text::same_text(ready_binding.label.as_str(), released_binding.label.as_str())
        || !text::same_text(ready_binding.sha256.as_str(), released_binding.sha256.as_str()) {
        return Err(OwnershipError::HelperBindingsDiffer);
    }
    let content = match find_content(envelope, loaded, ready_binding.label.as_str()) {
        Some(content) => content,
        None => {
            return Err(OwnershipError::HelperNotLoaded);
        },
    };
    match &ready.observation {
        Some(observation) => validate_pressure_helper_trace(content.bytes.as_slice(), observation),
        None => Err(OwnershipError::ReadyWithoutObservation),
    }
}

/// Counts the distinct labels of the bindings of an envelope.
fn count_labels(artifacts: &Vec<OwnershipEvidenceArtifact>) -> (count: usize)
    ensures
        count == labels(artifacts@, artifacts@.len()).len(),
        count <= artifacts@.len(),
{
    let mut count: usize = 0;
    let mut i: usize = 0;
    while i < artifacts.len()
        invariant
            i <= artifacts@.len(),
            count <= i,
            labels(artifacts@, i as nat).finite(),
            count == labels(artifacts@, i as nat).len(),
            forall|label: Seq<char>| #[trigger]
                labels(artifacts@, i as nat).contains(label) <==> exists|k: int|
                    0 <= k < i && (#[trigger] artifacts@[k]).label@ == label,
        decreases artifacts@.len() - i,
    {
        let ghost label = artifacts@[i as int].label@;
        let mut seen = false;
        let mut j: usize = 0;
        while j < i
            invariant
                i < artifacts@.len(),
                j <= i,
                label == artifacts@[i as int].label@,
                seen == exists|k: int| 0 <= k < j && (#[trigger] artifacts@[k]).label@ == label,
            decreases i - j,
        {
            if text::same_text(artifacts[j].label.as_str(), artifacts[i].label.as_str()) {
                seen = true;
            }
            j += 1;
        }
        if !seen {
            count += 1;
        }
        proof {
            let before = labels(artifacts@, i as nat);
            let after = labels(artifacts@, (i + 1) as nat);
            assert(seen == before.contains(label));
            assert forall|other: Seq<char>| #[trigger] after.contains(other) <==> exists|k: int|
                0 <= k < i + 1 && (#[trigger] artifacts@[k]).label@ == other by {
                if before.contains(other) {
                    let k = choose|k: int| 0 <= k < i && (#[trigger] artifacts@[k]).label@ == other;
                    assert(0 <= k < i + 1 && artifacts@[k].label@ == other);
                }
                if exists|k: int| 0 <= k < i + 1 && (#[trigger] artifacts@[k]).label@ == other {
                    let k = choose|k: int|
                        0 <= k < i + 1 && (#[trigger] artifacts@[k]).label@ == other;
                    if k < i {
                        assert(before.contains(other));
                    }
                }
            }
        }
        i += 1;
    }
    count
}

/// The first artifact, from one on, whose digest is not the one that is bound.
pub open spec fn digest_fault(
    artifacts: Seq<OwnershipEvidenceArtifact>,
    digests: Seq<Seq<char>>,
    from: int,
) -> Option<OwnershipError>
    decreases artifacts.len() - from,
{
    if from < 0 || from >= artifacts.len() {
        None
    } else if digests[from] != artifacts[from].sha256@ {
        Some(OwnershipError::HashMismatch(from as usize))
    } else {
        digest_fault(artifacts, digests, from + 1)
    }
}

proof fn lemma_same_fault(
    artifacts: Seq<OwnershipEvidenceArtifact>,
    loaded: Seq<LoadedArtifact>,
    digests: Seq<Seq<char>>,
    from: int,
)
    requires
        0 <= from,
        artifacts.len() == loaded.len() == digests.len(),
        forall|k: int| 0 <= k < digests.len() ==> #[trigger] digests[k] == sha256_text(
            loaded[k].bytes@,
        ),
    ensures
        digest_fault(artifacts, digests, from) == hash_fault(artifacts, loaded, from),
    decreases artifacts.len() - from,
{
    if from < artifacts.len() {
        lemma_same_fault(artifacts, loaded, digests, from + 1);
    }
}

/// Checks that artifacts have the digests that are bound, and names the first that
/// has not.
pub fn check_digests(artifacts: &Vec<OwnershipEvidenceArtifact>, digests: &Vec<String>) -> (result:
    Result<(), OwnershipError>)
    requires
        digests@.len() == artifacts@.len(),
    ensures
        result == (match digest_fault(artifacts@, text::texts(digests@), 0) {
            Some(error) => Err::<(), OwnershipError>(error),
            None => Ok(()),
        }),
{
    let mut i: usize = 0;
    while i < artifacts.len()
        invariant
            digests@.len() == artifacts@.len(),
            i <= artifacts@.len(),
            digest_fault(artifacts@, text::texts(digests@), 0) == digest_fault(
                artifacts@,
                text::texts(digests@),
                i as int,
            ),
        decreases artifacts@.len() - i,
    {
        assert(text::texts(digests@)[i as int] == digests@[i as int]@);
        if !text::same_text(digests[i].as_str(), artifacts[i].sha256.as_str()) {
            return Err(OwnershipError::HashMismatch(i));
        }
        i += 1;
    }
    Ok(())
}

/// Checks that the artifacts of an envelope bear out what it claims, and counts
/// them. `loaded` holds the content of each artifact that the envelope binds, in
/// its order.
pub fn validate_envelope_artifacts(
    envelope: &OwnershipEvidenceEnvelope,
    loaded: &Vec<LoadedArtifact>,
) -> (count: Result<usize, OwnershipError>)
    requires
        loaded@.len() == envelope.artifacts@.len(),
    ensures
        match count {
            Ok(count) => envelope_result(*envelope, loaded@) == Ok::<nat, OwnershipError>(
                count as nat,
            ) && count <= envelope.artifacts@.len(),
            Err(error) => envelope_result(*envelope, loaded@) == Err::<nat, OwnershipError>(error),
        },
{
    let mut digests: Vec<String> = Vec::new();
    let mut i: usize = 0;
    while i < loaded.len()
        invariant
            i <= loaded@.len(),
            digests@.len() == i,
            forall|k: int|
                0 <= k < i ==> (#[trigger] digests@[k])@ == sha256_text(loaded@[k].bytes@),
        decreases loaded@.len() - i,
    {
        digests.push(sha256_hex(loaded[i].bytes.as_slice()));
        i += 1;
    }
    proof {
        lemma_same_fault(envelope.artifacts@, loaded@, text::texts(digests@), 0);
    }
    match check_digests(&envelope.artifacts, &digests) {
        Ok(_) => {},
        Err(error) => {
            return Err(error);
        },
    }
    let facts = match read_phases(envelope, loaded) {
        Ok(facts) => facts,
        Err(error) => {
            return Err(error);
        },
    };
    match check_rejection(envelope, loaded) {
        Ok(_) => {},
        Err(error) => {
            return Err(error);
        },
    }
    match check_pressure(envelope, loaded) {
        Ok(_) => {},
        Err(error) => {
            return Err(error);
        },
    }
    match validate_snapshot_transitions(envelope.scenario, &facts) {
        Ok(_) => {},
        Err(error) => {
            return Err(error);
        },
    }
    Ok(count_labels(&envelope.artifacts))
}

/// Every artifact that an accepted envelope binds has the digest that it names.
pub proof fn law_accepted_artifacts_have_their_digest(
    envelope: OwnershipEvidenceEnvelope,
    loaded: Seq<LoadedArtifact>,
    at: int,
)
    requires
        envelope_result(envelope, loaded) is Ok,
        0 <= at < envelope.artifacts@.len(),
    ensures
        sha256_text(loaded[at].bytes@) == envelope.artifacts@[at].sha256@,
{
    lemma_hashes_cover(envelope.artifacts@, loaded, 0, at);
}

proof fn lemma_hashes_cover(
    artifacts: Seq<OwnershipEvidenceArtifact>,
    loaded: Seq<LoadedArtifact>,
    from: int,
    at: int,
)
    requires
        0 <= from <= at < artifacts.len(),
        hash_fault(artifacts, loaded, from) is None,
    ensures
        sha256_text(loaded[at].bytes@) == artifacts[at].sha256@,
    decreases at - from,
{
    if from < at {
        lemma_hashes_cover(artifacts, loaded, from + 1, at);
    }
}

/// Checks where an envelope file lies: it must have a name, and be a direct child
/// of the artifact directory.
pub fn check_envelope_path(has_name: bool, is_direct_child: bool) -> (result: Result<
    (),
    OwnershipError,
>)
    ensures
        result == if !has_name {
            Err(OwnershipError::EnvelopeWithoutName)
        } else if !is_direct_child {
            Err(OwnershipError::EnvelopeNotChild)
        } else {
            Ok(())
        },
{
    if !has_name {
        return Err(OwnershipError::EnvelopeWithoutName);
    }
    if !is_direct_child {
        return Err(OwnershipError::EnvelopeNotChild);
    }
    Ok(())
}

/// Checks the directory of a bundle and the number of its envelopes: one for a
/// diagnosis, or one for each of the three scenarios.
pub fn check_bundle_shape(is_real_directory: bool, envelope_count: usize) -> (result: Result<
    (),
    OwnershipError,
>)
    ensures
        result == if !is_real_directory {
            Err(OwnershipError::NotADirectory)
        } else if envelope_count != 1 && envelope_count != 3 {
            Err(OwnershipError::EnvelopeCount)
        } else {
            Ok(())
        },
{
    if !is_real_directory {
        return Err(OwnershipError::NotADirectory);
    }
    if envelope_count != 1 && envelope_count != 3 {
        return Err(OwnershipError::EnvelopeCount);
    }
    Ok(())
}

/// An envelope with the content of its artifacts.
#[derive(Debug)]
pub struct LoadedEnvelope {
    pub envelope: OwnershipEvidenceEnvelope,
    pub artifacts: Vec<LoadedArtifact>,
}

/// Whether every artifact that an envelope binds was loaded.
pub open spec fn is_loaded(item: LoadedEnvelope) -> bool {
    item.artifacts@.len() == item.envelope.artifacts@.len()
}

/// Whether all envelopes are for the release cell of the first.
pub open spec fn releases_agree(items: Seq<LoadedEnvelope>) -> bool {
    forall|i: int|
        0 <= i < items.len() ==> same_release(
            (#[trigger] items[i]).envelope.release,
            items[0].envelope.release,
        )
}

/// Whether some envelope has a scenario.
pub open spec fn has_scenario(
    items: Seq<LoadedEnvelope>,
    scenario: OwnershipEvidenceScenario,
) -> bool {
    exists|i: int| 0 <= i < items.len() && (#[trigger] items[i]).envelope.scenario == scenario
}

/// The artifacts of the first `count` envelopes, counted, or why one of them is
/// refused.
pub open spec fn bundle_after(items: Seq<LoadedEnvelope>, count: nat) -> Result<nat, OwnershipError>
    decreases count,
{
    if count == 0 {
        Ok(0)
    } else {
        match bundle_after(items, (count - 1) as nat) {
            Err(error) => Err(error),
            Ok(total) => match envelope_result(
                items[count - 1].envelope,
                items[count - 1].artifacts@,
            ) {
                Err(error) => Err(error),
                Ok(added) => Ok(total + added),
            },
        }
    }
}

/// The number of artifacts that the first `count` envelopes bind.
pub open spec fn bound_artifacts(items: Seq<LoadedEnvelope>, count: nat) -> nat
    decreases count,
{
    if count == 0 {
        0
    } else {
        bound_artifacts(items, (count - 1) as nat) + items[count - 1].envelope.artifacts@.len()
    }
}

/// Why the envelopes of a bundle are refused together, whatever they bind.
pub open spec fn bundle_fault(items: Seq<LoadedEnvelope>) -> Option<OwnershipError> {
    if items.len() != 1 && items.len() != 3 {
        Some(OwnershipError::EnvelopeCount)
    } else if !releases_agree(items) {
        Some(OwnershipError::ReleasesDiffer)
    } else if items.len() == 3 && !(has_scenario(
        items,
        OwnershipEvidenceScenario::ColdWarmLifecycle,
    ) && has_scenario(items, OwnershipEvidenceScenario::DeterministicPressureRace) && has_scenario(
        items,
        OwnershipEvidenceScenario::RealHostPressureRollback,
    )) {
        Some(OwnershipError::ScenariosIncomplete)
    } else {
        None
    }
}

/// Whether a bundle is accepted and with how many artifacts, or why not.
pub open spec fn bundle_result(items: Seq<LoadedEnvelope>) -> Result<nat, OwnershipError> {
    match bundle_fault(items) {
        Some(error) => Err(error),
        None => bundle_after(items, items.len()),
    }
}

/// Whether some envelope has a scenario.
fn find_scenario(items: &Vec<LoadedEnvelope>, scenario: OwnershipEvidenceScenario) -> (found: bool)
    ensures
        found == has_scenario(items@, scenario),
{
    let mut i: usize = 0;
    while i < items.len()
        invariant
            i <= items@.len(),
            forall|k: int| 0 <= k < i ==> (#[trigger] items@[k]).envelope.scenario != scenario,
        decreases items@.len() - i,
    {
        if items[i].envelope.scenario == scenario {
            return true;
        }
        i += 1;
    }
    false
}

proof fn lemma_bundle_stays_refused(items: Seq<LoadedEnvelope>, from: nat, to: nat)
    requires
        from <= to,
        bundle_after(items, from) is Err,
    ensures
        bundle_after(items, to) == bundle_after(items, from),
    decreases to,
{
    if from < to {
        lemma_bundle_stays_refused(items, from, (to - 1) as nat);
    }
}

proof fn lemma_bound_artifacts_grow(items: Seq<LoadedEnvelope>, from: nat, to: nat)
    requires
        from <= to,
    ensures
        bound_artifacts(items, from) <= bound_artifacts(items, to),
    decreases to,
{
    if from < to {
        lemma_bound_artifacts_grow(items, from, (to - 1) as nat);
    }
}

/// Checks the envelopes of a bundle against each other, before anything that they
/// bind is read: there must be one of them or three, they must be for one release
/// cell, and three of them must cover the three scenarios.
pub fn check_bundle_envelopes(items: &Vec<LoadedEnvelope>) -> (result: Result<(), OwnershipError>)
    ensures
        match result {
            Ok(_) => bundle_fault(items@) is None,
            Err(error) => bundle_fault(items@) == Some(error),
        },
{
    match check_bundle_shape(true, items.len()) {
        Ok(_) => {},
        Err(error) => {
            return Err(error);
        },
    }
    let mut i: usize = 0;
    while i < items.len()
        invariant
            items@.len() == 1 || items@.len() == 3,
            i <= items@.len(),
            forall|k: int|
                0 <= k < i ==> same_release(
                    (#[trigger] items@[k]).envelope.release,
                    items@[0].envelope.release,
                ),
        decreases items@.len() - i,
    {
        if !is_same_release(&items[i].envelope.release, &items[0].envelope.release) {
            assert(!releases_agree(items@)) by {
                assert(!same_release(
                    items@[i as int].envelope.release,
                    items@[0].envelope.release,
                ));
            }
            return Err(OwnershipError::ReleasesDiffer);
        }
        i += 1;
    }
    if items.len() == 3 && !(find_scenario(items, OwnershipEvidenceScenario::ColdWarmLifecycle)
        && find_scenario(items, OwnershipEvidenceScenario::DeterministicPressureRace)
        && find_scenario(items, OwnershipEvidenceScenario::RealHostPressureRollback)) {
        return Err(OwnershipError::ScenariosIncomplete);
    }
    Ok(())
}

/// Validates a bundle of envelopes and counts the artifacts that they bind: the
/// envelopes must agree, and the artifacts of each must bear it out.
pub fn validate_bundle(items: &Vec<LoadedEnvelope>) -> (count: Result<usize, OwnershipError>)
    requires
        forall|i: int| 0 <= i < items@.len() ==> is_loaded(#[trigger] items@[i]),
        bound_artifacts(items@, items@.len()) <= usize::MAX,
    ensures
        match count {
            Ok(count) => bundle_result(items@) == Ok::<nat, OwnershipError>(count as nat),
            Err(error) => bundle_result(items@) == Err::<nat, OwnershipError>(error),
        },
{
    match check_bundle_envelopes(items) {
        Ok(_) => {},
        Err(error) => {
            return Err(error);
        },
    }
    let mut count: usize = 0;
    let mut j: usize = 0;
    while j < items.len()
        invariant
            forall|k: int| 0 <= k < items@.len() ==> is_loaded(#[trigger] items@[k]),
            bound_artifacts(items@, items@.len()) <= usize::MAX,
            bundle_result(items@) == bundle_after(items@, items@.len()),
            j <= items@.len(),
            bundle_after(items@, j as nat) == Ok::<nat, OwnershipError>(count as nat),
            count <= bound_artifacts(items@, j as nat),
        decreases items@.len() - j,
    {
        assert(is_loaded(items@[j as int]));
        match validate_envelope_artifacts(&items[j].envelope, &items[j].artifacts) {
            Ok(added) => {
                proof {
                    lemma_bound_artifacts_grow(items@, (j + 1) as nat, items@.len());
                }
                count = count + added;
            },
            Err(error) => {
                proof {
                    assert(bundle_after(items@, (j + 1) as nat) == Err::<nat, OwnershipError>(
                        error,
                    ));
                    lemma_bundle_stays_refused(items@, (j + 1) as nat, items@.len());
                }
                return Err(error);
            },
        }
        j += 1;
    }
    Ok(count)
}

/// A cold and warm lifecycle is accepted exactly when its four snapshots are there,
/// the cold and the warm one show the same live owners and an owner of the release
/// provider each, the one after the release shows fewer live owners or fewer retained
/// bytes than the cold one, and the reconciled one shows the live owners of the
/// released one.
pub proof fn law_lifecycle_needs_a_release(facts: Map<OwnershipEvidencePhaseKind, SnapshotView>)
    ensures
        ({
            let cold = facts[OwnershipEvidencePhaseKind::ColdRequestCompleted];
            let warm = facts[OwnershipEvidencePhaseKind::WarmRequestCompleted];
            let released = facts[OwnershipEvidencePhaseKind::OwnerReleased];
            let reconciled = facts[OwnershipEvidencePhaseKind::Reconciled];
            let all_there = facts.contains_key(OwnershipEvidencePhaseKind::ColdRequestCompleted)
                && facts.contains_key(OwnershipEvidencePhaseKind::WarmRequestCompleted)
                && facts.contains_key(OwnershipEvidencePhaseKind::OwnerReleased)
                && facts.contains_key(OwnershipEvidencePhaseKind::Reconciled);
            &&& transitions_fault(OwnershipEvidenceScenario::ColdWarmLifecycle, facts) is None <==> {
                &&& all_there
                &&& json::same_value(cold.live_owners, warm.live_owners)
                &&& cold.has_release_provider && warm.has_release_provider
                &&& (released.live_owner_count < cold.live_owner_count
                    || released.retained_bytes < cold.retained_bytes)
                &&& json::same_value(released.live_owners, reconciled.live_owners)
            }
            &&& all_there && transitions_fault(
                OwnershipEvidenceScenario::ColdWarmLifecycle,
                facts,
            ) is Some ==> transitions_fault(OwnershipEvidenceScenario::ColdWarmLifecycle, facts)
                == Some(OwnershipError::LifecycleUnproven)
        }),
{
}

/// A lifecycle in which nothing was released is refused: as many live owners as before
/// and as many bytes retained prove nothing, and more of both still less.
pub proof fn law_nothing_released_is_no_lifecycle(
    facts: Map<OwnershipEvidencePhaseKind, SnapshotView>,
)
    requires
        facts[OwnershipEvidencePhaseKind::OwnerReleased].live_owner_count
            >= facts[OwnershipEvidencePhaseKind::ColdRequestCompleted].live_owner_count,
        facts[OwnershipEvidencePhaseKind::OwnerReleased].retained_bytes
            >= facts[OwnershipEvidencePhaseKind::ColdRequestCompleted].retained_bytes,
    ensures
        transitions_fault(OwnershipEvidenceScenario::ColdWarmLifecycle, facts) is Some,
{
}

/// A pressure scenario is accepted exactly when each of its protected phases is there,
/// shows the live owners of the first of them, and the old runtime that transcribed
/// shows an owner of the release provider.
pub proof fn law_pressure_scenario_needs_the_same_owners(
    facts: Map<OwnershipEvidencePhaseKind, SnapshotView>,
)
    ensures
        transitions_fault(OwnershipEvidenceScenario::DeterministicPressureRace, facts) is None <==> {
            let first = facts[OwnershipEvidencePhaseKind::BaselineAdmissible].live_owners;
            &&& facts.contains_key(OwnershipEvidencePhaseKind::BaselineAdmissible)
            &&& facts.contains_key(OwnershipEvidencePhaseKind::ForecastSucceeded)
            &&& facts.contains_key(OwnershipEvidencePhaseKind::FactsChanged)
            &&& facts.contains_key(OwnershipEvidencePhaseKind::ActivationRejected)
            &&& facts.contains_key(OwnershipEvidencePhaseKind::OldRuntimeTranscribed)
            &&& facts.contains_key(OwnershipEvidencePhaseKind::Reconciled)
            &&& facts.contains_key(OwnershipEvidencePhaseKind::Recovered)
            &&& json::same_value(
                facts[OwnershipEvidencePhaseKind::ForecastSucceeded].live_owners,
                first,
            )
            &&& json::same_value(
                facts[OwnershipEvidencePhaseKind::FactsChanged].live_owners,
                first,
            )
            &&& json::same_value(
                facts[OwnershipEvidencePhaseKind::ActivationRejected].live_owners,
                first,
            )
            &&& json::same_value(
                facts[OwnershipEvidencePhaseKind::OldRuntimeTranscribed].live_owners,
                first,
            )
            &&& json::same_value(
                facts[OwnershipEvidencePhaseKind::Reconciled].live_owners,
                first,
            )
            &&& json::same_value(facts[OwnershipEvidencePhaseKind::Recovered].live_owners, first)
            &&& facts[OwnershipEvidencePhaseKind::OldRuntimeTranscribed].has_release_provider
        },
        transitions_fault(OwnershipEvidenceScenario::RealHostPressureRollback, facts) is None <==> {
            let first = facts[OwnershipEvidencePhaseKind::OldRuntimeActive].live_owners;
            &&& facts.contains_key(OwnershipEvidencePhaseKind::OldRuntimeActive)
            &&& facts.contains_key(OwnershipEvidencePhaseKind::PressureReady)
            &&& facts.contains_key(OwnershipEvidencePhaseKind::ActivationRejected)
            &&& facts.contains_key(OwnershipEvidencePhaseKind::OldRuntimeTranscribed)
            &&& facts.contains_key(OwnershipEvidencePhaseKind::Reconciled)
            &&& facts.contains_key(OwnershipEvidencePhaseKind::PressureReleased)
            &&& facts.contains_key(OwnershipEvidencePhaseKind::Recovered)
            &&& json::same_value(
                facts[OwnershipEvidencePhaseKind::PressureReady].live_owners,
                first,
            )
            &&& json::same_value(
                facts[OwnershipEvidencePhaseKind::ActivationRejected].live_owners,
                first,
            )
            &&& json::same_value(
                facts[OwnershipEvidencePhaseKind::OldRuntimeTranscribed].live_owners,
                first,
            )
            &&& json::same_value(
                facts[OwnershipEvidencePhaseKind::Reconciled].live_owners,
                first,
            )
            &&& json::same_value(
                facts[OwnershipEvidencePhaseKind::PressureReleased].live_owners,
                first,
            )
            &&& json::same_value(facts[OwnershipEvidencePhaseKind::Recovered].live_owners, first)
            &&& facts[OwnershipEvidencePhaseKind::OldRuntimeTranscribed].has_release_provider
        },
{
    reveal_with_fuel(live_state_fault, 8);
}

/// The sum of numbers.
pub open spec fn total(numbers: Seq<nat>) -> nat
    decreases numbers.len(),
{
    if numbers.len() == 0 {
        0
    } else {
        total(numbers.drop_last()) + numbers.last()
    }
}

/// Whether a resource says how many bytes it retains and is held in the ledger.
pub open spec fn says_what_it_retains(resource: JsonView) -> bool {
    &&& member(resource, "ledger_binding"@).text() != Some("unknown"@)
    &&& member(member(resource, "retained"@), "status"@).text() == Some("known"@)
    &&& member(member(resource, "retained"@), "bytes"@).natural() is Some
}

/// The bytes that the first resources of a list say they retain.
pub open spec fn bytes_of(resources: Seq<JsonView>, count: nat) -> nat {
    total(
        Seq::new(
            count,
            |i: int|
                member(member(resources[i], "retained"@), "bytes"@).natural()->Some_0 as nat,
        ),
    )
}

proof fn lemma_bytes_of_next(resources: Seq<JsonView>, count: nat)
    requires
        count > 0,
    ensures
        bytes_of(resources, count) == bytes_of(resources, (count - 1) as nat) + member(
            member(resources[count - 1], "retained"@),
            "bytes"@,
        ).natural()->Some_0,
{
    let numbers = |n: nat|
        Seq::new(
            n,
            |i: int|
                member(member(resources[i], "retained"@), "bytes"@).natural()->Some_0 as nat,
        );
    assert(numbers(count).drop_last() =~= numbers((count - 1) as nat));
}

/// The resources of an owner are accepted exactly if each of them says how many bytes it
/// retains and is held in the ledger, and the bytes can be counted; they are then added
/// up, none left out.
pub proof fn law_retained_bytes_add_up(resources: Seq<JsonView>, count: nat, start: u64)
    requires
        count <= resources.len(),
    ensures
        retained_after(resources, count, start) is Ok <==> (forall|i: int|
            0 <= i < count ==> says_what_it_retains(#[trigger] resources[i])) && start + bytes_of(
            resources,
            count,
        ) <= u64::MAX,
        retained_after(resources, count, start) matches Ok(sum) ==> sum == start + bytes_of(
            resources,
            count,
        ),
    decreases count,
{
    if count > 0 {
        let last = (count - 1) as nat;
        law_retained_bytes_add_up(resources, last, start);
        lemma_bytes_of_next(resources, count);
        if forall|i: int| 0 <= i < count ==> says_what_it_retains(#[trigger] resources[i]) {
            assert(says_what_it_retains(resources[last as int]));
        }
        if retained_after(resources, count, start) is Ok {
            assert(says_what_it_retains(resources[last as int]));
        }
    }
}

/// Whether an owner says where it is placed and what its resources retain.
pub open spec fn says_what_it_owns(owner: JsonView) -> bool {
    &&& member(owner, "placement"@).text() != Some("unknown"@)
    &&& member(owner, "placement"@).text() == Some("lane-bound"@) ==> member(
        member(owner, "lane"@),
        "provider"@,
    ).text() is Some
    &&& member(owner, "resources"@) matches JsonView::Array(resources) && forall|i: int|
        0 <= i < resources.len() ==> says_what_it_retains(#[trigger] resources[i])
}

/// Whether an owner is bound to a lane of a provider.
pub open spec fn is_bound_to(owner: JsonView, provider: Seq<char>) -> bool {
    &&& member(owner, "placement"@).text() == Some("lane-bound"@)
    &&& member(member(owner, "lane"@), "provider"@).text() matches Some(lane) && text::lowered(
        lane,
    ) == text::lowered(provider)
}

/// The bytes that the first owners of a list say they retain.
pub open spec fn bytes_owned(owners: Seq<JsonView>, count: nat) -> nat {
    total(
        Seq::new(
            count,
            |i: int|
                bytes_of(
                    member(owners[i], "resources"@)->Array_0,
                    member(owners[i], "resources"@)->Array_0.len(),
                ),
        ),
    )
}

/// Live owners are accepted exactly if each of them says where it is placed and what it
/// retains, and the bytes can be counted. The bytes of all of them are added up, and the
/// release provider owns something exactly if one of them is bound to a lane of it.
pub proof fn law_owners_add_up(owners: Seq<JsonView>, count: nat, provider: Seq<char>)
    requires
        count <= owners.len(),
    ensures
        owners_after(owners, count, provider) is Ok <==> (forall|i: int|
            0 <= i < count ==> says_what_it_owns(#[trigger] owners[i])) && bytes_owned(
            owners,
            count,
        ) <= u64::MAX,
        owners_after(owners, count, provider) matches Ok(sum) ==> {
            &&& sum.0 == bytes_owned(owners, count)
            &&& sum.1 <==> exists|i: int|
                0 <= i < count && is_bound_to(#[trigger] owners[i], provider)
        },
    decreases count,
{
    if count > 0 {
        let last = (count - 1) as nat;
        let owner = owners[last as int];
        law_owners_add_up(owners, last, provider);
        let numbers = |n: nat|
            Seq::new(
                n,
                |i: int|
                    bytes_of(
                        member(owners[i], "resources"@)->Array_0,
                        member(owners[i], "resources"@)->Array_0.len(),
                    ),
            );
        assert(numbers(count).drop_last() =~= numbers(last));
        if let JsonView::Array(resources) = member(owner, "resources"@) {
            if owners_after(owners, last, provider) is Ok {
                law_retained_bytes_add_up(
                    resources,
                    resources.len(),
                    owners_after(owners, last, provider)->Ok_0.0,
                );
            }
        }
        if forall|i: int| 0 <= i < count ==> says_what_it_owns(#[trigger] owners[i]) {
            assert(says_what_it_owns(owners[last as int]));
        }
        if owners_after(owners, count, provider) is Ok {
            assert(says_what_it_owns(owners[last as int]));
            let before = owners_after(owners, last, provider)->Ok_0;
            let after = owners_after(owners, count, provider)->Ok_0;
            if after.1 {
                if before.1 {
                    let i = choose|i: int|
                        0 <= i < last && is_bound_to(#[trigger] owners[i], provider);
                    assert(is_bound_to(owners[i], provider));
                } else {
                    assert(is_bound_to(owners[last as int], provider));
                }
            }
            if exists|i: int| 0 <= i < count && is_bound_to(#[trigger] owners[i], provider) {
                let i = choose|i: int|
                    0 <= i < count && is_bound_to(#[trigger] owners[i], provider);
                if i < last {
                    assert(before.1);
                }
            }
        }
    }
}

/// A recorded start of a daemon is the expected one exactly if its process, its nonce
/// and its time are.
pub proof fn law_daemon_is_the_expected_one(value: JsonView, expected: OwnershipDaemonStartIdentity)
    ensures
        daemon_fault(value, expected) is None <==> {
            &&& member(value, "pid"@).natural() == Some(expected.pid as u64)
            &&& member(value, "nonce"@).text() == Some(expected.nonce@)
            &&& member(value, "started_at_unix_secs"@).natural() == Some(
                expected.started_at_unix_secs,
            )
        },
{
}

/// A snapshot is accepted exactly if it is one of a complete and reconciled runtime that
/// is available, comes from the expected daemon, and lists owners that all say what they
/// own. It shows that list, its length, the bytes of all of them and whether one is bound
/// to a lane of the release provider.
pub proof fn law_snapshot_shows_its_owners(
    value: JsonView,
    daemon: OwnershipDaemonStartIdentity,
    provider: Seq<char>,
)
    ensures
        ({
            let owners = member(value, "live_owners"@);
            &&& snapshot_facts(value, daemon, provider) is Ok <==> {
                &&& member(value, "schema"@).text() == Some(
                    "openasr.runtime-ownership-receipt.v1"@,
                )
                &&& member(value, "availability"@).text() == Some("available"@)
                &&& member(member(value, "snapshot_completeness"@), "live_state_complete"@).boolean()
                    == Some(true)
                &&& member(member(value, "lease_reconciliation"@), "status"@).text() == Some(
                    "matched"@,
                )
                &&& daemon_fault(member(value, "daemon_start_identity"@), daemon) is None
                &&& owners matches JsonView::Array(items) && (forall|i: int|
                    0 <= i < items.len() ==> says_what_it_owns(#[trigger] items[i]))
                    && bytes_owned(items, items.len()) <= u64::MAX
            }
            &&& snapshot_facts(value, daemon, provider) matches Ok(facts) ==> {
                &&& facts.live_owners == owners
                &&& facts.live_owner_count == owners->Array_0.len()
                &&& facts.retained_bytes == bytes_owned(owners->Array_0, owners->Array_0.len())
                &&& facts.has_release_provider <==> exists|i: int|
                    0 <= i < owners->Array_0.len() && is_bound_to(
                        #[trigger] owners->Array_0[i],
                        provider,
                    )
            }
        }),
{
    if let JsonView::Array(items) = member(value, "live_owners"@) {
        law_owners_add_up(items, items.len(), provider);
    }
}

/// A request receipt is accepted exactly if it can be read, has release evidence, binds
/// every part of the release cell, passed, and was cold or warm where its phase is.
pub proof fn law_request_receipt_binds_the_release(
    decode: RequestDecode,
    release: OwnershipReleaseBinding,
    phase: OwnershipEvidencePhaseKind,
)
    ensures
        request_fault(decode, release, phase) is None <==> (decode matches RequestDecode::Receipt(
            receipt,
        ) && receipt.evidence is Some && {
            let evidence = receipt.evidence->Some_0;
            &&& receipt.core_commit@ == release.core_commit@
            &&& receipt.pack_content_sha256@ == release.pack_sha256@
            &&& receipt.pack_model_id@ == release.model_id@ || receipt.pack_model_id@
                == release.model_id@ + ":"@ + release.quant@
            &&& receipt.pack_quant@ == release.quant@
            &&& evidence.candidate_release_subject@ == release.release_subject@
            &&& evidence.core_commit@ == release.core_commit@
            &&& evidence.matrix_sha256@ == release.capability_matrix_sha256@
            &&& evidence.is_token_transcript
            &&& evidence.family@ == release.family@
            &&& evidence.model_id@ == release.model_id@
            &&& evidence.quant@ == release.quant@
            &&& evidence.topology@ == release.topology@
            &&& text::lowered(evidence.provider@) == text::lowered(release.provider@)
            &&& evidence.placement@ == release.placement@
            &&& evidence.output_plan == Some(ShortAudioOutputPlanKind::FullLogits)
                && release.output_plan@ == "full_logits"@ || evidence.output_plan == Some(
                ShortAudioOutputPlanKind::CompleteScores,
            ) && release.output_plan@ == "complete_scores"@ || evidence.output_plan == Some(
                ShortAudioOutputPlanKind::NativeFirstMaxToken,
            ) && release.output_plan@ == "native_first_max_token"@
            &&& evidence.capture_mode == ShortAudioCaptureMode::Disabled && release.capture_mode@
                == "disabled"@ || evidence.capture_mode == ShortAudioCaptureMode::Enabled
                && release.capture_mode@ == "enabled"@ || evidence.capture_mode
                == ShortAudioCaptureMode::Unsupported && release.capture_mode@ == "unsupported"@
            &&& evidence.scheduler_mode == ShortAudioSchedulerMode::Disabled
                && release.scheduler_mode@ == "disabled"@ || evidence.scheduler_mode
                == ShortAudioSchedulerMode::Enabled && release.scheduler_mode@ == "enabled"@
            &&& evidence.result@ == "pass"@
            &&& evidence.binary_sha256@ == release.binary_sha256@
            &&& evidence.plugin_sha256@ == release.plugin_sha256@
            &&& evidence.pack_sha256@ == release.pack_sha256@
            &&& phase == OwnershipEvidencePhaseKind::ColdRequestCompleted ==> receipt.warmup@
                == "cold"@
            &&& phase == OwnershipEvidencePhaseKind::WarmRequestCompleted ==> receipt.warmup@
                == "warm"@
        }),
{
}

/// An activation receipt is accepted exactly if it can be read and names the daemon, the
/// release cell and what admission saw of the candidate.
pub proof fn law_activation_receipt_binds_the_candidate(
    decode: ActivationDecode,
    release: OwnershipReleaseBinding,
    candidate: OwnershipCandidateObservation,
    daemon: OwnershipDaemonStartIdentity,
)
    ensures
        activation_fault(decode, release, candidate, daemon) is None <==> (
        decode matches ActivationDecode::Receipt(receipt) && {
            &&& receipt.daemon_start_identity.pid == daemon.pid
            &&& receipt.daemon_start_identity.nonce@ == daemon.nonce@
            &&& receipt.daemon_start_identity.started_at_unix_secs == daemon.started_at_unix_secs
            &&& receipt.release_subject@ == release.release_subject@
            &&& receipt.core_commit@ == release.core_commit@
            &&& receipt.pack_sha256@ == release.pack_sha256@
            &&& receipt.capability_matrix_sha256@ == release.capability_matrix_sha256@
            &&& receipt.capability_epoch == release.capability_epoch
            &&& text::lowered(receipt.provider@) == text::lowered(release.provider@)
            &&& receipt.device_target@ == release.device_target@
            &&& receipt.fresh_reserve.candidate_sha256@ == candidate.admission.candidate_sha256@
            &&& receipt.fresh_reserve.policy_requested_bytes
                == candidate.admission.policy_requested_bytes
            &&& receipt.fresh_reserve.policy_remaining_bytes
                == candidate.admission.policy_remaining_bytes
            &&& receipt.fresh_reserve.observed_requested_bytes
                == candidate.admission.observed_requested_bytes
            &&& receipt.fresh_reserve.observed_remaining_bytes
                == candidate.admission.observed_remaining_bytes
        }),
{
}

/// The events of a helper are accepted exactly if the helper kept its identity and its
/// guardrails, recorded the candidate's request, the floor and the memory that the
/// envelope observed, held memory and touched it, pushed the available memory below the
/// request and not below the floor, gave it back, and held it for two minutes at most.
pub proof fn law_helper_events_are_accepted(
    ready: JsonView,
    released: JsonView,
    observation: OwnershipCandidateObservation,
)
    ensures
        helper_fault(ready, released, observation) is None <==> {
            let requested = observation.admission.observed_requested_bytes;
            &&& json::same_value(member(ready, "helper_pid"@), member(released, "helper_pid"@))
            &&& json::same_value(member(ready, "parent_pid"@), member(released, "parent_pid"@))
            &&& json::same_value(
                member(ready, "candidate_required_bytes"@),
                member(released, "candidate_required_bytes"@),
            )
            &&& json::same_value(
                member(ready, "safety_floor_bytes"@),
                member(released, "safety_floor_bytes"@),
            )
            &&& member(ready, "candidate_required_bytes"@).natural() == Some(requested)
            &&& member(ready, "safety_floor_bytes"@).natural() == Some(
                observation.safety_floor_bytes,
            )
            &&& member(ready, "committed_bytes"@).natural() == Some(
                observation.helper_committed_bytes,
            ) && observation.helper_committed_bytes > 0
            &&& member(ready, "touched_bytes"@).natural() == Some(observation.helper_touched_bytes)
                && observation.helper_touched_bytes > 0
            &&& member(ready, "observed_available_bytes"@).natural() matches Some(held) && held
                < requested
            &&& member(released, "observed_available_bytes"@).natural() matches Some(back) && back
                >= requested
            &&& member(released, "lowest_available_bytes"@).natural() matches Some(lowest) && lowest
                >= observation.safety_floor_bytes
            &&& member(ready, "timeout_seconds"@).natural() matches Some(seconds) && seconds <= 120
        },
{
}

/// A line of a helper trace is accepted exactly if it is an event of the helper with the
/// expected name and result, whose memory goes with its process and with its parent and
/// is not locked.
pub proof fn law_helper_line_is_accepted(line: Seq<char>, name: Seq<char>, result: Seq<char>)
    ensures
        helper_event_of(line, name, result) is Ok <==> (json::parsed_json(line) matches Some(event)
            && {
            &&& event.text_field("schema"@) == Some("openasr.windows-memory-pressure-helper.v1"@)
            &&& event.text_field("event"@) == Some(name)
            &&& event.text_field("result"@) == Some(result)
            &&& event.boolean_field("job_kill_on_close"@) == Some(true)
            &&& event.boolean_field("parent_death_cleanup"@) == Some(true)
            &&& event.boolean_field("page_locking"@) == Some(false)
        }),
        helper_event_of(line, name, result) matches Ok(event) ==> json::parsed_json(line) == Some(
            event,
        ),
{
}

/// The lines that are kept are those that hold more than white space, in their order.
pub proof fn law_written_lines_are_kept(lines: Seq<Seq<char>>, count: nat)
    requires
        count <= lines.len(),
    ensures
        written_lines(lines, count) == lines.take(count as int).filter(
            |line: Seq<char>| text::trimmed(line).len() > 0,
        ),
    decreases count,
{
    reveal(Seq::filter);
    if count > 0 {
        law_written_lines_are_kept(lines, (count - 1) as nat);
        assert(lines.take(count as int).drop_last() =~= lines.take(count - 1));
    } else {
        assert(lines.take(0) =~= seq![]);
    }
}

/// A helper trace is accepted exactly if it is UTF-8 with two lines that hold anything:
/// that memory is held, and that it was released, and if the two events are accepted.
pub proof fn law_helper_trace_is_accepted(
    bytes: Seq<u8>,
    observation: OwnershipCandidateObservation,
)
    ensures
        ({
            let lines = text::lines_of(vstd::utf8::decode_utf8(bytes)).filter(
                |line: Seq<char>| text::trimmed(line).len() > 0,
            );
            let ready = helper_event_of(lines[0], "ready"@, "holding"@);
            let released = helper_event_of(lines[1], "released"@, "pass"@);
            helper_trace_fault(bytes, observation) is None <==> {
                &&& vstd::utf8::valid_utf8(bytes)
                &&& lines.len() == 2
                &&& ready is Ok && released is Ok
                &&& helper_fault(ready->Ok_0, released->Ok_0, observation) is None
            }
        }),
{
    let all = text::lines_of(vstd::utf8::decode_utf8(bytes));
    law_written_lines_are_kept(all, all.len());
    assert(all.take(all.len() as int) =~= all);
}

/// The content under a label is that of the last binding of the label, and there is one
/// exactly if some binding has it.
pub proof fn law_content_is_the_last_of_its_label(
    envelope: OwnershipEvidenceEnvelope,
    loaded: Seq<LoadedArtifact>,
    label: Seq<char>,
)
    ensures
        content_of(envelope, loaded, label) is None <==> forall|i: int|
            0 <= i < envelope.artifacts@.len() ==> (#[trigger] envelope.artifacts@[i]).label@
                != label,
        content_of(envelope, loaded, label) matches Some(content) ==> exists|i: int|
            #![trigger envelope.artifacts@[i]]
            0 <= i < envelope.artifacts@.len() && envelope.artifacts@[i].label@ == label
                && loaded[i] == content && forall|j: int|
                i < j < envelope.artifacts@.len() ==> (#[trigger] envelope.artifacts@[j]).label@
                    != label,
{
    let count = envelope.artifacts@.len() as int;
    lemma_last_binding(envelope.artifacts@, label, count);
    let at = last_binding(envelope.artifacts@, label, count);
    if at >= 0 {
        assert(envelope.artifacts@[at].label@ == label);
    }
}

proof fn lemma_last_binding(
    artifacts: Seq<OwnershipEvidenceArtifact>,
    label: Seq<char>,
    count: int,
)
    requires
        0 <= count <= artifacts.len(),
    ensures
        ({
            let at = last_binding(artifacts, label, count);
            &&& -1 <= at < count
            &&& at >= 0 ==> artifacts[at].label@ == label
            &&& forall|j: int| at < j < count ==> (#[trigger] artifacts[j]).label@ != label
        }),
    decreases count,
{
    if count > 0 && artifacts[count - 1].label@ != label {
        lemma_last_binding(artifacts, label, count - 1);
    }
}

/// A phase is found under its kind exactly if the envelope has one of that kind; it is
/// the first.
pub proof fn law_phase_is_the_first_of_its_kind(
    envelope: OwnershipEvidenceEnvelope,
    kind: OwnershipEvidencePhaseKind,
)
    ensures
        phase_of(envelope, kind) is None <==> forall|i: int|
            0 <= i < envelope.phases@.len() ==> (#[trigger] envelope.phases@[i]).kind != kind,
        phase_of(envelope, kind) matches Some(phase) ==> phase.kind == kind && exists|i: int|
            #![trigger envelope.phases@[i]]
            0 <= i < envelope.phases@.len() && envelope.phases@[i] == phase && forall|j: int|
                0 <= j < i ==> (#[trigger] envelope.phases@[j]).kind != kind,
{
    lemma_first_phase(envelope.phases@, kind, 0);
    let at = first_phase(envelope.phases@, kind, 0);
    if at < envelope.phases@.len() {
        assert(envelope.phases@[at].kind == kind);
    }
}

proof fn lemma_first_phase(
    phases: Seq<OwnershipEvidencePhase>,
    kind: OwnershipEvidencePhaseKind,
    from: int,
)
    requires
        0 <= from <= phases.len(),
    ensures
        ({
            let at = first_phase(phases, kind, from);
            &&& from <= at <= phases.len()
            &&& at < phases.len() ==> phases[at].kind == kind
            &&& forall|j: int| from <= j < at ==> (#[trigger] phases[j]).kind != kind
        }),
    decreases phases.len() - from,
{
    if from < phases.len() && phases[from].kind != kind {
        lemma_first_phase(phases, kind, from + 1);
    }
}

/// A phase is accepted exactly if its snapshot was loaded and is accepted from the
/// phase's own daemon, and if its request receipt, where it has one, was loaded and binds
/// the release. It shows what its snapshot shows.
pub proof fn law_phase_shows_its_snapshot(
    envelope: OwnershipEvidenceEnvelope,
    loaded: Seq<LoadedArtifact>,
    phase: OwnershipEvidencePhase,
)
    ensures
        ({
            let snapshot = content_of(envelope, loaded, phase.runtime_snapshot.label@);
            &&& phase_result(envelope, loaded, phase) is Ok <==> {
                &&& snapshot is Some
                &&& snapshot_of(
                    snapshot->0.bytes@,
                    phase.daemon_start_identity,
                    envelope.release.provider@,
                ) is Ok
                &&& phase.request_receipt matches Some(request) ==> (content_of(
                    envelope,
                    loaded,
                    request.label@,
                ) matches Some(content) && request_fault(
                    content.request,
                    envelope.release,
                    phase.kind,
                ) is None)
            }
            &&& phase_result(envelope, loaded, phase) is Ok ==> phase_result(
                envelope,
                loaded,
                phase,
            ) == snapshot_of(
                snapshot->0.bytes@,
                phase.daemon_start_identity,
                envelope.release.provider@,
            )
            &&& snapshot is Some && json::parsed_json_bytes(snapshot->0.bytes@) is None
                ==> phase_result(envelope, loaded, phase) is Err
        }),
{
}

/// Whether a phase is the last of its kind among the first `count`.
pub open spec fn is_last_of_its_kind(
    envelope: OwnershipEvidenceEnvelope,
    at: int,
    count: nat,
) -> bool {
    &&& 0 <= at < count
    &&& forall|j: int|
        at < j < count ==> (#[trigger] envelope.phases@[j]).kind != envelope.phases@[at].kind
}

/// The phases of an envelope are read exactly if each of them is accepted; every kind of
/// phase then shows what its last phase shows, and no other kind shows anything.
pub proof fn law_every_phase_is_read(
    envelope: OwnershipEvidenceEnvelope,
    loaded: Seq<LoadedArtifact>,
    count: nat,
)
    requires
        count <= envelope.phases@.len(),
    ensures
        phases_after(envelope, loaded, count) is Ok <==> forall|i: int|
            0 <= i < count ==> phase_result(
                envelope,
                loaded,
                #[trigger] envelope.phases@[i],
            ) is Ok,
        phases_after(envelope, loaded, count) matches Ok(facts) ==> {
            &&& forall|i: int| #[trigger]
                is_last_of_its_kind(envelope, i, count) ==> facts.contains_key(
                    envelope.phases@[i].kind,
                ) && phase_result(envelope, loaded, envelope.phases@[i]) == Ok::<
                    SnapshotView,
                    OwnershipError,
                >(facts[envelope.phases@[i].kind])
            &&& forall|kind: OwnershipEvidencePhaseKind| #[trigger]
                facts.contains_key(kind) <==> exists|i: int|
                    0 <= i < count && (#[trigger] envelope.phases@[i]).kind == kind
        },
    decreases count,
{
    if count > 0 {
        let last = count - 1;
        law_every_phase_is_read(envelope, loaded, last as nat);
        let phase = envelope.phases@[last];
        if phases_after(envelope, loaded, count) is Ok {
            let before = phases_after(envelope, loaded, last as nat)->Ok_0;
            let facts = phases_after(envelope, loaded, count)->Ok_0;
            assert(facts == before.insert(
                phase.kind,
                phase_result(envelope, loaded, phase)->Ok_0,
            ));
            assert(count == (last as nat) + 1);
            lemma_later_phase(envelope, loaded, last as nat, count, before, facts);
        }
        if forall|i: int|
            0 <= i < count ==> phase_result(
                envelope,
                loaded,
                #[trigger] envelope.phases@[i],
            ) is Ok {
            assert(phase_result(envelope, loaded, envelope.phases@[last]) is Ok);
        }
    }
}

proof fn lemma_later_phase(
    envelope: OwnershipEvidenceEnvelope,
    loaded: Seq<LoadedArtifact>,
    last: nat,
    count: nat,
    before: Map<OwnershipEvidencePhaseKind, SnapshotView>,
    facts: Map<OwnershipEvidencePhaseKind, SnapshotView>,
)
    requires
        last < envelope.phases@.len(),
        count == last + 1,
        forall|i: int| #[trigger]
            is_last_of_its_kind(envelope, i, last) ==> before.contains_key(
                envelope.phases@[i].kind,
            ) && phase_result(envelope, loaded, envelope.phases@[i]) == Ok::<
                SnapshotView,
                OwnershipError,
            >(before[envelope.phases@[i].kind]),
        forall|kind: OwnershipEvidencePhaseKind| #[trigger]
            before.contains_key(kind) <==> exists|i: int|
                0 <= i < last && (#[trigger] envelope.phases@[i]).kind == kind,
        phase_result(envelope, loaded, envelope.phases@[last as int]) is Ok,
        facts == before.insert(
            envelope.phases@[last as int].kind,
            phase_result(envelope, loaded, envelope.phases@[last as int])->Ok_0,
        ),
    ensures
        forall|i: int| #[trigger]
            is_last_of_its_kind(envelope, i, count) ==> facts.contains_key(
                envelope.phases@[i].kind,
            ) && phase_result(envelope, loaded, envelope.phases@[i]) == Ok::<
                SnapshotView,
                OwnershipError,
            >(facts[envelope.phases@[i].kind]),
        forall|kind: OwnershipEvidencePhaseKind| #[trigger]
            facts.contains_key(kind) <==> exists|i: int|
                0 <= i < count && (#[trigger] envelope.phases@[i]).kind == kind,
{
    let own = envelope.phases@[last as int].kind;
    assert forall|i: int| #[trigger]
        is_last_of_its_kind(envelope, i, count) implies facts.contains_key(
        envelope.phases@[i].kind,
    ) && phase_result(envelope, loaded, envelope.phases@[i]) == Ok::<SnapshotView, OwnershipError>(
        facts[envelope.phases@[i].kind],
    ) by {
        if i < last {
            assert(envelope.phases@[last as int].kind != envelope.phases@[i].kind);
            assert(is_last_of_its_kind(envelope, i, last));
        }
    }
    assert forall|kind: OwnershipEvidencePhaseKind| #[trigger]
        facts.contains_key(kind) <==> exists|i: int|
            0 <= i < count && (#[trigger] envelope.phases@[i]).kind == kind by {
        if kind == own {
            assert(envelope.phases@[last as int].kind == kind);
        } else {
            assert(facts.contains_key(kind) == before.contains_key(kind));
            if exists|i: int| 0 <= i < last && (#[trigger] envelope.phases@[i]).kind == kind {
                let i = choose|i: int| 0 <= i < last && (#[trigger] envelope.phases@[i]).kind == kind;
                assert(envelope.phases@[i].kind == kind);
            }
            if exists|i: int| 0 <= i < count && (#[trigger] envelope.phases@[i]).kind == kind {
                let i = choose|i: int|
                    0 <= i < count && (#[trigger] envelope.phases@[i]).kind == kind;
                assert(i < last);
            }
        }
    }
}

/// The rejection of an activation is accepted exactly if there is none, or if its
/// receipt was loaded and binds the candidate that was observed once the facts had
/// changed or the pressure was ready.
pub proof fn law_rejection_is_held_to_its_candidate(
    envelope: OwnershipEvidenceEnvelope,
    loaded: Seq<LoadedArtifact>,
)
    ensures
        ({
            let rejected = phase_of(envelope, OwnershipEvidencePhaseKind::ActivationRejected);
            let observed = if envelope.scenario
                == OwnershipEvidenceScenario::DeterministicPressureRace {
                phase_of(envelope, OwnershipEvidencePhaseKind::FactsChanged)
            } else if envelope.scenario == OwnershipEvidenceScenario::RealHostPressureRollback {
                phase_of(envelope, OwnershipEvidencePhaseKind::PressureReady)
            } else {
                None
            };
            rejection_fault(envelope, loaded) is None <==> (rejected is None || {
                let phase = rejected->0;
                let content = content_of(
                    envelope,
                    loaded,
                    phase.activation_receipt->Some_0.label@,
                );
                &&& phase.activation_receipt is Some
                &&& observed is Some && observed->0.observation is Some
                &&& content is Some
                &&& activation_fault(
                    content->0.activation,
                    envelope.release,
                    observed->0.observation->Some_0,
                    phase.daemon_start_identity,
                ) is None
            })
        }),
{
}

/// Real pressure is accepted exactly if the phases that held and released memory name
/// one and the same helper trace, it was loaded, and it bears out what was observed while
/// the pressure was ready; the other scenarios have none to show.
pub proof fn law_real_pressure_needs_its_helper(
    envelope: OwnershipEvidenceEnvelope,
    loaded: Seq<LoadedArtifact>,
)
    ensures
        envelope.scenario != OwnershipEvidenceScenario::RealHostPressureRollback
            ==> pressure_fault(envelope, loaded) is None,
        envelope.scenario == OwnershipEvidenceScenario::RealHostPressureRollback ==> (
        pressure_fault(envelope, loaded) is None <==> {
            let ready = phase_of(envelope, OwnershipEvidencePhaseKind::PressureReady);
            let released = phase_of(envelope, OwnershipEvidencePhaseKind::PressureReleased);
            let held = ready->0.pressure_helper_receipt;
            let given = released->0.pressure_helper_receipt;
            &&& ready is Some && released is Some
            &&& held is Some && given is Some
            &&& held->0.label@ == given->0.label@ && held->0.sha256@ == given->0.sha256@
            &&& ready->0.observation is Some
            &&& content_of(envelope, loaded, held->0.label@) matches Some(content)
                && helper_trace_fault(content.bytes@, ready->0.observation->0) is None
        }),
{
}

/// The distinct labels of an envelope are those of its artifacts.
pub proof fn law_labels_are_those_of_the_artifacts(
    artifacts: Seq<OwnershipEvidenceArtifact>,
    count: nat,
    label: Seq<char>,
)
    requires
        count <= artifacts.len(),
    ensures
        labels(artifacts, count).finite(),
        labels(artifacts, count).contains(label) <==> exists|i: int|
            0 <= i < count && (#[trigger] artifacts[i]).label@ == label,
        (forall|i: int, j: int|
            0 <= i < j < count ==> (#[trigger] artifacts[i]).label@ != (#[trigger] artifacts[j]).label@)
            ==> labels(artifacts, count).len() == count,
        labels(artifacts, count).len() <= count,
    decreases count,
{
    if count > 0 {
        let last = count - 1;
        law_labels_are_those_of_the_artifacts(artifacts, last as nat, label);
        law_labels_are_those_of_the_artifacts(artifacts, last as nat, artifacts[last].label@);
        if artifacts[last].label@ == label {
            assert(artifacts[last].label@ == label);
        }
        if labels(artifacts, last as nat).contains(label) {
            let i = choose|i: int| 0 <= i < last && (#[trigger] artifacts[i]).label@ == label;
            assert(artifacts[i].label@ == label);
        }
        if exists|i: int| 0 <= i < count && (#[trigger] artifacts[i]).label@ == label {
            let i = choose|i: int| 0 <= i < count && (#[trigger] artifacts[i]).label@ == label;
            if i < last {
                assert(artifacts[i].label@ == label);
            }
        }
    }
}

/// An envelope is accepted exactly if each of its artifacts has the digest that it names,
/// each phase is accepted, and the rejection, the pressure and the transitions are. It
/// counts the artifacts that have different labels.
pub proof fn law_envelope_is_accepted(
    envelope: OwnershipEvidenceEnvelope,
    loaded: Seq<LoadedArtifact>,
)
    ensures
        envelope_result(envelope, loaded) is Ok <==> {
            let facts = phases_after(envelope, loaded, envelope.phases@.len());
            &&& forall|i: int|
                0 <= i < envelope.artifacts@.len() ==> sha256_text((#[trigger] loaded[i]).bytes@)
                    == envelope.artifacts@[i].sha256@
            &&& forall|i: int|
                0 <= i < envelope.phases@.len() ==> phase_result(
                    envelope,
                    loaded,
                    #[trigger] envelope.phases@[i],
                ) is Ok
            &&& rejection_fault(envelope, loaded) is None
            &&& pressure_fault(envelope, loaded) is None
            &&& transitions_fault(envelope.scenario, facts->Ok_0) is None
        },
        envelope_result(envelope, loaded) matches Ok(count) ==> count == labels(
            envelope.artifacts@,
            envelope.artifacts@.len(),
        ).len(),
{
    law_every_phase_is_read(envelope, loaded, envelope.phases@.len());
    lemma_hash_fault_iff(envelope.artifacts@, loaded, 0);
}

proof fn lemma_hash_fault_iff(
    artifacts: Seq<OwnershipEvidenceArtifact>,
    loaded: Seq<LoadedArtifact>,
    from: int,
)
    requires
        0 <= from <= artifacts.len(),
    ensures
        hash_fault(artifacts, loaded, from) is None <==> forall|i: int|
            from <= i < artifacts.len() ==> sha256_text((#[trigger] loaded[i]).bytes@)
                == artifacts[i].sha256@,
    decreases artifacts.len() - from,
{
    if from < artifacts.len() {
        lemma_hash_fault_iff(artifacts, loaded, from + 1);
        if forall|i: int|
            from <= i < artifacts.len() ==> sha256_text((#[trigger] loaded[i]).bytes@)
                == artifacts[i].sha256@ {
            assert(sha256_text(loaded[from].bytes@) == artifacts[from].sha256@);
        }
    }
}

/// The artifacts of a bundle's envelopes are added up, each envelope's once, and the
/// bundle is read exactly if each envelope is accepted.
pub proof fn law_every_envelope_is_read(items: Seq<LoadedEnvelope>, count: nat)
    requires
        count <= items.len(),
    ensures
        bundle_after(items, count) is Ok <==> forall|i: int|
            0 <= i < count ==> envelope_result(
                (#[trigger] items[i]).envelope,
                items[i].artifacts@,
            ) is Ok,
        bundle_after(items, count) matches Ok(sum) ==> sum == total(
            Seq::new(
                count,
                |i: int| envelope_result(items[i].envelope, items[i].artifacts@)->Ok_0,
            ),
        ),
    decreases count,
{
    if count > 0 {
        let last = count - 1;
        law_every_envelope_is_read(items, last as nat);
        let numbers = |n: nat|
            Seq::new(n, |i: int| envelope_result(items[i].envelope, items[i].artifacts@)->Ok_0);
        assert(numbers(count).drop_last() =~= numbers(last as nat));
        if forall|i: int|
            0 <= i < count ==> envelope_result(
                (#[trigger] items[i]).envelope,
                items[i].artifacts@,
            ) is Ok {
            assert(envelope_result(items[last].envelope, items[last].artifacts@) is Ok);
        }
    }
}

/// Two release cells are the same exactly if each of their parts is.
pub proof fn law_release_cells_agree_in_every_part(
    own: OwnershipReleaseBinding,
    first: OwnershipReleaseBinding,
)
    ensures
        same_release(own, first) <==> {
            &&& own.release_subject@ == first.release_subject@
            &&& own.core_commit@ == first.core_commit@
            &&& own.pack_sha256@ == first.pack_sha256@
            &&& own.capability_matrix_sha256@ == first.capability_matrix_sha256@
            &&& own.capability_cell_sha256@ == first.capability_cell_sha256@
            &&& own.capability_epoch == first.capability_epoch
            &&& own.provider@ == first.provider@
            &&& own.device_target@ == first.device_target@
            &&& own.binary_sha256@ == first.binary_sha256@
            &&& own.plugin_sha256@ == first.plugin_sha256@
            &&& own.model_id@ == first.model_id@
            &&& own.quant@ == first.quant@
            &&& own.family@ == first.family@
            &&& own.topology@ == first.topology@
            &&& own.placement@ == first.placement@
            &&& own.output_plan@ == first.output_plan@
            &&& own.capture_mode@ == first.capture_mode@
            &&& own.scheduler_mode@ == first.scheduler_mode@
        },
{
}

/// A bundle is accepted exactly if it is one envelope, or three of the three different
/// scenarios, all for one release cell, and each of them is accepted.
pub proof fn law_bundle_is_accepted(items: Seq<LoadedEnvelope>)
    ensures
        bundle_result(items) is Ok <==> {
            &&& items.len() == 1 || items.len() == 3
            &&& forall|i: int|
                0 <= i < items.len() ==> same_release(
                    (#[trigger] items[i]).envelope.release,
                    items[0].envelope.release,
                )
            &&& items.len() == 3 ==> items[0].envelope.scenario != items[1].envelope.scenario
                && items[1].envelope.scenario != items[2].envelope.scenario
                && items[0].envelope.scenario != items[2].envelope.scenario
            &&& forall|i: int|
                0 <= i < items.len() ==> envelope_result(
                    (#[trigger] items[i]).envelope,
                    items[i].artifacts@,
                ) is Ok
        },
        bundle_result(items) matches Ok(sum) ==> sum == total(
            Seq::new(
                items.len(),
                |i: int| envelope_result(items[i].envelope, items[i].artifacts@)->Ok_0,
            ),
        ),
{
    law_every_envelope_is_read(items, items.len());
    if items.len() == 3 {
        let a = items[0].envelope.scenario;
        let b = items[1].envelope.scenario;
        let c = items[2].envelope.scenario;
        assert forall|scenario: OwnershipEvidenceScenario| #[trigger]
            has_scenario(items, scenario) <==> (a == scenario || b == scenario || c == scenario) by {
            if a == scenario {
                assert(items[0].envelope.scenario == scenario);
            } else if b == scenario {
                assert(items[1].envelope.scenario == scenario);
            } else if c == scenario {
                assert(items[2].envelope.scenario == scenario);
            }
        }
    }
}

} // verus!
