//! The background service that watches a configuration file and keeps one
//! core running for its latest valid contents: its decisions, event by event.
use vstd::prelude::*;
use std::hash::{Hash, Hasher};

verus! {

/// The hash that `std::collections::hash_map::DefaultHasher::new()` gives
/// the text (a fixed function for a given build of the standard library).
pub uninterp spec fn default_hash_of(text: Seq<char>) -> u64;

/// Hashes `text` with a fresh `DefaultHasher` (`DefaultHasher::new`, whose
/// instances all start from the same keys) and returns `finish`.
#[verifier::external_body]
fn default_hash(text: &str) -> (r: u64)
    ensures
        r == default_hash_of(text@),
{
    let mut hasher = std::collections::hash_map::DefaultHasher::new();
    text.hash(&mut hasher);
    hasher.finish()
}

/// The fingerprint of a configuration text, to notice when it changes.
pub fn hash_text(text: &str) -> (r: u64)
    ensures
        r == default_hash_of(text@),
{
    default_hash(text)
}

/// What the service remembers between polls.
#[derive(Clone, Copy, Debug)]
pub struct ServiceState {
    /// The running core, if any.
    pub handle: Option<u64>,
    /// The fingerprint of the configuration the running core was started with.
    pub last_hash: Option<u64>,
    /// The fingerprint of the last configuration that failed to load or start.
    pub last_failed_hash: Option<u64>,
    /// Whether the missing configuration file has been reported.
    pub missing_logged: bool,
}

/// What happened since the last decision.
#[derive(Clone, Copy, Debug)]
pub enum ServiceEvent {
    /// The configuration file could not be read.
    ConfigMissing,
    /// The configuration file was read; its text has this fingerprint.
    ConfigRead { hash: u64 },
    /// The text with this fingerprint is not a valid configuration.
    ConfigInvalid { hash: u64 },
    /// The text with this fingerprint is a valid configuration.
    ConfigLoaded { hash: u64 },
    /// A core was started for the text with this fingerprint.
    Started { hash: u64, handle: u64 },
    /// Starting a core for the text with this fingerprint failed.
    StartFailed { hash: u64 },
    /// Shutdown was requested.
    Shutdown,
}

/// What the service does next.
#[derive(Clone, Copy, Debug, PartialEq, Eq, Structural)]
pub enum ServiceAction {
    /// Nothing: wait for the next poll.
    Wait,
    /// Report that the configuration file is missing.
    ReportMissing,
    /// Parse and check the text that was read.
    Load,
    /// Stop this core (if any) and start one with the loaded configuration.
    Restart { stop: Option<u64> },
    /// Stop this core (if any) and exit.
    Exit { stop: Option<u64> },
}

/// The state before anything happened.
pub fn initial_state() -> (r: ServiceState)
    ensures
        r.handle is None,
        r.last_hash is None,
        r.last_failed_hash is None,
        !r.missing_logged,
{
    ServiceState { handle: None, last_hash: None, last_failed_hash: None, missing_logged: false }
}

/// The next state and action: a missing file is reported once until it
/// reappears; a text is loaded only when it differs from the one running and
/// from the last one that failed; a loaded text replaces the running core; a
/// failure is remembered so the same text is not retried.
pub open spec fn spec_service_step(s: ServiceState, ev: ServiceEvent) -> (ServiceState, ServiceAction) {
    match ev {
        ServiceEvent::ConfigMissing => (
            ServiceState { missing_logged: true, ..s },
            if s.missing_logged { ServiceAction::Wait } else { ServiceAction::ReportMissing },
        ),
        ServiceEvent::ConfigRead { hash } => (
            ServiceState { missing_logged: false, ..s },
            if s.last_hash == Some(hash) || s.last_failed_hash == Some(hash) { ServiceAction::Wait } else { ServiceAction::Load },
        ),
        ServiceEvent::ConfigInvalid { hash } => (ServiceState { last_failed_hash: Some(hash), ..s }, ServiceAction::Wait),
        ServiceEvent::ConfigLoaded { hash } => (ServiceState { handle: None, ..s }, ServiceAction::Restart { stop: s.handle }),
        ServiceEvent::Started { hash, handle } => (
            ServiceState { handle: Some(handle), last_hash: Some(hash), last_failed_hash: None, ..s },
            ServiceAction::Wait,
        ),
        ServiceEvent::StartFailed { hash } => (ServiceState { last_failed_hash: Some(hash), ..s }, ServiceAction::Wait),
        ServiceEvent::Shutdown => (ServiceState { handle: None, ..s }, ServiceAction::Exit { stop: s.handle }),
    }
}

/// Decides the next state and action of the service (see `spec_service_step`).
pub fn service_step(s: ServiceState, ev: ServiceEvent) -> (r: (ServiceState, ServiceAction))
    ensures
        r == spec_service_step(s, ev),
{
    match ev {
        ServiceEvent::ConfigMissing => {
            let act = if s.missing_logged { ServiceAction::Wait } else { ServiceAction::ReportMissing };
            (ServiceState { missing_logged: true, ..s }, act)
        },
        ServiceEvent::ConfigRead { hash } => {
            let seen = match s.last_hash {
                Some(h) => h == hash,
                None => false,
            };
            let failed = match s.last_failed_hash {
                Some(h) => h == hash,
                None => false,
            };
            let act = if seen || failed { ServiceAction::Wait } else { ServiceAction::Load };
            (ServiceState { missing_logged: false, ..s }, act)
        },
        ServiceEvent::ConfigInvalid { hash } => (ServiceState { last_failed_hash: Some(hash), ..s }, ServiceAction::Wait),
        ServiceEvent::ConfigLoaded { hash: _ } => (ServiceState { handle: None, ..s }, ServiceAction::Restart { stop: s.handle }),
        ServiceEvent::Started { hash, handle } => (
            ServiceState { handle: Some(handle), last_hash: Some(hash), last_failed_hash: None, ..s },
            ServiceAction::Wait,
        ),
        ServiceEvent::StartFailed { hash } => (ServiceState { last_failed_hash: Some(hash), ..s }, ServiceAction::Wait),
        ServiceEvent::Shutdown => (ServiceState { handle: None, ..s }, ServiceAction::Exit { stop: s.handle }),
    }
}

/// Once a core runs for a text, reading the same text again changes nothing.
pub proof fn lemma_running_text_not_reloaded(s: ServiceState, hash: u64, handle: u64)
    ensures
        spec_service_step(spec_service_step(s, ServiceEvent::Started { hash, handle }).0, ServiceEvent::ConfigRead { hash }).1
            == ServiceAction::Wait,
{
}

/// A text that failed to load or to start is not retried while it stays the same.
pub proof fn lemma_failed_text_not_retried(s: ServiceState, hash: u64, start_failed: bool)
    ensures
        ({
            let ev = if start_failed { ServiceEvent::StartFailed { hash } } else { ServiceEvent::ConfigInvalid { hash } };
            spec_service_step(spec_service_step(s, ev).0, ServiceEvent::ConfigRead { hash }).1 == ServiceAction::Wait
        }),
{
}

/// A text is loaded exactly when it differs from the running one and from the last failed one.
pub proof fn lemma_changed_text_loaded(s: ServiceState, hash: u64)
    ensures
        (spec_service_step(s, ServiceEvent::ConfigRead { hash }).1 == ServiceAction::Load)
            <==> (s.last_hash != Some(hash) && s.last_failed_hash != Some(hash)),
{
}

/// A missing configuration is reported once, not at every poll.
pub proof fn lemma_missing_reported_once(s: ServiceState)
    ensures
        spec_service_step(spec_service_step(s, ServiceEvent::ConfigMissing).0, ServiceEvent::ConfigMissing).1 == ServiceAction::Wait,
{
}

/// Restarting and shutting down stop exactly the core that was running, and
/// forget it.
pub proof fn lemma_stop_running_core(s: ServiceState, hash: u64)
    ensures
        spec_service_step(s, ServiceEvent::ConfigLoaded { hash }).1 == (ServiceAction::Restart { stop: s.handle }),
        spec_service_step(s, ServiceEvent::ConfigLoaded { hash }).0.handle is None,
        spec_service_step(s, ServiceEvent::Shutdown).1 == (ServiceAction::Exit { stop: s.handle }),
{
}

} // verus!
