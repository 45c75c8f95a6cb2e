use prefix_monitor::cidr::format_cidr;
use prefix_monitor::ipv4::is_valid_ipv4;
use prefix_monitor::reconcile::{
    EntriesStep, FetchStep, ReconcileError, Reconciler, ReconciliationOutcome, RemoteEntry,
    RemoteFailure, VersionStep, classify_failure, owned_cidrs,
};
use prefix_monitor::text::trim_text;

const TAG: &str = "Auto-updated host IP";

fn entry(cidr: &str, description: &str) -> RemoteEntry {
    RemoteEntry { cidr: cidr.to_string(), description: description.to_string() }
}

fn monitor(last_known: Option<&str>) -> Reconciler {
    let mut r = Reconciler::new("pl-123".to_string(), TAG.to_string(), 32);
    r.last_known_address = last_known.map(|a| a.to_string());
    r
}

#[test]
fn test_cidr_format() {
    let ip = "203.0.113.1";
    let suffix = 32;
    let cidr = format_cidr(ip, suffix);
    assert_eq!(cidr, "203.0.113.1/32");
}

#[test]
fn test_ip_validation() {
    assert!(is_valid_ipv4("192.168.1.1"));
    assert!(!is_valid_ipv4("invalid"));
}

#[test]
fn cidr_format_suffix_digits() {
    assert_eq!(format_cidr("10.0.0.1", 0), "10.0.0.1/0");
    assert_eq!(format_cidr("10.0.0.1", 8), "10.0.0.1/8");
    assert_eq!(format_cidr("10.0.0.1", 24), "10.0.0.1/24");
    assert_eq!(format_cidr("", 32), "/32");
    assert_eq!(format_cidr("a", 117), "a/117");
}

#[test]
fn ipv4_accepts_well_formed_quads() {
    assert!(is_valid_ipv4("0.0.0.0"));
    assert!(is_valid_ipv4("255.255.255.255"));
    assert!(is_valid_ipv4("9.9.9.9"));
    assert!(is_valid_ipv4("203.0.113.1"));
}

#[test]
fn ipv4_rejects_malformed_text() {
    assert!(!is_valid_ipv4(""));
    assert!(!is_valid_ipv4("256.1.1.1"));
    assert!(!is_valid_ipv4("1.2.3"));
    assert!(!is_valid_ipv4("1.2.3.4.5"));
    assert!(!is_valid_ipv4("01.2.3.4"));
    assert!(!is_valid_ipv4("1.2.3.04"));
    assert!(!is_valid_ipv4("1..2.3"));
    assert!(!is_valid_ipv4("1.2.3."));
    assert!(!is_valid_ipv4(".1.2.3"));
    assert!(!is_valid_ipv4("1.2.3.4 "));
    assert!(!is_valid_ipv4("-1.2.3.4"));
    assert!(!is_valid_ipv4("timeout"));
    assert!(!is_valid_ipv4("1.2.3.1000"));
}

#[test]
fn trim_strips_surrounding_whitespace() {
    assert_eq!(trim_text(" 1.2.3.4\n"), "1.2.3.4");
    assert_eq!(trim_text("\r\n\t 9.9.9.9 \t"), "9.9.9.9");
    assert_eq!(trim_text("1.2.3.4"), "1.2.3.4");
    assert_eq!(trim_text("   "), "");
    assert_eq!(trim_text(""), "");
    assert_eq!(trim_text("a b"), "a b");
}

#[test]
fn owned_cidrs_keeps_only_tagged_entries() {
    let entries = vec![
        entry("1.2.3.4/32", TAG),
        entry("10.0.0.0/8", "someone else"),
        entry("5.6.7.8/32", TAG),
    ];
    let owned = owned_cidrs(&entries, TAG);
    assert_eq!(owned, vec!["1.2.3.4/32".to_string(), "5.6.7.8/32".to_string()]);
    assert_eq!(owned_cidrs(&Vec::new(), TAG), Vec::<String>::new());
}

#[test]
fn classify_keeps_conflicts_distinguishable() {
    assert_eq!(classify_failure(&RemoteFailure::VersionConflict), ReconcileError::VersionConflict);
    assert_eq!(classify_failure(&RemoteFailure::NotFound), ReconcileError::RemoteError);
    assert_eq!(classify_failure(&RemoteFailure::Other), ReconcileError::RemoteError);
}

#[test]
fn unchanged_address_settles_without_remote_calls() {
    let r = monitor(Some("5.6.7.8"));
    let step = r.on_fetch(Some("5.6.7.8\n".to_string()));
    assert_eq!(step, FetchStep::Settled { outcome: ReconciliationOutcome::Unchanged });
    assert_eq!(r.last_known_address.as_deref(), Some("5.6.7.8"));
}

#[test]
fn failed_fetch_settles_without_remote_calls() {
    let r = monitor(Some("1.2.3.4"));
    let step = r.on_fetch(None);
    assert_eq!(
        step,
        FetchStep::Settled {
            outcome: ReconciliationOutcome::Failed { error: ReconcileError::FetchFailed }
        }
    );
    assert_eq!(r.last_known_address.as_deref(), Some("1.2.3.4"));
}

#[test]
fn invalid_fetched_text_settles_without_remote_calls() {
    let r = monitor(Some("1.2.3.4"));
    for text in ["timeout", "", "  \n", "256.256.256.256"] {
        let step = r.on_fetch(Some(text.to_string()));
        assert_eq!(
            step,
            FetchStep::Settled {
                outcome: ReconciliationOutcome::Failed { error: ReconcileError::InvalidAddress }
            }
        );
    }
    assert_eq!(r.last_known_address.as_deref(), Some("1.2.3.4"));
}

#[test]
fn candidate_already_present_updates_memory_only() {
    let mut r = monitor(Some("1.2.3.4"));
    let step = r.on_fetch(Some("5.6.7.8".to_string()));
    let (address, candidate) = match step {
        FetchStep::QueryEntries { address, candidate_cidr } => (address, candidate_cidr),
        other => panic!("expected a query step, got {:?}", other),
    };
    assert_eq!(address, "5.6.7.8");
    assert_eq!(candidate, "5.6.7.8/32");
    let listed = Ok(vec![entry("5.6.7.8/32", TAG)]);
    let step = r.on_entries(address, candidate, listed);
    assert_eq!(step, EntriesStep::Settled { outcome: ReconciliationOutcome::AlreadyPresent });
    assert_eq!(r.last_known_address.as_deref(), Some("5.6.7.8"));
}

#[test]
fn change_scenario_replaces_stale_entry() {
    let mut r = monitor(Some("1.2.3.4"));
    let step = r.on_fetch(Some("5.6.7.8".to_string()));
    let (address, candidate) = match step {
        FetchStep::QueryEntries { address, candidate_cidr } => (address, candidate_cidr),
        other => panic!("expected a query step, got {:?}", other),
    };
    let listed = Ok(vec![entry("1.2.3.4/32", TAG)]);
    let step = r.on_entries(address.clone(), candidate.clone(), listed);
    let (removals, addition) = match step {
        EntriesStep::SubmitMutation { removals, addition_cidr } => (removals, addition_cidr),
        other => panic!("expected a mutation step, got {:?}", other),
    };
    assert_eq!(removals, vec!["1.2.3.4/32".to_string()]);
    assert_eq!(addition, "5.6.7.8/32");
    let step = r.on_version(Ok(Some(Some(7))));
    assert_eq!(step, VersionStep::Proceed { expected_version: 7 });
    let out = r.on_mutate_result(address, addition, removals.len(), Ok(8));
    assert_eq!(
        out,
        ReconciliationOutcome::Updated { removed_count: 1, new_cidr: "5.6.7.8/32".to_string() }
    );
    assert_eq!(r.last_known_address.as_deref(), Some("5.6.7.8"));
}

#[test]
fn version_conflict_leaves_memory_for_retry() {
    let mut r = monitor(Some("1.2.3.4"));
    let out = r.on_mutate_result(
        "5.6.7.8".to_string(),
        "5.6.7.8/32".to_string(),
        1,
        Err(RemoteFailure::VersionConflict),
    );
    assert_eq!(
        out,
        ReconciliationOutcome::Failed { error: ReconcileError::VersionConflict }
    );
    assert_eq!(r.last_known_address.as_deref(), Some("1.2.3.4"));
}

#[test]
fn cold_start_adds_without_removals() {
    let mut r = monitor(None);
    let step = r.on_fetch(Some("9.9.9.9".to_string()));
    let (address, candidate) = match step {
        FetchStep::QueryEntries { address, candidate_cidr } => (address, candidate_cidr),
        other => panic!("expected a query step, got {:?}", other),
    };
    assert_eq!(address, "9.9.9.9");
    assert_eq!(candidate, "9.9.9.9/32");
    let step = r.on_entries(address, candidate, Ok(Vec::new()));
    let (removals, addition) = match step {
        EntriesStep::SubmitMutation { removals, addition_cidr } => (removals, addition_cidr),
        other => panic!("expected a mutation step, got {:?}", other),
    };
    assert!(removals.is_empty());
    assert_eq!(addition, "9.9.9.9/32");
}

#[test]
fn listing_failure_settles_without_state_change() {
    let mut r = monitor(Some("1.2.3.4"));
    let step = r.on_entries(
        "5.6.7.8".to_string(),
        "5.6.7.8/32".to_string(),
        Err(RemoteFailure::Other),
    );
    assert_eq!(
        step,
        EntriesStep::Settled {
            outcome: ReconciliationOutcome::Failed { error: ReconcileError::RemoteError }
        }
    );
    assert_eq!(r.last_known_address.as_deref(), Some("1.2.3.4"));
}

#[test]
fn version_lookup_failures_settle_the_cycle() {
    let r = monitor(Some("1.2.3.4"));
    assert_eq!(
        r.on_version(Err(RemoteFailure::Other)),
        VersionStep::Settled {
            outcome: ReconciliationOutcome::Failed { error: ReconcileError::RemoteError }
        }
    );
    assert_eq!(
        r.on_version(Ok(None)),
        VersionStep::Settled {
            outcome: ReconciliationOutcome::Failed { error: ReconcileError::RemoteError }
        }
    );
    assert_eq!(r.on_version(Ok(Some(None))), VersionStep::Proceed { expected_version: 0 });
}

#[test]
fn fetched_text_is_trimmed_before_use() {
    let r = Reconciler::new("pl-9".to_string(), TAG.to_string(), 24);
    let step = r.on_fetch(Some("\n 10.1.2.3 \r\n".to_string()));
    match step {
        FetchStep::QueryEntries { address, candidate_cidr } => {
            assert_eq!(address, "10.1.2.3");
            assert_eq!(candidate_cidr, "10.1.2.3/24");
        }
        other => panic!("expected a query step, got {:?}", other),
    }
}
