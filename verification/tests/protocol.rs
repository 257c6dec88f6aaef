use fleet_metrics::bootstrap::{
    agent_step, AgentAction, AgentEvent, AgentState, BoundedRetry, RetryVerdict, RETRY_BUDGET,
};
use fleet_metrics::collector_service::{trim_whitespace, CollectorMetricService, MetricsError};
use fleet_metrics::dashboard::{buffers, cached, collect_successes, mem_free, mem_total, used};
use fleet_metrics::messages::{Memory, MetricsResponse, RegistrationRequest};
use fleet_metrics::registry::{DialOutcome, Registry, RegistrationError};
use fleet_metrics::web_config::{Config as AggregatorConfig, GRPCConfig, WebConfig};

fn snapshot(host: &str, total: u64, free: u64, buf: u64, cac: u64) -> MetricsResponse {
    MetricsResponse {
        host: String::from(host),
        cpu_usage: 0,
        memory: Some(Memory {
            mem_total: total,
            mem_free: free,
            mem_available: free,
            buffers: buf,
            cached: cac,
        }),
        net_usage: 0,
    }
}

#[test]
fn registration_with_a_reachable_agent_appends_one_entry() {
    let mut reg = Registry::new();
    assert_eq!(reg.len(), 0);
    let r = reg.handle_registration(
        String::from("10.0.0.7"),
        RegistrationRequest { port: String::from("4317") },
        DialOutcome::Connected(1),
    );
    assert_eq!(r.unwrap().status, "OK");
    assert_eq!(reg.len(), 1);
    assert_eq!(reg.get(0).ip, "10.0.0.7");
    assert_eq!(reg.get(0).port, "4317");
    assert_eq!(reg.get(0).channel, 1);
}

#[test]
fn registration_without_reverse_connectivity_is_refused() {
    let mut reg = Registry::new();
    let r = reg.handle_registration(
        String::from("10.0.0.7"),
        RegistrationRequest { port: String::from("4317") },
        DialOutcome::Failed,
    );
    assert!(matches!(r, Err(RegistrationError::ReverseDialFailed)));
    assert_eq!(reg.len(), 0);
}

#[test]
fn ten_registrations_leave_ten_entries() {
    let mut reg = Registry::new();
    for i in 0..10u64 {
        let r = reg.handle_registration(
            format!("10.0.0.{}", i),
            RegistrationRequest { port: format!("{}", 4000 + i) },
            DialOutcome::Connected(i),
        );
        assert!(r.is_ok());
    }
    assert_eq!(reg.len(), 10);
    // Duplicate registrations from the same address stack up as entries.
    let _ = reg.handle_registration(
        String::from("10.0.0.0"),
        RegistrationRequest { port: String::from("4000") },
        DialOutcome::Connected(11),
    );
    assert_eq!(reg.len(), 11);
}

#[test]
fn a_failed_dial_between_successes_adds_nothing() {
    let mut reg = Registry::new();
    for i in 0..3u64 {
        let dial = if i == 1 { DialOutcome::Failed } else { DialOutcome::Connected(i) };
        let _ = reg.handle_registration(
            format!("10.0.0.{}", i),
            RegistrationRequest { port: String::from("4317") },
            dial,
        );
    }
    assert_eq!(reg.len(), 2);
}

#[test]
fn a_full_poll_returns_one_result_per_agent() {
    let outcomes = vec![
        Some(snapshot("a", 10, 1, 1, 1)),
        Some(snapshot("b", 20, 2, 2, 2)),
        Some(snapshot("c", 30, 3, 3, 3)),
    ];
    let results = collect_successes(outcomes);
    assert_eq!(results.len(), 3);
    assert_eq!(results[0].host, "a");
    assert_eq!(results[1].host, "b");
    assert_eq!(results[2].host, "c");
}

#[test]
fn one_unreachable_agent_is_omitted_and_recovery_is_full() {
    // The poll in which agent "b" fails returns the other two, in order.
    let failing = vec![
        Some(snapshot("a", 10, 1, 1, 1)),
        None,
        Some(snapshot("c", 30, 3, 3, 3)),
    ];
    let results = collect_successes(failing);
    assert_eq!(results.len(), 2);
    assert_eq!(results[0].host, "a");
    assert_eq!(results[1].host, "c");
    // The next poll, with "b" back, returns all three again: nothing was
    // evicted on the transient failure.
    let recovered = vec![
        Some(snapshot("a", 10, 1, 1, 1)),
        Some(snapshot("b", 20, 2, 2, 2)),
        Some(snapshot("c", 30, 3, 3, 3)),
    ];
    assert_eq!(collect_successes(recovered).len(), 3);
}

#[test]
fn an_empty_registry_polls_to_an_empty_list() {
    let results = collect_successes(Vec::new());
    assert_eq!(results.len(), 0);
}

#[test]
fn memory_derivation_and_percent_used() {
    let m = snapshot("host", 1_000_000, 200_000, 50_000, 150_000);
    assert_eq!(mem_total(&m), 1_000_000);
    assert_eq!(mem_free(&m), 200_000);
    assert_eq!(buffers(&m), 50_000);
    assert_eq!(cached(&m), 150_000);
    let u = used(&m);
    assert_eq!(u, 600_000);
    let pct = (u as f64) / (mem_total(&m) as f64);
    assert!((pct - 0.6).abs() < 1e-12);
}

#[test]
fn a_snapshot_without_a_memory_block_shows_zeroes() {
    let m = MetricsResponse {
        host: String::from("host"),
        cpu_usage: 0,
        memory: None,
        net_usage: 0,
    };
    assert_eq!(mem_total(&m), 0);
    assert_eq!(used(&m), 0);
}

#[test]
fn bootstrap_happy_path_reaches_registered() {
    let s0 = AgentState::Starting;
    let (s1, a1) = agent_step(s0, AgentEvent::ListenerReady);
    assert_eq!(a1, AgentAction::StartDialing);
    let (s2, a2) = agent_step(s1, AgentEvent::DialSucceeded);
    assert_eq!(a2, AgentAction::SendRegistration);
    let (s3, a3) = agent_step(s2, AgentEvent::RegisterSucceeded);
    assert_eq!(s3, AgentState::Registered);
    assert_eq!(a3, AgentAction::ServeForever);
}

#[test]
fn five_consecutive_dial_failures_are_fatal() {
    let mut s = AgentState::Dialing { retry: BoundedRetry { failures: 0, budget: RETRY_BUDGET } };
    for i in 0..5u64 {
        let (next, action) = agent_step(s, AgentEvent::DialFailed);
        if i < 4 {
            assert_eq!(action, AgentAction::RetryDialAfterBackoff);
        } else {
            assert_eq!(next, AgentState::FailedFatal);
            assert_eq!(action, AgentAction::AbortProcess);
        }
        s = next;
    }
    assert_eq!(s, AgentState::FailedFatal);
    // No later event revives a fatal bootstrap.
    let (s_after, a_after) = agent_step(s, AgentEvent::DialSucceeded);
    assert_eq!(s_after, AgentState::FailedFatal);
    assert_eq!(a_after, AgentAction::NoAction);
}

#[test]
fn registration_failures_share_the_same_budget_rule() {
    let mut s = AgentState::Registering {
        retry: BoundedRetry { failures: 0, budget: RETRY_BUDGET },
    };
    for _ in 0..4u64 {
        let (next, action) = agent_step(s, AgentEvent::RegisterFailed);
        assert_eq!(action, AgentAction::RetryRegistrationAfterBackoff);
        s = next;
    }
    let (next, action) = agent_step(s, AgentEvent::RegisterFailed);
    assert_eq!(next, AgentState::FailedFatal);
    assert_eq!(action, AgentAction::AbortProcess);
}

#[test]
fn a_retry_counter_reports_exhaustion_exactly_at_its_budget() {
    let mut retry = BoundedRetry::new(3);
    assert_eq!(retry.record_failure(), RetryVerdict::RetryAgain);
    assert_eq!(retry.record_failure(), RetryVerdict::RetryAgain);
    assert_eq!(retry.record_failure(), RetryVerdict::Exhausted);
    assert_eq!(retry.failures, 3);
}

#[test]
fn request_metrics_trims_the_hostname_and_keeps_memory() {
    let service = CollectorMetricService::new(String::from("/etc/hostname"), String::from("/proc"));
    assert_eq!(service.hostname_file, "/etc/hostname");
    assert_eq!(service.proc_dir, "/proc");
    let resp = service
        .request_metrics(
            Some(String::from("myhost\n")),
            Some(b"MemTotal: 4 kB\n".to_vec()),
        )
        .unwrap();
    assert_eq!(resp.host, "myhost");
    assert_eq!(resp.cpu_usage, 0);
    assert_eq!(resp.net_usage, 0);
    assert_eq!(resp.memory.unwrap().mem_total, 4000);
}

#[test]
fn request_metrics_fails_when_host_state_cannot_be_read() {
    let service = CollectorMetricService::new(String::from("h"), String::from("p"));
    let r = service.request_metrics(None, Some(b"MemTotal: 4 kB\n".to_vec()));
    assert!(matches!(r, Err(MetricsError::HostnameUnavailable)));
    // A missing or malformed memory table fails the call too: each is an
    // internal error of this one call.
    let r = service.request_metrics(Some(String::from("h\n")), None);
    assert!(matches!(r, Err(MetricsError::MemoryUnavailable)));
    let r = service.request_metrics(Some(String::from("h\n")), Some(b"MemTotal: x\n".to_vec()));
    assert!(matches!(r, Err(MetricsError::MemoryUnavailable)));
    // A table with no recognized keys still reads: every counter is zero.
    let resp = service
        .request_metrics(Some(String::from("h\n")), Some(b"SwapTotal: 4 kB\n".to_vec()))
        .unwrap();
    assert_eq!(resp.memory.unwrap().mem_total, 0);
}

#[test]
fn aggregator_config_keeps_its_listeners() {
    let c = AggregatorConfig::new(
        GRPCConfig { host: String::from("127.0.0.1"), port: String::from("3001") },
        WebConfig { host: String::from("127.0.0.1"), port: String::from("3000") },
    );
    assert_eq!(c.grpc.host, "127.0.0.1");
    assert_eq!(c.grpc.port, "3001");
    assert_eq!(c.web.host, "127.0.0.1");
    assert_eq!(c.web.port, "3000");
}

#[test]
fn trim_strips_both_ends_only() {
    assert_eq!(trim_whitespace("  a host \n"), "a host");
    assert_eq!(trim_whitespace("plain"), "plain");
    assert_eq!(trim_whitespace(" \t\r\n"), "");
    assert_eq!(trim_whitespace(""), "");
    // Unicode white space is removed too, as a standard trim removes it.
    assert_eq!(trim_whitespace("\u{a0}\u{2003}host\u{a0}"), "host");
    assert_eq!(trim_whitespace("\u{85}h i\u{3000}"), "h i");
}
