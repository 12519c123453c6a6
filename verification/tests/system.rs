use smolofis_panel::config::{BindAddr, Config};
use smolofis_panel::json::Json;
use smolofis_panel::metrics::{is_countable, DiskSpace, HostReading, Metrics};
use smolofis_panel::phase::{BootPhase, ServiceHealth};
use smolofis_panel::probe::{
    probe_docker, probe_error_summary, probe_http, probe_url, HttpOutcome, ProbeError,
};
use smolofis_panel::system::{all_online, decide_phase, epoch_secs, AppState, Probes, Snapshot};

fn base_config() -> Config {
    Config {
        bind_addr: BindAddr::V4 {
            ipv4: 0x7f00_0001,
            port: 0,
        },
        gitea_url: "http://127.0.0.1:0".to_string(),
        gitea_health_path: "/api/healthz".to_string(),
        coolify_url: "http://127.0.0.1:0".to_string(),
        coolify_health_path: "/api/health".to_string(),
        docker_socket: "/nonexistent/smolofis-docker.sock".to_string(),
        poll_interval_secs: 3,
        gitea_public_port: 3000,
        coolify_public_port: 8000,
    }
}

fn refused() -> ProbeError {
    ProbeError {
        is_connect: true,
        is_timeout: false,
        message: "error sending request".to_string(),
    }
}

fn reading() -> HostReading {
    HostReading {
        cpu_percent_bits: 12.5f32.to_bits(),
        mem_used: 3,
        mem_total: 4,
        disks: vec![
            DiskSpace {
                total: 100,
                available: 40,
            },
            DiskSpace {
                total: 50,
                available: 5,
            },
        ],
        uptime_secs: 61,
        load_one_bits: 0.25f64.to_bits(),
        hostname: Some("box".to_string()),
    }
}

fn healthy() -> Probes {
    Probes {
        docker: Ok(()),
        docker_ms: 1,
        gitea: HttpOutcome::Status(200),
        gitea_ms: 2,
        coolify: HttpOutcome::Status(204),
        coolify_ms: 3,
    }
}

fn gitea_down() -> Probes {
    Probes {
        gitea: HttpOutcome::Failed(refused()),
        ..healthy()
    }
}

// ---- boot-phase state machine ---------------------------------------------

#[test]
fn phase_starts_initializing_before_first_ready() {
    let mut latch = false;
    assert_eq!(decide_phase(false, &mut latch), BootPhase::Initializing);
    assert!(!latch);
}

#[test]
fn phase_becomes_ready_and_latches() {
    let mut latch = false;
    assert_eq!(decide_phase(true, &mut latch), BootPhase::Ready);
    assert!(latch, "ready must latch ever_ready");
}

#[test]
fn phase_degrades_only_after_having_been_ready() {
    let mut latch = false;
    assert_eq!(decide_phase(true, &mut latch), BootPhase::Ready);
    // A service drops after the appliance was healthy -> Degraded, not back
    // to Initializing.
    assert_eq!(decide_phase(false, &mut latch), BootPhase::Degraded);
}

#[test]
fn phase_recovers_from_degraded_to_ready() {
    let mut latch = false;
    decide_phase(true, &mut latch);
    assert_eq!(decide_phase(false, &mut latch), BootPhase::Degraded);
    assert_eq!(decide_phase(true, &mut latch), BootPhase::Ready);
}

// ---- string contract the frontend and the JSON API depend on ---------------

fn json_text(json: Json) -> serde_json::Value {
    match json {
        Json::Text(s) => serde_json::Value::String(s),
        other => panic!("no text: {other:?}"),
    }
}

#[test]
fn boot_phase_json_matches_as_str() {
    for phase in [
        BootPhase::Initializing,
        BootPhase::Ready,
        BootPhase::Degraded,
    ] {
        assert_eq!(
            json_text(phase.to_json()),
            serde_json::Value::String(phase.as_str().to_string()),
        );
    }
}

#[test]
fn service_health_json_matches_as_str() {
    for health in [
        ServiceHealth::Pending,
        ServiceHealth::Online,
        ServiceHealth::Offline,
    ] {
        assert_eq!(
            json_text(health.to_json()),
            serde_json::Value::String(health.as_str().to_string()),
        );
    }
}

#[test]
fn names_and_labels() {
    assert_eq!(BootPhase::Initializing.as_str(), "initializing");
    assert_eq!(BootPhase::Ready.as_str(), "ready");
    assert_eq!(BootPhase::Degraded.as_str(), "degraded");
    assert_eq!(BootPhase::Initializing.label(), "INITIALIZING");
    assert_eq!(BootPhase::Ready.label(), "OPERATIONAL");
    assert_eq!(BootPhase::Degraded.label(), "DEGRADED");
    assert_eq!(ServiceHealth::Pending.as_str(), "pending");
    assert_eq!(ServiceHealth::Online.as_str(), "online");
    assert_eq!(ServiceHealth::Offline.as_str(), "offline");
}

#[test]
fn boot_default_snapshot_lists_three_pending_services() {
    let snap = Snapshot::boot_default(7);
    assert_eq!(snap.phase, BootPhase::Initializing);
    assert_eq!(snap.services.len(), 3);
    assert!(snap
        .services
        .iter()
        .all(|s| s.health == ServiceHealth::Pending));
    let ids: Vec<_> = snap.services.iter().map(|s| s.id).collect();
    assert_eq!(ids, ["docker", "gitea", "coolify"]);
    assert_eq!(snap.updated_at, 7);
    assert_eq!(snap.services[0].detail, "waiting for first probe");
    assert!(!all_online(&snap.services));
}

// ---- HTTP health probe -----------------------------------------------------

#[test]
fn probe_http_reports_online_on_success() {
    let cfg = base_config();
    let status = probe_http(
        "gitea",
        "Gitea",
        "Git hosting",
        &cfg.gitea_url,
        "/health",
        &HttpOutcome::Status(200),
        12,
    );
    assert_eq!(status.health, ServiceHealth::Online);
    assert!(status.latency_ms.is_some());
    assert_eq!(status.latency_ms, Some(12));
    assert_eq!(status.detail, "HTTP 200 in 12ms");
    assert_eq!(status.role, "Git hosting");
}

#[test]
fn probe_http_reports_offline_on_5xx() {
    let cfg = base_config();
    let status = probe_http(
        "gitea",
        "Gitea",
        "Git hosting",
        &cfg.gitea_url,
        "/health",
        &HttpOutcome::Status(500),
        12,
    );
    assert_eq!(status.health, ServiceHealth::Offline);
    assert!(status.latency_ms.is_none());
    assert!(status.detail.contains("500"));
    assert_eq!(
        status.detail,
        "unexpected HTTP 500 from http://127.0.0.1:0/health"
    );
}

#[test]
fn probe_http_reports_offline_when_nothing_listens() {
    let cfg = base_config();
    let status = probe_http(
        "gitea",
        "Gitea",
        "Git hosting",
        &cfg.gitea_url,
        "/health",
        &HttpOutcome::Failed(refused()),
        12,
    );
    assert_eq!(status.health, ServiceHealth::Offline);
    assert_eq!(
        status.detail,
        "connection refused (service not listening yet)"
    );
    assert_eq!(status.latency_ms, None);
}

#[test]
fn success_is_a_status_of_the_two_hundreds() {
    for (code, health) in [
        (199, ServiceHealth::Offline),
        (200, ServiceHealth::Online),
        (299, ServiceHealth::Online),
        (300, ServiceHealth::Offline),
    ] {
        let outcome = HttpOutcome::Status(code);
        let status = probe_http("a", "b", "c", "http://h/", "/p", &outcome, 0);
        assert_eq!(status.health, health);
    }
}

#[test]
fn probe_errors_are_summed_up() {
    assert_eq!(
        probe_error_summary(&ProbeError {
            is_connect: true,
            is_timeout: true,
            message: "x".to_string(),
        }),
        "connection refused (service not listening yet)"
    );
    assert_eq!(
        probe_error_summary(&ProbeError {
            is_connect: false,
            is_timeout: true,
            message: "x".to_string(),
        }),
        "probe timed out"
    );
    assert_eq!(
        probe_error_summary(&ProbeError {
            is_connect: false,
            is_timeout: false,
            message: "builder error".to_string(),
        }),
        "probe failed: builder error"
    );
}

#[test]
fn slashes_at_the_end_of_a_base_make_no_difference() {
    assert_eq!(probe_url("http://h", "/p"), "http://h/p");
    assert_eq!(probe_url("http://h/", "/p"), "http://h/p");
    assert_eq!(probe_url("http://h//", "p"), "http://hp");
}

#[test]
fn docker_status_follows_the_ping() {
    let up = probe_docker("/run/d.sock", &Ok(()), 4);
    assert_eq!(up.id, "docker");
    assert_eq!(up.name, "Docker Engine");
    assert_eq!(up.role, "Container runtime");
    assert_eq!(up.health, ServiceHealth::Online);
    assert_eq!(up.detail, "engine responding on /run/d.sock");
    assert_eq!(up.latency_ms, Some(4));
    let down = probe_docker("/run/d.sock", &Err("no".to_string()), 4);
    assert_eq!(down.health, ServiceHealth::Offline);
    assert_eq!(down.detail, "no");
    assert_eq!(down.latency_ms, None);
}

// ---- telemetry -------------------------------------------------------------

#[test]
fn disks_are_summed() {
    let m = Metrics::sample(reading());
    assert_eq!(m.disk_total, 150);
    assert_eq!(m.disk_used, 105);
    assert_eq!(m.hostname, "box");
    assert_eq!(f32::from_bits(m.cpu_percent_bits), 12.5);
    assert_eq!(f64::from_bits(m.load_one_bits), 0.25);
    assert_eq!((m.mem_used, m.mem_total, m.uptime_secs), (3, 4, 61));
}

#[test]
fn nothing_is_used_where_more_is_free_than_there_is() {
    let m = Metrics::sample(HostReading {
        disks: vec![DiskSpace {
            total: 5,
            available: 6,
        }],
        hostname: None,
        ..reading()
    });
    assert_eq!(m.disk_used, 0);
    assert_eq!(m.disk_total, 5);
    assert_eq!(m.hostname, "smolofis");
}

#[test]
fn disks_are_countable_up_to_64_bits() {
    let disk = |total, available| DiskSpace { total, available };
    assert!(is_countable(&vec![]));
    assert!(is_countable(&vec![disk(u64::MAX, u64::MAX)]));
    assert!(is_countable(&vec![disk(u64::MAX, 0), disk(0, u64::MAX)]));
    assert!(!is_countable(&vec![disk(u64::MAX, 0), disk(1, 0)]));
    assert!(!is_countable(&vec![disk(9, u64::MAX), disk(9, 1), disk(9, 0)]));
}

#[test]
fn default_metrics_are_zero() {
    let m = Metrics::default();
    assert_eq!(f32::from_bits(m.cpu_percent_bits), f32::default());
    assert_eq!(f64::from_bits(m.load_one_bits), f64::default());
    assert_eq!((m.mem_used, m.mem_total, m.disk_used), (0, 0, 0));
    assert_eq!((m.disk_total, m.uptime_secs), (0, 0));
    assert_eq!(m.hostname, "");
}

// ---- refresh cycles --------------------------------------------------------

#[test]
fn refresh_takes_the_appliance_through_its_phases() {
    let mut state = AppState::new(base_config(), 1);
    assert_eq!(state.snapshot().phase, BootPhase::Initializing);
    assert_eq!(state.refresh(reading(), &gitea_down(), 2), None);
    assert_eq!(state.snapshot().phase, BootPhase::Initializing);
    assert_eq!(
        state.refresh(reading(), &healthy(), 3),
        Some(BootPhase::Initializing)
    );
    assert_eq!(state.snapshot().phase, BootPhase::Ready);
    assert_eq!(state.refresh(reading(), &healthy(), 4), None);
    assert_eq!(
        state.refresh(reading(), &gitea_down(), 5),
        Some(BootPhase::Ready)
    );
    assert_eq!(state.snapshot().phase, BootPhase::Degraded);
    assert_eq!(
        state.refresh(reading(), &healthy(), 6),
        Some(BootPhase::Degraded)
    );
    assert_eq!(state.snapshot().phase, BootPhase::Ready);
}

#[test]
fn snapshot_shows_the_last_cycle() {
    let mut state = AppState::new(base_config(), 1);
    state.refresh(reading(), &healthy(), 2);
    state.refresh(reading(), &gitea_down(), 9);
    let snap = state.snapshot();
    assert_eq!(snap.updated_at, 9);
    assert_eq!(snap.metrics.disk_used, 105);
    let ids: Vec<_> = snap.services.iter().map(|s| s.id).collect();
    assert_eq!(ids, ["docker", "gitea", "coolify"]);
    let roles: Vec<_> = snap.services.iter().map(|s| s.role).collect();
    assert_eq!(
        roles,
        ["Container runtime", "Git hosting & CI/CD", "PaaS & deployments"]
    );
    assert_eq!(
        snap.services[0].detail,
        "engine responding on /nonexistent/smolofis-docker.sock"
    );
    assert_eq!(snap.services[1].health, ServiceHealth::Offline);
    assert_eq!(snap.services[2].detail, "HTTP 204 in 3ms");
    for s in &snap.services {
        assert_eq!(s.latency_ms.is_some(), s.health == ServiceHealth::Online);
        assert_ne!(s.health, ServiceHealth::Pending);
    }
    assert_eq!(state.config().gitea_public_port, 3000);
}

#[test]
fn a_failed_ping_keeps_the_appliance_from_being_ready() {
    let mut state = AppState::new(base_config(), 1);
    let probes = Probes {
        docker: Err("no engine".to_string()),
        ..healthy()
    };
    state.refresh(reading(), &probes, 2);
    assert_eq!(state.snapshot().phase, BootPhase::Initializing);
    assert_eq!(state.snapshot().services[0].detail, "no engine");
}

#[test]
fn epoch_secs_is_zero_before_the_epoch() {
    assert_eq!(epoch_secs(Some(5)), 5);
    assert_eq!(epoch_secs(None), 0);
}
