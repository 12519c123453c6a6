use smolofis_panel::config::{Config, Environment};
use smolofis_panel::handlers::{
    api_metrics, api_state, asset_css, asset_font, dashboard, fonts, healthz, render_failure,
    service_cards, stylesheet, FontAnswer,
};
use smolofis_panel::json::Json;
use smolofis_panel::metrics::{DiskSpace, HostReading, Metrics};
use smolofis_panel::probe::{HttpOutcome, ProbeError};
use smolofis_panel::system::{AppState, Probes, Snapshot};

const GIB: u64 = 1 << 30;

fn config() -> Config {
    Config::from_env(&Environment { vars: Vec::new() }, None)
}

fn reading() -> HostReading {
    HostReading {
        cpu_percent_bits: 12.5f32.to_bits(),
        mem_used: 3 * GIB,
        mem_total: 16 * GIB,
        disks: vec![DiskSpace {
            total: 100 * GIB,
            available: 40 * GIB,
        }],
        uptime_secs: 3_661,
        load_one_bits: 0.25f64.to_bits(),
        hostname: Some("box".to_string()),
    }
}

fn state() -> AppState {
    let mut state = AppState::new(config(), 1);
    let probes = Probes {
        docker: Ok(()),
        docker_ms: 1,
        gitea: HttpOutcome::Status(200),
        gitea_ms: 2,
        coolify: HttpOutcome::Failed(ProbeError {
            is_connect: false,
            is_timeout: true,
            message: String::new(),
        }),
        coolify_ms: 3,
    };
    state.refresh(reading(), &probes, 1_700_000_000);
    state
}

fn value(json: &Json) -> serde_json::Value {
    match json {
        Json::Null => serde_json::Value::Null,
        Json::Number(n) => serde_json::Value::from(*n),
        Json::Single(bits) => serde_json::Value::from(f32::from_bits(*bits)),
        Json::Double(bits) => serde_json::Value::from(f64::from_bits(*bits)),
        Json::Text(s) => serde_json::Value::from(s.as_str()),
        Json::Array(items) => serde_json::Value::Array(items.iter().map(value).collect()),
        Json::Object(fields) => serde_json::Value::Object(
            fields
                .iter()
                .map(|(key, v)| (key.to_string(), value(v)))
                .collect(),
        ),
    }
}

fn parsed(text: &str) -> serde_json::Value {
    serde_json::from_str(text).unwrap()
}

#[test]
fn cards_show_badges_and_ports() {
    let state = state();
    let cards = service_cards(state.config(), &state.snapshot());
    let badges: Vec<_> = cards.iter().map(|c| c.badge).collect();
    assert_eq!(badges, ["ONLINE", "ONLINE", "OFFLINE"]);
    let ports: Vec<_> = cards.iter().map(|c| c.port).collect();
    assert_eq!(ports, [0, 3000, 8000]);
    let healths: Vec<_> = cards.iter().map(|c| c.health).collect();
    assert_eq!(healths, ["online", "online", "offline"]);
    assert_eq!(cards[2].detail, "probe timed out");
    assert_eq!(cards[1].name, "Gitea");
    assert_eq!(cards[1].id, "gitea");
    assert_eq!(cards[1].role, "Git hosting & CI/CD");
}

#[test]
fn pending_services_are_starting() {
    let cards = service_cards(&config(), &Snapshot::boot_default(0));
    assert_eq!(cards.len(), 3);
    assert!(cards.iter().all(|c| c.badge == "STARTING" && c.health == "pending"));
}

#[test]
fn dashboard_shows_the_snapshot() {
    let page = dashboard(&state(), "1.2.3", "12.5".to_string(), "0.25".to_string());
    assert_eq!(page.phase, "initializing");
    assert_eq!(page.phase_label, "INITIALIZING");
    assert_eq!(page.hostname, "box");
    assert_eq!(page.version, "1.2.3");
    assert_eq!(page.cpu, "12.5");
    assert_eq!(page.mem_used, "3.0");
    assert_eq!(page.mem_total, "16.0");
    assert_eq!(page.mem_pct, 19);
    assert_eq!(page.disk_used, "60.0");
    assert_eq!(page.disk_total, "100.0");
    assert_eq!(page.disk_pct, 60);
    assert_eq!(page.uptime, "1h 1m");
    assert_eq!(page.load_one, "0.25");
    assert_eq!(page.services.len(), 3);
}

#[test]
fn api_metrics_has_every_field() {
    let json = value(&api_metrics(&Metrics::sample(reading())));
    assert_eq!(
        json,
        parsed(
            r#"{
                "cpu_percent": 12.5,
                "mem_used": 3221225472,
                "mem_total": 17179869184,
                "mem_pct": 19,
                "mem_used_h": "3.0",
                "mem_total_h": "16.0",
                "disk_used": 64424509440,
                "disk_total": 107374182400,
                "disk_pct": 60,
                "disk_used_h": "60.0",
                "disk_total_h": "100.0",
                "uptime_secs": 3661,
                "uptime_h": "1h 1m",
                "load_one": 0.25,
                "hostname": "box"
            }"#
        )
    );
}

#[test]
fn api_state_has_every_field() {
    let json = value(&api_state(&state(), "1.2.3"));
    assert_eq!(json["phase"], "initializing");
    assert_eq!(json["phase_label"], "INITIALIZING");
    assert_eq!(
        json["services"],
        parsed(
            r#"[
                {"id": "docker", "name": "Docker Engine", "role": "Container runtime",
                 "health": "online", "detail": "engine responding on /var/run/docker.sock",
                 "latency_ms": 1},
                {"id": "gitea", "name": "Gitea", "role": "Git hosting & CI/CD",
                 "health": "online", "detail": "HTTP 200 in 2ms", "latency_ms": 2},
                {"id": "coolify", "name": "Coolify", "role": "PaaS & deployments",
                 "health": "offline", "detail": "probe timed out", "latency_ms": null}
            ]"#
        )
    );
    assert_eq!(json["metrics"], value(&api_metrics(&Metrics::sample(reading()))));
    assert_eq!(json["updated_at"], 1_700_000_000u64);
    assert_eq!(json["panel"], parsed(r#"{"version": "1.2.3"}"#));
    assert_eq!(
        json["links"],
        parsed(r#"{"gitea_port": 3000, "coolify_port": 8000}"#)
    );
    assert_eq!(json.as_object().unwrap().len(), 7);
}

#[test]
fn page_and_api_show_the_same() {
    let state = state();
    let page = dashboard(&state, "1", String::new(), String::new());
    let json = value(&api_state(&state, "1"));
    assert_eq!(json["phase"], page.phase);
    assert_eq!(json["metrics"]["mem_pct"], page.mem_pct);
    assert_eq!(json["metrics"]["disk_used_h"], page.disk_used.as_str());
    assert_eq!(json["panel"]["version"], page.version);
    for (i, card) in page.services.iter().enumerate() {
        assert_eq!(json["services"][i]["id"], card.id);
        assert_eq!(json["services"][i]["name"], card.name);
        assert_eq!(json["services"][i]["role"], card.role);
        assert_eq!(json["services"][i]["health"], card.health);
        assert_eq!(json["services"][i]["detail"], card.detail.as_str());
    }
    assert_eq!(json["links"]["gitea_port"], page.services[1].port);
    assert_eq!(json["links"]["coolify_port"], page.services[2].port);
}

#[test]
fn a_page_that_cannot_be_rendered_is_an_internal_error() {
    assert_eq!(render_failure(), (500, "template render error"));
}

#[test]
fn healthz_is_ok() {
    assert_eq!(healthz(), "ok");
}

#[test]
fn assets_are_cached_forever() {
    let css = asset_css();
    assert_eq!(css.file, "app.css");
    assert_eq!(css.file, stylesheet());
    assert_eq!(css.headers.content_type, "text/css; charset=utf-8");
    assert_eq!(css.headers.cache_control, "public, max-age=31536000, immutable");
}

#[test]
fn every_font_is_found() {
    let names = fonts();
    assert_eq!(names.len(), 6);
    for (i, name) in names.iter().enumerate() {
        match asset_font(name) {
            FontAnswer::Font { index, headers } => {
                assert_eq!(index, i);
                assert_eq!(headers.content_type, "font/woff2");
                assert_eq!(headers.cache_control, "public, max-age=31536000, immutable");
            }
            other => panic!("{other:?}"),
        }
    }
}

#[test]
fn unknown_fonts_are_not_found() {
    for name in ["", "comic-sans.woff2", "chakra-petch-500", "../app.css"] {
        match asset_font(name) {
            FontAnswer::Unknown { status, body } => {
                assert_eq!(status, 404);
                assert_eq!(body, "unknown font asset");
            }
            other => panic!("{other:?}"),
        }
    }
}
