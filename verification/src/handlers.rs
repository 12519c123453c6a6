//! What the panel answers to HTTP requests: the dashboard's values, the JSON state
//! API that the frontend polls, the static assets, and a liveness endpoint.

use vstd::prelude::*;

use crate::config::{Config, ConfigView};
use crate::json::{Json, JsonView};
use crate::metrics::{Metrics, MetricsView};
use crate::phase::{health_name, phase_label, phase_name, BootPhase, ServiceHealth};
use crate::probe::{ServiceStatus, StatusView};
use crate::system::{well_formed, AppState, AppStateView, Snapshot};
use crate::text::{decimal, same};
use crate::units::{
    fmt_gib, fmt_uptime, full_is_whole_share, gib_reads_back, gib_text, pct, percent,
    share_at_the_ends, share_is_true, unused_is_no_share, uptime_text,
};

verus! {

/// Template-friendly view of one core service.
#[derive(Debug)]
pub struct ServiceCard {
    pub id: &'static str,
    pub name: &'static str,
    pub role: &'static str,
    pub health: &'static str,
    pub badge: &'static str,
    pub detail: String,
    /// Host-mapped port for the quick link; 0 means "no external UI".
    pub port: u16,
}

/// What a [`ServiceCard`] holds.
pub struct CardView {
    pub id: Seq<char>,
    pub name: Seq<char>,
    pub role: Seq<char>,
    pub health: Seq<char>,
    pub badge: Seq<char>,
    pub detail: Seq<char>,
    pub port: u16,
}

impl View for ServiceCard {
    type V = CardView;

    open spec fn view(&self) -> CardView {
        CardView {
            id: self.id@,
            name: self.name@,
            role: self.role@,
            health: self.health@,
            badge: self.badge@,
            detail: self.detail@,
            port: self.port,
        }
    }
}

/// The badge of a service of this health.
pub open spec fn badge_of(health: ServiceHealth) -> Seq<char> {
    match health {
        ServiceHealth::Online => "ONLINE"@,
        ServiceHealth::Offline => "OFFLINE"@,
        ServiceHealth::Pending => "STARTING"@,
    }
}

/// The port under which the browser reaches a service, zero for one without a UI.
pub open spec fn port_of(config: ConfigView, id: Seq<char>) -> u16 {
    if id == "gitea"@ {
        config.gitea_public_port
    } else if id == "coolify"@ {
        config.coolify_public_port
    } else {
        0
    }
}

/// The card of a service.
pub open spec fn card_of(config: ConfigView, status: StatusView) -> CardView {
    CardView {
        id: status.id,
        name: status.name,
        role: status.role,
        health: health_name(status.health),
        badge: badge_of(status.health),
        detail: status.detail,
        port: port_of(config, status.id),
    }
}

/// The card of a service.
pub fn service_card(config: &Config, status: &ServiceStatus) -> (r: ServiceCard)
    ensures
        r@ == card_of(config@, status@),
        r.id@ == status.id@,
        r.name@ == status.name@,
        r.role@ == status.role@,
        r.detail@ == status.detail@,
        status.health == ServiceHealth::Online ==> r.health@ == "online"@ && r.badge@ == "ONLINE"@,
        status.health == ServiceHealth::Offline ==> r.health@ == "offline"@ && r.badge@
            == "OFFLINE"@,
        status.health == ServiceHealth::Pending ==> r.health@ == "pending"@ && r.badge@
            == "STARTING"@,
        r.port == if status.id@ == "gitea"@ {
            config.gitea_public_port
        } else if status.id@ == "coolify"@ {
            config.coolify_public_port
        } else {
            0
        },
{
    ServiceCard {
        id: status.id,
        name: status.name,
        role: status.role,
        health: status.health.as_str(),
        badge: match status.health {
            ServiceHealth::Online => "ONLINE",
            ServiceHealth::Offline => "OFFLINE",
            ServiceHealth::Pending => "STARTING",
        },
        detail: status.detail.clone(),
        port: if same(status.id, "gitea") {
            config.gitea_public_port
        } else if same(status.id, "coolify") {
            config.coolify_public_port
        } else {
            0
        },
    }
}

/// A card shows its service: identity and detail as they are, the health in a word and
/// as a badge, and the port that the settings give to a service with a UI.
pub proof fn card_shows_its_service(config: ConfigView, status: StatusView)
    ensures
        ({
            let card = card_of(config, status);
            let words = |health: Seq<char>, badge: Seq<char>|
                card.health == health && card.badge == badge;
            &&& (card.id, card.name, card.role) == (status.id, status.name, status.role)
            &&& card.detail == status.detail
            &&& status.health == ServiceHealth::Online ==> words("online"@, "ONLINE"@)
            &&& status.health == ServiceHealth::Offline ==> words("offline"@, "OFFLINE"@)
            &&& status.health == ServiceHealth::Pending ==> words("pending"@, "STARTING"@)
            &&& status.id == "gitea"@ ==> card.port == config.gitea_public_port
            &&& status.id == "coolify"@ ==> card.port == config.coolify_public_port
            &&& status.id != "gitea"@ && status.id != "coolify"@ ==> card.port == 0
        }),
{
    assert("gitea"@.len() != "coolify"@.len()) by {
        reveal_strlit("gitea");
        reveal_strlit("coolify");
    }
}

/// Of the panel's services the Docker engine has no quick link; those of Gitea and
/// Coolify lead to the ports that the settings give.
pub proof fn quick_links(state: AppStateView)
    requires
        well_formed(state),
    ensures
        card_of(state.config, state.snapshot.services[0]).port == 0,
        card_of(state.config, state.snapshot.services[1]).port == state.config.gitea_public_port,
        card_of(state.config, state.snapshot.services[2]).port == state.config.coolify_public_port,
{
    reveal_strlit("docker");
    reveal_strlit("gitea");
    reveal_strlit("coolify");
    assert("docker"@.len() == 6 && "gitea"@.len() == 5 && "coolify"@.len() == 7);
}

/// One card for each service, in the same order.
pub fn service_cards(config: &Config, snap: &Snapshot) -> (r: Vec<ServiceCard>)
    ensures
        r@.map_values(|c: ServiceCard| c@) == snap@.services.map_values(
            |s: StatusView| card_of(config@, s),
        ),
        r@.len() == snap.services@.len(),
        forall|i: int|
            0 <= i < r@.len() ==> (#[trigger] r@[i])@ == card_of(config@, snap.services@[i]@),
{
    let mut r: Vec<ServiceCard> = Vec::new();
    let n: usize = snap.services.len();
    let mut i: usize = 0;
    while i < n
        invariant
            i <= n,
            n == snap.services@.len(),
            r@.len() == i,
            forall|k: int| 0 <= k < i ==> (#[trigger] r@[k])@ == card_of(config@, snap.services@[k]@),
        decreases n - i,
    {
        r.push(service_card(config, &snap.services[i]));
        i = i + 1;
    }
    r
}

/// The values of the dashboard page.
#[derive(Debug)]
pub struct DashboardTemplate {
    pub phase: &'static str,
    pub phase_label: &'static str,
    pub hostname: String,
    pub version: &'static str,
    pub cpu: String,
    pub mem_used: String,
    pub mem_total: String,
    pub mem_pct: u8,
    pub disk_used: String,
    pub disk_total: String,
    pub disk_pct: u8,
    pub uptime: String,
    pub load_one: String,
    pub services: Vec<ServiceCard>,
}

/// What a [`DashboardTemplate`] holds.
pub struct DashboardView {
    pub phase: Seq<char>,
    pub phase_label: Seq<char>,
    pub hostname: Seq<char>,
    pub version: Seq<char>,
    pub cpu: Seq<char>,
    pub mem_used: Seq<char>,
    pub mem_total: Seq<char>,
    pub mem_pct: nat,
    pub disk_used: Seq<char>,
    pub disk_total: Seq<char>,
    pub disk_pct: nat,
    pub uptime: Seq<char>,
    pub load_one: Seq<char>,
    pub services: Seq<CardView>,
}

impl View for DashboardTemplate {
    type V = DashboardView;

    open spec fn view(&self) -> DashboardView {
        DashboardView {
            phase: self.phase@,
            phase_label: self.phase_label@,
            hostname: self.hostname@,
            version: self.version@,
            cpu: self.cpu@,
            mem_used: self.mem_used@,
            mem_total: self.mem_total@,
            mem_pct: self.mem_pct as nat,
            disk_used: self.disk_used@,
            disk_total: self.disk_total@,
            disk_pct: self.disk_pct as nat,
            uptime: self.uptime@,
            load_one: self.load_one@,
            services: self.services@.map_values(|c: ServiceCard| c@),
        }
    }
}

/// The values of the dashboard page for a state, given the panel's version and the
/// texts of CPU load and load average.
pub open spec fn dashboard_of(
    state: AppStateView,
    version: Seq<char>,
    cpu: Seq<char>,
    load_one: Seq<char>,
) -> DashboardView {
    let snap = state.snapshot;
    let m = snap.metrics;
    DashboardView {
        phase: phase_name(snap.phase),
        phase_label: phase_label(snap.phase),
        hostname: m.hostname,
        version,
        cpu,
        mem_used: gib_text(m.mem_used as nat),
        mem_total: gib_text(m.mem_total as nat),
        mem_pct: percent(m.mem_used as nat, m.mem_total as nat),
        disk_used: gib_text(m.disk_used as nat),
        disk_total: gib_text(m.disk_total as nat),
        disk_pct: percent(m.disk_used as nat, m.disk_total as nat),
        uptime: uptime_text(m.uptime_secs as nat),
        load_one,
        services: snap.services.map_values(|s: StatusView| card_of(state.config, s)),
    }
}

/// GET / : the values of the dashboard page, so that the first paint is real data.
pub fn dashboard(state: &AppState, version: &'static str, cpu: String, load_one: String) -> (r:
    DashboardTemplate)
    ensures
        r@ == dashboard_of(state@, version@, cpu@, load_one@),
        r.phase@ == phase_name(state@.snapshot.phase),
        r.phase_label@ == phase_label(state@.snapshot.phase),
        r.hostname@ == state@.snapshot.metrics.hostname,
        r.version@ == version@,
        r.cpu@ == cpu@,
        r.load_one@ == load_one@,
        r.mem_used@ == gib_text(state@.snapshot.metrics.mem_used as nat),
        r.mem_total@ == gib_text(state@.snapshot.metrics.mem_total as nat),
        r.mem_pct == percent(
            state@.snapshot.metrics.mem_used as nat,
            state@.snapshot.metrics.mem_total as nat,
        ),
        r.disk_used@ == gib_text(state@.snapshot.metrics.disk_used as nat),
        r.disk_total@ == gib_text(state@.snapshot.metrics.disk_total as nat),
        r.disk_pct == percent(
            state@.snapshot.metrics.disk_used as nat,
            state@.snapshot.metrics.disk_total as nat,
        ),
        r.uptime@ == uptime_text(state@.snapshot.metrics.uptime_secs as nat),
        r.services@.len() == state@.snapshot.services.len(),
        forall|i: int|
            0 <= i < r.services@.len() ==> (#[trigger] r.services@[i])@ == card_of(
                state@.config,
                state@.snapshot.services[i],
            ),
{
    let snap = state.snapshot();
    let services = service_cards(state.config(), &snap);
    proof {
        assert forall|i: int| 0 <= i < services@.len() implies (#[trigger] services@[i])@ == card_of(
            state@.config,
            state@.snapshot.services[i],
        ) by {
            assert(snap@.services[i] == snap.services@[i]@);
        }
    }
    let m = snap.metrics;
    DashboardTemplate {
        phase: snap.phase.as_str(),
        phase_label: snap.phase.label(),
        mem_used: fmt_gib(m.mem_used),
        mem_total: fmt_gib(m.mem_total),
        mem_pct: pct(m.mem_used, m.mem_total),
        disk_used: fmt_gib(m.disk_used),
        disk_total: fmt_gib(m.disk_total),
        disk_pct: pct(m.disk_used, m.disk_total),
        uptime: fmt_uptime(m.uptime_secs),
        hostname: m.hostname,
        version,
        cpu,
        load_one,
        services,
    }
}

/// GET /healthz : liveness for watchdogs and monitors.
pub fn healthz() -> (r: &'static str)
    ensures
        r@ == "ok"@,
{
    "ok"
}

/// The telemetry in the API.
pub open spec fn metrics_json(m: MetricsView) -> JsonView {
    JsonView::Object(
        seq![
            ("cpu_percent"@, JsonView::Single(m.cpu_percent_bits)),
            ("mem_used"@, JsonView::Number(m.mem_used)),
            ("mem_total"@, JsonView::Number(m.mem_total)),
            ("mem_pct"@, JsonView::Number(percent(m.mem_used as nat, m.mem_total as nat) as u64)),
            ("mem_used_h"@, JsonView::Text(gib_text(m.mem_used as nat))),
            ("mem_total_h"@, JsonView::Text(gib_text(m.mem_total as nat))),
            ("disk_used"@, JsonView::Number(m.disk_used)),
            ("disk_total"@, JsonView::Number(m.disk_total)),
            ("disk_pct"@, JsonView::Number(percent(m.disk_used as nat, m.disk_total as nat) as u64)),
            ("disk_used_h"@, JsonView::Text(gib_text(m.disk_used as nat))),
            ("disk_total_h"@, JsonView::Text(gib_text(m.disk_total as nat))),
            ("uptime_secs"@, JsonView::Number(m.uptime_secs)),
            ("uptime_h"@, JsonView::Text(uptime_text(m.uptime_secs as nat))),
            ("load_one"@, JsonView::Double(m.load_one_bits)),
            ("hostname"@, JsonView::Text(m.hostname)),
        ],
    )
}

/// The telemetry in the API.
pub fn api_metrics(m: &Metrics) -> (r: Json)
    ensures
        r@ == metrics_json(m@),
        ({
            let fields = r@->Object_0;
            &&& r@ is Object && fields.len() == 15
            &&& fields[0] == ("cpu_percent"@, JsonView::Single(m.cpu_percent_bits))
            &&& fields[1] == ("mem_used"@, JsonView::Number(m.mem_used))
            &&& fields[2] == ("mem_total"@, JsonView::Number(m.mem_total))
            &&& fields[6] == ("disk_used"@, JsonView::Number(m.disk_used))
            &&& fields[7] == ("disk_total"@, JsonView::Number(m.disk_total))
            &&& fields[11] == ("uptime_secs"@, JsonView::Number(m.uptime_secs))
            &&& fields[13] == ("load_one"@, JsonView::Double(m.load_one_bits))
            &&& fields[14] == ("hostname"@, JsonView::Text(m.hostname@))
        }),
{
    let mut fields: Vec<(&'static str, Json)> = Vec::new();
    fields.push(("cpu_percent", Json::single(m.cpu_percent_bits)));
    fields.push(("mem_used", Json::number(m.mem_used)));
    fields.push(("mem_total", Json::number(m.mem_total)));
    fields.push(("mem_pct", Json::number(pct(m.mem_used, m.mem_total) as u64)));
    fields.push(("mem_used_h", Json::text(fmt_gib(m.mem_used).as_str())));
    fields.push(("mem_total_h", Json::text(fmt_gib(m.mem_total).as_str())));
    fields.push(("disk_used", Json::number(m.disk_used)));
    fields.push(("disk_total", Json::number(m.disk_total)));
    fields.push(("disk_pct", Json::number(pct(m.disk_used, m.disk_total) as u64)));
    fields.push(("disk_used_h", Json::text(fmt_gib(m.disk_used).as_str())));
    fields.push(("disk_total_h", Json::text(fmt_gib(m.disk_total).as_str())));
    fields.push(("uptime_secs", Json::number(m.uptime_secs)));
    fields.push(("uptime_h", Json::text(fmt_uptime(m.uptime_secs).as_str())));
    fields.push(("load_one", Json::double(m.load_one_bits)));
    fields.push(("hostname", Json::text(m.hostname.as_str())));
    let r = Json::object(fields);
    proof {
        assert(r@->Object_0 == metrics_json(m@)->Object_0);
    }
    r
}

/// The raw numbers of the API are those of the telemetry, each under its own name, and
/// every percentage and every text beside them is made of the raw numbers given there:
/// the percentage is true to half a per cent up to 2^43, the text of a size reads back
/// to the tenths of a gibibyte nearest to it, that of the uptime to the uptime.
pub proof fn api_gives_the_raw_numbers(m: MetricsView, whole: nat, tenth: nat)
    ensures
        ({
            let json = metrics_json(m);
            let f = json->Object_0;
            let share = |used: u64, total: u64, pct: JsonView| {
                &&& pct is Number && pct->Number_0 <= 100
                &&& total == 0 || used == 0 ==> pct->Number_0 == 0
                &&& 0 < total <= used ==> pct->Number_0 == 100
                &&& used <= total <= 0x800_0000_0000 ==> 2 * (pct->Number_0 * total) <= 200 * used
                    + total && 200 * used <= 2 * (pct->Number_0 * total) + total
            };
            let size = |bytes: u64, text: JsonView| {
                let (shown, exact) = (2 * ((whole * 10 + tenth) * 0x4000_0000), 20 * bytes);
                bytes < 0x20_0000_0000_0000 ==> (text == JsonView::Text(
                    decimal(whole) + "."@ + decimal(tenth),
                ) <==> {
                    &&& tenth < 10
                    &&& exact <= shown + 0x4000_0000
                    &&& shown <= exact + 0x4000_0000
                    &&& exact == shown + 0x4000_0000 || shown == exact + 0x4000_0000 ==> tenth % 2
                        == 0
                })
            };
            &&& json is Object && f.len() == 15
            &&& f[0] == ("cpu_percent"@, JsonView::Single(m.cpu_percent_bits))
            &&& f[1] == ("mem_used"@, JsonView::Number(m.mem_used))
            &&& f[2] == ("mem_total"@, JsonView::Number(m.mem_total))
            &&& f[3].0 == "mem_pct"@ && share(f[1].1->Number_0, f[2].1->Number_0, f[3].1)
            &&& f[4].0 == "mem_used_h"@ && size(f[1].1->Number_0, f[4].1)
            &&& f[5].0 == "mem_total_h"@ && size(f[2].1->Number_0, f[5].1)
            &&& f[6] == ("disk_used"@, JsonView::Number(m.disk_used))
            &&& f[7] == ("disk_total"@, JsonView::Number(m.disk_total))
            &&& f[8].0 == "disk_pct"@ && share(f[6].1->Number_0, f[7].1->Number_0, f[8].1)
            &&& f[9].0 == "disk_used_h"@ && size(f[6].1->Number_0, f[9].1)
            &&& f[10].0 == "disk_total_h"@ && size(f[7].1->Number_0, f[10].1)
            &&& f[11] == ("uptime_secs"@, JsonView::Number(m.uptime_secs))
            &&& f[12] == (
                "uptime_h"@,
                JsonView::Text(uptime_text(f[11].1->Number_0 as nat)),
            )
            &&& f[13] == ("load_one"@, JsonView::Double(m.load_one_bits))
            &&& f[14] == ("hostname"@, JsonView::Text(m.hostname))
            &&& f[3].1 == JsonView::Number(percent(m.mem_used as nat, m.mem_total as nat) as u64)
            &&& f[8].1 == JsonView::Number(percent(m.disk_used as nat, m.disk_total as nat) as u64)
            &&& f[4].1 == JsonView::Text(gib_text(m.mem_used as nat))
            &&& f[5].1 == JsonView::Text(gib_text(m.mem_total as nat))
            &&& f[9].1 == JsonView::Text(gib_text(m.disk_used as nat))
            &&& f[10].1 == JsonView::Text(gib_text(m.disk_total as nat))
        }),
{
    lemma_share(m.mem_used, m.mem_total);
    lemma_share(m.disk_used, m.disk_total);
    gib_reads_back(m.mem_used as nat, whole, tenth);
    gib_reads_back(m.mem_total as nat, whole, tenth);
    gib_reads_back(m.disk_used as nat, whole, tenth);
    gib_reads_back(m.disk_total as nat, whole, tenth);
}

proof fn lemma_share(used: u64, total: u64)
    ensures
        ({
            let p = percent(used as nat, total as nat);
            &&& p <= 100
            &&& total == 0 || used == 0 ==> p == 0
            &&& 0 < total <= used ==> p == 100
            &&& used <= total <= 0x800_0000_0000 ==> 2 * (p * total) <= 200 * used + total && 200
                * used <= 2 * (p * total) + total
        }),
{
    share_at_the_ends(used as nat, total as nat);
    unused_is_no_share(total as nat);
    if 0 < total <= used {
        full_is_whole_share(used as nat, total as nat);
    }
    if used <= total <= 0x800_0000_0000 {
        share_is_true(used as nat, total as nat);
    }
}

/// A service in the API; the latency is null where there is none.
pub open spec fn service_json(s: StatusView) -> JsonView {
    JsonView::Object(
        seq![
            ("id"@, JsonView::Text(s.id)),
            ("name"@, JsonView::Text(s.name)),
            ("role"@, JsonView::Text(s.role)),
            ("health"@, JsonView::Text(health_name(s.health))),
            ("detail"@, JsonView::Text(s.detail)),
            (
                "latency_ms"@,
                match s.latency_ms {
                    Some(ms) => JsonView::Number(ms),
                    None => JsonView::Null,
                },
            ),
        ],
    )
}

/// A service in the API.
pub fn api_service(s: &ServiceStatus) -> (r: Json)
    ensures
        r@ == service_json(s@),
        ({
            let fields = r@->Object_0;
            &&& r@ is Object && fields.len() == 6
            &&& fields[0] == ("id"@, JsonView::Text(s.id@))
            &&& fields[1] == ("name"@, JsonView::Text(s.name@))
            &&& fields[2] == ("role"@, JsonView::Text(s.role@))
            &&& fields[3] == ("health"@, JsonView::Text(health_name(s.health)))
            &&& fields[4] == ("detail"@, JsonView::Text(s.detail@))
            &&& s.latency_ms matches Some(ms) ==> fields[5] == (
                "latency_ms"@,
                JsonView::Number(ms),
            )
            &&& s.latency_ms is None ==> fields[5] == ("latency_ms"@, JsonView::Null)
        }),
{
    let mut fields: Vec<(&'static str, Json)> = Vec::new();
    fields.push(("id", Json::text(s.id)));
    fields.push(("name", Json::text(s.name)));
    fields.push(("role", Json::text(s.role)));
    fields.push(("health", s.health.to_json()));
    fields.push(("detail", Json::text(s.detail.as_str())));
    fields.push(("latency_ms", Json::optional(s.latency_ms)));
    let r = Json::object(fields);
    proof {
        assert(r@->Object_0 == service_json(s@)->Object_0);
    }
    r
}

/// The API gives a service as it is: every field under its own name, the health in a
/// word, and a latency where there is one.
pub proof fn api_gives_the_service(s: StatusView)
    ensures
        ({
            let json = service_json(s);
            let f = json->Object_0;
            &&& json is Object && f.len() == 6
            &&& f[0] == ("id"@, JsonView::Text(s.id))
            &&& f[1] == ("name"@, JsonView::Text(s.name))
            &&& f[2] == ("role"@, JsonView::Text(s.role))
            &&& s.health == ServiceHealth::Online ==> f[3] == (
                "health"@,
                JsonView::Text("online"@),
            )
            &&& s.health == ServiceHealth::Offline ==> f[3] == (
                "health"@,
                JsonView::Text("offline"@),
            )
            &&& s.health == ServiceHealth::Pending ==> f[3] == (
                "health"@,
                JsonView::Text("pending"@),
            )
            &&& f[4] == ("detail"@, JsonView::Text(s.detail))
            &&& s.latency_ms matches Some(ms) ==> f[5] == ("latency_ms"@, JsonView::Number(ms))
            &&& s.latency_ms is None ==> f[5] == ("latency_ms"@, JsonView::Null)
        }),
{
}

/// The whole state in the API.
pub open spec fn state_json(state: AppStateView, version: Seq<char>) -> JsonView {
    let snap = state.snapshot;
    JsonView::Object(
        seq![
            ("phase"@, JsonView::Text(phase_name(snap.phase))),
            ("phase_label"@, JsonView::Text(phase_label(snap.phase))),
            (
                "services"@,
                JsonView::Array(snap.services.map_values(|s: StatusView| service_json(s))),
            ),
            ("metrics"@, metrics_json(snap.metrics)),
            ("updated_at"@, JsonView::Number(snap.updated_at)),
            ("panel"@, JsonView::Object(seq![("version"@, JsonView::Text(version))])),
            (
                "links"@,
                JsonView::Object(
                    seq![
                        (
                            "gitea_port"@,
                            JsonView::Number(state.config.gitea_public_port as u64),
                        ),
                        (
                            "coolify_port"@,
                            JsonView::Number(state.config.coolify_public_port as u64),
                        ),
                    ],
                ),
            ),
        ],
    )
}

fn api_services(services: &Vec<ServiceStatus>) -> (r: Json)
    ensures
        r@ == JsonView::Array(
            services@.map_values(|s: ServiceStatus| s@).map_values(
                |s: StatusView| service_json(s),
            ),
        ),
{
    let mut list: Vec<Json> = Vec::new();
    let n: usize = services.len();
    let mut i: usize = 0;
    while i < n
        invariant
            i <= n,
            n == services@.len(),
            list@.len() == i,
            forall|k: int| 0 <= k < i ==> (#[trigger] list@[k])@ == service_json(services@[k]@),
        decreases n - i,
    {
        list.push(api_service(&services[i]));
        i = i + 1;
    }
    let r = Json::array(list);
    proof {
        assert(r@->Array_0 == services@.map_values(|s: ServiceStatus| s@).map_values(
            |s: StatusView| service_json(s),
        ));
    }
    r
}

/// GET /api/state : full machine-readable snapshot, polled by the frontend.
pub fn api_state(state: &AppState, version: &str) -> (r: Json)
    ensures
        r@ == state_json(state@, version@),
        ({
            let fields = r@->Object_0;
            let snap = state@.snapshot;
            &&& r@ is Object && fields.len() == 7
            &&& fields[0] == ("phase"@, JsonView::Text(phase_name(snap.phase)))
            &&& fields[1] == ("phase_label"@, JsonView::Text(phase_label(snap.phase)))
            &&& fields[3] == ("metrics"@, metrics_json(snap.metrics))
            &&& fields[4] == ("updated_at"@, JsonView::Number(snap.updated_at))
        }),
{
    let snap = state.snapshot();
    let config = state.config();
    let mut panel: Vec<(&'static str, Json)> = Vec::new();
    panel.push(("version", Json::text(version)));
    let panel = Json::object(panel);
    let mut links: Vec<(&'static str, Json)> = Vec::new();
    links.push(("gitea_port", Json::number(config.gitea_public_port as u64)));
    links.push(("coolify_port", Json::number(config.coolify_public_port as u64)));
    let links = Json::object(links);
    let mut fields: Vec<(&'static str, Json)> = Vec::new();
    fields.push(("phase", snap.phase.to_json()));
    fields.push(("phase_label", Json::text(snap.phase.label())));
    fields.push(("services", api_services(&snap.services)));
    fields.push(("metrics", api_metrics(&snap.metrics)));
    fields.push(("updated_at", Json::number(snap.updated_at)));
    fields.push(("panel", panel));
    fields.push(("links", links));
    let r = Json::object(fields);
    proof {
        let expected = state_json(state@, version@)->Object_0;
        assert(panel@->Object_0 == expected[5].1->Object_0);
        assert(links@->Object_0 == expected[6].1->Object_0);
        assert(r@->Object_0 == expected);
    }
    r
}

/// The API gives the state as it is: the phase and its label, every service in its
/// order, the telemetry, the time of the cycle, the panel's version, and the ports
/// under which the browser reaches the services.
pub proof fn api_gives_the_state(state: AppStateView, version: Seq<char>)
    ensures
        ({
            let json = state_json(state, version);
            let f = json->Object_0;
            let snap = state.snapshot;
            let words = |name: Seq<char>, label: Seq<char>|
                f[0] == ("phase"@, JsonView::Text(name)) && f[1] == (
                    "phase_label"@,
                    JsonView::Text(label),
                );
            &&& json is Object && f.len() == 7
            &&& snap.phase == BootPhase::Initializing ==> words("initializing"@, "INITIALIZING"@)
            &&& snap.phase == BootPhase::Ready ==> words("ready"@, "OPERATIONAL"@)
            &&& snap.phase == BootPhase::Degraded ==> words("degraded"@, "DEGRADED"@)
            &&& f[2].0 == "services"@ && f[2].1 is Array
            &&& f[2].1->Array_0.len() == snap.services.len()
            &&& forall|i: int|
                0 <= i < snap.services.len() ==> (#[trigger] f[2].1->Array_0[i]) == service_json(
                    snap.services[i],
                )
            &&& f[3] == ("metrics"@, metrics_json(snap.metrics))
            &&& f[4] == ("updated_at"@, JsonView::Number(snap.updated_at))
            &&& f[5].0 == "panel"@ && f[5].1 is Object && f[5].1->Object_0.len() == 1
            &&& f[5].1->Object_0[0] == ("version"@, JsonView::Text(version))
            &&& f[6].0 == "links"@ && f[6].1 is Object && f[6].1->Object_0.len() == 2
            &&& f[6].1->Object_0[0] == (
                "gitea_port"@,
                JsonView::Number(state.config.gitea_public_port as u64),
            )
            &&& f[6].1->Object_0[1] == (
                "coolify_port"@,
                JsonView::Number(state.config.coolify_public_port as u64),
            )
        }),
{
}

/// The page shows the state as it is: the phase in its two words, the host's name, the
/// panel's version, the two texts that were handed in, a card for every service in its
/// order, and of memory, disks and uptime the figures of their own telemetry.
pub proof fn page_shows_the_state(
    state: AppStateView,
    version: Seq<char>,
    cpu: Seq<char>,
    load_one: Seq<char>,
)
    ensures
        ({
            let page = dashboard_of(state, version, cpu, load_one);
            let snap = state.snapshot;
            let m = snap.metrics;
            let words = |name: Seq<char>, label: Seq<char>|
                page.phase == name && page.phase_label == label;
            let share = |used: u64, total: u64, pct: nat| {
                &&& pct == percent(used as nat, total as nat) && pct <= 100
                &&& total == 0 || used == 0 ==> pct == 0
                &&& 0 < total <= used ==> pct == 100
                &&& used <= total <= 0x800_0000_0000 ==> 2 * (pct * total) <= 200 * used + total
                    && 200 * used <= 2 * (pct * total) + total
            };
            &&& snap.phase == BootPhase::Initializing ==> words("initializing"@, "INITIALIZING"@)
            &&& snap.phase == BootPhase::Ready ==> words("ready"@, "OPERATIONAL"@)
            &&& snap.phase == BootPhase::Degraded ==> words("degraded"@, "DEGRADED"@)
            &&& page.hostname == m.hostname
            &&& page.version == version
            &&& page.cpu == cpu
            &&& page.load_one == load_one
            &&& page.mem_used == gib_text(m.mem_used as nat)
            &&& page.mem_total == gib_text(m.mem_total as nat)
            &&& share(m.mem_used, m.mem_total, page.mem_pct)
            &&& page.disk_used == gib_text(m.disk_used as nat)
            &&& page.disk_total == gib_text(m.disk_total as nat)
            &&& share(m.disk_used, m.disk_total, page.disk_pct)
            &&& page.uptime == uptime_text(m.uptime_secs as nat)
            &&& page.services.len() == snap.services.len()
            &&& forall|i: int|
                0 <= i < snap.services.len() ==> #[trigger] page.services[i] == card_of(
                    state.config,
                    snap.services[i],
                )
        }),
{
    lemma_share(state.snapshot.metrics.mem_used, state.snapshot.metrics.mem_total);
    lemma_share(state.snapshot.metrics.disk_used, state.snapshot.metrics.disk_total);
}

/// The page and the API show the same: phase and label, the panel's version, the
/// services with their names, roles, healths and details, the ports under which the
/// browser reaches them, percentages, sizes, uptime and the host's name.
pub proof fn page_agrees_with_api(
    state: AppStateView,
    version: Seq<char>,
    cpu: Seq<char>,
    load_one: Seq<char>,
)
    ensures
        ({
            let page = dashboard_of(state, version, cpu, load_one);
            let api = state_json(state, version)->Object_0;
            let metrics = api[3].1->Object_0;
            let services = api[2].1->Array_0;
            let links = api[6].1->Object_0;
            &&& api[0] == ("phase"@, JsonView::Text(page.phase))
            &&& api[1] == ("phase_label"@, JsonView::Text(page.phase_label))
            &&& metrics[3] == ("mem_pct"@, JsonView::Number(page.mem_pct as u64))
            &&& metrics[4] == ("mem_used_h"@, JsonView::Text(page.mem_used))
            &&& metrics[5] == ("mem_total_h"@, JsonView::Text(page.mem_total))
            &&& metrics[8] == ("disk_pct"@, JsonView::Number(page.disk_pct as u64))
            &&& metrics[9] == ("disk_used_h"@, JsonView::Text(page.disk_used))
            &&& metrics[10] == ("disk_total_h"@, JsonView::Text(page.disk_total))
            &&& metrics[12] == ("uptime_h"@, JsonView::Text(page.uptime))
            &&& metrics[14] == ("hostname"@, JsonView::Text(page.hostname))
            &&& api[5] == (
                "panel"@,
                JsonView::Object(seq![("version"@, JsonView::Text(page.version))]),
            )
            &&& services.len() == page.services.len()
            &&& forall|i: int|
                0 <= i < services.len() ==> {
                    &&& (#[trigger] services[i])->Object_0[0] == (
                        "id"@,
                        JsonView::Text(page.services[i].id),
                    )
                    &&& services[i]->Object_0[1] == ("name"@, JsonView::Text(page.services[i].name))
                    &&& services[i]->Object_0[2] == ("role"@, JsonView::Text(page.services[i].role))
                    &&& services[i]->Object_0[3] == (
                        "health"@,
                        JsonView::Text(page.services[i].health),
                    )
                    &&& services[i]->Object_0[4] == (
                        "detail"@,
                        JsonView::Text(page.services[i].detail),
                    )
                    &&& page.services[i].id == "gitea"@ ==> links[0] == (
                        "gitea_port"@,
                        JsonView::Number(page.services[i].port as u64),
                    )
                    &&& page.services[i].id == "coolify"@ ==> links[1] == (
                        "coolify_port"@,
                        JsonView::Number(page.services[i].port as u64),
                    )
                }
        }),
{
    assert("gitea"@.len() != "coolify"@.len()) by {
        reveal_strlit("gitea");
        reveal_strlit("coolify");
    }
}

/// The status and the body that answer for a page which cannot be rendered.
pub fn render_failure() -> (r: (u16, &'static str))
    ensures
        r.0 == 500,
        r.1@ == "template render error"@,
{
    (500, "template render error")
}

/// The headers of a static asset. Assets are immutable for a given panel, so that
/// browsers may cache them hard.
#[derive(Clone, Copy, Debug)]
pub struct AssetHeaders {
    pub content_type: &'static str,
    pub cache_control: &'static str,
}

/// Whether `headers` are those of an immutable asset of that type.
pub open spec fn immutable_asset(headers: AssetHeaders, content_type: Seq<char>) -> bool {
    &&& headers.content_type@ == content_type
    &&& headers.cache_control@ == "public, max-age=31536000, immutable"@
}

/// The answer with a static asset: the bytes of this file, under these headers.
#[derive(Clone, Copy, Debug)]
pub struct AssetAnswer {
    pub file: &'static str,
    pub headers: AssetHeaders,
}

/// The file of the stylesheet.
pub fn stylesheet() -> (r: &'static str)
    ensures
        r@ == "app.css"@,
{
    "app.css"
}

/// GET /assets/app.css : the stylesheet.
pub fn asset_css() -> (r: AssetAnswer)
    ensures
        r.file@ == "app.css"@,
        immutable_asset(r.headers, "text/css; charset=utf-8"@),
        r.headers.content_type@ == "text/css; charset=utf-8"@,
        r.headers.cache_control@ == "public, max-age=31536000, immutable"@,
{
    AssetAnswer {
        file: stylesheet(),
        headers: AssetHeaders {
            content_type: "text/css; charset=utf-8",
            cache_control: "public, max-age=31536000, immutable",
        },
    }
}

/// The font files that the panel serves.
pub open spec fn font_files() -> Seq<Seq<char>> {
    seq![
        "chakra-petch-500.woff2"@,
        "chakra-petch-600.woff2"@,
        "chakra-petch-700.woff2"@,
        "ibm-plex-mono-400.woff2"@,
        "ibm-plex-mono-500.woff2"@,
        "ibm-plex-mono-600.woff2"@,
    ]
}

/// The font files that the panel serves.
pub fn fonts() -> (r: Vec<&'static str>)
    ensures
        r@.map_values(|f: &'static str| f@) == font_files(),
{
    let mut r: Vec<&'static str> = Vec::new();
    r.push("chakra-petch-500.woff2");
    r.push("chakra-petch-600.woff2");
    r.push("chakra-petch-700.woff2");
    r.push("ibm-plex-mono-400.woff2");
    r.push("ibm-plex-mono-500.woff2");
    r.push("ibm-plex-mono-600.woff2");
    proof {
        assert(r@.map_values(|f: &'static str| f@) == font_files());
    }
    r
}

/// The answer to a request for a font.
#[derive(Debug)]
pub enum FontAnswer {
    /// The font at this place among [`fonts`], under these headers.
    Font { index: usize, headers: AssetHeaders },
    /// No font of the panel: this status and text.
    Unknown { status: u16, body: &'static str },
}

/// Whether `answer` is the right one to a request for `file`.
pub open spec fn answers_font_request(file: Seq<char>, answer: FontAnswer) -> bool {
    match answer {
        FontAnswer::Font { index, headers } => {
            &&& index < font_files().len()
            &&& font_files()[index as int] == file
            &&& immutable_asset(headers, "font/woff2"@)
        },
        FontAnswer::Unknown { status, body } => {
            &&& !font_files().contains(file)
            &&& status == 404
            &&& body@ == "unknown font asset"@
        },
    }
}

/// No font is listed twice, so that a request for a font has one right answer.
pub proof fn fonts_are_distinct(i: int, j: int)
    requires
        0 <= i < j < font_files().len(),
    ensures
        font_files()[i] != font_files()[j],
{
    reveal_strlit("chakra-petch-500.woff2");
    reveal_strlit("chakra-petch-600.woff2");
    reveal_strlit("chakra-petch-700.woff2");
    reveal_strlit("ibm-plex-mono-400.woff2");
    reveal_strlit("ibm-plex-mono-500.woff2");
    reveal_strlit("ibm-plex-mono-600.woff2");
    let files = font_files();
    assert(files[0][13] == '5' && files[1][13] == '6' && files[2][13] == '7');
    assert(files[3][14] == '4' && files[4][14] == '5' && files[5][14] == '6');
    assert(files[0][0] == 'c' && files[1][0] == 'c' && files[2][0] == 'c');
    assert(files[3][0] == 'i' && files[4][0] == 'i' && files[5][0] == 'i');
}

/// A request is answered with a font exactly when it names one of the six files, and
/// then with that very file; all others are told that there is none.
pub proof fn fonts_by_name(file: Seq<char>, answer: FontAnswer)
    ensures
        font_files().contains(file) <==> {
            ||| file == "chakra-petch-500.woff2"@
            ||| file == "chakra-petch-600.woff2"@
            ||| file == "chakra-petch-700.woff2"@
            ||| file == "ibm-plex-mono-400.woff2"@
            ||| file == "ibm-plex-mono-500.woff2"@
            ||| file == "ibm-plex-mono-600.woff2"@
        },
        answers_font_request(file, answer) ==> match answer {
            FontAnswer::Font { index, headers } => {
                &&& index == 0 ==> file == "chakra-petch-500.woff2"@
                &&& index == 1 ==> file == "chakra-petch-600.woff2"@
                &&& index == 2 ==> file == "chakra-petch-700.woff2"@
                &&& index == 3 ==> file == "ibm-plex-mono-400.woff2"@
                &&& index == 4 ==> file == "ibm-plex-mono-500.woff2"@
                &&& index == 5 ==> file == "ibm-plex-mono-600.woff2"@
                &&& index < 6
                &&& headers.content_type@ == "font/woff2"@
                &&& headers.cache_control@ == "public, max-age=31536000, immutable"@
            },
            FontAnswer::Unknown { status, body } => {
                &&& !font_files().contains(file)
                &&& status == 404
                &&& body@ == "unknown font asset"@
            },
        },
{
    let files = font_files();
    assert(files.len() == 6);
    assert(files[0] == "chakra-petch-500.woff2"@ && files[1] == "chakra-petch-600.woff2"@);
    assert(files[2] == "chakra-petch-700.woff2"@ && files[3] == "ibm-plex-mono-400.woff2"@);
    assert(files[4] == "ibm-plex-mono-500.woff2"@ && files[5] == "ibm-plex-mono-600.woff2"@);
}

/// GET /assets/fonts/{file} : where the font is found, or that there is none.
pub fn asset_font(file: &str) -> (r: FontAnswer)
    ensures
        answers_font_request(file@, r),
        r is Font <==> {
            ||| file@ == "chakra-petch-500.woff2"@
            ||| file@ == "chakra-petch-600.woff2"@
            ||| file@ == "chakra-petch-700.woff2"@
            ||| file@ == "ibm-plex-mono-400.woff2"@
            ||| file@ == "ibm-plex-mono-500.woff2"@
            ||| file@ == "ibm-plex-mono-600.woff2"@
        },
        r matches FontAnswer::Font { index, headers } ==> headers.content_type@ == "font/woff2"@
            && headers.cache_control@ == "public, max-age=31536000, immutable"@,
        r matches FontAnswer::Unknown { status, body } ==> status == 404 && body@
            == "unknown font asset"@,
{
    let names = fonts();
    let n: usize = names.len();
    let mut i: usize = 0;
    while i < n
        invariant
            i <= n,
            n == names@.len(),
            names@.map_values(|f: &'static str| f@) == font_files(),
            forall|k: int| 0 <= k < i ==> #[trigger] font_files()[k] != file@,
        decreases n - i,
    {
        proof {
            assert(font_files()[i as int] == names@[i as int]@);
        }
        if same(names[i], file) {
            let r = FontAnswer::Font {
                index: i,
                headers: AssetHeaders {
                    content_type: "font/woff2",
                    cache_control: "public, max-age=31536000, immutable",
                },
            };
            proof {
                assert(font_files().contains(file@));
                fonts_by_name(file@, r);
            }
            return r;
        }
        i = i + 1;
    }
    let r = FontAnswer::Unknown { status: 404, body: "unknown font asset" };
    proof {
        assert(!font_files().contains(file@));
        fonts_by_name(file@, r);
    }
    r
}

} // verus!
