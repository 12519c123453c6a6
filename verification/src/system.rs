//! State engine for the SmolOfis panel.
//!
//! Owns the boot-phase state machine (`Initializing` -> `Ready`, with `Degraded`
//! if a previously healthy service drops). Every refresh cycle hands it the host
//! telemetry and the outcome of the health probes; readers only ever see the
//! latest snapshot.

use vstd::prelude::*;

use crate::config::{Config, ConfigView};
use crate::docker::outcome_view;
use crate::metrics::{countable, no_metrics, sampled, HostReading, Metrics, MetricsView};
use crate::phase::{BootPhase, ServiceHealth};
use crate::probe::{
    docker_status, health_url, http_detail, http_health, http_status, probe_docker, probe_http,
    HttpOutcome, ServiceStatus, StatusView,
};

verus! {

/// The phase that the appliance is in, where `ever_ready` says whether every
/// core service was online together at an earlier time.
pub open spec fn next_phase(all_online: bool, ever_ready: bool) -> BootPhase {
    if all_online {
        BootPhase::Ready
    } else if ever_ready {
        BootPhase::Degraded
    } else {
        BootPhase::Initializing
    }
}

/// Boot-phase transition rule. `ever_ready` latches the first instant every core
/// service is simultaneously online: that latch is what separates a cold boot
/// still coming up (`Initializing`) from a healthy appliance that later lost a
/// service (`Degraded`).
pub fn decide_phase(all_online: bool, ever_ready: &mut bool) -> (r: BootPhase)
    ensures
        r == next_phase(all_online, *old(ever_ready)),
        r == BootPhase::Ready <==> all_online,
        r == BootPhase::Degraded <==> !all_online && *old(ever_ready),
        r == BootPhase::Initializing <==> !all_online && !*old(ever_ready),
        *final(ever_ready) == (*old(ever_ready) || all_online),
{
    if all_online {
        *ever_ready = true;
        BootPhase::Ready
    } else if *ever_ready {
        BootPhase::Degraded
    } else {
        BootPhase::Initializing
    }
}

/// Immutable view of the whole appliance, replaced as one each cycle.
#[derive(Debug)]
pub struct Snapshot {
    pub phase: BootPhase,
    pub services: Vec<ServiceStatus>,
    pub metrics: Metrics,
    pub updated_at: u64,
}

/// What a [`Snapshot`] holds.
pub struct SnapshotView {
    pub phase: BootPhase,
    pub services: Seq<StatusView>,
    pub metrics: MetricsView,
    pub updated_at: u64,
}

impl View for Snapshot {
    type V = SnapshotView;

    open spec fn view(&self) -> SnapshotView {
        SnapshotView {
            phase: self.phase,
            services: self.services@.map_values(|s: ServiceStatus| s@),
            metrics: self.metrics@,
            updated_at: self.updated_at,
        }
    }
}

impl Clone for Snapshot {
    fn clone(&self) -> (r: Self)
        ensures
            r@ == self@,
            r.phase == self.phase,
            r.services@ == self.services@,
            r.metrics == self.metrics,
            r.updated_at == self.updated_at,
    {
        let mut services: Vec<ServiceStatus> = Vec::new();
        let n: usize = self.services.len();
        let mut i: usize = 0;
        while i < n
            invariant
                i <= n,
                n == self.services@.len(),
                services@ == self.services@.take(i as int),
            decreases n - i,
        {
            services.push(self.services[i].clone());
            i = i + 1;
        }
        proof {
            assert(self.services@.take(n as int) == self.services@);
        }
        Snapshot {
            phase: self.phase,
            services,
            metrics: self.metrics.clone(),
            updated_at: self.updated_at,
        }
    }
}

/// A service that no probe has reached yet.
pub open spec fn pending_status(id: Seq<char>, name: Seq<char>, role: Seq<char>) -> StatusView {
    StatusView {
        id,
        name,
        role,
        health: ServiceHealth::Pending,
        detail: "waiting for first probe"@,
        latency_ms: None,
    }
}

/// What is shown before the first cycle.
pub open spec fn boot_snapshot(now: u64) -> SnapshotView {
    SnapshotView {
        phase: BootPhase::Initializing,
        services: seq![
            pending_status("docker"@, "Docker Engine"@, "Container runtime"@),
            pending_status("gitea"@, "Gitea"@, "Git hosting & CI/CD"@),
            pending_status("coolify"@, "Coolify"@, "PaaS & deployments"@),
        ],
        metrics: no_metrics(),
        updated_at: now,
    }
}

fn pending(id: &'static str, name: &'static str, role: &'static str) -> (r: ServiceStatus)
    ensures
        r@ == pending_status(id@, name@, role@),
{
    ServiceStatus {
        id,
        name,
        role,
        health: ServiceHealth::Pending,
        detail: "waiting for first probe".to_owned(),
        latency_ms: None,
    }
}

impl Snapshot {
    /// What is shown before the first cycle.
    pub fn boot_default(now: u64) -> (r: Snapshot)
        ensures
            r@ == boot_snapshot(now),
            r.phase == BootPhase::Initializing,
            r.updated_at == now,
            r.services@.len() == 3,
            r.services@[0].id@ == "docker"@,
            r.services@[1].id@ == "gitea"@,
            r.services@[2].id@ == "coolify"@,
            forall|i: int|
                0 <= i < 3 ==> (#[trigger] r.services@[i]).health == ServiceHealth::Pending
                    && r.services@[i].latency_ms is None && r.services@[i].detail@
                    == "waiting for first probe"@,
            r.metrics@ == no_metrics(),
    {
        let mut services: Vec<ServiceStatus> = Vec::new();
        services.push(pending("docker", "Docker Engine", "Container runtime"));
        services.push(pending("gitea", "Gitea", "Git hosting & CI/CD"));
        services.push(pending("coolify", "Coolify", "PaaS & deployments"));
        let r = Snapshot {
            phase: BootPhase::Initializing,
            services,
            metrics: Metrics::default(),
            updated_at: now,
        };
        proof {
            assert(r@.services == boot_snapshot(now).services);
        }
        r
    }
}

/// Seconds since the Unix epoch, zero where the clock stands before it.
pub fn epoch_secs(since_epoch: Option<u64>) -> (r: u64)
    ensures
        r == (match since_epoch {
            Some(secs) => secs,
            None => 0,
        }),
{
    match since_epoch {
        Some(secs) => secs,
        None => 0,
    }
}

/// What the health probes of one cycle brought, each with the milliseconds that
/// it took.
#[derive(Debug)]
pub struct Probes {
    pub docker: Result<(), String>,
    pub docker_ms: u64,
    pub gitea: HttpOutcome,
    pub gitea_ms: u64,
    pub coolify: HttpOutcome,
    pub coolify_ms: u64,
}

/// The statuses that the probes of one cycle make.
pub open spec fn probed_services(config: ConfigView, probes: Probes) -> Seq<StatusView> {
    seq![
        docker_status(config.docker_socket, outcome_view(probes.docker), probes.docker_ms),
        http_status(
            "gitea"@,
            "Gitea"@,
            "Git hosting & CI/CD"@,
            config.gitea_url,
            config.gitea_health_path,
            probes.gitea,
            probes.gitea_ms,
        ),
        http_status(
            "coolify"@,
            "Coolify"@,
            "PaaS & deployments"@,
            config.coolify_url,
            config.coolify_health_path,
            probes.coolify,
            probes.coolify_ms,
        ),
    ]
}

/// Whether every one of `services` is online.
pub open spec fn are_online(services: Seq<StatusView>) -> bool {
    forall|i: int| 0 <= i < services.len() ==> (#[trigger] services[i]).health == ServiceHealth::Online
}

/// Whether every one of `services` is online.
pub fn all_online(services: &Vec<ServiceStatus>) -> (r: bool)
    ensures
        r == are_online(services@.map_values(|s: ServiceStatus| s@)),
        r <==> forall|i: int|
            0 <= i < services@.len() ==> (#[trigger] services@[i]).health == ServiceHealth::Online,
{
    let ghost views = services@.map_values(|s: ServiceStatus| s@);
    let n: usize = services.len();
    let mut i: usize = 0;
    while i < n
        invariant
            i <= n,
            n == services@.len(),
            views == services@.map_values(|s: ServiceStatus| s@),
            forall|k: int| 0 <= k < i ==> (#[trigger] views[k]).health == ServiceHealth::Online,
            forall|k: int|
                0 <= k < i ==> (#[trigger] services@[k]).health == ServiceHealth::Online,
        decreases n - i,
    {
        proof {
            assert(views[i as int] == services@[i as int]@);
        }
        if services[i].health != ServiceHealth::Online {
            return false;
        }
        i = i + 1;
    }
    true
}

/// The panel's state: its settings, the latest snapshot, and whether every
/// service was ever online together.
#[derive(Debug)]
pub struct AppState {
    config: Config,
    snapshot: Snapshot,
    ever_ready: bool,
}

/// What an [`AppState`] holds.
pub struct AppStateView {
    pub config: ConfigView,
    pub snapshot: SnapshotView,
    pub ever_ready: bool,
}

impl View for AppState {
    type V = AppStateView;

    closed spec fn view(&self) -> AppStateView {
        AppStateView {
            config: self.config@,
            snapshot: self.snapshot@,
            ever_ready: self.ever_ready,
        }
    }
}

/// The state of a panel that has just started.
pub open spec fn started(config: ConfigView, now: u64) -> AppStateView {
    AppStateView { config, snapshot: boot_snapshot(now), ever_ready: false }
}

/// The state after a cycle that took this reading and these probes.
pub open spec fn refreshed(
    state: AppStateView,
    reading: HostReading,
    probes: Probes,
    now: u64,
) -> AppStateView {
    let services = probed_services(state.config, probes);
    let online = are_online(services);
    AppStateView {
        config: state.config,
        snapshot: SnapshotView {
            phase: next_phase(online, state.ever_ready),
            services,
            metrics: sampled(reading),
            updated_at: now,
        },
        ever_ready: state.ever_ready || online,
    }
}

/// What holds of the state at any time: the services are the Docker engine, Gitea
/// and Coolify in this order, the phase follows from their health and the latch,
/// and the latch is set where all of them are online.
pub open spec fn well_formed(state: AppStateView) -> bool {
    let services = state.snapshot.services;
    &&& services.len() == 3
    &&& services[0].id == "docker"@
    &&& services[1].id == "gitea"@
    &&& services[2].id == "coolify"@
    &&& state.snapshot.phase == next_phase(are_online(services), state.ever_ready)
    &&& are_online(services) ==> state.ever_ready
    &&& forall|i: int|
        0 <= i < services.len() ==> ((#[trigger] services[i]).latency_ms is Some
            <==> services[i].health == ServiceHealth::Online)
}

impl AppState {
    /// A panel that has just started.
    pub fn new(config: Config, now: u64) -> (r: AppState)
        ensures
            r@ == started(config@, now),
            well_formed(r@),
    {
        let r = AppState { config, snapshot: Snapshot::boot_default(now), ever_ready: false };
        proof {
            start_is_well_formed(config@, now);
        }
        r
    }

    /// The settings.
    pub fn config(&self) -> (r: &Config)
        ensures
            r@ == self@.config,
    {
        &self.config
    }

    /// The latest snapshot.
    pub fn snapshot(&self) -> (r: Snapshot)
        ensures
            r@ == self@.snapshot,
    {
        self.snapshot.clone()
    }

    /// One full refresh cycle: telemetry, health probes and phase transition. Gives
    /// back the phase that was left, where the phase has changed.
    pub fn refresh(&mut self, reading: HostReading, probes: &Probes, now: u64) -> (r: Option<
        BootPhase,
    >)
        requires
            countable(reading.disks@),
        ensures
            final(self)@ == refreshed(old(self)@, reading, *probes, now),
            well_formed(final(self)@),
            final(self)@.config == old(self)@.config,
            final(self)@.snapshot.updated_at == now,
            final(self)@.snapshot.services.len() == 3,
            ({
                let services = final(self)@.snapshot.services;
                let up = |i: int| services[i].health == ServiceHealth::Online;
                let good = |outcome: HttpOutcome|
                    outcome matches HttpOutcome::Status(code) && 200 <= code && code < 300;
                let all = probes.docker is Ok && good(probes.gitea) && good(probes.coolify);
                &&& up(0) <==> probes.docker is Ok
                &&& up(1) <==> good(probes.gitea)
                &&& up(2) <==> good(probes.coolify)
                &&& final(self)@.ever_ready <==> old(self)@.ever_ready || all
                &&& final(self)@.snapshot.phase == if all {
                    BootPhase::Ready
                } else if old(self)@.ever_ready {
                    BootPhase::Degraded
                } else {
                    BootPhase::Initializing
                }
            }),
            r == (if final(self)@.snapshot.phase != old(self)@.snapshot.phase {
                Some(old(self)@.snapshot.phase)
            } else {
                None
            }),
    {
        let ghost before = self@;
        let metrics = Metrics::sample(reading);
        let mut services: Vec<ServiceStatus> = Vec::new();
        services.push(
            probe_docker(self.config.docker_socket.as_str(), &probes.docker, probes.docker_ms),
        );
        services.push(
            probe_http(
                "gitea",
                "Gitea",
                "Git hosting & CI/CD",
                self.config.gitea_url.as_str(),
                self.config.gitea_health_path.as_str(),
                &probes.gitea,
                probes.gitea_ms,
            ),
        );
        services.push(
            probe_http(
                "coolify",
                "Coolify",
                "PaaS & deployments",
                self.config.coolify_url.as_str(),
                self.config.coolify_health_path.as_str(),
                &probes.coolify,
                probes.coolify_ms,
            ),
        );
        proof {
            assert(services@.map_values(|s: ServiceStatus| s@) == probed_services(
                before.config,
                *probes,
            ));
            refresh_keeps_well_formed(before, reading, *probes, now);
            cycle_shows_what_it_found(before, reading, *probes, now);
        }
        let left = self.snapshot.phase;
        let phase = decide_phase(all_online(&services), &mut self.ever_ready);
        self.snapshot = Snapshot { phase, services, metrics, updated_at: now };
        if phase != left {
            Some(left)
        } else {
            None
        }
    }
}

/// A panel starts well formed.
pub proof fn start_is_well_formed(config: ConfigView, now: u64)
    ensures
        well_formed(started(config, now)),
{
    let services = boot_snapshot(now).services;
    assert(services[0].health != ServiceHealth::Online);
}

/// Every cycle leaves the state well formed.
pub proof fn refresh_keeps_well_formed(
    state: AppStateView,
    reading: HostReading,
    probes: Probes,
    now: u64,
)
    ensures
        well_formed(refreshed(state, reading, probes, now)),
{
}

/// Every core service is online after a cycle exactly when the engine answered its
/// ping and both HTTP probes met with success, whatever the settings are.
pub proof fn online_when_probes_succeed(config: ConfigView, probes: Probes)
    ensures
        are_online(probed_services(config, probes)) <==> {
            &&& probes.docker is Ok
            &&& http_health(probes.gitea) == ServiceHealth::Online
            &&& http_health(probes.coolify) == ServiceHealth::Online
        },
{
    let services = probed_services(config, probes);
    if are_online(services) {
        assert(services[0].health == ServiceHealth::Online);
        assert(services[1].health == ServiceHealth::Online);
        assert(services[2].health == ServiceHealth::Online);
    }
}

/// Before the first cycle the three core services are pending, nothing is known of
/// the host, and the appliance is initializing.
pub proof fn boot_shows_pending_services(config: ConfigView, now: u64)
    ensures
        ({
            let state = started(config, now);
            let snap = state.snapshot;
            &&& state.config == config
            &&& !state.ever_ready
            &&& snap.phase == BootPhase::Initializing
            &&& snap.updated_at == now
            &&& snap.services.len() == 3
            &&& (snap.services[0].id, snap.services[0].name, snap.services[0].role) == (
                "docker"@,
                "Docker Engine"@,
                "Container runtime"@,
            )
            &&& (snap.services[1].id, snap.services[1].name, snap.services[1].role) == (
                "gitea"@,
                "Gitea"@,
                "Git hosting & CI/CD"@,
            )
            &&& (snap.services[2].id, snap.services[2].name, snap.services[2].role) == (
                "coolify"@,
                "Coolify"@,
                "PaaS & deployments"@,
            )
            &&& forall|i: int|
                0 <= i < 3 ==> (#[trigger] snap.services[i]).health == ServiceHealth::Pending
                    && snap.services[i].detail == "waiting for first probe"@
                    && snap.services[i].latency_ms is None
            &&& snap.metrics.cpu_percent_bits == 0 && snap.metrics.load_one_bits == 0
            &&& snap.metrics.mem_used == 0 && snap.metrics.mem_total == 0
            &&& snap.metrics.disk_used == 0 && snap.metrics.disk_total == 0
            &&& snap.metrics.uptime_secs == 0 && snap.metrics.hostname.len() == 0
        }),
{
}

/// A cycle shows what it found: of each service what its own probe found, under its
/// own name and with the time that its own probe took, and of the appliance whether
/// all of them are online or ever were. An HTTP probe finds a service online by a
/// status from 200 to 299 alone.
pub proof fn cycle_shows_what_it_found(
    state: AppStateView,
    reading: HostReading,
    probes: Probes,
    now: u64,
)
    ensures
        ({
            let after = refreshed(state, reading, probes, now);
            let (docker, gitea, coolify) = (
                after.snapshot.services[0],
                after.snapshot.services[1],
                after.snapshot.services[2],
            );
            let good = |outcome: HttpOutcome|
                outcome matches HttpOutcome::Status(code) && 200 <= code && code < 300;
            let shows = |s: StatusView, up: bool, ms: u64|
                if up {
                    s.health == ServiceHealth::Online && s.latency_ms == Some(ms)
                } else {
                    s.health == ServiceHealth::Offline && s.latency_ms is None
                };
            let all = probes.docker is Ok && good(probes.gitea) && good(probes.coolify);
            &&& after.config == state.config
            &&& after.snapshot.updated_at == now
            &&& after.snapshot.metrics == sampled(reading)
            &&& after.snapshot.services.len() == 3
            &&& (docker.id, docker.name, docker.role) == (
                "docker"@,
                "Docker Engine"@,
                "Container runtime"@,
            )
            &&& (gitea.id, gitea.name, gitea.role) == (
                "gitea"@,
                "Gitea"@,
                "Git hosting & CI/CD"@,
            )
            &&& (coolify.id, coolify.name, coolify.role) == (
                "coolify"@,
                "Coolify"@,
                "PaaS & deployments"@,
            )
            &&& shows(docker, probes.docker is Ok, probes.docker_ms)
            &&& shows(gitea, good(probes.gitea), probes.gitea_ms)
            &&& shows(coolify, good(probes.coolify), probes.coolify_ms)
            &&& probes.docker is Ok ==> docker.detail == "engine responding on "@
                + state.config.docker_socket
            &&& probes.docker matches Err(reason) ==> docker.detail == reason@
            &&& gitea.detail == http_detail(
                probes.gitea,
                health_url(state.config.gitea_url, state.config.gitea_health_path),
                probes.gitea_ms,
            )
            &&& coolify.detail == http_detail(
                probes.coolify,
                health_url(state.config.coolify_url, state.config.coolify_health_path),
                probes.coolify_ms,
            )
            &&& after.ever_ready <==> state.ever_ready || all
            &&& after.snapshot.phase == if all {
                BootPhase::Ready
            } else if state.ever_ready {
                BootPhase::Degraded
            } else {
                BootPhase::Initializing
            }
        }),
{
    online_when_probes_succeed(state.config, probes);
}

/// No service is pending any more once a cycle has run.
pub proof fn refresh_leaves_none_pending(
    state: AppStateView,
    reading: HostReading,
    probes: Probes,
    now: u64,
)
    ensures
        forall|i: int|
            0 <= i < refreshed(state, reading, probes, now).snapshot.services.len() ==> (
            #[trigger] refreshed(state, reading, probes, now).snapshot.services[i]).health
                != ServiceHealth::Pending,
{
}

/// What one refresh cycle takes in.
pub struct Round {
    pub reading: HostReading,
    pub probes: Probes,
    pub now: u64,
}

/// The state of a panel after the cycles `rounds`.
pub open spec fn after(config: ConfigView, start: u64, rounds: Seq<Round>) -> AppStateView
    decreases rounds.len(),
{
    if rounds.len() == 0 {
        started(config, start)
    } else {
        let last = rounds.last();
        refreshed(
            after(config, start, rounds.drop_last()),
            last.reading,
            last.probes,
            last.now,
        )
    }
}

/// Whether a cycle found every core service online.
pub open spec fn found_online(config: ConfigView, round: Round) -> bool {
    are_online(probed_services(config, round.probes))
}

/// The latch tells whether any cycle so far found every service online, and no
/// cycle changes the settings.
proof fn lemma_latch(config: ConfigView, start: u64, rounds: Seq<Round>)
    ensures
        after(config, start, rounds).config == config,
        after(config, start, rounds).ever_ready <==> exists|i: int|
            0 <= i < rounds.len() && found_online(config, #[trigger] rounds[i]),
    decreases rounds.len(),
{
    if rounds.len() > 0 {
        let earlier = rounds.drop_last();
        lemma_latch(config, start, earlier);
        if after(config, start, earlier).ever_ready {
            let i = choose|i: int|
                0 <= i < earlier.len() && found_online(config, #[trigger] earlier[i]);
            assert(found_online(config, rounds[i]));
        }
        if found_online(config, rounds.last()) {
            assert(found_online(config, rounds[rounds.len() - 1]));
        }
        if exists|i: int| 0 <= i < rounds.len() && found_online(config, #[trigger] rounds[i]) {
            let i = choose|i: int|
                0 <= i < rounds.len() && found_online(config, #[trigger] rounds[i]);
            if i < earlier.len() {
                assert(found_online(config, earlier[i]));
            }
        }
    }
}

/// The phase tells the history: the appliance is `Ready` when the last cycle found
/// every service online, `Initializing` as long as none ever did, and `Degraded`
/// when one did but the last did not.
pub proof fn phase_tells_history(config: ConfigView, start: u64, rounds: Seq<Round>)
    ensures
        well_formed(after(config, start, rounds)),
        after(config, start, rounds).snapshot.phase == BootPhase::Ready <==> rounds.len() > 0
            && found_online(config, rounds.last()),
        after(config, start, rounds).snapshot.phase == BootPhase::Initializing <==> forall|i: int|
            0 <= i < rounds.len() ==> !found_online(config, #[trigger] rounds[i]),
        after(config, start, rounds).snapshot.phase == BootPhase::Degraded <==> rounds.len() > 0
            && !found_online(config, rounds.last()) && exists|i: int|
            0 <= i < rounds.len() && found_online(config, #[trigger] rounds[i]),
{
    lemma_latch(config, start, rounds);
    if rounds.len() == 0 {
        start_is_well_formed(config, start);
    } else {
        let earlier = rounds.drop_last();
        lemma_latch(config, start, earlier);
        let last = rounds.last();
        refresh_keeps_well_formed(
            after(config, start, earlier),
            last.reading,
            last.probes,
            last.now,
        );
        if found_online(config, last) {
            assert(found_online(config, rounds[rounds.len() - 1]));
        }
    }
}

/// The phase by the probes of all cycles: `Ready` when in the last one the engine
/// answered its ping and both HTTP probes met a status from 200 to 299,
/// `Initializing` as long as that was never so, `Degraded` when it was, but is not.
pub proof fn phase_by_probes(config: ConfigView, start: u64, rounds: Seq<Round>)
    ensures
        ({
            let good = |outcome: HttpOutcome|
                outcome matches HttpOutcome::Status(code) && 200 <= code && code < 300;
            let all = |round: Round|
                round.probes.docker is Ok && good(round.probes.gitea) && good(
                    round.probes.coolify,
                );
            let last = rounds.len() > 0 && all(rounds.last());
            let ever = exists|i: int| 0 <= i < rounds.len() && all(#[trigger] rounds[i]);
            after(config, start, rounds).snapshot.phase == if last {
                BootPhase::Ready
            } else if ever {
                BootPhase::Degraded
            } else {
                BootPhase::Initializing
            }
        }),
{
    phase_tells_history(config, start, rounds);
    assert forall|i: int| 0 <= i < rounds.len() implies found_online(config, #[trigger] rounds[i])
        == (rounds[i].probes.docker is Ok && http_health(rounds[i].probes.gitea)
        == ServiceHealth::Online && http_health(rounds[i].probes.coolify)
        == ServiceHealth::Online) by {
        online_when_probes_succeed(config, rounds[i].probes);
    }
    if rounds.len() > 0 {
        assert(rounds.last() == rounds[rounds.len() - 1]);
    }
}

/// Once the appliance was `Ready`, it is never `Initializing` again.
pub proof fn ready_is_never_forgotten(
    config: ConfigView,
    start: u64,
    rounds: Seq<Round>,
    more: Seq<Round>,
)
    requires
        after(config, start, rounds).snapshot.phase == BootPhase::Ready,
    ensures
        after(config, start, rounds + more).snapshot.phase != BootPhase::Initializing,
{
    phase_tells_history(config, start, rounds);
    phase_tells_history(config, start, rounds + more);
    assert((rounds + more)[rounds.len() - 1] == rounds.last());
}

/// The snapshot is that of the last cycle: of the cycles before it only the latch
/// is left.
pub proof fn snapshot_is_of_last_cycle(config: ConfigView, start: u64, rounds: Seq<Round>)
    requires
        rounds.len() > 0,
    ensures
        after(config, start, rounds).snapshot.services == probed_services(
            config,
            rounds.last().probes,
        ),
        after(config, start, rounds).snapshot.metrics == sampled(rounds.last().reading),
        after(config, start, rounds).snapshot.updated_at == rounds.last().now,
{
    lemma_latch(config, start, rounds.drop_last());
}

} // verus!
