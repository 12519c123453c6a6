//! What the health probes say about the core services.

use vstd::prelude::*;

use crate::docker::outcome_view;
use crate::phase::ServiceHealth;
use crate::text::{
    decimal, number, slashes_ignored, trailing_slashes_split, trim_slashes,
    without_trailing_slashes,
};

verus! {

/// What the last probe of a core service found.
#[derive(Debug)]
pub struct ServiceStatus {
    pub id: &'static str,
    pub name: &'static str,
    pub role: &'static str,
    pub health: ServiceHealth,
    pub detail: String,
    pub latency_ms: Option<u64>,
}

/// What a [`ServiceStatus`] holds.
pub struct StatusView {
    pub id: Seq<char>,
    pub name: Seq<char>,
    pub role: Seq<char>,
    pub health: ServiceHealth,
    pub detail: Seq<char>,
    pub latency_ms: Option<u64>,
}

impl View for ServiceStatus {
    type V = StatusView;

    open spec fn view(&self) -> StatusView {
        StatusView {
            id: self.id@,
            name: self.name@,
            role: self.role@,
            health: self.health,
            detail: self.detail@,
            latency_ms: self.latency_ms,
        }
    }
}

impl Clone for ServiceStatus {
    fn clone(&self) -> (r: Self)
        ensures
            r == *self,
    {
        ServiceStatus {
            id: self.id,
            name: self.name,
            role: self.role,
            health: self.health,
            detail: self.detail.clone(),
            latency_ms: self.latency_ms,
        }
    }
}

/// Seconds granted to connecting to a service that is probed over HTTP.
pub const PROBE_CONNECT_TIMEOUT_SECS: u64 = 2;

/// Seconds granted to an HTTP probe altogether.
pub const PROBE_TIMEOUT_SECS: u64 = 4;

/// An HTTP probe has four seconds, of which two for the connection.
pub proof fn time_granted_to_probes()
    ensures
        PROBE_CONNECT_TIMEOUT_SECS == 2,
        PROBE_TIMEOUT_SECS == 4,
{
}

/// Why an HTTP request brought no response.
#[derive(Debug)]
pub struct ProbeError {
    /// No connection could be made.
    pub is_connect: bool,
    /// The time granted ran out.
    pub is_timeout: bool,
    /// The error in its own words.
    pub message: String,
}

/// The reason that is shown for a probe that brought no response. A failure to
/// connect counts as one also where the time ran out.
pub open spec fn error_summary(err: ProbeError) -> Seq<char> {
    if err.is_connect {
        "connection refused (service not listening yet)"@
    } else if err.is_timeout {
        "probe timed out"@
    } else {
        "probe failed: "@ + err.message@
    }
}

/// The reason that is shown for a probe that brought no response.
pub fn probe_error_summary(err: &ProbeError) -> (r: String)
    ensures
        r@ == error_summary(*err),
        err.is_connect ==> r@ == "connection refused (service not listening yet)"@,
        !err.is_connect && err.is_timeout ==> r@ == "probe timed out"@,
        !err.is_connect && !err.is_timeout ==> r@ == "probe failed: "@ + err.message@,
{
    if err.is_connect {
        "connection refused (service not listening yet)".to_owned()
    } else if err.is_timeout {
        "probe timed out".to_owned()
    } else {
        let mut r = "probe failed: ".to_owned();
        r.append(err.message.as_str());
        r
    }
}

/// What an HTTP request brought.
#[derive(Debug)]
pub enum HttpOutcome {
    /// A response with this status.
    Status(u16),
    /// No response.
    Failed(ProbeError),
}

/// Whether a status says that the request succeeded.
pub open spec fn is_success(status: u16) -> bool {
    200 <= status < 300
}

/// Where the health of a service is asked for: its path below its base, which
/// may end in slashes.
pub open spec fn health_url(base: Seq<char>, path: Seq<char>) -> Seq<char> {
    without_trailing_slashes(base) + path
}

/// Where the health of a service is asked for.
pub fn probe_url(base: &str, path: &str) -> (r: String)
    ensures
        r@ == health_url(base@, path@),
{
    let mut r = trim_slashes(base).to_owned();
    r.append(path);
    r
}

/// The path follows directly on the base, however many slashes end the base.
pub proof fn path_follows_base(base: Seq<char>, slashes: Seq<char>, path: Seq<char>)
    requires
        base.len() > 0 ==> base.last() != '/',
        forall|i: int| 0 <= i < slashes.len() ==> #[trigger] slashes[i] == '/',
    ensures
        health_url(base + slashes, path) == base + path,
{
    slashes_ignored(base, slashes);
    let gone = trailing_slashes_split(base);
    if gone.len() > 0 {
        assert(base.last() == gone[gone.len() - 1]);
    }
    assert(gone.len() == 0);
    assert(without_trailing_slashes(base) == base);
}

/// Slashes at the end of a base make no difference.
pub proof fn base_slashes_ignored(base: Seq<char>, slashes: Seq<char>, path: Seq<char>)
    requires
        forall|i: int| 0 <= i < slashes.len() ==> #[trigger] slashes[i] == '/',
    ensures
        health_url(base + slashes, path) == health_url(base, path),
{
    slashes_ignored(base, slashes);
}

/// The health that an HTTP probe finds.
pub open spec fn http_health(outcome: HttpOutcome) -> ServiceHealth {
    match outcome {
        HttpOutcome::Status(status) => if is_success(status) {
            ServiceHealth::Online
        } else {
            ServiceHealth::Offline
        },
        HttpOutcome::Failed(_) => ServiceHealth::Offline,
    }
}

/// What an HTTP probe has to tell.
pub open spec fn http_detail(outcome: HttpOutcome, url: Seq<char>, elapsed_ms: u64) -> Seq<char> {
    match outcome {
        HttpOutcome::Status(status) => if is_success(status) {
            "HTTP "@ + decimal(status as nat) + " in "@ + decimal(elapsed_ms as nat) + "ms"@
        } else {
            "unexpected HTTP "@ + decimal(status as nat) + " from "@ + url
        },
        HttpOutcome::Failed(err) => error_summary(err),
    }
}

/// The time that a probe took, where the service is online.
pub open spec fn latency(health: ServiceHealth, elapsed_ms: u64) -> Option<u64> {
    if health == ServiceHealth::Online {
        Some(elapsed_ms)
    } else {
        None
    }
}

/// The status of a service whose health path below `base` was asked for.
pub open spec fn http_status(
    id: Seq<char>,
    name: Seq<char>,
    role: Seq<char>,
    base: Seq<char>,
    path: Seq<char>,
    outcome: HttpOutcome,
    elapsed_ms: u64,
) -> StatusView {
    StatusView {
        id,
        name,
        role,
        health: http_health(outcome),
        detail: http_detail(outcome, health_url(base, path), elapsed_ms),
        latency_ms: latency(http_health(outcome), elapsed_ms),
    }
}

/// The status of a service whose [`probe_url`] was asked for, with what it brought
/// in how many milliseconds.
pub fn probe_http(
    id: &'static str,
    name: &'static str,
    role: &'static str,
    base: &str,
    path: &str,
    outcome: &HttpOutcome,
    elapsed_ms: u64,
) -> (r: ServiceStatus)
    ensures
        r@ == http_status(id@, name@, role@, base@, path@, *outcome, elapsed_ms),
        r.id@ == id@,
        r.name@ == name@,
        r.role@ == role@,
        r.health == ServiceHealth::Online <==> (*outcome matches HttpOutcome::Status(code) && 200
            <= code && code < 300),
        r.health == ServiceHealth::Online || r.health == ServiceHealth::Offline,
        r.latency_ms == if r.health == ServiceHealth::Online {
            Some(elapsed_ms)
        } else {
            None
        },
        *outcome matches HttpOutcome::Status(code) ==> 200 <= code && code < 300 ==> r.detail@
            == "HTTP "@ + decimal(code as nat) + " in "@ + decimal(elapsed_ms as nat) + "ms"@,
        *outcome matches HttpOutcome::Status(code) ==> code < 200 || 300 <= code ==> r.detail@
            == "unexpected HTTP "@ + decimal(code as nat) + " from "@ + health_url(base@, path@),
        *outcome matches HttpOutcome::Failed(err) ==> err.is_connect ==> r.detail@
            == "connection refused (service not listening yet)"@,
        *outcome matches HttpOutcome::Failed(err) ==> !err.is_connect && err.is_timeout ==> r.detail@
            == "probe timed out"@,
        *outcome matches HttpOutcome::Failed(err) ==> !err.is_connect && !err.is_timeout ==> r.detail@
            == "probe failed: "@ + err.message@,
{
    match outcome {
        HttpOutcome::Status(status) => {
            let status: u16 = *status;
            if 200 <= status && status < 300 {
                let mut detail = "HTTP ".to_owned();
                detail.append(number(status as u64).as_str());
                detail.append(" in ");
                detail.append(number(elapsed_ms).as_str());
                detail.append("ms");
                ServiceStatus {
                    id,
                    name,
                    role,
                    health: ServiceHealth::Online,
                    detail,
                    latency_ms: Some(elapsed_ms),
                }
            } else {
                let mut detail = "unexpected HTTP ".to_owned();
                detail.append(number(status as u64).as_str());
                detail.append(" from ");
                detail.append(probe_url(base, path).as_str());
                ServiceStatus {
                    id,
                    name,
                    role,
                    health: ServiceHealth::Offline,
                    detail,
                    latency_ms: None,
                }
            }
        },
        HttpOutcome::Failed(err) => ServiceStatus {
            id,
            name,
            role,
            health: ServiceHealth::Offline,
            detail: probe_error_summary(err),
            latency_ms: None,
        },
    }
}

/// A service is online exactly when its answer has a status from 200 to 299, and only
/// then there is a latency, the time that the probe took. Any other status, as no
/// answer at all, finds it offline.
pub proof fn online_exactly_on_success(
    service: (Seq<char>, Seq<char>, Seq<char>),
    base: Seq<char>,
    path: Seq<char>,
    outcome: HttpOutcome,
    elapsed_ms: u64,
)
    ensures
        ({
            let r = http_status(
                service.0,
                service.1,
                service.2,
                base,
                path,
                outcome,
                elapsed_ms,
            );
            let found = outcome matches HttpOutcome::Status(code) && 200 <= code && code < 300;
            &&& (r.id, r.name, r.role) == service
            &&& found ==> r.health == ServiceHealth::Online && r.latency_ms == Some(elapsed_ms)
            &&& !found ==> r.health == ServiceHealth::Offline && r.latency_ms is None
        }),
{
}

/// What is told of a probe: status and time of a success, status and address of any
/// other answer, and where there was none why.
pub proof fn probe_tells_what_it_met(
    service: (Seq<char>, Seq<char>, Seq<char>),
    base: Seq<char>,
    path: Seq<char>,
    outcome: HttpOutcome,
    elapsed_ms: u64,
)
    requires
        base.len() > 0 ==> base.last() != '/',
    ensures
        ({
            let told = http_status(
                service.0,
                service.1,
                service.2,
                base,
                path,
                outcome,
                elapsed_ms,
            ).detail;
            match outcome {
                HttpOutcome::Status(code) => if 200 <= code && code < 300 {
                    told == "HTTP "@ + decimal(code as nat) + " in "@ + decimal(elapsed_ms as nat)
                        + "ms"@
                } else {
                    told == "unexpected HTTP "@ + decimal(code as nat) + " from "@ + (base + path)
                },
                HttpOutcome::Failed(err) => if err.is_connect {
                    told == "connection refused (service not listening yet)"@
                } else if err.is_timeout {
                    told == "probe timed out"@
                } else {
                    told == "probe failed: "@ + err.message@
                },
            }
        }),
{
    path_follows_base(base, seq![], path);
    assert(base + seq![] == base);
}

/// The engine is online exactly when its ping succeeded, and only then there is a
/// latency; a failed ping tells its own reason.
pub proof fn engine_online_exactly_on_ping(
    socket: Seq<char>,
    ping: Result<(), Seq<char>>,
    elapsed_ms: u64,
)
    ensures
        ({
            let r = docker_status(socket, ping, elapsed_ms);
            &&& r.id == "docker"@ && r.name == "Docker Engine"@ && r.role == "Container runtime"@
            &&& ping is Ok ==> r.health == ServiceHealth::Online && r.latency_ms == Some(elapsed_ms)
                && r.detail == "engine responding on "@ + socket
            &&& ping matches Err(reason) ==> r.health == ServiceHealth::Offline && r.latency_ms is None
                && r.detail == reason
        }),
{
}

/// The status of the Docker engine behind `socket`.
pub open spec fn docker_status(
    socket: Seq<char>,
    ping: Result<(), Seq<char>>,
    elapsed_ms: u64,
) -> StatusView {
    let health = if ping is Ok {
        ServiceHealth::Online
    } else {
        ServiceHealth::Offline
    };
    StatusView {
        id: "docker"@,
        name: "Docker Engine"@,
        role: "Container runtime"@,
        health,
        detail: match ping {
            Ok(()) => "engine responding on "@ + socket,
            Err(reason) => reason,
        },
        latency_ms: latency(health, elapsed_ms),
    }
}

/// The status of the Docker engine behind `socket`, with the outcome of its ping
/// and the milliseconds that it took.
pub fn probe_docker(socket: &str, ping: &Result<(), String>, elapsed_ms: u64) -> (r: ServiceStatus)
    ensures
        r@ == docker_status(socket@, outcome_view(*ping), elapsed_ms),
        r.id@ == "docker"@,
        r.name@ == "Docker Engine"@,
        r.role@ == "Container runtime"@,
        r.health == if ping is Ok {
            ServiceHealth::Online
        } else {
            ServiceHealth::Offline
        },
        r.latency_ms == if ping is Ok {
            Some(elapsed_ms)
        } else {
            None
        },
        ping is Ok ==> r.detail@ == "engine responding on "@ + socket@,
        ping matches Err(reason) ==> r.detail@ == reason@,
{
    match ping {
        Ok(_) => {
            let mut detail = "engine responding on ".to_owned();
            detail.append(socket);
            ServiceStatus {
                id: "docker",
                name: "Docker Engine",
                role: "Container runtime",
                health: ServiceHealth::Online,
                detail,
                latency_ms: Some(elapsed_ms),
            }
        },
        Err(reason) => ServiceStatus {
            id: "docker",
            name: "Docker Engine",
            role: "Container runtime",
            health: ServiceHealth::Offline,
            detail: reason.clone(),
            latency_ms: None,
        },
    }
}

} // verus!
