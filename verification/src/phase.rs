//! The states of the appliance and of its core services, and their names.

use vstd::prelude::*;

use crate::json::{Json, JsonView};

verus! {

/// Where the appliance is in its boot lifecycle.
#[derive(Clone, Copy, Debug, PartialEq, Eq, Structural)]
pub enum BootPhase {
    /// Cold boot: core services have not all come online yet.
    Initializing,
    /// Every core service is healthy.
    Ready,
    /// The appliance was `Ready` at some point, but a core service dropped.
    Degraded,
}

/// The name of a phase in the API.
pub open spec fn phase_name(phase: BootPhase) -> Seq<char> {
    match phase {
        BootPhase::Initializing => "initializing"@,
        BootPhase::Ready => "ready"@,
        BootPhase::Degraded => "degraded"@,
    }
}

/// The name of a phase on the dashboard.
pub open spec fn phase_label(phase: BootPhase) -> Seq<char> {
    match phase {
        BootPhase::Initializing => "INITIALIZING"@,
        BootPhase::Ready => "OPERATIONAL"@,
        BootPhase::Degraded => "DEGRADED"@,
    }
}

impl BootPhase {
    /// The name of the phase in the API.
    pub fn as_str(self) -> (r: &'static str)
        ensures
            r@ == phase_name(self),
            self == BootPhase::Initializing ==> r@ == "initializing"@,
            self == BootPhase::Ready ==> r@ == "ready"@,
            self == BootPhase::Degraded ==> r@ == "degraded"@,
    {
        match self {
            BootPhase::Initializing => "initializing",
            BootPhase::Ready => "ready",
            BootPhase::Degraded => "degraded",
        }
    }

    /// The name of the phase on the dashboard.
    pub fn label(self) -> (r: &'static str)
        ensures
            r@ == phase_label(self),
            self == BootPhase::Initializing ==> r@ == "INITIALIZING"@,
            self == BootPhase::Ready ==> r@ == "OPERATIONAL"@,
            self == BootPhase::Degraded ==> r@ == "DEGRADED"@,
    {
        match self {
            BootPhase::Initializing => "INITIALIZING",
            BootPhase::Ready => "OPERATIONAL",
            BootPhase::Degraded => "DEGRADED",
        }
    }

    /// The phase as the API gives it: by its name.
    pub fn to_json(self) -> (r: Json)
        ensures
            r@ == JsonView::Text(phase_name(self)),
            self == BootPhase::Initializing ==> r@ == JsonView::Text("initializing"@),
            self == BootPhase::Ready ==> r@ == JsonView::Text("ready"@),
            self == BootPhase::Degraded ==> r@ == JsonView::Text("degraded"@),
    {
        Json::text(self.as_str())
    }
}

/// What is known of a core service.
#[derive(Clone, Copy, Debug, PartialEq, Eq, Structural)]
pub enum ServiceHealth {
    /// Not probed successfully yet (normal during early boot).
    Pending,
    Online,
    Offline,
}

/// The name of a health in the API.
pub open spec fn health_name(health: ServiceHealth) -> Seq<char> {
    match health {
        ServiceHealth::Pending => "pending"@,
        ServiceHealth::Online => "online"@,
        ServiceHealth::Offline => "offline"@,
    }
}

impl ServiceHealth {
    /// The name of the health in the API.
    pub fn as_str(self) -> (r: &'static str)
        ensures
            r@ == health_name(self),
            self == ServiceHealth::Pending ==> r@ == "pending"@,
            self == ServiceHealth::Online ==> r@ == "online"@,
            self == ServiceHealth::Offline ==> r@ == "offline"@,
    {
        match self {
            ServiceHealth::Pending => "pending",
            ServiceHealth::Online => "online",
            ServiceHealth::Offline => "offline",
        }
    }

    /// The health as the API gives it: by its name.
    pub fn to_json(self) -> (r: Json)
        ensures
            r@ == JsonView::Text(health_name(self)),
            self == ServiceHealth::Pending ==> r@ == JsonView::Text("pending"@),
            self == ServiceHealth::Online ==> r@ == JsonView::Text("online"@),
            self == ServiceHealth::Offline ==> r@ == JsonView::Text("offline"@),
    {
        Json::text(self.as_str())
    }
}

/// The words for the phases and the healths, which the frontend goes by.
pub proof fn words_of_the_api()
    ensures
        phase_name(BootPhase::Initializing) == "initializing"@,
        phase_name(BootPhase::Ready) == "ready"@,
        phase_name(BootPhase::Degraded) == "degraded"@,
        phase_label(BootPhase::Initializing) == "INITIALIZING"@,
        phase_label(BootPhase::Ready) == "OPERATIONAL"@,
        phase_label(BootPhase::Degraded) == "DEGRADED"@,
        health_name(ServiceHealth::Pending) == "pending"@,
        health_name(ServiceHealth::Online) == "online"@,
        health_name(ServiceHealth::Offline) == "offline"@,
{
}

/// Two phases differ in their name and in their label.
pub proof fn phases_differ_by_name(a: BootPhase, b: BootPhase)
    requires
        a != b,
    ensures
        phase_name(a) != phase_name(b),
        phase_label(a) != phase_label(b),
{
    reveal_strlit("initializing");
    reveal_strlit("ready");
    reveal_strlit("degraded");
    reveal_strlit("INITIALIZING");
    reveal_strlit("OPERATIONAL");
    reveal_strlit("DEGRADED");
    assert("initializing"@.len() == 12 && "ready"@.len() == 5 && "degraded"@.len() == 8);
    assert("INITIALIZING"@.len() == 12 && "OPERATIONAL"@.len() == 11 && "DEGRADED"@.len() == 8);
}

/// Two healths differ in their name.
pub proof fn healths_differ_by_name(a: ServiceHealth, b: ServiceHealth)
    requires
        a != b,
    ensures
        health_name(a) != health_name(b),
{
    reveal_strlit("pending");
    reveal_strlit("online");
    reveal_strlit("offline");
    assert("pending"@[0] == 'p' && "online"@.len() == 6 && "offline"@[0] == 'o');
    assert("pending"@.len() == 7 && "offline"@.len() == 7);
}

} // verus!
