//! Runtime configuration for the SmolOfis panel.
//!
//! Everything is sourced from environment variables with appliance-correct
//! defaults, so the panel runs with zero configuration on a flashed image and
//! can be repointed during local development.

use vstd::prelude::*;

use crate::text::{
    blank_is_white_throughout, decimal, decimal_reads_back, is_white_space, parse_decimal, parse_u16, parse_u64, same, trim,
    trimmed, trimmed_ignores_padding,
};

verus! {

/// The environment variables of the process, by name and value, in the order in
/// which the process was given them.
pub struct Environment {
    pub vars: Vec<(String, String)>,
}

impl View for Environment {
    type V = Seq<(Seq<char>, Seq<char>)>;

    open spec fn view(&self) -> Seq<(Seq<char>, Seq<char>)> {
        self.vars@.map_values(|v: (String, String)| (v.0@, v.1@))
    }
}

/// The value of the first variable of that name.
pub open spec fn lookup(vars: Seq<(Seq<char>, Seq<char>)>, key: Seq<char>) -> Option<Seq<char>>
    decreases vars.len(),
{
    if vars.len() == 0 {
        None
    } else if vars[0].0 == key {
        Some(vars[0].1)
    } else {
        lookup(vars.drop_first(), key)
    }
}

/// The text of a variable as it stands, or the default where the variable is
/// unset or blank.
pub open spec fn text_setting(
    vars: Seq<(Seq<char>, Seq<char>)>,
    key: Seq<char>,
    default: Seq<char>,
) -> Seq<char> {
    match lookup(vars, key) {
        Some(v) => if trimmed(v).len() == 0 {
            default
        } else {
            v
        },
        None => default,
    }
}

/// A value that can be read from the text of a variable.
pub trait Setting: Sized {
    /// The value that a text denotes, `None` where it denotes none.
    spec fn parsed(s: Seq<char>) -> Option<Self>;

    /// The value that a text denotes.
    fn parse_setting(s: &str) -> (r: Option<Self>)
        ensures
            r == Self::parsed(s@),
    ;
}

impl Setting for u16 {
    open spec fn parsed(s: Seq<char>) -> Option<u16> {
        match parse_decimal(s) {
            Some(n) => if n <= u16::MAX {
                Some(n as u16)
            } else {
                None
            },
            None => None,
        }
    }

    fn parse_setting(s: &str) -> (r: Option<u16>) {
        parse_u16(s)
    }
}

impl Setting for u64 {
    open spec fn parsed(s: Seq<char>) -> Option<u64> {
        match parse_decimal(s) {
            Some(n) => if n <= u64::MAX {
                Some(n as u64)
            } else {
                None
            },
            None => None,
        }
    }

    fn parse_setting(s: &str) -> (r: Option<u64>) {
        parse_u64(s)
    }
}

/// The value of a variable, white space around it left out of account, or the
/// default where the variable is unset or holds no such value.
pub open spec fn value_setting<T: Setting>(
    vars: Seq<(Seq<char>, Seq<char>)>,
    key: Seq<char>,
    default: T,
) -> T {
    match lookup(vars, key) {
        Some(v) => match T::parsed(trimmed(v)) {
            Some(value) => value,
            None => default,
        },
        None => default,
    }
}

impl Environment {
    /// The value of the first variable of that name.
    pub fn get(&self, key: &str) -> (r: Option<&String>)
        ensures
            match r {
                Some(v) => lookup(self@, key@) == Some(v@),
                None => lookup(self@, key@) is None,
            },
            match r {
                Some(v) => exists|i: int|
                    0 <= i < self.vars@.len() && (#[trigger] self.vars@[i]).0@ == key@
                        && self.vars@[i].1@ == v@ && forall|j: int|
                        0 <= j < i ==> (#[trigger] self.vars@[j]).0@ != key@,
                None => forall|i: int|
                    0 <= i < self.vars@.len() ==> (#[trigger] self.vars@[i]).0@ != key@,
            },
    {
        let n: usize = self.vars.len();
        let mut i: usize = 0;
        proof {
            assert(self@.skip(0) == self@);
        }
        while i < n
            invariant
                i <= n,
                n == self.vars@.len(),
                lookup(self@, key@) == lookup(self@.skip(i as int), key@),
                forall|j: int| 0 <= j < i ==> (#[trigger] self.vars@[j]).0@ != key@,
            decreases n - i,
        {
            proof {
                assert(self@.skip(i as int).drop_first() == self@.skip(i + 1));
                assert(self@.skip(i as int)[0] == self@[i as int]);
            }
            if same(self.vars[i].0.as_str(), key) {
                return Some(&self.vars[i].1);
            }
            i = i + 1;
        }
        None
    }
}

/// The text of a variable, or the default where it is unset or blank.
pub fn env_or(env: &Environment, key: &str, default: &str) -> (r: String)
    ensures
        r@ == text_setting(env@, key@, default@),
        lookup(env@, key@) matches Some(v) ==> r@ == if exists|i: int|
            0 <= i < v.len() && !is_white_space(#[trigger] v[i]) {
            v
        } else {
            default@
        },
        lookup(env@, key@) is None ==> r@ == default@,
{
    proof {
        text_taken_as_it_stands(env@, key@, default@);
    }
    match env.get(key) {
        Some(v) => if trim(v.as_str()).is_empty() {
            default.to_owned()
        } else {
            v.clone()
        },
        None => default.to_owned(),
    }
}

/// The value of a variable, or the default where it is unset or unparseable.
pub fn env_parsed<T: Setting>(env: &Environment, key: &str, default: T) -> (r: T)
    ensures
        r == value_setting::<T>(env@, key@, default),
        lookup(env@, key@) matches Some(v) ==> r == (match T::parsed(trimmed(v)) {
            Some(value) => value,
            None => default,
        }),
        lookup(env@, key@) is None ==> r == default,
{
    match env.get(key) {
        Some(v) => match T::parse_setting(trim(v.as_str())) {
            Some(value) => value,
            None => default,
        },
        None => default,
    }
}

/// The address and port that the dashboard listens on.
#[derive(Clone, Copy, Debug, PartialEq, Eq, Structural)]
pub enum BindAddr {
    /// An IPv4 address, its first octet the most significant.
    V4 { ipv4: u32, port: u16 },
    /// An IPv6 address, its first octet the most significant.
    V6 { ipv6: u128, port: u16, flowinfo: u32, scope_id: u32 },
}

/// Every address of the host, on port 80.
pub open spec fn default_bind() -> BindAddr {
    BindAddr::V4 { ipv4: 0, port: 80 }
}

/// The panel's settings.
#[derive(Debug)]
pub struct Config {
    /// Address the dashboard listens on. Port 80 on the appliance.
    pub bind_addr: BindAddr,
    /// Internal base URL used to health-check Gitea.
    pub gitea_url: String,
    /// Health endpoint path on the Gitea instance.
    pub gitea_health_path: String,
    /// Internal base URL used to health-check Coolify.
    pub coolify_url: String,
    /// Health endpoint path on the Coolify instance.
    pub coolify_health_path: String,
    /// Path of the Docker engine control socket, pinged to verify the engine is up.
    pub docker_socket: String,
    /// Seconds between health/metric refresh cycles.
    pub poll_interval_secs: u64,
    /// Port the browser should use to reach Gitea (host-mapped).
    pub gitea_public_port: u16,
    /// Port the browser should use to reach Coolify (host-mapped).
    pub coolify_public_port: u16,
}

/// What a [`Config`] holds.
pub struct ConfigView {
    pub bind_addr: BindAddr,
    pub gitea_url: Seq<char>,
    pub gitea_health_path: Seq<char>,
    pub coolify_url: Seq<char>,
    pub coolify_health_path: Seq<char>,
    pub docker_socket: Seq<char>,
    pub poll_interval_secs: u64,
    pub gitea_public_port: u16,
    pub coolify_public_port: u16,
}

impl View for Config {
    type V = ConfigView;

    open spec fn view(&self) -> ConfigView {
        ConfigView {
            bind_addr: self.bind_addr,
            gitea_url: self.gitea_url@,
            gitea_health_path: self.gitea_health_path@,
            coolify_url: self.coolify_url@,
            coolify_health_path: self.coolify_health_path@,
            docker_socket: self.docker_socket@,
            poll_interval_secs: self.poll_interval_secs,
            gitea_public_port: self.gitea_public_port,
            coolify_public_port: self.coolify_public_port,
        }
    }
}

impl Clone for Config {
    fn clone(&self) -> (r: Self)
        ensures
            r == *self,
    {
        Config {
            bind_addr: self.bind_addr,
            gitea_url: self.gitea_url.clone(),
            gitea_health_path: self.gitea_health_path.clone(),
            coolify_url: self.coolify_url.clone(),
            coolify_health_path: self.coolify_health_path.clone(),
            docker_socket: self.docker_socket.clone(),
            poll_interval_secs: self.poll_interval_secs,
            gitea_public_port: self.gitea_public_port,
            coolify_public_port: self.coolify_public_port,
        }
    }
}

/// The settings of an appliance that nobody has configured.
pub open spec fn appliance_defaults() -> ConfigView {
    ConfigView {
        bind_addr: default_bind(),
        gitea_url: "http://127.0.0.1:3000"@,
        gitea_health_path: "/api/healthz"@,
        coolify_url: "http://127.0.0.1:8000"@,
        coolify_health_path: "/api/health"@,
        docker_socket: "/var/run/docker.sock"@,
        poll_interval_secs: 3,
        gitea_public_port: 3000,
        coolify_public_port: 8000,
    }
}

/// The settings that the variables `vars` make, where `bind` is the address that
/// the trimmed text of `SMOLOFIS_BIND` denotes, if it denotes one.
pub open spec fn configured(
    vars: Seq<(Seq<char>, Seq<char>)>,
    bind: Option<BindAddr>,
) -> ConfigView {
    let fallback = appliance_defaults();
    ConfigView {
        bind_addr: match (lookup(vars, "SMOLOFIS_BIND"@), bind) {
            (Some(_), Some(addr)) => addr,
            _ => fallback.bind_addr,
        },
        gitea_url: text_setting(vars, "SMOLOFIS_GITEA_URL"@, fallback.gitea_url),
        gitea_health_path: text_setting(
            vars,
            "SMOLOFIS_GITEA_HEALTH_PATH"@,
            fallback.gitea_health_path,
        ),
        coolify_url: text_setting(vars, "SMOLOFIS_COOLIFY_URL"@, fallback.coolify_url),
        coolify_health_path: text_setting(
            vars,
            "SMOLOFIS_COOLIFY_HEALTH_PATH"@,
            fallback.coolify_health_path,
        ),
        docker_socket: text_setting(vars, "SMOLOFIS_DOCKER_SOCKET"@, fallback.docker_socket),
        poll_interval_secs: value_setting::<u64>(
            vars,
            "SMOLOFIS_POLL_INTERVAL_SECS"@,
            fallback.poll_interval_secs,
        ),
        gitea_public_port: value_setting::<u16>(
            vars,
            "SMOLOFIS_GITEA_PUBLIC_PORT"@,
            fallback.gitea_public_port,
        ),
        coolify_public_port: value_setting::<u16>(
            vars,
            "SMOLOFIS_COOLIFY_PUBLIC_PORT"@,
            fallback.coolify_public_port,
        ),
    }
}

/// Whether `key` is one of the variables that the panel reads.
pub open spec fn is_panel_variable(key: Seq<char>) -> bool {
    ||| key == "SMOLOFIS_BIND"@
    ||| key == "SMOLOFIS_GITEA_URL"@
    ||| key == "SMOLOFIS_GITEA_HEALTH_PATH"@
    ||| key == "SMOLOFIS_COOLIFY_URL"@
    ||| key == "SMOLOFIS_COOLIFY_HEALTH_PATH"@
    ||| key == "SMOLOFIS_DOCKER_SOCKET"@
    ||| key == "SMOLOFIS_POLL_INTERVAL_SECS"@
    ||| key == "SMOLOFIS_GITEA_PUBLIC_PORT"@
    ||| key == "SMOLOFIS_COOLIFY_PUBLIC_PORT"@
}

impl Config {
    /// The settings that the environment makes. `bind` is the address that
    /// [`bind_text`] denotes, `None` where it denotes none.
    pub fn from_env(env: &Environment, bind: Option<BindAddr>) -> (r: Config)
        ensures
            r@ == configured(env@, bind),
            r.bind_addr == (match (lookup(env@, "SMOLOFIS_BIND"@), bind) {
                (Some(_), Some(addr)) => addr,
                _ => BindAddr::V4 { ipv4: 0, port: 80 },
            }),
            r.gitea_url@ == text_setting(env@, "SMOLOFIS_GITEA_URL"@, "http://127.0.0.1:3000"@),
            r.gitea_health_path@ == text_setting(
                env@,
                "SMOLOFIS_GITEA_HEALTH_PATH"@,
                "/api/healthz"@,
            ),
            r.coolify_url@ == text_setting(env@, "SMOLOFIS_COOLIFY_URL"@, "http://127.0.0.1:8000"@),
            r.coolify_health_path@ == text_setting(
                env@,
                "SMOLOFIS_COOLIFY_HEALTH_PATH"@,
                "/api/health"@,
            ),
            r.docker_socket@ == text_setting(
                env@,
                "SMOLOFIS_DOCKER_SOCKET"@,
                "/var/run/docker.sock"@,
            ),
            r.poll_interval_secs == value_setting::<u64>(env@, "SMOLOFIS_POLL_INTERVAL_SECS"@, 3),
            r.gitea_public_port == value_setting::<u16>(env@, "SMOLOFIS_GITEA_PUBLIC_PORT"@, 3000),
            r.coolify_public_port == value_setting::<u16>(
                env@,
                "SMOLOFIS_COOLIFY_PUBLIC_PORT"@,
                8000,
            ),
    {
        Config {
            bind_addr: match (env.get("SMOLOFIS_BIND"), bind) {
                (Some(_), Some(addr)) => addr,
                _ => BindAddr::V4 { ipv4: 0, port: 80 },
            },
            gitea_url: env_or(env, "SMOLOFIS_GITEA_URL", "http://127.0.0.1:3000"),
            gitea_health_path: env_or(env, "SMOLOFIS_GITEA_HEALTH_PATH", "/api/healthz"),
            coolify_url: env_or(env, "SMOLOFIS_COOLIFY_URL", "http://127.0.0.1:8000"),
            coolify_health_path: env_or(env, "SMOLOFIS_COOLIFY_HEALTH_PATH", "/api/health"),
            docker_socket: env_or(env, "SMOLOFIS_DOCKER_SOCKET", "/var/run/docker.sock"),
            poll_interval_secs: env_parsed::<u64>(env, "SMOLOFIS_POLL_INTERVAL_SECS", 3),
            gitea_public_port: env_parsed::<u16>(env, "SMOLOFIS_GITEA_PUBLIC_PORT", 3000),
            coolify_public_port: env_parsed::<u16>(env, "SMOLOFIS_COOLIFY_PUBLIC_PORT", 8000),
        }
    }
}

/// The text in which the environment gives the address to listen on, without
/// white space around it; `None` where it gives none.
pub fn bind_text(env: &Environment) -> (r: Option<String>)
    ensures
        match (r, lookup(env@, "SMOLOFIS_BIND"@)) {
            (Some(t), Some(v)) => t@ == trimmed(v),
            (None, None) => true,
            _ => false,
        },
{
    match env.get("SMOLOFIS_BIND") {
        Some(v) => Some(trim(v.as_str()).to_owned()),
        None => None,
    }
}

/// The milliseconds between two refresh cycles, for an interval in seconds: at least
/// one, so that the cycles go on where the interval is zero, and at most what 64 bits
/// can count.
pub open spec fn poll_period(secs: nat) -> nat {
    if secs == 0 {
        1
    } else if secs * 1_000 > u64::MAX {
        u64::MAX as nat
    } else {
        secs * 1_000
    }
}

/// The milliseconds between two refresh cycles, for an interval in seconds.
pub fn poll_period_ms(secs: u64) -> (r: u64)
    ensures
        r == poll_period(secs as nat),
        r >= 1,
        secs == 0 ==> r == 1,
        0 < secs <= 18_446_744_073_709_551 ==> r == secs * 1_000,
        secs > 18_446_744_073_709_551 ==> r == u64::MAX,
{
    if secs == 0 {
        1
    } else {
        match secs.checked_mul(1_000) {
            Some(ms) => ms,
            None => u64::MAX,
        }
    }
}

/// The period keeps to the interval: a second more is a thousand milliseconds more,
/// as far as they can be counted, and no interval makes it zero.
pub proof fn poll_period_keeps_to_interval(secs: nat)
    ensures
        poll_period(secs) > 0,
        poll_period(1) == 1_000,
        0 < secs && poll_period(secs) + 1_000 <= u64::MAX ==> poll_period(secs + 1) == poll_period(
            secs,
        ) + 1_000,
        poll_period(secs) <= poll_period(secs + 1) <= u64::MAX,
{
}

/// Whether a variable is set to something that is no value of its type.
pub open spec fn is_unparseable<T: Setting>(
    vars: Seq<(Seq<char>, Seq<char>)>,
    key: Seq<char>,
) -> bool {
    lookup(vars, key) matches Some(v) && T::parsed(trimmed(v)) is None
}

/// The variable with its text as it stands where `unparseable`, else nothing.
pub open spec fn reported(
    vars: Seq<(Seq<char>, Seq<char>)>,
    key: Seq<char>,
    unparseable: bool,
) -> Seq<(Seq<char>, Seq<char>)> {
    match lookup(vars, key) {
        Some(v) => if unparseable {
            seq![(key, v)]
        } else {
            seq![]
        },
        None => seq![],
    }
}

/// The variables that are set to no value of their type, each with its text, where
/// `bind` is the address that the trimmed text of `SMOLOFIS_BIND` denotes, if it
/// denotes one.
pub open spec fn unparseable(
    vars: Seq<(Seq<char>, Seq<char>)>,
    bind: Option<BindAddr>,
) -> Seq<(Seq<char>, Seq<char>)> {
    let (poll, gitea, coolify) = (
        "SMOLOFIS_POLL_INTERVAL_SECS"@,
        "SMOLOFIS_GITEA_PUBLIC_PORT"@,
        "SMOLOFIS_COOLIFY_PUBLIC_PORT"@,
    );
    reported(vars, "SMOLOFIS_BIND"@, bind is None)
        + reported(vars, poll, is_unparseable::<u64>(vars, poll))
        + reported(vars, gitea, is_unparseable::<u16>(vars, gitea))
        + reported(vars, coolify, is_unparseable::<u16>(vars, coolify))
}

/// What a list of variables and their texts holds.
pub open spec fn reports_view(reports: Seq<(&'static str, String)>) -> Seq<
    (Seq<char>, Seq<char>),
> {
    reports.map_values(|v: (&'static str, String)| (v.0@, v.1@))
}

fn report(
    env: &Environment,
    key: &'static str,
    unparseable: bool,
    reports: &mut Vec<(&'static str, String)>,
)
    ensures
        reports_view(final(reports)@) == reports_view(old(reports)@) + reported(
            env@,
            key@,
            unparseable,
        ),
{
    if unparseable {
        if let Some(v) = env.get(key) {
            reports.push((key, v.clone()));
        }
    }
}

fn fails_to_parse<T: Setting>(env: &Environment, key: &str) -> (r: bool)
    ensures
        r == is_unparseable::<T>(env@, key@),
{
    match env.get(key) {
        Some(v) => T::parse_setting(trim(v.as_str())).is_none(),
        None => false,
    }
}

/// The variables for which [`Config::from_env`] falls back to a default because
/// their text is no value of their type, each with that text.
pub fn unparseable_variables(env: &Environment, bind: Option<BindAddr>) -> (r: Vec<
    (&'static str, String),
>)
    ensures
        reports_view(r@) == unparseable(env@, bind),
{
    let poll = "SMOLOFIS_POLL_INTERVAL_SECS";
    let gitea = "SMOLOFIS_GITEA_PUBLIC_PORT";
    let coolify = "SMOLOFIS_COOLIFY_PUBLIC_PORT";
    let mut r: Vec<(&'static str, String)> = Vec::new();
    report(env, "SMOLOFIS_BIND", bind.is_none(), &mut r);
    report(env, poll, fails_to_parse::<u64>(env, poll), &mut r);
    report(env, gitea, fails_to_parse::<u16>(env, gitea), &mut r);
    report(env, coolify, fails_to_parse::<u16>(env, coolify), &mut r);
    r
}

/// A variable is reported only where it is set, with its text, and its setting is
/// then the default.
pub proof fn unparseable_falls_back(
    vars: Seq<(Seq<char>, Seq<char>)>,
    bind: Option<BindAddr>,
    key: Seq<char>,
    text: Seq<char>,
)
    requires
        unparseable(vars, bind).contains((key, text)),
    ensures
        lookup(vars, key) == Some(text),
        ({
            let (set, fallback) = (configured(vars, bind), appliance_defaults());
            ||| key == "SMOLOFIS_BIND"@ && set.bind_addr == fallback.bind_addr
            ||| key == "SMOLOFIS_POLL_INTERVAL_SECS"@ && set.poll_interval_secs
                == fallback.poll_interval_secs
            ||| key == "SMOLOFIS_GITEA_PUBLIC_PORT"@ && set.gitea_public_port
                == fallback.gitea_public_port
            ||| key == "SMOLOFIS_COOLIFY_PUBLIC_PORT"@ && set.coolify_public_port
                == fallback.coolify_public_port
        }),
{
}

/// Where none of the panel's variables is set, the settings are the appliance's
/// defaults.
pub proof fn zero_configuration(vars: Seq<(Seq<char>, Seq<char>)>, bind: Option<BindAddr>)
    requires
        forall|i: int| 0 <= i < vars.len() ==> !is_panel_variable(#[trigger] vars[i].0),
    ensures
        configured(vars, bind) == appliance_defaults(),
{
    assert forall|key: Seq<char>| is_panel_variable(key) implies #[trigger] lookup(
        vars,
        key,
    ) is None by {
        lookup_of_absent(vars, key);
    }
}

/// Whether two settings agree in every field but the one that the variable `v` is
/// for, and in all where it is for none.
pub open spec fn agree_but_for(x: ConfigView, y: ConfigView, v: Seq<char>) -> bool {
    &&& v != "SMOLOFIS_BIND"@ ==> x.bind_addr == y.bind_addr
    &&& v != "SMOLOFIS_GITEA_URL"@ ==> x.gitea_url == y.gitea_url
    &&& v != "SMOLOFIS_GITEA_HEALTH_PATH"@ ==> x.gitea_health_path == y.gitea_health_path
    &&& v != "SMOLOFIS_COOLIFY_URL"@ ==> x.coolify_url == y.coolify_url
    &&& v != "SMOLOFIS_COOLIFY_HEALTH_PATH"@ ==> x.coolify_health_path == y.coolify_health_path
    &&& v != "SMOLOFIS_DOCKER_SOCKET"@ ==> x.docker_socket == y.docker_socket
    &&& v != "SMOLOFIS_POLL_INTERVAL_SECS"@ ==> x.poll_interval_secs == y.poll_interval_secs
    &&& v != "SMOLOFIS_GITEA_PUBLIC_PORT"@ ==> x.gitea_public_port == y.gitea_public_port
    &&& v != "SMOLOFIS_COOLIFY_PUBLIC_PORT"@ ==> x.coolify_public_port == y.coolify_public_port
}

/// A variable reaches no setting but its own, and one that is not the panel's
/// reaches none. The address that `SMOLOFIS_BIND` gives may differ only where that
/// is the variable.
pub proof fn variable_reaches_its_own_setting(
    a: Seq<(Seq<char>, Seq<char>)>,
    bind_a: Option<BindAddr>,
    b: Seq<(Seq<char>, Seq<char>)>,
    bind_b: Option<BindAddr>,
    v: Seq<char>,
)
    requires
        forall|key: Seq<char>| key != v ==> #[trigger] lookup(a, key) == lookup(b, key),
        v != "SMOLOFIS_BIND"@ ==> bind_a == bind_b,
    ensures
        agree_but_for(configured(a, bind_a), configured(b, bind_b), v),
        !is_panel_variable(v) ==> configured(a, bind_a) == configured(b, bind_b),
{
}

/// The address that the variables give where `parse` tells which address a text
/// denotes.
pub open spec fn parsed_bind(
    vars: Seq<(Seq<char>, Seq<char>)>,
    parse: spec_fn(Seq<char>) -> Option<BindAddr>,
) -> Option<BindAddr> {
    match lookup(vars, "SMOLOFIS_BIND"@) {
        Some(v) => parse(trimmed(v)),
        None => None,
    }
}

/// As [`variable_reaches_its_own_setting`], where the address goes by its text alone:
/// then nothing is needed but that the environments agree on all other variables.
pub proof fn variable_reaches_its_own_setting_by_text(
    a: Seq<(Seq<char>, Seq<char>)>,
    b: Seq<(Seq<char>, Seq<char>)>,
    v: Seq<char>,
    parse: spec_fn(Seq<char>) -> Option<BindAddr>,
)
    requires
        forall|key: Seq<char>| key != v ==> #[trigger] lookup(a, key) == lookup(b, key),
    ensures
        agree_but_for(
            configured(a, parsed_bind(a, parse)),
            configured(b, parsed_bind(b, parse)),
            v,
        ),
        !is_panel_variable(v) ==> configured(a, parsed_bind(a, parse)) == configured(
            b,
            parsed_bind(b, parse),
        ),
{
    variable_reaches_its_own_setting(a, parsed_bind(a, parse), b, parsed_bind(b, parse), v);
}

/// A name that no variable has is unset.
pub proof fn lookup_of_absent(vars: Seq<(Seq<char>, Seq<char>)>, key: Seq<char>)
    requires
        forall|i: int| 0 <= i < vars.len() ==> #[trigger] vars[i].0 != key,
    ensures
        lookup(vars, key) is None,
    decreases vars.len(),
{
    if vars.len() > 0 {
        assert forall|i: int| 0 <= i < vars.drop_first().len() implies #[trigger] vars.drop_first()[i].0
            != key by {
            assert(vars.drop_first()[i] == vars[i + 1]);
        }
        lookup_of_absent(vars.drop_first(), key);
    }
}

/// The value of a name is that of the first variable of the name.
pub proof fn lookup_finds_the_first(vars: Seq<(Seq<char>, Seq<char>)>, key: Seq<char>)
    ensures
        match lookup(vars, key) {
            Some(v) => exists|i: int|
                0 <= i < vars.len() && #[trigger] vars[i] == (key, v) && forall|j: int|
                    0 <= j < i ==> (#[trigger] vars[j]).0 != key,
            None => forall|i: int| 0 <= i < vars.len() ==> (#[trigger] vars[i]).0 != key,
        },
    decreases vars.len(),
{
    if vars.len() > 0 {
        let rest = vars.drop_first();
        assert forall|i: int| 0 < i < vars.len() implies #[trigger] vars[i] == rest[i - 1] by {}
        if vars[0].0 == key {
            assert(vars[0] == (key, vars[0].1));
        } else {
            lookup_finds_the_first(rest, key);
            if let Some(v) = lookup(rest, key) {
                let i = choose|i: int|
                    0 <= i < rest.len() && #[trigger] rest[i] == (key, v) && forall|j: int|
                        0 <= j < i ==> (#[trigger] rest[j]).0 != key;
                assert(vars[i + 1] == (key, v));
                assert forall|j: int| 0 <= j < i + 1 implies (#[trigger] vars[j]).0 != key by {
                    if j > 0 {
                        assert(rest[j - 1].0 != key);
                    }
                }
            } else {
                assert forall|i: int| 0 <= i < vars.len() implies (#[trigger] vars[i]).0 != key by {
                    if i > 0 {
                        assert(rest[i - 1].0 != key);
                    }
                }
            }
        }
    }
}

/// A text that holds anything but white space is taken as it stands; only where there
/// is none the default takes its place.
pub proof fn text_taken_as_it_stands(
    vars: Seq<(Seq<char>, Seq<char>)>,
    key: Seq<char>,
    default: Seq<char>,
)
    ensures
        match lookup(vars, key) {
            Some(v) => text_setting(vars, key, default) == if exists|i: int|
                0 <= i < v.len() && !is_white_space(#[trigger] v[i]) {
                v
            } else {
                default
            },
            None => text_setting(vars, key, default) == default,
        },
{
    if let Some(v) = lookup(vars, key) {
        blank_is_white_throughout(v);
    }
}

/// Every setting is what its own variable says: a text as it stands unless it is
/// blank, a number where the trimmed text is a numeral that fits, the address where
/// one was read. All others are the appliance's.
pub proof fn settings_say_what_variables_say(
    vars: Seq<(Seq<char>, Seq<char>)>,
    bind: Option<BindAddr>,
)
    ensures
        ({
            let set = configured(vars, bind);
            let text = |key: Seq<char>, default: Seq<char>, value: Seq<char>|
                match lookup(vars, key) {
                    Some(v) => value == if exists|i: int|
                        0 <= i < v.len() && !is_white_space(#[trigger] v[i]) {
                        v
                    } else {
                        default
                    },
                    None => value == default,
                };
            let numeral = |key: Seq<char>, max: nat, default: nat, value: nat|
                match lookup(vars, key) {
                    Some(v) => value == match parse_decimal(trimmed(v)) {
                        Some(n) => if n <= max {
                            n
                        } else {
                            default
                        },
                        None => default,
                    },
                    None => value == default,
                };
            &&& text("SMOLOFIS_GITEA_URL"@, "http://127.0.0.1:3000"@, set.gitea_url)
            &&& text("SMOLOFIS_GITEA_HEALTH_PATH"@, "/api/healthz"@, set.gitea_health_path)
            &&& text("SMOLOFIS_COOLIFY_URL"@, "http://127.0.0.1:8000"@, set.coolify_url)
            &&& text("SMOLOFIS_COOLIFY_HEALTH_PATH"@, "/api/health"@, set.coolify_health_path)
            &&& text("SMOLOFIS_DOCKER_SOCKET"@, "/var/run/docker.sock"@, set.docker_socket)
            &&& numeral(
                "SMOLOFIS_POLL_INTERVAL_SECS"@,
                0xffff_ffff_ffff_ffff,
                3,
                set.poll_interval_secs as nat,
            )
            &&& numeral(
                "SMOLOFIS_GITEA_PUBLIC_PORT"@,
                0xffff,
                3000,
                set.gitea_public_port as nat,
            )
            &&& numeral(
                "SMOLOFIS_COOLIFY_PUBLIC_PORT"@,
                0xffff,
                8000,
                set.coolify_public_port as nat,
            )
            &&& lookup(vars, "SMOLOFIS_BIND"@) is Some && bind is Some ==> Some(set.bind_addr)
                == bind
            &&& lookup(vars, "SMOLOFIS_BIND"@) is None || bind is None ==> set.bind_addr
                == (BindAddr::V4 { ipv4: 0, port: 80 })
        }),
{
    let set = appliance_defaults();
    text_taken_as_it_stands(vars, "SMOLOFIS_GITEA_URL"@, set.gitea_url);
    text_taken_as_it_stands(vars, "SMOLOFIS_GITEA_HEALTH_PATH"@, set.gitea_health_path);
    text_taken_as_it_stands(vars, "SMOLOFIS_COOLIFY_URL"@, set.coolify_url);
    text_taken_as_it_stands(vars, "SMOLOFIS_COOLIFY_HEALTH_PATH"@, set.coolify_health_path);
    text_taken_as_it_stands(vars, "SMOLOFIS_DOCKER_SOCKET"@, set.docker_socket);
}

/// A variable is reported exactly where it is set to what is no value of its type:
/// the address where none was read, a number where the trimmed text is no numeral
/// that fits. No other variable ever is, and none is twice.
pub proof fn reported_exactly_when_unparseable(
    vars: Seq<(Seq<char>, Seq<char>)>,
    bind: Option<BindAddr>,
    key: Seq<char>,
    v: Seq<char>,
)
    ensures
        unparseable(vars, bind).no_duplicates(),
        unparseable(vars, bind).contains((key, v)) <==> lookup(vars, key) == Some(v) && {
            let fits = |max: nat| parse_decimal(trimmed(v)) matches Some(n) && n <= max;
            ||| key == "SMOLOFIS_BIND"@ && bind is None
            ||| key == "SMOLOFIS_POLL_INTERVAL_SECS"@ && !fits(0xffff_ffff_ffff_ffff)
            ||| key == "SMOLOFIS_GITEA_PUBLIC_PORT"@ && !fits(0xffff)
            ||| key == "SMOLOFIS_COOLIFY_PUBLIC_PORT"@ && !fits(0xffff)
        },
{
    let (address, poll, gitea, coolify) = (
        "SMOLOFIS_BIND"@,
        "SMOLOFIS_POLL_INTERVAL_SECS"@,
        "SMOLOFIS_GITEA_PUBLIC_PORT"@,
        "SMOLOFIS_COOLIFY_PUBLIC_PORT"@,
    );
    assert(address.len() == 13 && poll.len() == 27 && gitea.len() == 26 && coolify.len() == 28) by {
        reveal_strlit("SMOLOFIS_BIND");
        reveal_strlit("SMOLOFIS_POLL_INTERVAL_SECS");
        reveal_strlit("SMOLOFIS_GITEA_PUBLIC_PORT");
        reveal_strlit("SMOLOFIS_COOLIFY_PUBLIC_PORT");
    }
    let a = reported(vars, address, bind is None);
    let b = reported(vars, poll, is_unparseable::<u64>(vars, poll));
    let c = reported(vars, gitea, is_unparseable::<u16>(vars, gitea));
    let d = reported(vars, coolify, is_unparseable::<u16>(vars, coolify));
    let all = unparseable(vars, bind);
    assert(all == a + b + c + d);
    if a.contains((key, v)) {
        assert(all[0] == (key, v));
    }
    if b.contains((key, v)) {
        assert(all[a.len() as int] == (key, v));
    }
    if c.contains((key, v)) {
        assert(all[(a + b).len() as int] == (key, v));
    }
    if d.contains((key, v)) {
        assert(all[(a + b + c).len() as int] == (key, v));
    }
    if lookup(vars, key) == Some(v) {
        let one = seq![(key, v)];
        assert(one[0] == (key, v));
        assert(one.contains((key, v)));
    }
}

/// A text setting is blank only where its default is.
pub proof fn text_setting_not_blank(
    vars: Seq<(Seq<char>, Seq<char>)>,
    key: Seq<char>,
    default: Seq<char>,
)
    requires
        trimmed(default).len() > 0,
    ensures
        trimmed(text_setting(vars, key, default)).len() > 0,
{
}

/// A number written in decimal is read back from the variable that holds it.
pub proof fn value_setting_reads_decimal(key: Seq<char>, port: u16, secs: u64, default: (u16, u64))
    ensures
        value_setting::<u16>(seq![(key, decimal(port as nat))], key, default.0) == port,
        value_setting::<u64>(seq![(key, decimal(secs as nat))], key, default.1) == secs,
{
    decimal_reads_back(port as nat);
    decimal_reads_back(secs as nat);
}

/// White space around the value of a variable makes no difference to what is
/// read from it.
pub proof fn value_setting_ignores_padding<T: Setting>(
    key: Seq<char>,
    before: Seq<char>,
    value: Seq<char>,
    after: Seq<char>,
    default: T,
)
    requires
        forall|i: int| 0 <= i < before.len() ==> is_white_space(#[trigger] before[i]),
        forall|i: int| 0 <= i < after.len() ==> is_white_space(#[trigger] after[i]),
    ensures
        value_setting::<T>(seq![(key, before + value + after)], key, default) == value_setting::<T>(
            seq![(key, value)],
            key,
            default,
        ),
{
    trimmed_ignores_padding(before, value, after);
}

} // verus!
