//! Health, readiness and liveness probes: a node's flags decide its status, and the
//! report renders as JSON.
use crate::text::{decimal, push_decimal, push_str, str_chars, string_push};
use vstd::prelude::*;

verus! {

/// A point in time from `std::time::Instant`.
#[verifier::external_type_specification]
#[verifier::external_body]
pub struct ExInstant(std::time::Instant);

/// `Instant::now()`. Nothing is stated of the time read.
#[verifier::external_body]
fn instant_now() -> std::time::Instant {
    std::time::Instant::now()
}

/// `Instant::elapsed` in whole seconds (`Duration::as_secs`). Nothing is stated of the
/// value: it depends on the clock.
#[verifier::external_body]
fn seconds_since(start: &std::time::Instant) -> u64 {
    start.elapsed().as_secs()
}

/// Overall node health.
#[derive(Debug, Clone, Copy, PartialEq, Eq, Structural)]
pub enum HealthStatus {
    /// Fully serviceable.
    Healthy,
    /// Serviceable with reduced capacity.
    Degraded,
    /// Not serviceable.
    Unhealthy,
}

/// Upper-case name of a status.
pub open spec fn status_text(s: HealthStatus) -> Seq<char> {
    match s {
        HealthStatus::Healthy => "HEALTHY"@,
        HealthStatus::Degraded => "DEGRADED"@,
        HealthStatus::Unhealthy => "UNHEALTHY"@,
    }
}

impl HealthStatus {
    /// Renders the upper-case name (as `Display` does).
    pub fn to_string(&self) -> (s: String)
        ensures
            s@ == status_text(*self),
    {
        let mut s = String::new();
        match self {
            HealthStatus::Healthy => push_str(&mut s, "HEALTHY"),
            HealthStatus::Degraded => push_str(&mut s, "DEGRADED"),
            HealthStatus::Unhealthy => push_str(&mut s, "UNHEALTHY"),
        }
        s
    }
}

/// A probe's findings.
#[derive(Debug, Clone)]
pub struct ProbeReport {
    /// Overall status.
    pub status: HealthStatus,
    /// Seconds since the service started.
    pub uptime_seconds: u64,
    /// Storage accepts writes.
    pub storage_writable: bool,
    /// State plane healthy.
    pub state_plane_healthy: bool,
    /// Memory healthy.
    pub memory_healthy: bool,
    /// Human-readable details.
    pub details: Vec<String>,
}

/// A text with each `"` written as `\"`.
pub open spec fn escape_quotes(s: Seq<char>) -> Seq<char>
    decreases s.len(),
{
    if s.len() == 0 {
        Seq::empty()
    } else if s.last() == '"' {
        escape_quotes(s.drop_last()) + seq!['\\', '"']
    } else {
        escape_quotes(s.drop_last()).push(s.last())
    }
}

/// The details as quoted, escaped JSON strings joined by commas.
pub open spec fn details_json(d: Seq<Seq<char>>) -> Seq<char>
    decreases d.len(),
{
    if d.len() == 0 {
        Seq::empty()
    } else if d.len() == 1 {
        "\""@ + escape_quotes(d[0]) + "\""@
    } else {
        details_json(d.drop_last()) + ","@ + "\""@ + escape_quotes(d.last()) + "\""@
    }
}

/// `true` or `false`.
pub open spec fn bool_text(b: bool) -> Seq<char> {
    if b {
        "true"@
    } else {
        "false"@
    }
}

/// The texts of a list of strings.
pub open spec fn string_texts(v: Seq<String>) -> Seq<Seq<char>> {
    v.map_values(|s: String| s@)
}

/// JSON of a probe report.
pub open spec fn probe_json(r: ProbeReport) -> Seq<char> {
    "{\"status\":\""@ + status_text(r.status) + "\",\"uptime_seconds\":"@ + decimal(
        r.uptime_seconds as nat,
    ) + ",\"storage_writable\":"@ + bool_text(r.storage_writable) + ",\"state_plane_healthy\":"@
        + bool_text(r.state_plane_healthy) + ",\"memory_healthy\":"@ + bool_text(r.memory_healthy)
        + ",\"details\":["@ + details_json(string_texts(r.details@)) + "]}"@
}

fn push_bool(s: &mut String, b: bool)
    ensures
        final(s)@ == old(s)@ + bool_text(b),
{
    if b {
        push_str(s, "true");
    } else {
        push_str(s, "false");
    }
}

fn push_escaped(s: &mut String, t: &str)
    ensures
        final(s)@ == old(s)@ + escape_quotes(t@),
{
    let chars = str_chars(t);
    let ghost start = s@;
    let mut i: usize = 0;
    assert(chars@.take(0) =~= Seq::<char>::empty());
    while i < chars.len()
        invariant
            chars@ == t@,
            i <= chars@.len(),
            s@ == start + escape_quotes(chars@.take(i as int)),
        decreases chars.len() - i,
    {
        let c = chars[i];
        if c == '"' {
            string_push(s, '\\');
            string_push(s, '"');
        } else {
            string_push(s, c);
        }
        proof {
            let w = chars@.take(i as int + 1);
            assert(w.drop_last() =~= chars@.take(i as int));
            assert(w.last() == c);
        }
        i = i + 1;
    }
    assert(chars@.take(chars@.len() as int) =~= t@);
}

impl ProbeReport {
    /// A report is serviceable unless unhealthy.
    pub fn is_serviceable(&self) -> (b: bool)
        ensures
            b == (self.status != HealthStatus::Unhealthy),
    {
        match self.status {
            HealthStatus::Unhealthy => false,
            _ => true,
        }
    }

    /// Renders the report as a JSON object.
    pub fn render_json(&self) -> (s: String)
        ensures
            s@ == probe_json(*self),
    {
        let mut s = String::new();
        push_str(&mut s, "{\"status\":\"");
        let st = self.status.to_string();
        push_str(&mut s, st.as_str());
        push_str(&mut s, "\",\"uptime_seconds\":");
        push_decimal(&mut s, self.uptime_seconds);
        push_str(&mut s, ",\"storage_writable\":");
        push_bool(&mut s, self.storage_writable);
        push_str(&mut s, ",\"state_plane_healthy\":");
        push_bool(&mut s, self.state_plane_healthy);
        push_str(&mut s, ",\"memory_healthy\":");
        push_bool(&mut s, self.memory_healthy);
        push_str(&mut s, ",\"details\":[");
        let ghost start = s@;
        let ghost d = string_texts(self.details@);
        let mut i: usize = 0;
        assert(d.take(0) =~= Seq::<Seq<char>>::empty());
        while i < self.details.len()
            invariant
                d == string_texts(self.details@),
                i <= self.details@.len(),
                s@ == start + details_json(d.take(i as int)),
            decreases self.details.len() - i,
        {
            if i > 0 {
                push_str(&mut s, ",");
            }
            push_str(&mut s, "\"");
            push_escaped(&mut s, self.details[i].as_str());
            push_str(&mut s, "\"");
            proof {
                let w = d.take(i as int + 1);
                assert(w.drop_last() =~= d.take(i as int));
                assert(w.last() == self.details@[i as int]@);
                if i == 0 {
                    assert(w.len() == 1);
                }
            }
            i = i + 1;
        }
        assert(d.take(d.len() as int) =~= d);
        push_str(&mut s, "]}");
        s
    }
}

/// The readiness verdict on a node's flags: draining is degraded; unwritable storage or
/// an unhealthy state plane is unhealthy; memory pressure is degraded; otherwise healthy.
/// Each verdict carries one detail line.
pub open spec fn readiness(draining: bool, storage: bool, state: bool, memory: bool) -> (HealthStatus, Seq<char>) {
    if draining {
        (HealthStatus::Degraded, "Node is draining"@)
    } else if !storage {
        (HealthStatus::Unhealthy, "Storage WAL engine is not writable"@)
    } else if !state {
        (HealthStatus::Unhealthy, "State plane invariant violation or degraded"@)
    } else if !memory {
        (HealthStatus::Degraded, "Memory arena exhausted or high allocation pressure"@)
    } else {
        (HealthStatus::Healthy, "Node is ready for traffic"@)
    }
}

/// Health, readiness and liveness probe service.
#[derive(Debug)]
pub struct HealthProbeService {
    start_time: std::time::Instant,
    is_draining: bool,
    storage_healthy: bool,
    state_plane_healthy: bool,
    memory_healthy: bool,
}

impl HealthProbeService {
    /// Node is draining.
    pub closed spec fn draining(&self) -> bool {
        self.is_draining
    }

    /// Storage is writable.
    pub closed spec fn storage_ok(&self) -> bool {
        self.storage_healthy
    }

    /// State plane is healthy.
    pub closed spec fn state_ok(&self) -> bool {
        self.state_plane_healthy
    }

    /// Memory is healthy.
    pub closed spec fn memory_ok(&self) -> bool {
        self.memory_healthy
    }

    /// A service started now, not draining, with every subsystem healthy.
    pub fn new() -> (r: Self)
        ensures
            !r.draining(),
            r.storage_ok(),
            r.state_ok(),
            r.memory_ok(),
    {
        HealthProbeService {
            start_time: instant_now(),
            is_draining: false,
            storage_healthy: true,
            state_plane_healthy: true,
            memory_healthy: true,
        }
    }

    /// Mark the node draining or not.
    pub fn set_draining(&mut self, draining: bool)
        ensures
            final(self).draining() == draining,
            final(self).storage_ok() == old(self).storage_ok(),
            final(self).state_ok() == old(self).state_ok(),
            final(self).memory_ok() == old(self).memory_ok(),
    {
        self.is_draining = draining;
    }

    /// Mark storage writable or not.
    pub fn set_storage_healthy(&mut self, healthy: bool)
        ensures
            final(self).storage_ok() == healthy,
            final(self).draining() == old(self).draining(),
            final(self).state_ok() == old(self).state_ok(),
            final(self).memory_ok() == old(self).memory_ok(),
    {
        self.storage_healthy = healthy;
    }

    /// Mark the state plane healthy or not.
    pub fn set_state_plane_healthy(&mut self, healthy: bool)
        ensures
            final(self).state_ok() == healthy,
            final(self).draining() == old(self).draining(),
            final(self).storage_ok() == old(self).storage_ok(),
            final(self).memory_ok() == old(self).memory_ok(),
    {
        self.state_plane_healthy = healthy;
    }

    /// Mark memory healthy or not.
    pub fn set_memory_healthy(&mut self, healthy: bool)
        ensures
            final(self).memory_ok() == healthy,
            final(self).draining() == old(self).draining(),
            final(self).storage_ok() == old(self).storage_ok(),
            final(self).state_ok() == old(self).state_ok(),
    {
        self.memory_healthy = healthy;
    }

    /// Liveness: the process answers, so the status is healthy; the flags are reported
    /// as they stand.
    pub fn check_live(&self) -> (r: ProbeReport)
        ensures
            r.status == HealthStatus::Healthy,
            r.storage_writable == self.storage_ok(),
            r.state_plane_healthy == self.state_ok(),
            r.memory_healthy == self.memory_ok(),
            string_texts(r.details@) == seq!["Process alive"@],
    {
        let mut detail = String::new();
        push_str(&mut detail, "Process alive");
        let mut details: Vec<String> = Vec::new();
        details.push(detail);
        let r = ProbeReport {
            status: HealthStatus::Healthy,
            uptime_seconds: seconds_since(&self.start_time),
            storage_writable: self.storage_healthy,
            state_plane_healthy: self.state_plane_healthy,
            memory_healthy: self.memory_healthy,
            details,
        };
        assert(string_texts(r.details@) =~= seq!["Process alive"@]);
        r
    }

    /// The readiness report for a given uptime.
    pub fn ready_report(&self, uptime_seconds: u64) -> (r: ProbeReport)
        ensures
            r.status == readiness(self.draining(), self.storage_ok(), self.state_ok(), self.memory_ok()).0,
            string_texts(r.details@) == seq![
                readiness(self.draining(), self.storage_ok(), self.state_ok(), self.memory_ok()).1,
            ],
            r.uptime_seconds == uptime_seconds,
            r.storage_writable == self.storage_ok(),
            r.state_plane_healthy == self.state_ok(),
            r.memory_healthy == self.memory_ok(),
    {
        let mut detail = String::new();
        let status = if self.is_draining {
            push_str(&mut detail, "Node is draining");
            HealthStatus::Degraded
        } else if !self.storage_healthy {
            push_str(&mut detail, "Storage WAL engine is not writable");
            HealthStatus::Unhealthy
        } else if !self.state_plane_healthy {
            push_str(&mut detail, "State plane invariant violation or degraded");
            HealthStatus::Unhealthy
        } else if !self.memory_healthy {
            push_str(&mut detail, "Memory arena exhausted or high allocation pressure");
            HealthStatus::Degraded
        } else {
            push_str(&mut detail, "Node is ready for traffic");
            HealthStatus::Healthy
        };
        let mut details: Vec<String> = Vec::new();
        details.push(detail);
        let r = ProbeReport {
            status,
            uptime_seconds,
            storage_writable: self.storage_healthy,
            state_plane_healthy: self.state_plane_healthy,
            memory_healthy: self.memory_healthy,
            details,
        };
        assert(string_texts(r.details@) =~= seq![
            readiness(self.draining(), self.storage_ok(), self.state_ok(), self.memory_ok()).1,
        ]);
        r
    }

    /// Readiness: the verdict of `readiness` on the flags, with the uptime read from the
    /// clock.
    pub fn check_ready(&self) -> (r: ProbeReport)
        ensures
            r.status == readiness(self.draining(), self.storage_ok(), self.state_ok(), self.memory_ok()).0,
            string_texts(r.details@) == seq![
                readiness(self.draining(), self.storage_ok(), self.state_ok(), self.memory_ok()).1,
            ],
            r.storage_writable == self.storage_ok(),
            r.state_plane_healthy == self.state_ok(),
            r.memory_healthy == self.memory_ok(),
    {
        let uptime = seconds_since(&self.start_time);
        self.ready_report(uptime)
    }

    /// Health: the same verdict as readiness.
    pub fn check_health(&self) -> (r: ProbeReport)
        ensures
            r.status == readiness(self.draining(), self.storage_ok(), self.state_ok(), self.memory_ok()).0,
            string_texts(r.details@) == seq![
                readiness(self.draining(), self.storage_ok(), self.state_ok(), self.memory_ok()).1,
            ],
            r.storage_writable == self.storage_ok(),
            r.state_plane_healthy == self.state_ok(),
            r.memory_healthy == self.memory_ok(),
    {
        self.check_ready()
    }
}

impl Default for HealthProbeService {
    fn default() -> (r: Self)
        ensures
            !r.draining(),
            r.storage_ok(),
            r.state_ok(),
            r.memory_ok(),
    {
        HealthProbeService::new()
    }
}

/// A probe service shared between tasks.
pub type SharedHealthProbe = std::sync::Arc<HealthProbeService>;

/// A draining node is never reported unhealthy by readiness: it stays serviceable while
/// its work moves away.
pub proof fn law_draining_stays_serviceable(storage: bool, state: bool, memory: bool)
    ensures
        readiness(true, storage, state, memory).0 != HealthStatus::Unhealthy,
{
}

/// A node is ready for traffic exactly when it is not draining and every subsystem is
/// healthy.
pub proof fn law_healthy_iff_all_ok(draining: bool, storage: bool, state: bool, memory: bool)
    ensures
        (readiness(draining, storage, state, memory).0 == HealthStatus::Healthy) <==> (!draining
            && storage && state && memory),
{
}

} // verus!
