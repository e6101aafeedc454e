//! Public-tunnel health as the bridge's connection-status endpoint reports it, and the
//! connectivity snapshot that the watchdog acts on.
use vstd::prelude::*;

use crate::text::{append_chars, append_str, chars_eq_str, chars_of, string_from};

verus! {

broadcast use vstd::string::group_string_axioms;

/// What is known of the public tunnel.
#[derive(Clone, Debug)]
pub struct PublicTunnelSnapshot {
    pub effective_ok: Option<bool>,
    pub health_source: String,
    pub diagnosis_code: Option<String>,
    pub raw_public_probe_ok: Option<bool>,
}

/// A snapshot that knows nothing but where the attempt ended.
pub fn unknown_public_snapshot(source: &str) -> (res: PublicTunnelSnapshot)
    ensures
        res.effective_ok is None,
        res.health_source@ == source@,
        res.diagnosis_code is None,
        res.raw_public_probe_ok is None,
{
    let s = chars_of(source);
    PublicTunnelSnapshot {
        effective_ok: None,
        health_source: string_from(&s),
        diagnosis_code: None,
        raw_public_probe_ok: None,
    }
}

/// The fields of the connection-status document that decide public-tunnel health.
/// `root_tunnel_authoritative_up` is the root tunnel's own verdict (HTTP up, child alive,
/// and enough HA connections), which is computed from the document's numbers.
#[derive(Clone, Debug)]
pub struct ConnectionStatusFields {
    pub diagnosis_code: Option<String>,
    pub public_healthy: Option<bool>,
    pub public_ws_healthy: Option<bool>,
    pub public_ws_auth_required: Option<bool>,
    pub raw_public_probe_ok: Option<bool>,
    pub public_health_source: Option<String>,
    pub root_tunnel_authoritative_up: bool,
}

/// A diagnosis code that by itself means the public tunnel is down.
pub open spec fn is_down_diagnosis(code: Seq<char>) -> bool {
    ||| code == "public_tunnel_down_local_ok"@
    ||| code == "public_ws_unavailable"@
    ||| code == "root_tunnel_child_missing"@
    ||| code == "root_tunnel_ha_degraded"@
    ||| code == "root_tunnel_backoff_active"@
}

/// The verdict of the public fields: healthy only when the HTTP side is and the websocket
/// side is not known to be down.
pub open spec fn public_fields_ok(healthy: Option<bool>, ws_healthy: Option<bool>) -> Option<bool> {
    match (healthy, ws_healthy) {
        (Some(true), Some(false)) => Some(false),
        (Some(true), _) => Some(true),
        (Some(false), _) => Some(false),
        _ => None,
    }
}

/// Whether the public tunnel is up, by the order of evidence: a diagnosis of `ok`, the
/// root tunnel's own verdict, the public fields, then a diagnosis that means down.
pub open spec fn effective_ok_spec(f: ConnectionStatusFields) -> Option<bool> {
    if f.diagnosis_code matches Some(d) && d@ == "ok"@ {
        Some(true)
    } else if f.root_tunnel_authoritative_up {
        Some(true)
    } else if public_fields_ok(f.public_healthy, f.public_ws_healthy) is Some {
        public_fields_ok(f.public_healthy, f.public_ws_healthy)
    } else if f.diagnosis_code matches Some(d) && is_down_diagnosis(d@) {
        Some(false)
    } else {
        None
    }
}

/// Where the verdict came from: the document's own non-empty source other than `none`,
/// else what decided it.
pub open spec fn health_source_spec(f: ConnectionStatusFields, effective: Option<bool>) -> Seq<char> {
    if f.public_health_source matches Some(s) && s@.len() > 0 && s@ != "none"@ {
        f.public_health_source->0@
    } else if effective == Some(true) && f.root_tunnel_authoritative_up {
        "root_tunnel_ha"@
    } else if effective == Some(true) && f.public_ws_auth_required == Some(true) {
        "auth_required"@
    } else if effective is Some {
        "connection_status"@
    } else {
        "connection_status_unknown"@
    }
}

/// A diagnosis that the public tunnel is down decides when nothing stronger does: without
/// an `ok` diagnosis, without the root tunnel's own verdict that it is up, and with neither
/// public field known, each of the diagnoses `public_tunnel_down_local_ok`,
/// `public_ws_unavailable`, `root_tunnel_child_missing`, `root_tunnel_ha_degraded` and
/// `root_tunnel_backoff_active` makes the tunnel known to be down, and (without a source of
/// the document's own) the verdict comes from the connection status.
pub proof fn law_down_diagnosis_means_down(f: ConnectionStatusFields)
    requires
        f.diagnosis_code matches Some(d) && (d@ == "public_tunnel_down_local_ok"@ || d@
            == "public_ws_unavailable"@ || d@ == "root_tunnel_child_missing"@ || d@
            == "root_tunnel_ha_degraded"@ || d@ == "root_tunnel_backoff_active"@),
        !f.root_tunnel_authoritative_up,
        f.public_healthy is None,
    ensures
        effective_ok_spec(f) == Some(false),
        f.public_health_source is None ==> health_source_spec(f, effective_ok_spec(f))
            == "connection_status"@,
{
    reveal_strlit("ok");
    reveal_strlit("public_tunnel_down_local_ok");
    reveal_strlit("public_ws_unavailable");
    reveal_strlit("root_tunnel_child_missing");
    reveal_strlit("root_tunnel_ha_degraded");
    reveal_strlit("root_tunnel_backoff_active");
    let d = f.diagnosis_code.unwrap()@;
    assert(d != "ok"@) by {
        assert(d.len() != 2 || d[0] != 'o');
    }
}

fn string_of(s: &str) -> (res: String)
    ensures
        res@ == s@,
{
    let v = chars_of(s);
    string_from(&v)
}

fn copy_string(s: &String) -> (res: String)
    ensures
        res@ == s@,
{
    let v = chars_of(s.as_str());
    string_from(&v)
}

/// The public-tunnel snapshot that a connection-status document gives.
pub fn parse_connection_status_public_snapshot(fields: &ConnectionStatusFields) -> (res:
    PublicTunnelSnapshot)
    ensures
        res.effective_ok == effective_ok_spec(*fields),
        res.health_source@ == health_source_spec(*fields, res.effective_ok),
        match (res.diagnosis_code, fields.diagnosis_code) {
            (Some(a), Some(b)) => a@ == b@,
            (None, None) => true,
            _ => false,
        },
        res.raw_public_probe_ok == fields.raw_public_probe_ok,
{
    let diagnosis_is_ok = match &fields.diagnosis_code {
        Some(d) => chars_eq_str(&chars_of(d.as_str()), "ok"),
        None => false,
    };
    let public_ok: Option<bool> = match (fields.public_healthy, fields.public_ws_healthy) {
        (Some(true), Some(false)) => Some(false),
        (Some(true), _) => Some(true),
        (Some(false), _) => Some(false),
        _ => None,
    };
    let diagnosis_is_down = match &fields.diagnosis_code {
        Some(d) => {
            let dv = chars_of(d.as_str());
            chars_eq_str(&dv, "public_tunnel_down_local_ok") || chars_eq_str(
                &dv,
                "public_ws_unavailable",
            ) || chars_eq_str(&dv, "root_tunnel_child_missing") || chars_eq_str(
                &dv,
                "root_tunnel_ha_degraded",
            ) || chars_eq_str(&dv, "root_tunnel_backoff_active")
        },
        None => false,
    };
    let effective_ok = if diagnosis_is_ok {
        Some(true)
    } else if fields.root_tunnel_authoritative_up {
        Some(true)
    } else if public_ok.is_some() {
        public_ok
    } else if diagnosis_is_down {
        Some(false)
    } else {
        None
    };
    let own_source = match &fields.public_health_source {
        Some(s) => {
            let sv = chars_of(s.as_str());
            sv.len() > 0 && !chars_eq_str(&sv, "none")
        },
        None => false,
    };
    let health_source = if own_source {
        match &fields.public_health_source {
            Some(s) => copy_string(s),
            None => string_of(""),
        }
    } else if effective_ok == Some(true) && fields.root_tunnel_authoritative_up {
        string_of("root_tunnel_ha")
    } else if effective_ok == Some(true) && fields.public_ws_auth_required == Some(true) {
        string_of("auth_required")
    } else if effective_ok.is_some() {
        string_of("connection_status")
    } else {
        string_of("connection_status_unknown")
    };
    let diagnosis_code = match &fields.diagnosis_code {
        Some(d) => Some(copy_string(d)),
        None => None,
    };
    PublicTunnelSnapshot {
        effective_ok,
        health_source,
        diagnosis_code,
        raw_public_probe_ok: fields.raw_public_probe_ok,
    }
}

/// `true`, `false` or `unknown`.
pub open spec fn optional_bool_label_spec(value: Option<bool>) -> Seq<char> {
    match value {
        Some(true) => "true"@,
        Some(false) => "false"@,
        None => "unknown"@,
    }
}

/// The label of a three-valued observation.
pub fn optional_bool_label(value: Option<bool>) -> (res: &'static str)
    ensures
        res@ == optional_bool_label_spec(value),
{
    match value {
        Some(true) => "true",
        Some(false) => "false",
        None => "unknown",
    }
}

/// What the watchdog saw on one tick.
#[derive(Clone, Debug)]
pub struct ConnectivitySnapshot {
    pub local_origin_ok: bool,
    pub public_tunnel_effective_ok: Option<bool>,
    pub public_health_source: String,
    pub diagnosis_code: Option<String>,
    pub raw_public_probe_ok: Option<bool>,
}

/// `true` or `false`, as `Display` writes a `bool`.
pub open spec fn bool_label(b: bool) -> Seq<char> {
    if b {
        "true"@
    } else {
        "false"@
    }
}

/// The one-line summary of a snapshot in the watchdog log.
pub open spec fn summary_spec(s: ConnectivitySnapshot) -> Seq<char> {
    "local_origin_ok="@ + bool_label(s.local_origin_ok) + " public_tunnel_effective_ok="@
        + optional_bool_label_spec(s.public_tunnel_effective_ok) + " health_source="@
        + s.public_health_source@ + " diagnosis="@ + (match s.diagnosis_code {
        Some(d) => d@,
        None => "n/a"@,
    }) + " raw_public_probe_ok="@ + optional_bool_label_spec(s.raw_public_probe_ok)
}

impl ConnectivitySnapshot {
    /// The public tunnel is known to be up.
    pub fn public_tunnel_effectively_healthy(&self) -> (res: bool)
        ensures
            res == (self.public_tunnel_effective_ok == Some(true)),
    {
        self.public_tunnel_effective_ok == Some(true)
    }

    /// The public tunnel is known to be down.
    pub fn public_tunnel_unhealthy(&self) -> (res: bool)
        ensures
            res == (self.public_tunnel_effective_ok == Some(false)),
    {
        self.public_tunnel_effective_ok == Some(false)
    }

    /// Nothing is known of the public tunnel.
    pub fn public_tunnel_unknown(&self) -> (res: bool)
        ensures
            res == (self.public_tunnel_effective_ok is None),
    {
        self.public_tunnel_effective_ok.is_none()
    }

    /// The one-line summary of the snapshot in the watchdog log.
    pub fn summary(&self) -> (res: String)
        ensures
            res@ == summary_spec(*self),
    {
        let mut v = chars_of("local_origin_ok=");
        append_str(&mut v, if self.local_origin_ok { "true" } else { "false" });
        append_str(&mut v, " public_tunnel_effective_ok=");
        append_str(&mut v, optional_bool_label(self.public_tunnel_effective_ok));
        append_str(&mut v, " health_source=");
        append_str(&mut v, self.public_health_source.as_str());
        append_str(&mut v, " diagnosis=");
        match &self.diagnosis_code {
            Some(d) => append_str(&mut v, d.as_str()),
            None => append_str(&mut v, "n/a"),
        }
        append_str(&mut v, " raw_public_probe_ok=");
        append_str(&mut v, optional_bool_label(self.raw_public_probe_ok));
        string_from(&v)
    }
}

/// The snapshot when the local origin does not answer: nothing is asked of the tunnel.
pub fn local_origin_down_snapshot() -> (res: ConnectivitySnapshot)
    ensures
        !res.local_origin_ok,
        res.public_tunnel_effective_ok is None,
        res.public_health_source@ == "local_origin_down"@,
        res.diagnosis_code is None,
        res.raw_public_probe_ok is None,
{
    ConnectivitySnapshot {
        local_origin_ok: false,
        public_tunnel_effective_ok: None,
        public_health_source: string_of("local_origin_down"),
        diagnosis_code: None,
        raw_public_probe_ok: None,
    }
}

/// Uses a raw public probe when the connection status left the verdict open: a
/// passing probe decides it up (`probe_fallback`); a failing one leaves it open and
/// says so in the source.
pub fn apply_probe_fallback(snapshot: &mut PublicTunnelSnapshot, raw_public_probe_ok: bool)
    requires
        old(snapshot).effective_ok is None,
    ensures
        final(snapshot).raw_public_probe_ok == Some(raw_public_probe_ok),
        final(snapshot).diagnosis_code == old(snapshot).diagnosis_code,
        raw_public_probe_ok ==> final(snapshot).effective_ok == Some(true) && final(snapshot).health_source@ == "probe_fallback"@,
        !raw_public_probe_ok ==> final(snapshot).effective_ok is None && final(snapshot).health_source@ == old(snapshot).health_source@ + "+probe_fallback_failed"@,
{
    snapshot.raw_public_probe_ok = Some(raw_public_probe_ok);
    if raw_public_probe_ok {
        snapshot.effective_ok = Some(true);
        snapshot.health_source = string_of("probe_fallback");
    } else {
        let mut v = chars_of(snapshot.health_source.as_str());
        append_str(&mut v, "+probe_fallback_failed");
        snapshot.health_source = string_from(&v);
    }
}

/// The snapshot of a tick on which the local origin answered.
pub fn connectivity_snapshot_from_public(public: PublicTunnelSnapshot) -> (res: ConnectivitySnapshot)
    ensures
        res.local_origin_ok,
        res.public_tunnel_effective_ok == public.effective_ok,
        res.public_health_source == public.health_source,
        res.diagnosis_code == public.diagnosis_code,
        res.raw_public_probe_ok == public.raw_public_probe_ok,
{
    ConnectivitySnapshot {
        local_origin_ok: true,
        public_tunnel_effective_ok: public.effective_ok,
        public_health_source: public.health_source,
        diagnosis_code: public.diagnosis_code,
        raw_public_probe_ok: public.raw_public_probe_ok,
    }
}

/// A missing connection status never reads as a known-down tunnel: an unknown
/// snapshot leaves the verdict open, and a document whose evidence says nothing leaves it
/// open too.
pub proof fn law_missing_status_is_unknown_not_false(f: ConnectionStatusFields)
    requires
        f.diagnosis_code is None,
        !f.root_tunnel_authoritative_up,
        f.public_healthy is None,
    ensures
        effective_ok_spec(f) is None,
        health_source_spec(f, None) == (if f.public_health_source matches Some(s) && s@.len() > 0
            && s@ != "none"@ {
            f.public_health_source->0@
        } else {
            "connection_status_unknown"@
        }),
{
}

/// A diagnosis of `ok` or an authoritative root tunnel always reads as up.
pub proof fn law_ok_evidence_reads_up(f: ConnectionStatusFields)
    requires
        (f.diagnosis_code matches Some(d) && d@ == "ok"@) || f.root_tunnel_authoritative_up,
    ensures
        effective_ok_spec(f) == Some(true),
{
}

} // verus!
