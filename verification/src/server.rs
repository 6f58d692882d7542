//! Sync server logic: everything the HTTP transport decides, kept apart
//! from the sockets that carry it.
//!
//! The host application binds the listener, routes requests and owns the
//! shared state behind locks; the functions here decide which ports to try,
//! what each route answers, which host addresses a pairing payload
//! advertises, when inactivity shuts the server down, and how a pairing
//! confirmation updates the session registry and the paired-device records.

use crate::pairing::{
    resolve_target, spec_public_label, verify_step, PairConfirmRequest, PairConfirmResponse,
    PairingError, PairingErrorSimple, PairingManager,
};
use crate::persistence::{other_id_pred, DeviceRegistry, PairedDevice, PairedDeviceStatus};
use crate::encodings::{rfc3339_utc, rfc3339_utc_of};
use crate::text::{contains_char, contains_string, has_prefix, str_contains_char, str_has_prefix, vec_contains_string};
use vstd::prelude::*;
use vstd::string::*;

verus! {

/// The port used when a caller asks for the default.
pub open spec fn spec_default_port() -> int {
    4242
}

/// What `/sync/hello` answers: an identity echo.
#[derive(Debug)]
pub struct HelloResponse {
    pub status: String,
    pub device_id: String,
    pub device_name: String,
    pub version: String,
}

/// What `/sync/status` answers: identity and capabilities.
#[derive(Debug)]
pub struct StatusResponse {
    pub device_id: String,
    pub device_name: String,
    pub server_version: String,
    pub capabilities: Vec<String>,
}

/// What starting the server reports to the desktop shell.
#[derive(Debug)]
pub struct ServerStartResult {
    pub port: u16,
    pub expires_at: Option<String>,
}

/// Builds the `/sync/hello` identity echo.
pub fn hello_response(device_id: &String, device_name: &String) -> (r: HelloResponse)
    ensures
        r.status@ == "ok"@,
        r.device_id == *device_id,
        r.device_name == *device_name,
        r.version@ == "1.0.0"@,
{
    HelloResponse {
        status: String::from_str("ok"),
        device_id: device_id.clone(),
        device_name: device_name.clone(),
        version: String::from_str("1.0.0"),
    }
}

/// Builds the `/sync/status` response: identity plus the fixed capability
/// list `pull`, `push`, `pairing`.
pub fn status_response(device_id: &String, device_name: &String) -> (r: StatusResponse)
    ensures
        r.device_id == *device_id,
        r.device_name == *device_name,
        r.server_version@ == "1.0.0"@,
        r.capabilities@.len() == 3,
        r.capabilities@[0]@ == "pull"@,
        r.capabilities@[1]@ == "push"@,
        r.capabilities@[2]@ == "pairing"@,
{
    let mut capabilities: Vec<String> = Vec::new();
    capabilities.push(String::from_str("pull"));
    capabilities.push(String::from_str("push"));
    capabilities.push(String::from_str("pairing"));
    StatusResponse {
        device_id: device_id.clone(),
        device_name: device_name.clone(),
        server_version: String::from_str("1.0.0"),
        capabilities,
    }
}

/// The port to start binding at: the fixed default when the caller passes
/// zero, the caller's port otherwise.
pub fn effective_start_port(port: u16) -> (r: u16)
    ensures
        port == 0 ==> r == spec_default_port(),
        port != 0 ==> r == port,
{
    if port == 0 {
        4242
    } else {
        port
    }
}

/// The ten consecutive ports to try binding, starting at `start_port` and
/// saturating at the top of the port range.
pub fn port_candidates(start_port: u16) -> (r: Vec<u16>)
    ensures
        r@.len() == 10,
        forall|i: int|
            0 <= i < 10 ==> #[trigger] r@[i] == (if start_port + i > 65535 {
                65535
            } else {
                (start_port + i) as u16
            }),
{
    let mut out: Vec<u16> = Vec::new();
    let mut offset: u16 = 0;
    while offset < 10
        invariant
            offset <= 10,
            out@.len() == offset,
            forall|i: int|
                0 <= i < offset ==> #[trigger] out@[i] == (if start_port + i > 65535 {
                    65535
                } else {
                    (start_port + i) as u16
                }),
        decreases 10 - offset,
    {
        let port = if start_port > 65535 - offset {
            65535
        } else {
            start_port + offset
        };
        out.push(port);
        offset = offset + 1;
    }
    out
}

/// Whether the idle watchdog should stop the server: more than the
/// configured number of minutes has passed since the last activity.  A zero
/// configuration disables auto-shutdown.
pub fn should_auto_shutdown(last_activity: u64, now: u64, auto_shutdown_minutes: u64) -> (r:
    bool)
    ensures
        r == (auto_shutdown_minutes > 0 && (now as int) - (last_activity as int)
            > auto_shutdown_minutes * 60),
{
    if auto_shutdown_minutes == 0 {
        return false;
    }
    if now <= last_activity {
        return false;
    }
    let elapsed = now - last_activity;
    match auto_shutdown_minutes.checked_mul(60) {
        Some(timeout) => elapsed > timeout,
        None => false,
    }
}

/// The HTTP status code each pairing error is served with: 429 for the
/// rate-limiting family, 400 for everything else.
pub open spec fn spec_http_status(e: PairingError) -> int {
    match e {
        PairingError::RateLimited(_) => 429,
        PairingError::TooManyAttempts => 429,
        _ => 400,
    }
}

/// The HTTP status code for a pairing error.
pub fn http_status_for(e: &PairingError) -> (r: u16)
    ensures
        r == spec_http_status(*e),
{
    match e {
        PairingError::RateLimited(_) => 429,
        PairingError::TooManyAttempts => 429,
        _ => 400,
    }
}

/// Relies on `local_ip_address::local_ip`: the machine's primary local
/// address, rendered as a string.  The result depends on the machine and
/// nothing is promised of it.
#[verifier::external_body]
fn query_local_ip() -> (r: Option<String>) {
    local_ip_address::local_ip().ok().map(|ip| ip.to_string())
}

/// Relies on `local_ip_address::list_afinet_netifas`: the machine's
/// interface addresses, rendered as strings.  The result depends on the
/// machine and nothing is promised of it.
#[verifier::external_body]
fn query_interface_ips() -> (r: Vec<String>) {
    match local_ip_address::list_afinet_netifas() {
        Ok(list) => list.into_iter().map(|entry| entry.1.to_string()).collect(),
        Err(_) => Vec::new(),
    }
}

/// An interface address joins the candidate list when it is not a loopback
/// IPv4 address, not an IPv6 address (no colon) and not already listed.
pub open spec fn candidate_ok(s: Seq<char>, acc: Seq<Seq<char>>) -> bool {
    !has_prefix(s, "127."@) && !contains_char(s, ':') && !contains_string(acc, s)
}

/// The candidate list after folding the interface addresses, in order, over
/// an accumulator.
pub open spec fn spec_add_candidates(acc: Seq<Seq<char>>, all: Seq<Seq<char>>) -> Seq<Seq<char>>
    decreases all.len(),
{
    if all.len() == 0 {
        acc
    } else {
        let acc2 = if candidate_ok(all[0], acc) {
            acc.push(all[0])
        } else {
            acc
        };
        spec_add_candidates(acc2, all.drop_first())
    }
}

/// The full host-candidate selection: the primary address first if one was
/// found, then each filtered interface address, and the IPv4 loopback as a
/// last resort when nothing else is available.
pub open spec fn spec_host_candidates(primary: Option<Seq<char>>, all: Seq<Seq<char>>) -> Seq<
    Seq<char>,
> {
    let base = match primary {
        Some(p) => seq![p],
        None => Seq::empty(),
    };
    let cands = spec_add_candidates(base, all);
    if cands.len() == 0 {
        seq!["127.0.0.1"@]
    } else {
        cands
    }
}

/// Filters and deduplicates the machine's addresses into the host-candidate
/// list a pairing payload advertises.
pub fn select_host_candidates(primary: Option<String>, all: Vec<String>) -> (r: Vec<String>)
    ensures
        r.deep_view() == spec_host_candidates(
            match primary {
                Some(p) => Some(p@),
                None => None,
            },
            all.deep_view(),
        ),
        r@.len() >= 1,
{
    let ghost primary_view: Option<Seq<char>> = match &primary {
        Some(p) => Some(p@),
        None => None,
    };
    let ghost all_view: Seq<Seq<char>> = all.deep_view();
    let mut out: Vec<String> = Vec::new();
    match primary {
        Some(p) => {
            out.push(p);
        },
        None => {},
    }
    let ghost base: Seq<Seq<char>> = out.deep_view();
    proof {
        assert(base =~= (match primary_view {
            Some(p) => seq![p],
            None => Seq::<Seq<char>>::empty(),
        }));
        assert(all_view.skip(0) =~= all_view);
    }
    let mut i: usize = 0;
    while i < all.len()
        invariant
            i <= all@.len(),
            all_view == all.deep_view(),
            all_view.len() == all@.len(),
            forall|j: int| 0 <= j < all_view.len() ==> all_view[j] == #[trigger] all@[j]@,
            spec_add_candidates(base, all_view) == spec_add_candidates(
                out.deep_view(),
                all_view.skip(i as int),
            ),
        decreases all@.len() - i,
    {
        let ghost acc = out.deep_view();
        proof {
            assert(all_view.skip(i as int)[0] == all_view[i as int]);
            assert(all_view.skip(i as int).drop_first() =~= all_view.skip(i + 1));
        }
        let keep = !str_has_prefix(all[i].as_str(), "127.") && !str_contains_char(
            all[i].as_str(),
            ':',
        ) && !vec_contains_string(&out, &all[i]);
        proof {
            reveal_strlit("127.");
        }
        if keep {
            let candidate = all[i].clone();
            out.push(candidate);
            proof {
                assert(candidate_ok(all_view[i as int], acc));
                assert(out.deep_view() =~= acc.push(all_view[i as int]));
            }
        } else {
            proof {
                assert(!candidate_ok(all_view[i as int], acc));
            }
        }
        i = i + 1;
    }
    proof {
        assert(all_view.skip(all_view.len() as int).len() == 0);
    }
    if out.len() == 0 {
        let fallback = String::from_str("127.0.0.1");
        out.push(fallback);
        proof {
            assert(out.deep_view() =~= seq!["127.0.0.1"@]);
        }
    }
    out
}

/// Enumerates the machine's non-loopback IPv4 addresses for pairing, with
/// the loopback as a last resort; never empty.
pub fn get_local_ips() -> (r: Vec<String>)
    ensures
        r@.len() >= 1,
{
    let primary = query_local_ip();
    let interfaces = query_interface_ips();
    select_host_candidates(primary, interfaces)
}

/// A pairing confirmation over HTTP: verifies the attempt against the
/// session registry and, on success, records the paired device (active,
/// carrying the minted session token) in the device registry.  Errors are
/// served with their HTTP status and public label; the registries are
/// otherwise untouched.
pub fn confirm_pairing(
    manager: &mut PairingManager,
    registry: &mut DeviceRegistry,
    request: &PairConfirmRequest,
    now: u64,
    paired_at: String,
) -> (r: Result<PairConfirmResponse, (u16, PairingErrorSimple)>)
    requires
        old(manager).wf(),
    ensures
        final(manager).wf(),
        final(manager).device_id == old(manager).device_id,
        final(manager).device_name == old(manager).device_name,
        ({
            let pre = old(manager).sessions@;
            match resolve_target(pre, *request) {
                Err(e) => final(manager).sessions@ == pre && final(registry).devices@ == old(
                    registry,
                ).devices@ && (match r {
                    Err(err) => err.0 == spec_http_status(e) && err.1.error@ == spec_public_label(
                        e,
                    ),
                    Ok(_) => false,
                }),
                Ok(i) => {
                    let step = verify_step(pre[i], *request, now);
                    final(manager).sessions@ == pre.update(i, step.0) && (match step.1 {
                        Err(e) => final(registry).devices@ == old(registry).devices@ && (match r {
                            Err(err) => err.0 == spec_http_status(e) && err.1.error@
                                == spec_public_label(e),
                            Ok(_) => false,
                        }),
                        Ok(_) => (match r {
                            Ok(resp) => resp.desktop_device_id == old(manager).device_id
                                && resp.shared_secret is None && final(registry).devices@.len()
                                >= 1 && final(registry).devices@ == old(
                                registry,
                            ).devices@.filter(other_id_pred(request.device_id@)).push(
                                final(registry).devices@.last(),
                            ) && ({
                                let d = final(registry).devices@.last();
                                &&& d.id == request.device_id
                                &&& d.name == request.device_name
                                &&& d.token == resp.session_token
                                &&& d.paired_at == paired_at
                                &&& d.last_sync_at is None
                                &&& d.status == PairedDeviceStatus::Active
                            }),
                            Err(_) => false,
                        }),
                    })
                },
            }
        }),
{
    match manager.verify(request, now) {
        Err(e) => Err((http_status_for(&e), e.to_simple())),
        Ok(internal) => {
            let device = PairedDevice {
                id: request.device_id.clone(),
                name: request.device_name.clone(),
                token: internal.token.clone(),
                paired_at,
                last_sync_at: None,
                status: PairedDeviceStatus::Active,
            };
            registry.add_device(device);
            Ok(
                PairConfirmResponse {
                    desktop_device_id: internal.desktop_device_id,
                    session_token: internal.token,
                    shared_secret: None,
                },
            )
        },
    }
}

/// What starting the server reports: the bound port, and when auto-shutdown
/// is configured, the time the idle window would first run out.
pub fn server_start_result(port: u16, auto_shutdown_minutes: Option<u64>, now: u64) -> (r:
    ServerStartResult)
    requires
        now < 253402300800,
    ensures
        r.port == port,
        match auto_shutdown_minutes {
            Some(m) => (match r.expires_at {
                Some(t) => now + m * 60 < 253402300800 && t@ == rfc3339_utc_of(
                    (now + m * 60) as u64,
                ),
                None => now + m * 60 >= 253402300800,
            }),
            None => r.expires_at is None,
        },
{
    match auto_shutdown_minutes {
        Some(minutes) => {
            let budget: u64 = 253402300799 - now;
            if minutes > budget / 60 {
                proof {
                    assert(minutes * 60 > budget) by (nonlinear_arith)
                        requires
                            minutes > budget / 60,
                    ;
                }
                ServerStartResult { port, expires_at: None }
            } else {
                proof {
                    assert(minutes * 60 <= budget) by (nonlinear_arith)
                        requires
                            minutes <= budget / 60,
                    ;
                }
                let expiry = rfc3339_utc(now + minutes * 60);
                ServerStartResult { port, expires_at: Some(expiry) }
            }
        },
        None => ServerStartResult { port, expires_at: None },
    }
}

} // verus!
