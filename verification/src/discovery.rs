//! Peer discovery records: what the crate reads out of a resolved service
//! advertisement, and what it puts into its own.
//!
//! The multicast-DNS daemon itself (registering, browsing, the timeout
//! window) lives in the host application; it hands every fully resolved
//! service here as plain key/value properties, addresses and a port, and
//! takes the advertisement's properties back as plain values.

use crate::seqs::{find_first, lemma_find_first};
use crate::text::str_eq;
use vstd::prelude::*;
use vstd::string::*;

verus! {

/// A peer discovered on the local network, rebuilt per discovery call.
#[derive(Debug)]
pub struct DiscoveredPeer {
    pub device_id: String,
    pub name: String,
    pub device_type: String,
    pub address: String,
    pub port: u16,
    pub public_key_fingerprint: String,
    pub requires_pairing: bool,
}

/// One key/value property of a service record.
#[derive(Debug)]
pub struct ServiceProp {
    pub key: String,
    pub value: String,
}

/// A fully resolved service event, reduced to the plain values the parser
/// reads: its properties, its addresses rendered as strings, and its port.
#[derive(Debug)]
pub struct ResolvedService {
    pub properties: Vec<ServiceProp>,
    pub addresses: Vec<String>,
    pub port: u16,
}

/// The predicate selecting the property under `key`.
pub open spec fn prop_key_pred(key: Seq<char>) -> spec_fn(ServiceProp) -> bool {
    |p: ServiceProp| p.key@ == key
}

/// The value of the first property under `key`, if any.
pub open spec fn spec_prop(props: Seq<ServiceProp>, key: Seq<char>) -> Option<Seq<char>> {
    let i = find_first(props, prop_key_pred(key));
    if i < 0 {
        None
    } else {
        Some(props[i].value@)
    }
}

/// The value of a property with a default for an absent one.
pub open spec fn spec_prop_or(props: Seq<ServiceProp>, key: Seq<char>, dflt: Seq<char>) -> Seq<
    char,
> {
    match spec_prop(props, key) {
        Some(v) => v,
        None => dflt,
    }
}

/// Looks up the first property under `key`.
fn find_prop(props: &Vec<ServiceProp>, key: &str) -> (r: Option<String>)
    ensures
        match r {
            Some(v) => spec_prop(props@, key@) == Some(v@),
            None => spec_prop(props@, key@) is None,
        },
{
    let ghost p = prop_key_pred(key@);
    let ghost fi = find_first(props@, p);
    proof {
        lemma_find_first(props@, p);
    }
    let mut i: usize = 0;
    while i < props.len()
        invariant
            i <= props@.len(),
            forall|j: int| 0 <= j < i ==> !p(#[trigger] props@[j]),
            p == prop_key_pred(key@),
            fi == find_first(props@, p),
            fi == -1 ==> (forall|j: int| 0 <= j < props@.len() ==> !p(#[trigger] props@[j])),
            fi >= 0 ==> fi < props@.len() && p(props@[fi]) && (forall|j: int|
                0 <= j < fi ==> !p(#[trigger] props@[j])),
        decreases props@.len() - i,
    {
        if str_eq(props[i].key.as_str(), key) {
            proof {
                assert(p(props@[i as int]));
                if fi == -1 {
                    assert(!p(props@[i as int]));
                } else if fi < i as int {
                    assert(!p(props@[fi]));
                } else if fi > i as int {
                    assert(!p(props@[i as int]));
                }
                assert(fi == i as int);
            }
            return Some(props[i].value.clone());
        }
        proof {
            assert(!p(props@[i as int]));
        }
        i = i + 1;
    }
    proof {
        if fi >= 0 {
            assert(!p(props@[fi]));
        }
    }
    None
}

/// What a resolved service parses to, if anything: a record without a
/// `device_id` property or without a resolvable address is dropped; absent
/// optional properties fall back to their defaults, and `requires_pairing`
/// is assumed unless the record says `pairing=false`.
pub open spec fn spec_parse(svc: ResolvedService, peer: DiscoveredPeer) -> bool {
    &&& (match spec_prop(svc.properties@, "device_id"@) {
        Some(v) => peer.device_id@ == v,
        None => false,
    })
    &&& peer.name@ == spec_prop_or(svc.properties@, "name"@, "Unknown Device"@)
    &&& peer.device_type@ == spec_prop_or(svc.properties@, "type"@, "unknown"@)
    &&& peer.public_key_fingerprint@ == spec_prop_or(
        svc.properties@,
        "pk_fp"@,
        Seq::<char>::empty(),
    )
    &&& peer.requires_pairing == (match spec_prop(svc.properties@, "pairing"@) {
        Some(v) => v == "true"@,
        None => true,
    })
    &&& svc.addresses@.len() > 0
    &&& peer.address@ == svc.addresses@[0]@
    &&& peer.address@.len() > 0
    &&& peer.port == svc.port
}

/// Parses one resolved service into a peer: `None` exactly when the record
/// carries no `device_id` or no usable address.
pub fn parse_service_record(svc: &ResolvedService) -> (r: Option<DiscoveredPeer>)
    ensures
        match r {
            Some(peer) => spec_parse(*svc, peer),
            None => spec_prop(svc.properties@, "device_id"@) is None || svc.addresses@.len() == 0
                || svc.addresses@[0]@.len() == 0,
        },
{
    let device_id = match find_prop(&svc.properties, "device_id") {
        Some(v) => v,
        None => {
            return None;
        },
    };
    let name = match find_prop(&svc.properties, "name") {
        Some(v) => v,
        None => String::from_str("Unknown Device"),
    };
    let device_type = match find_prop(&svc.properties, "type") {
        Some(v) => v,
        None => String::from_str("unknown"),
    };
    let public_key_fingerprint = match find_prop(&svc.properties, "pk_fp") {
        Some(v) => v,
        None => String::new(),
    };
    let requires_pairing = match find_prop(&svc.properties, "pairing") {
        Some(v) => str_eq(v.as_str(), "true"),
        None => true,
    };
    if svc.addresses.len() == 0 {
        return None;
    }
    let address = svc.addresses[0].clone();
    if address.as_str().is_empty() {
        return None;
    }
    Some(
        DiscoveredPeer {
            device_id,
            name,
            device_type,
            address,
            port: svc.port,
            public_key_fingerprint,
            requires_pairing,
        },
    )
}

/// The predicate selecting a peer with this device identifier.
pub open spec fn peer_id_pred(id: Seq<char>) -> spec_fn(DiscoveredPeer) -> bool {
    |p: DiscoveredPeer| p.device_id@ == id
}

/// Collects a parsed peer, deduplicating by device identifier: a peer whose
/// identifier is already listed is dropped, any other is appended.
pub fn add_peer_dedup(peers: &mut Vec<DiscoveredPeer>, peer: DiscoveredPeer)
    ensures
        find_first(old(peers)@, peer_id_pred(peer.device_id@)) >= 0 ==> final(peers)@ == old(
            peers,
        )@,
        find_first(old(peers)@, peer_id_pred(peer.device_id@)) < 0 ==> final(peers)@ == old(
            peers,
        )@.push(peer),
{
    let ghost p = peer_id_pred(peer.device_id@);
    let ghost fi = find_first(peers@, p);
    proof {
        lemma_find_first(peers@, p);
    }
    let mut i: usize = 0;
    while i < peers.len()
        invariant
            i <= peers@.len(),
            forall|j: int| 0 <= j < i ==> !p(#[trigger] peers@[j]),
            p == peer_id_pred(peer.device_id@),
            fi == find_first(peers@, p),
            fi == -1 ==> (forall|j: int| 0 <= j < peers@.len() ==> !p(#[trigger] peers@[j])),
            fi >= 0 ==> fi < peers@.len() && p(peers@[fi]) && (forall|j: int|
                0 <= j < fi ==> !p(#[trigger] peers@[j])),
            peers@ == old(peers)@,
        decreases peers@.len() - i,
    {
        if str_eq(peers[i].device_id.as_str(), peer.device_id.as_str()) {
            proof {
                assert(p(peers@[i as int]));
            }
            return ;
        }
        proof {
            assert(!p(peers@[i as int]));
        }
        i = i + 1;
    }
    proof {
        if fi >= 0 {
            assert(!p(peers@[fi]));
        }
    }
    peers.push(peer);
}

/// The service instance name an advertisement registers under: the fixed
/// prefix and the first eight characters of the device identifier.
pub fn service_instance_name(device_id: &str) -> (r: String)
    requires
        device_id@.len() >= 8,
    ensures
        r@ == "mutaba3a-"@ + device_id@.subrange(0, 8),
{
    let mut s = String::from_str("mutaba3a-");
    let head = device_id.substring_char(0, 8);
    s.append(head);
    s
}

/// Relies on `hostname::get`: the machine's hostname rendered as a string.
/// The result depends on the machine and nothing is promised of it.
#[verifier::external_body]
pub fn query_hostname() -> (r: Option<String>) {
    hostname::get().ok().map(|h| h.to_string_lossy().into_owned())
}

/// The mDNS host name an advertisement registers: the machine's hostname —
/// `localhost` where none could be read — with the `.local.` suffix.
pub fn service_host(hostname: Option<String>) -> (r: String)
    ensures
        r@ == (match hostname {
            Some(h) => h@ + ".local."@,
            None => "localhost.local."@,
        }),
{
    match hostname {
        Some(h) => {
            let mut s = h;
            s.append(".local.");
            s
        },
        None => {
            let mut s = String::from_str("localhost");
            s.append(".local.");
            proof {
                reveal_strlit("localhost");
                reveal_strlit(".local.");
                reveal_strlit("localhost.local.");
                assert(s@ =~= "localhost.local."@);
            }
            s
        },
    }
}

/// The key/value properties an advertisement carries: the device identity,
/// the desktop type, the fingerprint placeholder, and `pairing=false`.
pub fn advertisement_properties(
    device_id: &String,
    device_name: &String,
    public_key_fingerprint: &String,
) -> (r: Vec<ServiceProp>)
    ensures
        r@.len() == 5,
        r@[0].key@ == "device_id"@ && r@[0].value == *device_id,
        r@[1].key@ == "name"@ && r@[1].value == *device_name,
        r@[2].key@ == "type"@ && r@[2].value@ == "desktop"@,
        r@[3].key@ == "pk_fp"@ && r@[3].value == *public_key_fingerprint,
        r@[4].key@ == "pairing"@ && r@[4].value@ == "false"@,
{
    let mut props: Vec<ServiceProp> = Vec::new();
    props.push(
        ServiceProp { key: String::from_str("device_id"), value: device_id.clone() },
    );
    props.push(ServiceProp { key: String::from_str("name"), value: device_name.clone() });
    props.push(
        ServiceProp { key: String::from_str("type"), value: String::from_str("desktop") },
    );
    props.push(
        ServiceProp {
            key: String::from_str("pk_fp"),
            value: public_key_fingerprint.clone(),
        },
    );
    props.push(
        ServiceProp { key: String::from_str("pairing"), value: String::from_str("false") },
    );
    props
}

} // verus!
