//! Peers and their wire-format descriptors.
//!
//! Conversion from a descriptor to a domain peer is partial and fail-fast:
//! the public key is checked first (it is mandatory), then the endpoint,
//! then the allowed IPs left to right; the first failure names the
//! offending field. Conversion from a domain peer back to a descriptor is
//! total.

use vstd::prelude::*;

use crate::addr::{is_valid_ipv4, valid_ipv4};
use crate::error::{Error, Field};
use crate::key::{valid_key_b64, Key};

verus! {

/// Abstract value of an allowed IP: a CIDR entry a peer may route.
pub struct AllowedIpView {
    pub address: Seq<char>,
    pub netmask: u8,
}

/// Abstract value of a peer's internet endpoint.
pub struct EndpointView {
    pub address: Seq<char>,
    pub port: u16,
}

/// Abstract value of a domain peer: its public key is mandatory.
pub struct PeerView {
    pub public_key: Seq<char>,
    pub endpoint: Option<EndpointView>,
    pub allowed_ips: Seq<AllowedIpView>,
}

/// Abstract value of a peer descriptor: every field still untrusted.
pub struct PeerDescView {
    pub public_key: Option<Seq<char>>,
    pub endpoint: Option<EndpointView>,
    pub allowed_ips: Seq<AllowedIpView>,
}

/// Description of an allowed IP of a peer, as it crosses the wire.
#[derive(Clone, Debug, PartialEq)]
pub struct AllowedIpDesc {
    pub address: String,
    pub netmask: u8,
}

/// Description of the internet endpoint of a peer, as it crosses the wire.
#[derive(Clone, Debug, PartialEq)]
pub struct EndpointDesc {
    pub address: String,
    pub port: u16,
}

/// Description of a peer, as it crosses the wire.
#[derive(Clone, Debug, PartialEq)]
pub struct PeerDesc {
    pub public_key: Option<String>,
    pub endpoint: Option<EndpointDesc>,
    pub allowed_ips: Vec<AllowedIpDesc>,
}

/// A validated allowed IP.
#[derive(Clone, Debug)]
pub struct AllowedIp {
    pub address: String,
    pub netmask: u8,
}

/// A validated peer endpoint.
#[derive(Clone, Debug)]
pub struct Endpoint {
    pub address: String,
    pub port: u16,
}

/// A validated peer.
#[derive(Clone, Debug)]
pub struct Peer {
    pub public_key: Key,
    pub endpoint: Option<Endpoint>,
    pub allowed_ips: Vec<AllowedIp>,
}

impl View for AllowedIpDesc {
    type V = AllowedIpView;

    open spec fn view(&self) -> AllowedIpView {
        AllowedIpView { address: self.address@, netmask: self.netmask }
    }
}

impl View for AllowedIp {
    type V = AllowedIpView;

    open spec fn view(&self) -> AllowedIpView {
        AllowedIpView { address: self.address@, netmask: self.netmask }
    }
}

impl View for EndpointDesc {
    type V = EndpointView;

    open spec fn view(&self) -> EndpointView {
        EndpointView { address: self.address@, port: self.port }
    }
}

impl View for Endpoint {
    type V = EndpointView;

    open spec fn view(&self) -> EndpointView {
        EndpointView { address: self.address@, port: self.port }
    }
}

impl View for PeerDesc {
    type V = PeerDescView;

    open spec fn view(&self) -> PeerDescView {
        PeerDescView {
            public_key: match self.public_key {
                Some(k) => Some(k@),
                None => None,
            },
            endpoint: match self.endpoint {
                Some(e) => Some(e@),
                None => None,
            },
            allowed_ips: allowed_ip_desc_views(self.allowed_ips@),
        }
    }
}

impl View for Peer {
    type V = PeerView;

    open spec fn view(&self) -> PeerView {
        PeerView {
            public_key: self.public_key@,
            endpoint: match self.endpoint {
                Some(e) => Some(e@),
                None => None,
            },
            allowed_ips: allowed_ip_views(self.allowed_ips@),
        }
    }
}

/// The abstract values of a list of allowed IPs.
pub open spec fn allowed_ip_views(s: Seq<AllowedIp>) -> Seq<AllowedIpView> {
    s.map_values(|a: AllowedIp| a@)
}

/// The abstract values of a list of allowed-IP descriptors.
pub open spec fn allowed_ip_desc_views(s: Seq<AllowedIpDesc>) -> Seq<AllowedIpView> {
    s.map_values(|a: AllowedIpDesc| a@)
}

/// The abstract values of a list of peers.
pub open spec fn peer_views(s: Seq<Peer>) -> Seq<PeerView> {
    s.map_values(|p: Peer| p@)
}

/// The abstract values of a list of peer descriptors.
pub open spec fn peer_desc_views(s: Seq<PeerDesc>) -> Seq<PeerDescView> {
    s.map_values(|p: PeerDesc| p@)
}

/// Whether an allowed IP carries a valid address.
pub open spec fn ip_ok(a: AllowedIpView) -> bool {
    valid_ipv4(a.address)
}

/// Whether an endpoint carries a valid address.
pub open spec fn endpoint_ok(e: EndpointView) -> bool {
    valid_ipv4(e.address)
}

impl PeerView {
    /// Well-formedness of a domain peer: key and every address validated.
    pub open spec fn wf(self) -> bool {
        &&& valid_key_b64(self.public_key)
        &&& match self.endpoint {
            Some(e) => endpoint_ok(e),
            None => true,
        }
        &&& forall|i: int| 0 <= i < self.allowed_ips.len() ==> ip_ok(#[trigger] self.allowed_ips[i])
    }
}

/// What converting a peer descriptor yields: the validated peer, or the
/// first validation failure in field order (public key, endpoint, allowed
/// IPs).
pub open spec fn peer_of_desc(d: PeerDescView) -> Result<PeerView, Error> {
    match d.public_key {
        None => Err(Error::MissingField(Field::PeerPublicKey)),
        Some(k) => if !valid_key_b64(k) {
            Err(Error::InvalidField(Field::PeerPublicKey))
        } else if match d.endpoint {
            Some(e) => !endpoint_ok(e),
            None => false,
        } {
            Err(Error::InvalidField(Field::EndpointAddress))
        } else if exists|i: int| 0 <= i < d.allowed_ips.len() && !ip_ok(#[trigger] d.allowed_ips[i]) {
            Err(Error::InvalidField(Field::AllowedIpAddress))
        } else {
            Ok(PeerView { public_key: k, endpoint: d.endpoint, allowed_ips: d.allowed_ips })
        },
    }
}

/// What a domain peer looks like on the wire.
pub open spec fn desc_of_peer(p: PeerView) -> PeerDescView {
    PeerDescView {
        public_key: Some(p.public_key),
        endpoint: p.endpoint,
        allowed_ips: p.allowed_ips,
    }
}

/// What a list of domain peers looks like on the wire.
pub open spec fn descs_of_peers(ps: Seq<PeerView>) -> Seq<PeerDescView> {
    ps.map_values(|p: PeerView| desc_of_peer(p))
}

/// A well-formed peer survives the round trip through its descriptor.
pub proof fn lemma_peer_round_trip(p: PeerView)
    requires
        p.wf(),
    ensures
        peer_of_desc(desc_of_peer(p)) == Ok::<PeerView, Error>(p),
{
}

impl AllowedIpDesc {
    /// Validate the descriptor into a domain allowed IP.
    pub fn to_allowed_ip(&self) -> (r: Result<AllowedIp, Error>)
        ensures
            match r {
                Ok(ip) => ip_ok(self@) && ip@ == self@,
                Err(e) => !ip_ok(self@) && e == Error::InvalidField(Field::AllowedIpAddress),
            },
    {
        if is_valid_ipv4(self.address.as_str()) {
            Ok(AllowedIp { address: self.address.clone(), netmask: self.netmask })
        } else {
            Err(Error::InvalidField(Field::AllowedIpAddress))
        }
    }

    /// The wire form of a domain allowed IP.
    pub fn from_allowed_ip(ip: &AllowedIp) -> (r: AllowedIpDesc)
        ensures
            r@ == ip@,
    {
        AllowedIpDesc { address: ip.address.clone(), netmask: ip.netmask }
    }
}

impl EndpointDesc {
    /// Validate the descriptor into a domain endpoint.
    pub fn to_endpoint(&self) -> (r: Result<Endpoint, Error>)
        ensures
            match r {
                Ok(ep) => endpoint_ok(self@) && ep@ == self@,
                Err(e) => !endpoint_ok(self@) && e == Error::InvalidField(Field::EndpointAddress),
            },
    {
        if is_valid_ipv4(self.address.as_str()) {
            Ok(Endpoint { address: self.address.clone(), port: self.port })
        } else {
            Err(Error::InvalidField(Field::EndpointAddress))
        }
    }

    /// The wire form of a domain endpoint.
    pub fn from_endpoint(ep: &Endpoint) -> (r: EndpointDesc)
        ensures
            r@ == ep@,
    {
        EndpointDesc { address: ep.address.clone(), port: ep.port }
    }
}

/// Validate a list of allowed-IP descriptors, left to right, failing on
/// the first invalid address.
pub fn convert_allowed_ips(descs: &Vec<AllowedIpDesc>) -> (r: Result<Vec<AllowedIp>, Error>)
    ensures
        match r {
            Ok(ips) => allowed_ip_views(ips@) == allowed_ip_desc_views(descs@) && forall|i: int|
                0 <= i < descs@.len() ==> ip_ok(#[trigger] descs@[i]@),
            Err(e) => e == Error::InvalidField(Field::AllowedIpAddress) && exists|i: int|
                0 <= i < descs@.len() && !ip_ok(#[trigger] descs@[i]@),
        },
{
    let mut ips: Vec<AllowedIp> = Vec::new();
    let mut idx: usize = 0;
    while idx < descs.len()
        invariant
            0 <= idx <= descs@.len(),
            ips@.len() == idx,
            forall|j: int| 0 <= j < idx ==> ip_ok(#[trigger] descs@[j]@),
            forall|j: int| 0 <= j < idx ==> #[trigger] ips@[j]@ == descs@[j]@,
        decreases descs@.len() - idx,
    {
        match descs[idx].to_allowed_ip() {
            Ok(ip) => ips.push(ip),
            Err(e) => {
                return Err(e);
            },
        }
        idx += 1;
    }
    proof {
        assert(allowed_ip_views(ips@) =~= allowed_ip_desc_views(descs@));
    }
    Ok(ips)
}

impl PeerDesc {
    /// Validate the descriptor into a domain peer, failing on the first
    /// missing or invalid field.
    pub fn to_peer(&self) -> (r: Result<Peer, Error>)
        ensures
            match r {
                Ok(p) => peer_of_desc(self@) == Ok::<PeerView, Error>(p@) && p@.wf(),
                Err(e) => peer_of_desc(self@) == Err::<PeerView, Error>(e),
            },
    {
        let key = match &self.public_key {
            None => {
                return Err(Error::MissingField(Field::PeerPublicKey));
            },
            Some(s) => match Key::from_base64(s.as_str()) {
                None => {
                    return Err(Error::InvalidField(Field::PeerPublicKey));
                },
                Some(k) => k,
            },
        };
        let endpoint = match &self.endpoint {
            None => None,
            Some(e) => match e.to_endpoint() {
                Ok(ep) => Some(ep),
                Err(err) => {
                    return Err(err);
                },
            },
        };
        let ips = match convert_allowed_ips(&self.allowed_ips) {
            Ok(ips) => ips,
            Err(e) => {
                proof {
                    let i = choose|i: int|
                        0 <= i < self.allowed_ips@.len() && !ip_ok(self.allowed_ips@[i]@);
                    assert(!ip_ok(self@.allowed_ips[i]));
                }
                return Err(e);
            },
        };
        let p = Peer { public_key: key, endpoint, allowed_ips: ips };
        proof {
            assert(p@.allowed_ips =~= self@.allowed_ips);
        }
        Ok(p)
    }

    /// The wire form of a domain peer.
    pub fn from_peer(p: &Peer) -> (r: PeerDesc)
        ensures
            r@ == desc_of_peer(p@),
    {
        let mut ips: Vec<AllowedIpDesc> = Vec::new();
        let mut idx: usize = 0;
        while idx < p.allowed_ips.len()
            invariant
                0 <= idx <= p.allowed_ips@.len(),
                ips@.len() == idx,
                forall|j: int| 0 <= j < idx ==> #[trigger] ips@[j]@ == p.allowed_ips@[j]@,
            decreases p.allowed_ips@.len() - idx,
        {
            ips.push(AllowedIpDesc::from_allowed_ip(&p.allowed_ips[idx]));
            idx += 1;
        }
        let r = PeerDesc {
            public_key: Some(p.public_key.to_base64()),
            endpoint: match &p.endpoint {
                None => None,
                Some(e) => Some(EndpointDesc::from_endpoint(e)),
            },
            allowed_ips: ips,
        };
        proof {
            assert(r@.allowed_ips =~= desc_of_peer(p@).allowed_ips);
        }
        r
    }
}

} // verus!
