//! Devices, the in-memory device store, and the reconciliation engine.
//!
//! A POST is the sole write path: it opens the named device and applies
//! the request to it, or — exactly when the device is absent — creates it
//! first. Applying a request sets the listen port if one is given and
//! replaces the whole peer list with the request's peers, validated
//! fail-fast; on any validation failure the store is left untouched.

use vstd::prelude::*;
use vstd::pervasive::VecAdditionalExecFns;

use crate::error::{Error, Field};
use crate::key::{generated_key, generated_key_text, valid_key_b64, Key};
use crate::peer::{
    desc_of_peer, descs_of_peers, peer_desc_views, peer_of_desc, peer_views, Peer, PeerDesc,
    PeerDescView, PeerView,
};

verus! {

/// Abstract value of a stored device.
pub struct DeviceView {
    pub name: Seq<char>,
    pub listen_port: Option<u16>,
    pub private_key: Option<Seq<char>>,
    pub public_key: Option<Seq<char>>,
    pub peers: Seq<PeerView>,
}

/// Abstract value of a device creation/update request.
pub struct DeviceRequestView {
    pub listen_port: Option<u16>,
    pub private_key: Option<Seq<char>>,
    pub peers: Seq<PeerDescView>,
}

/// Abstract value of a device response.
pub struct DeviceResponseView {
    pub name: Seq<char>,
    pub listen_port: Option<u16>,
    pub public_key: Option<Seq<char>>,
    pub peers: Seq<PeerDescView>,
}

/// The form of a device creation/update request payload.
#[derive(Clone, Debug, PartialEq)]
pub struct DeviceRequest {
    pub listen_port: Option<u16>,
    pub private_key: Option<String>,
    pub peers: Vec<PeerDesc>,
}

/// The form of the payload of a response to a request about a device.
#[derive(Clone, Debug, PartialEq)]
pub struct DeviceResponse {
    pub name: String,
    pub listen_port: Option<u16>,
    pub public_key: Option<String>,
    pub peers: Vec<PeerDesc>,
}

/// A stored device: a named interface configuration with its peer list.
#[derive(Debug)]
pub struct Device {
    pub name: String,
    pub listen_port: Option<u16>,
    pub private_key: Option<Key>,
    pub public_key: Option<Key>,
    pub peers: Vec<Peer>,
}

impl View for DeviceRequest {
    type V = DeviceRequestView;

    open spec fn view(&self) -> DeviceRequestView {
        DeviceRequestView {
            listen_port: self.listen_port,
            private_key: match self.private_key {
                Some(k) => Some(k@),
                None => None,
            },
            peers: peer_desc_views(self.peers@),
        }
    }
}

impl View for DeviceResponse {
    type V = DeviceResponseView;

    open spec fn view(&self) -> DeviceResponseView {
        DeviceResponseView {
            name: self.name@,
            listen_port: self.listen_port,
            public_key: match self.public_key {
                Some(k) => Some(k@),
                None => None,
            },
            peers: peer_desc_views(self.peers@),
        }
    }
}

impl View for Device {
    type V = DeviceView;

    open spec fn view(&self) -> DeviceView {
        DeviceView {
            name: self.name@,
            listen_port: self.listen_port,
            private_key: match self.private_key {
                Some(k) => Some(k@),
                None => None,
            },
            public_key: match self.public_key {
                Some(k) => Some(k@),
                None => None,
            },
            peers: peer_views(self.peers@),
        }
    }
}

impl DeviceView {
    /// Well-formedness of a stored device: validated keys and peers.
    pub open spec fn wf(self) -> bool {
        &&& match self.private_key {
            Some(k) => valid_key_b64(k),
            None => true,
        }
        &&& match self.public_key {
            Some(k) => valid_key_b64(k),
            None => true,
        }
        &&& forall|i: int| 0 <= i < self.peers.len() ==> (#[trigger] self.peers[i]).wf()
    }
}

/// The first index in `s` holding a device named `name`, or the length of
/// `s` if there is none.
pub open spec fn find_device(s: Seq<DeviceView>, name: Seq<char>) -> int
    decreases s.len(),
{
    if s.len() == 0 {
        0
    } else if s[0].name == name {
        0
    } else {
        1 + find_device(s.drop_first(), name)
    }
}

/// What `find_device` returns: the first match, within bounds.
pub proof fn lemma_find_device_props(s: Seq<DeviceView>, name: Seq<char>)
    ensures
        0 <= find_device(s, name) <= s.len(),
        find_device(s, name) < s.len() ==> s[find_device(s, name)].name == name,
        forall|j: int| 0 <= j < find_device(s, name) ==> s[j].name != name,
    decreases s.len(),
{
    if s.len() == 0 {
    } else if s[0].name == name {
    } else {
        lemma_find_device_props(s.drop_first(), name);
        assert forall|j: int| 0 <= j < find_device(s, name) implies s[j].name != name by {
            if j > 0 {
                assert(s.drop_first()[j - 1] == s[j]);
            }
        }
    }
}

/// What converting a request's peer descriptors yields: the validated
/// peers in request order, or the first conversion failure.
pub open spec fn peers_of_descs(ds: Seq<PeerDescView>) -> Result<Seq<PeerView>, Error>
    decreases ds.len(),
{
    if ds.len() == 0 {
        Ok(Seq::<PeerView>::empty())
    } else {
        match peer_of_desc(ds[0]) {
            Err(e) => Err(e),
            Ok(p) => match peers_of_descs(ds.drop_first()) {
                Err(e) => Err(e),
                Ok(rest) => Ok(seq![p] + rest),
            },
        }
    }
}

/// Whether the request names a private key that does not validate.
pub open spec fn request_key_invalid(r: DeviceRequestView) -> bool {
    match r.private_key {
        Some(k) => !valid_key_b64(k),
        None => false,
    }
}

/// A device after the update path: listen port set if the request gives
/// one, peer list fully replaced, everything else kept.
pub open spec fn update_device(d: DeviceView, r: DeviceRequestView, ps: Seq<PeerView>) -> DeviceView {
    DeviceView {
        name: d.name,
        listen_port: match r.listen_port {
            Some(p) => Some(p),
            None => d.listen_port,
        },
        private_key: d.private_key,
        public_key: d.public_key,
        peers: ps,
    }
}

/// A device after the create path: the request's private key or the
/// store's generated one; the public key is the store's modelled
/// derivation, which this layer treats as opaque.
pub open spec fn created_device(name: Seq<char>, r: DeviceRequestView, ps: Seq<PeerView>) -> DeviceView {
    let key = match r.private_key {
        Some(k) => k,
        None => generated_key_text(),
    };
    DeviceView {
        name: name,
        listen_port: r.listen_port,
        private_key: Some(key),
        public_key: Some(key),
        peers: ps,
    }
}

/// What a POST does to the store: update the named device if it exists,
/// else validate the private key and create it; on any validation failure
/// the store is unchanged and the first failure is reported.
pub open spec fn post_result(s: Seq<DeviceView>, name: Seq<char>, r: DeviceRequestView) -> Result<
    Seq<DeviceView>,
    Error,
> {
    let i = find_device(s, name);
    if i < s.len() {
        match peers_of_descs(r.peers) {
            Err(e) => Err(e),
            Ok(ps) => Ok(s.update(i, update_device(s[i], r, ps))),
        }
    } else {
        if request_key_invalid(r) {
            Err(Error::InvalidField(Field::DevicePrivateKey))
        } else {
            match peers_of_descs(r.peers) {
                Err(e) => Err(e),
                Ok(ps) => Ok(s.push(created_device(name, r, ps))),
            }
        }
    }
}

/// What a device reports about itself.
pub open spec fn response_of(d: DeviceView) -> DeviceResponseView {
    DeviceResponseView {
        name: d.name,
        listen_port: d.listen_port,
        public_key: d.public_key,
        peers: descs_of_peers(d.peers),
    }
}

/// What a GET of `name` yields.
pub open spec fn get_result(s: Seq<DeviceView>, name: Seq<char>) -> Result<
    DeviceResponseView,
    Error,
> {
    let i = find_device(s, name);
    if i < s.len() {
        Ok(response_of(s[i]))
    } else {
        Err(Error::NotFound)
    }
}

/// Validate a request's peer descriptors, left to right, starting at
/// `start`, failing on the first bad descriptor.
fn convert_peers_from(descs: &Vec<PeerDesc>, start: usize) -> (r: Result<Vec<Peer>, Error>)
    requires
        start <= descs@.len(),
    ensures
        match r {
            Ok(ps) => peers_of_descs(peer_desc_views(descs@).skip(start as int))
                == Ok::<Seq<PeerView>, Error>(peer_views(ps@)) && forall|i: int|
                0 <= i < ps@.len() ==> (#[trigger] ps@[i])@.wf(),
            Err(e) => peers_of_descs(peer_desc_views(descs@).skip(start as int))
                == Err::<Seq<PeerView>, Error>(e),
        },
    decreases descs@.len() - start,
{
    let ghost dm = peer_desc_views(descs@);
    if start == descs.len() {
        proof {
            assert(dm.skip(start as int) =~= Seq::<PeerDescView>::empty());
            assert(peer_views(Seq::<Peer>::empty()) =~= Seq::<PeerView>::empty());
        }
        Ok(Vec::new())
    } else {
        proof {
            assert(dm.skip(start as int)[0] == dm[start as int]);
            assert(dm[start as int] == descs@[start as int]@);
            assert(dm.skip(start as int).drop_first() =~= dm.skip(start as int + 1));
        }
        let p = match descs[start].to_peer() {
            Ok(p) => p,
            Err(e) => {
                return Err(e);
            },
        };
        let ghost pv = p@;
        let mut rest = match convert_peers_from(descs, start + 1) {
            Ok(ps) => ps,
            Err(e) => {
                return Err(e);
            },
        };
        let ghost before = rest@;
        rest.insert(0, p);
        proof {
            assert(peer_views(rest@) =~= seq![pv] + peer_views(before));
            assert(dm.skip(start as int).len() > 0);
            assert(peer_of_desc(dm.skip(start as int)[0]) == Ok::<PeerView, Error>(pv));
            assert(peers_of_descs(dm.skip(start as int).drop_first()) == Ok::<
                Seq<PeerView>,
                Error,
            >(peer_views(before)));
            assert(peers_of_descs(dm.skip(start as int)) == Ok::<Seq<PeerView>, Error>(
                seq![pv] + peer_views(before),
            ));
            assert forall|i: int| 0 <= i < rest@.len() implies (#[trigger] rest@[i])@.wf() by {
                if i == 0 {
                    assert(rest@[0]@ == pv);
                } else {
                    assert(rest@[i] == before[i - 1]);
                }
            }
        }
        Ok(rest)
    }
}

/// Validate a request's peer descriptors, left to right.
pub fn convert_peers(descs: &Vec<PeerDesc>) -> (r: Result<Vec<Peer>, Error>)
    ensures
        match r {
            Ok(ps) => peers_of_descs(peer_desc_views(descs@)) == Ok::<
                Seq<PeerView>,
                Error,
            >(peer_views(ps@)) && forall|i: int|
                0 <= i < ps@.len() ==> (#[trigger] ps@[i])@.wf(),
            Err(e) => peers_of_descs(peer_desc_views(descs@)) == Err::<
                Seq<PeerView>,
                Error,
            >(e),
        },
{
    proof {
        assert(peer_desc_views(descs@).skip(0) =~= descs@.map_values(
            |d: PeerDesc| d@,
        ));
    }
    convert_peers_from(descs, 0)
}

impl DeviceResponse {
    /// What a device reports about itself.
    pub fn from_device(dev: &Device) -> (r: DeviceResponse)
        ensures
            r@ == response_of(dev@),
    {
        let mut peers: Vec<PeerDesc> = Vec::new();
        let mut i: usize = 0;
        while i < dev.peers.len()
            invariant
                0 <= i <= dev.peers@.len(),
                peers@.len() == i,
                forall|j: int| 0 <= j < i ==> (#[trigger] peers@[j])@ == desc_of_peer(
                    dev.peers@[j]@,
                ),
            decreases dev.peers@.len() - i,
        {
            peers.push(PeerDesc::from_peer(&dev.peers[i]));
            i += 1;
        }
        let r = DeviceResponse {
            name: dev.name.clone(),
            listen_port: dev.listen_port,
            public_key: match &dev.public_key {
                Some(k) => Some(k.to_base64()),
                None => None,
            },
            peers,
        };
        proof {
            assert(r@.peers =~= response_of(dev@).peers);
        }
        r
    }
}

/// The abstract values of a list of devices.
pub open spec fn device_views(s: Seq<Device>) -> Seq<DeviceView> {
    s.map_values(|d: Device| d@)
}

/// The in-memory device store: the injectable stand-in for the host's
/// interface configuration state.
#[derive(Debug)]
pub struct DeviceStore {
    devices: Vec<Device>,
}

impl View for DeviceStore {
    type V = Seq<DeviceView>;

    closed spec fn view(&self) -> Seq<DeviceView> {
        device_views(self.devices@)
    }
}

impl DeviceStore {
    /// Well-formedness: every device well formed, names unique.
    pub open spec fn wf(&self) -> bool {
        &&& forall|i: int| 0 <= i < self@.len() ==> (#[trigger] self@[i]).wf()
        &&& forall|i: int, j: int|
            #![trigger self@[i].name, self@[j].name]
            0 <= i < j < self@.len() ==> self@[i].name != self@[j].name
    }

    /// An empty store.
    pub fn new() -> (r: DeviceStore)
        ensures
            r@ =~= Seq::<DeviceView>::empty(),
            r.wf(),
    {
        DeviceStore { devices: Vec::new() }
    }

    /// The index of the device named `name`, or the device count.
    fn find_index(&self, name: &str) -> (r: usize)
        ensures
            r as int == find_device(self@, name@),
    {
        let key = name.to_owned();
        let mut i: usize = 0;
        while i < self.devices.len()
            invariant
                0 <= i <= self.devices@.len(),
                key@ == name@,
                forall|j: int| 0 <= j < i ==> (#[trigger] self@[j]).name != name@,
            decreases self.devices@.len() - i,
        {
            if self.devices[i].name == key {
                proof {
                    lemma_find_device_props(self@, name@);
                    assert(self@[i as int].name == name@);
                    let f = find_device(self@, name@);
                    if f < i as int {
                        assert(self@[f].name != name@);
                    }
                    if (i as int) < f {
                        assert(self@[i as int].name != name@);
                    }
                }
                return i;
            }
            proof {
                assert(self@[i as int].name == self.devices@[i as int].name@);
            }
            i += 1;
        }
        proof {
            lemma_find_device_props(self@, name@);
        }
        self.devices.len()
    }
}

/// List all devices: every stored device, reported in store order.
pub fn list(store: &DeviceStore) -> (r: Vec<DeviceResponse>)
    ensures
        r@.len() == store@.len(),
        forall|i: int| 0 <= i < r@.len() ==> (#[trigger] r@[i])@ == response_of(store@[i]),
{
    let mut out: Vec<DeviceResponse> = Vec::new();
    let mut i: usize = 0;
    while i < store.devices.len()
        invariant
            0 <= i <= store.devices@.len(),
            out@.len() == i,
            forall|j: int| 0 <= j < i ==> (#[trigger] out@[j])@ == response_of(store@[j]),
        decreases store.devices@.len() - i,
    {
        out.push(DeviceResponse::from_device(&store.devices[i]));
        i += 1;
    }
    out
}

/// Read the device named `name`: its report, or `NotFound` exactly when
/// no such device exists.
pub fn get(store: &DeviceStore, name: &str) -> (r: Result<DeviceResponse, Error>)
    ensures
        match r {
            Ok(resp) => get_result(store@, name@) == Ok::<DeviceResponseView, Error>(resp@),
            Err(e) => get_result(store@, name@) == Err::<DeviceResponseView, Error>(e),
        },
{
    let idx = store.find_index(name);
    proof {
        lemma_find_device_props(store@, name@);
    }
    if idx < store.devices.len() {
        Ok(DeviceResponse::from_device(&store.devices[idx]))
    } else {
        Err(Error::NotFound)
    }
}

/// Create or update the device named `name` from the request: the
/// reconciliation engine. On success the validated request is echoed
/// back; on failure the store is untouched.
pub fn post(store: &mut DeviceStore, name: &str, req: DeviceRequest) -> (r: Result<
    DeviceRequest,
    Error,
>)
    requires
        old(store).wf(),
    ensures
        final(store).wf(),
        match r {
            Ok(echo) => echo@ == req@ && post_result(old(store)@, name@, req@) == Ok::<
                Seq<DeviceView>,
                Error,
            >(final(store)@),
            Err(e) => final(store)@ == old(store)@ && post_result(old(store)@, name@, req@)
                == Err::<Seq<DeviceView>, Error>(e),
        },
{
    let ghost s0 = store@;
    let idx = store.find_index(name);
    proof {
        lemma_find_device_props(s0, name@);
    }
    if idx < store.devices.len() {
        // Update path: replace the peer list, set the port if given.
        let ps = match convert_peers(&req.peers) {
            Ok(ps) => ps,
            Err(e) => {
                return Err(e);
            },
        };
        let ghost psv = peer_views(ps@);
        let new_dev = Device {
            name: store.devices[idx].name.clone(),
            listen_port: match req.listen_port {
                Some(p) => Some(p),
                None => store.devices[idx].listen_port,
            },
            private_key: match &store.devices[idx].private_key {
                Some(k) => Some(k.duplicate()),
                None => None,
            },
            public_key: match &store.devices[idx].public_key {
                Some(k) => Some(k.duplicate()),
                None => None,
            },
            peers: ps,
        };
        store.devices.set(idx, new_dev);
        proof {
            assert(store@ =~= s0.update(idx as int, update_device(s0[idx as int], req@, psv)));
            assert forall|i: int| 0 <= i < store@.len() implies (#[trigger] store@[i]).wf() by {
                if i != idx {
                    assert(store@[i] == s0[i]);
                }
            }
        }
        Ok(req)
    } else {
        // Create path: validate the private key, then the peers, then
        // commit the new device.
        let key = match &req.private_key {
            Some(s) => match Key::from_base64(s.as_str()) {
                Some(k) => k,
                None => {
                    return Err(Error::InvalidField(Field::DevicePrivateKey));
                },
            },
            None => generated_key(),
        };
        let ps = match convert_peers(&req.peers) {
            Ok(ps) => ps,
            Err(e) => {
                return Err(e);
            },
        };
        let ghost psv = peer_views(ps@);
        let new_dev = Device {
            name: name.to_owned(),
            listen_port: req.listen_port,
            private_key: Some(key.duplicate()),
            public_key: Some(key),
            peers: ps,
        };
        store.devices.push(new_dev);
        proof {
            assert(store@ =~= s0.push(created_device(name@, req@, psv)));
            assert forall|i: int| 0 <= i < store@.len() implies (#[trigger] store@[i]).wf() by {
                if i < s0.len() {
                    assert(store@[i] == s0[i]);
                }
            }
        }
        Ok(req)
    }
}

} // verus!
