//! Laws the reconciliation engine obeys, stated over the abstract store.
//!
//! Each law is a proof function: its hypotheses are exactly the law's
//! premises, and Verus checks its conclusion against the specifications in
//! `device` and `peer`.

use vstd::prelude::*;

use crate::device::{
    created_device, find_device, get_result, lemma_find_device_props, peers_of_descs, post_result,
    request_key_invalid, response_of, update_device, DeviceRequestView, DeviceResponseView,
    DeviceView,
};
use crate::error::{Error, Field};
use crate::key::valid_key_b64;
use crate::peer::{
    desc_of_peer, descs_of_peers, endpoint_ok, ip_ok, lemma_peer_round_trip, peer_of_desc,
    PeerDescView, PeerView,
};

verus! {

/// Appending a device leaves earlier lookups alone and makes the new
/// device findable under its name.
proof fn lemma_find_device_push(s: Seq<DeviceView>, d: DeviceView, name: Seq<char>)
    ensures
        find_device(s.push(d), name) == if find_device(s, name) < s.len() {
            find_device(s, name)
        } else if d.name == name {
            s.len() as int
        } else {
            s.len() + 1 as int
        },
    decreases s.len(),
{
    lemma_find_device_props(s, name);
    if s.len() == 0 {
        assert(s.push(d)[0] == d);
        if d.name != name {
            assert(s.push(d).drop_first() =~= Seq::<DeviceView>::empty());
            assert(find_device(Seq::<DeviceView>::empty(), name) == 0);
        }
    } else {
        assert(s.push(d)[0] == s[0]);
        assert(s.push(d).drop_first() =~= s.drop_first().push(d));
        lemma_find_device_push(s.drop_first(), d, name);
        if s[0].name == name {
            assert(find_device(s.push(d), name) == 0);
            assert(find_device(s, name) == 0);
        } else {
            assert(find_device(s.push(d), name) == 1 + find_device(
                s.drop_first().push(d),
                name,
            ));
            assert(find_device(s, name) == 1 + find_device(s.drop_first(), name));
            assert(s.drop_first().len() == s.len() - 1);
        }
    }
}

/// Replacing a device with one of the same name leaves every lookup alone.
proof fn lemma_find_device_update(s: Seq<DeviceView>, i: int, d: DeviceView, name: Seq<char>)
    requires
        0 <= i < s.len(),
        d.name == s[i].name,
    ensures
        find_device(s.update(i, d), name) == find_device(s, name),
    decreases s.len(),
{
    if i == 0 {
        assert(s.update(0, d)[0] == d);
        if s[0].name != name {
            assert(s.update(0, d).drop_first() =~= s.drop_first());
        }
    } else {
        assert(s.update(i, d)[0] == s[0]);
        assert(s.update(i, d).drop_first() =~= s.drop_first().update(i - 1, d));
        lemma_find_device_update(s.drop_first(), i - 1, d, name);
    }
}

/// When a descriptor list converts, it does so element-wise, and the
/// validated peers read back as exactly the descriptors they came from.
pub proof fn lemma_peers_of_descs_ok(ds: Seq<PeerDescView>, ps: Seq<PeerView>)
    requires
        peers_of_descs(ds) == Ok::<Seq<PeerView>, Error>(ps),
    ensures
        ps.len() == ds.len(),
        forall|i: int|
            0 <= i < ds.len() ==> peer_of_desc(#[trigger] ds[i]) == Ok::<PeerView, Error>(ps[i]),
        descs_of_peers(ps) == ds,
    decreases ds.len(),
{
    if ds.len() == 0 {
        assert(ps =~= Seq::<PeerView>::empty());
        assert(descs_of_peers(ps) =~= ds);
    } else {
        match peer_of_desc(ds[0]) {
            Ok(p0) => {
                match peers_of_descs(ds.drop_first()) {
                    Ok(rest) => {
                        assert(ps == seq![p0] + rest);
                        lemma_peers_of_descs_ok(ds.drop_first(), rest);
                        assert forall|i: int| 0 <= i < ds.len() implies peer_of_desc(
                            #[trigger] ds[i],
                        ) == Ok::<PeerView, Error>(ps[i]) by {
                            if i > 0 {
                                assert(ds.drop_first()[i - 1] == ds[i]);
                                assert(rest[i - 1] == ps[i]);
                            }
                        }
                        assert forall|i: int| 0 <= i < ds.len() implies descs_of_peers(ps)[i]
                            == ds[i] by {
                            assert(peer_of_desc(ds[i]) == Ok::<PeerView, Error>(ps[i]));
                        }
                        assert(descs_of_peers(ps) =~= ds);
                    },
                    Err(_) => {
                        assert(false);
                    },
                }
            },
            Err(_) => {
                assert(false);
            },
        }
    }
}

/// A descriptor list fails to convert exactly as its first bad descriptor
/// does.
pub proof fn lemma_peers_of_descs_first_err(ds: Seq<PeerDescView>, i: int, e: Error)
    requires
        0 <= i < ds.len(),
        forall|j: int| 0 <= j < i ==> peer_of_desc(#[trigger] ds[j]) is Ok,
        peer_of_desc(ds[i]) == Err::<PeerView, Error>(e),
    ensures
        peers_of_descs(ds) == Err::<Seq<PeerView>, Error>(e),
    decreases i,
{
    if i == 0 {
    } else {
        assert(peer_of_desc(ds[0]) is Ok);
        assert forall|j: int| 0 <= j < i - 1 implies peer_of_desc(
            #[trigger] ds.drop_first()[j],
        ) is Ok by {
            assert(ds.drop_first()[j] == ds[j + 1]);
        }
        assert(ds.drop_first()[i - 1] == ds[i]);
        lemma_peers_of_descs_first_err(ds.drop_first(), i - 1, e);
    }
}

/// Well-formed peers, sent back over the wire, convert again to exactly
/// themselves.
pub proof fn lemma_peers_round_trip(ps: Seq<PeerView>)
    requires
        forall|i: int| 0 <= i < ps.len() ==> (#[trigger] ps[i]).wf(),
    ensures
        peers_of_descs(descs_of_peers(ps)) == Ok::<Seq<PeerView>, Error>(ps),
    decreases ps.len(),
{
    if ps.len() == 0 {
        assert(descs_of_peers(ps) =~= Seq::<PeerDescView>::empty());
        assert(ps =~= Seq::<PeerView>::empty());
    } else {
        lemma_peer_round_trip(ps[0]);
        assert(descs_of_peers(ps)[0] == desc_of_peer(ps[0]));
        assert forall|i: int| 0 <= i < ps.drop_first().len() implies (
        #[trigger] ps.drop_first()[i]).wf() by {
            assert(ps.drop_first()[i] == ps[i + 1]);
        }
        lemma_peers_round_trip(ps.drop_first());
        let ds = descs_of_peers(ps);
        assert(ds.drop_first() =~= descs_of_peers(ps.drop_first()));
        assert(ds.len() == ps.len());
        assert(peer_of_desc(ds[0]) == Ok::<PeerView, Error>(ps[0]));
        assert(peers_of_descs(ds.drop_first()) == Ok::<Seq<PeerView>, Error>(ps.drop_first()));
        assert(peers_of_descs(ds) == Ok::<Seq<PeerView>, Error>(seq![ps[0]] + ps.drop_first()));
        assert(seq![ps[0]] + ps.drop_first() =~= ps);
    }
}

/// Creating a device and reading it back: when a POST creates a device
/// (none existed under the name), a GET of that name reports the
/// request's peers and listen port.
pub proof fn lemma_post_then_get(
    s: Seq<DeviceView>,
    name: Seq<char>,
    r: DeviceRequestView,
    s2: Seq<DeviceView>,
)
    requires
        find_device(s, name) == s.len(),
        post_result(s, name, r) == Ok::<Seq<DeviceView>, Error>(s2),
    ensures
        match get_result(s2, name) {
            Ok(resp) => resp.name == name && resp.listen_port == r.listen_port && resp.peers
                == r.peers,
            Err(_) => false,
        },
{
    match peers_of_descs(r.peers) {
        Ok(ps) => {
            let d = created_device(name, r, ps);
            lemma_find_device_push(s, d, name);
            assert(s2[s.len() as int] == d);
            lemma_peers_of_descs_ok(r.peers, ps);
        },
        Err(_) => {
            assert(false);
        },
    }
}

/// Idempotence: repeating a successful POST leaves the store exactly as
/// the first POST left it — peer replacement replaces, it never
/// accumulates.
pub proof fn lemma_post_idempotent(
    s: Seq<DeviceView>,
    name: Seq<char>,
    r: DeviceRequestView,
    s1: Seq<DeviceView>,
)
    requires
        post_result(s, name, r) == Ok::<Seq<DeviceView>, Error>(s1),
    ensures
        post_result(s1, name, r) == Ok::<Seq<DeviceView>, Error>(s1),
{
    lemma_find_device_props(s, name);
    let i = find_device(s, name);
    match peers_of_descs(r.peers) {
        Ok(ps) => {
            if i < s.len() {
                let d = update_device(s[i], r, ps);
                lemma_find_device_update(s, i, d, name);
                assert(s1[i] == d);
                assert(update_device(d, r, ps) == d);
                assert(s1.update(i, update_device(s1[i], r, ps)) =~= s1);
            } else {
                let d = created_device(name, r, ps);
                lemma_find_device_push(s, d, name);
                assert(s1[s.len() as int] == d);
                assert(update_device(d, r, ps) == d);
                assert(s1.update(s.len() as int, update_device(d, r, ps)) =~= s1);
            }
        },
        Err(_) => {
            assert(false);
        },
    }
}

/// Round trip: re-POSTing what an existing well-formed device reports —
/// its response re-wrapped as a request, with no private key — changes
/// nothing: listen port, public key and peer list are all stable.
pub proof fn lemma_response_round_trip(s: Seq<DeviceView>, i: int)
    requires
        0 <= i < s.len(),
        s[i].wf(),
        find_device(s, s[i].name) == i,
    ensures
        post_result(
            s,
            s[i].name,
            DeviceRequestView {
                listen_port: response_of(s[i]).listen_port,
                private_key: None,
                peers: response_of(s[i]).peers,
            },
        ) == Ok::<Seq<DeviceView>, Error>(s),
{
    let r = DeviceRequestView {
        listen_port: response_of(s[i]).listen_port,
        private_key: None,
        peers: response_of(s[i]).peers,
    };
    lemma_peers_round_trip(s[i].peers);
    assert(peers_of_descs(r.peers) == Ok::<Seq<PeerView>, Error>(s[i].peers));
    assert(update_device(s[i], r, s[i].peers) == s[i]);
    assert(s.update(i, s[i]) =~= s);
}

/// A peer descriptor without a public key is rejected with the
/// missing-field error naming the peer public key, before anything is
/// persisted (a failing POST leaves the store untouched).
pub proof fn lemma_missing_key_rejected(
    s: Seq<DeviceView>,
    name: Seq<char>,
    r: DeviceRequestView,
    i: int,
)
    requires
        0 <= i < r.peers.len(),
        r.peers[i].public_key is None,
        forall|j: int| 0 <= j < i ==> peer_of_desc(#[trigger] r.peers[j]) is Ok,
        !request_key_invalid(r),
    ensures
        post_result(s, name, r) == Err::<Seq<DeviceView>, Error>(
            Error::MissingField(Field::PeerPublicKey),
        ),
{
    lemma_peers_of_descs_first_err(r.peers, i, Error::MissingField(Field::PeerPublicKey));
}

/// A peer descriptor with an unparsable allowed-IP address is rejected
/// with the invalid-field error naming the allowed IP address, and no
/// peer from the request is persisted (a failing POST leaves the store
/// untouched).
pub proof fn lemma_invalid_allowed_ip_rejected(
    s: Seq<DeviceView>,
    name: Seq<char>,
    r: DeviceRequestView,
    i: int,
    j: int,
)
    requires
        0 <= i < r.peers.len(),
        forall|t: int| 0 <= t < i ==> peer_of_desc(#[trigger] r.peers[t]) is Ok,
        match r.peers[i].public_key {
            Some(k) => valid_key_b64(k),
            None => false,
        },
        match r.peers[i].endpoint {
            Some(e) => endpoint_ok(e),
            None => true,
        },
        0 <= j < r.peers[i].allowed_ips.len(),
        !ip_ok(r.peers[i].allowed_ips[j]),
        !request_key_invalid(r),
    ensures
        post_result(s, name, r) == Err::<Seq<DeviceView>, Error>(
            Error::InvalidField(Field::AllowedIpAddress),
        ),
{
    assert(!ip_ok(r.peers[i].allowed_ips[j]));
    assert(peer_of_desc(r.peers[i]) == Err::<PeerView, Error>(
        Error::InvalidField(Field::AllowedIpAddress),
    ));
    lemma_peers_of_descs_first_err(r.peers, i, Error::InvalidField(Field::AllowedIpAddress));
}

} // verus!
