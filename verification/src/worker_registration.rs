//! Worker Registration: registers clusters of worker nodes, one per account,
//! leaves an off-chain index entry for each registration, and lets the
//! off-chain worker find the registered cluster and probe its status.
use std::collections::HashMap;
use vstd::prelude::*;

use crate::cluster_status::{cluster_status_url, status_url};
use crate::codec::{
    compact_u32, le_bytes_u64, lemma_decode_encoding, lemma_le_bytes_u32_value, bytes_u64_encoding, le_bytes_u32, scale_decode_bytes_u64, scale_decoded_bytes_u64,
    scale_encode_bytes_u64, scale_encode_u32,
};
use crate::origin::{ensure_signed, signer, AccountId, DispatchError, Origin};

verus! {

broadcast use vstd::std_specs::hash::group_hash_axioms;

/// Identifier of a registered worker cluster.
pub type ClusterId = u64;

/// Block numbers of the runtime.
pub type BlockNumber = u32;

/// The addresses of a cluster: IPv4 and IPv6 address parts.
#[derive(Clone, Debug, Default, PartialEq, Eq)]
pub struct Ip {
    pub ipv4: Option<Vec<u32>>,
    pub ipv6: Option<Vec<u32>>,
}

pub struct IpView {
    pub ipv4: Option<Seq<u32>>,
    pub ipv6: Option<Seq<u32>>,
}

pub open spec fn parts_view(p: Option<Vec<u32>>) -> Option<Seq<u32>> {
    match p {
        Some(v) => Some(v@),
        None => None,
    }
}

impl View for Ip {
    type V = IpView;

    open spec fn view(&self) -> IpView {
        IpView { ipv4: parts_view(self.ipv4), ipv6: parts_view(self.ipv6) }
    }
}

/// A registered cluster of workers.
#[derive(Clone, Debug, PartialEq, Eq)]
pub struct Worker {
    pub id: ClusterId,
    pub account: AccountId,
    pub start_block: BlockNumber,
    pub name: Vec<u8>,
    pub ip: Ip,
    pub port: u32,
    pub status: u8,
}

pub struct WorkerView {
    pub id: ClusterId,
    pub account: AccountId,
    pub start_block: BlockNumber,
    pub name: Seq<u8>,
    pub ip: IpView,
    pub port: u32,
    pub status: u8,
}

impl View for Worker {
    type V = WorkerView;

    open spec fn view(&self) -> WorkerView {
        WorkerView {
            id: self.id,
            account: self.account,
            start_block: self.start_block,
            name: self.name@,
            ip: self.ip@,
            port: self.port,
            status: self.status,
        }
    }
}

/// Events deposited by this pallet.
#[derive(Clone, Copy, Debug, PartialEq, Eq)]
pub enum Event {
    WorkerRegistered { creator: AccountId },
    ConnectionEstablished { cluster_id: ClusterId },
}

/// Errors of this pallet.
#[derive(Clone, Copy, Debug, PartialEq, Eq)]
pub enum Error {
    WorkerRegisterMissingIp,
    WorkerRegisterMissingPort,
    ClusterExists,
    WorkerClusterNotRegistered,
}

/// The id the first registered cluster gets.
#[allow(non_snake_case)]
pub fn DefaultForm1() -> (id: ClusterId)
    ensures
        id == 1,
{
    1
}

/// The abstract state: the id the next cluster gets, the cluster of each
/// registered account, and each registered cluster.
pub struct PalletState {
    pub next_cluster_id: ClusterId,
    pub worker_accounts: Map<AccountId, ClusterId>,
    pub worker_clusters: Map<ClusterId, WorkerView>,
}

impl PalletState {
    /// What holds of every state the pallet can reach: each cluster is stored
    /// under its own id, below the next id; accounts and clusters correspond
    /// one to one; and every cluster has an address, a non-zero port and the
    /// status it was registered with.
    pub open spec fn wf(self) -> bool {
        &&& forall|cid: ClusterId| #[trigger]
            self.worker_clusters.contains_key(cid) ==> {
                let w = self.worker_clusters[cid];
                &&& w.id == cid
                &&& cid < self.next_cluster_id
                &&& self.worker_accounts.contains_key(w.account)
                &&& self.worker_accounts[w.account] == cid
                &&& w.ip.ipv4 is Some || w.ip.ipv6 is Some
                &&& w.port > 0
                &&& w.status == 1
            }
        &&& forall|a: AccountId| #[trigger]
            self.worker_accounts.contains_key(a) ==> {
                &&& self.worker_clusters.contains_key(self.worker_accounts[a])
                &&& self.worker_clusters[self.worker_accounts[a]].account == a
            }
    }
}

/// The pallet's storage, as read from the chain before a call and written
/// back after it.
pub struct Pallet {
    /// The id the next registered cluster gets.
    pub next_cluster_id: ClusterId,
    /// The cluster of each registered account.
    pub worker_accounts: HashMap<AccountId, ClusterId>,
    /// The registered clusters, by id.
    pub worker_clusters: HashMap<ClusterId, Worker>,
}

impl View for Pallet {
    type V = PalletState;

    open spec fn view(&self) -> PalletState {
        PalletState {
            next_cluster_id: self.next_cluster_id,
            worker_accounts: self.worker_accounts@,
            worker_clusters: self.worker_clusters@.map_values(|w: Worker| w@),
        }
    }
}

/// The label stored with each registration in the off-chain index:
/// `b"submit_number_signed"`.
pub open spec fn submit_label() -> Seq<u8> {
    seq![
        115u8, 117, 98, 109, 105, 116, 95, 110, 117, 109, 98, 101, 114, 95, 115, 105, 103, 110, 101,
        100,
    ]
}

/// The prefix of off-chain index keys: `b"cluster::storage::tx"`.
pub open spec fn onchain_tx_key() -> Seq<u8> {
    seq![
        99u8, 108, 117, 115, 116, 101, 114, 58, 58, 115, 116, 111, 114, 97, 103, 101, 58, 58, 116,
        120,
    ]
}

/// The off-chain index key of a block: the prefix, `/`, and the encoded
/// block number.
pub open spec fn derived_key_spec(block_number: BlockNumber) -> Seq<u8> {
    onchain_tx_key().push(47u8) + le_bytes_u32(block_number)
}

/// The off-chain index key of a block: the prefix, `/`, and the encoded
/// block number.
pub fn derived_key(block_number: BlockNumber) -> (key: Vec<u8>)
    ensures
        key@ == derived_key_spec(block_number),
{
    let mut key: Vec<u8> = vec![
        99u8, 108, 117, 115, 116, 101, 114, 58, 58, 115, 116, 111, 114, 97, 103, 101, 58, 58, 116,
        120,
    ];
    key.push(47u8);
    let mut encoded = scale_encode_u32(block_number);
    key.append(&mut encoded);
    assert(key@ =~= derived_key_spec(block_number));
    key
}

/// The error `worker_register` fails with, if any.
pub open spec fn worker_register_error(s: PalletState, origin: Origin, ip: IpView, port: u32) -> Option<
    DispatchError<Error>,
> {
    if signer(origin) is None {
        Some(DispatchError::BadOrigin)
    } else if ip.ipv4 is None && ip.ipv6 is None {
        Some(DispatchError::Module(Error::WorkerRegisterMissingIp))
    } else if port == 0 {
        Some(DispatchError::Module(Error::WorkerRegisterMissingPort))
    } else if s.worker_accounts.contains_key(signer(origin)->0) {
        Some(DispatchError::Module(Error::ClusterExists))
    } else {
        None
    }
}

/// The cluster that `worker_register` stores.
pub open spec fn new_worker(
    s: PalletState,
    creator: AccountId,
    block_number: BlockNumber,
    name: Seq<u8>,
    ip: IpView,
    port: u32,
) -> WorkerView {
    WorkerView {
        id: s.next_cluster_id,
        account: creator,
        start_block: block_number,
        name,
        ip,
        port,
        status: 1,
    }
}

/// The state after a successful `worker_register`.
pub open spec fn worker_register_post(
    s: PalletState,
    creator: AccountId,
    block_number: BlockNumber,
    name: Seq<u8>,
    ip: IpView,
    port: u32,
) -> PalletState {
    PalletState {
        next_cluster_id: (s.next_cluster_id + 1) as ClusterId,
        worker_accounts: s.worker_accounts.insert(creator, s.next_cluster_id),
        worker_clusters: s.worker_clusters.insert(
            s.next_cluster_id,
            new_worker(s, creator, block_number, name, ip, port),
        ),
    }
}

/// What the off-chain worker finds for the bytes it reads from its local
/// storage.
pub enum ProbeTarget {
    /// Nothing was stored, or it does not decode.
    NoIndexingData,
    /// The stored cluster id is not registered.
    UnknownCluster(ClusterId),
    /// The stored cluster id is registered.
    Cluster(ClusterId),
}

pub open spec fn probe_target(s: PalletState, stored: Option<Seq<u8>>) -> ProbeTarget {
    match stored {
        None => ProbeTarget::NoIndexingData,
        Some(bytes) => match scale_decoded_bytes_u64(bytes) {
            None => ProbeTarget::NoIndexingData,
            Some((_label, cid)) => if s.worker_clusters.contains_key(cid) {
                ProbeTarget::Cluster(cid)
            } else {
                ProbeTarget::UnknownCluster(cid)
            },
        },
    }
}

/// What a successful registration asks of the runtime besides its storage:
/// the event to deposit and the off-chain index entry to write.
pub struct Registration {
    pub event: Event,
    pub index_key: Vec<u8>,
    pub index_value: Vec<u8>,
}

/// What the off-chain worker found in its local storage.
pub enum Probe {
    /// Nothing usable was stored for this block.
    NoIndexingData,
    /// The stored cluster id is not registered.
    UnknownCluster { cluster_id: ClusterId },
    /// The stored cluster is registered; its status is served at `url`.
    Cluster { cluster_id: ClusterId, url: String },
}

pub open spec fn stored_view(stored: Option<Vec<u8>>) -> Option<Seq<u8>> {
    match stored {
        Some(bytes) => Some(bytes@),
        None => None,
    }
}

/// The local-storage key the off-chain worker reads at `block_number`: the
/// off-chain index key of that block, or `None` when no local account can
/// sign, in which case the worker stops.
pub fn offchain_worker_key(can_sign: bool, block_number: BlockNumber) -> (key: Option<Vec<u8>>)
    ensures
        can_sign ==> (key matches Some(k) && k@ == derived_key_spec(block_number)),
        !can_sign ==> key is None,
{
    if !can_sign {
        return None;
    }
    Some(derived_key(block_number))
}

impl Pallet {
    /// A pallet with no registered cluster; the first cluster gets id 1.
    pub fn new() -> (p: Pallet)
        ensures
            p@.next_cluster_id == 1,
            p@.worker_accounts == Map::<AccountId, ClusterId>::empty(),
            p@.worker_clusters == Map::<ClusterId, WorkerView>::empty(),
            p@.wf(),
    {
        let p = Pallet { next_cluster_id: DefaultForm1(), worker_accounts: HashMap::new(), worker_clusters: HashMap::new() };
        assert(p@.worker_clusters =~= Map::<ClusterId, WorkerView>::empty());
        p
    }

    /// The id the next registered cluster gets.
    pub fn get_next_cluster_id(&self) -> (id: ClusterId)
        ensures
            id == self@.next_cluster_id,
    {
        self.next_cluster_id
    }

    /// The cluster registered by `account`, if any.
    pub fn get_worker_accounts(&self, account: AccountId) -> (r: Option<ClusterId>)
        ensures
            r == (if self@.worker_accounts.contains_key(account) {
                Some(self@.worker_accounts[account])
            } else {
                None::<ClusterId>
            }),
    {
        match self.worker_accounts.get(&account) {
            Some(cid) => Some(*cid),
            None => None,
        }
    }

    /// The cluster registered under `cluster_id`, if any.
    pub fn get_worker_clusters(&self, cluster_id: ClusterId) -> (r: Option<&Worker>)
        ensures
            match r {
                Some(w) => self@.worker_clusters.contains_key(cluster_id) && w@ == self@.worker_clusters[cluster_id],
                None => !self@.worker_clusters.contains_key(cluster_id),
            },
    {
        self.worker_clusters.get(&cluster_id)
    }

    /// The error a registration by `origin` of a cluster with address `ip` on
    /// `port` fails with, if any: the origin must be signed, the cluster
    /// needs an address and a non-zero port, and the account must not have
    /// registered a cluster yet.
    pub fn check_registration(&self, origin: Origin, ip: &Ip, port: u32) -> (e: Option<DispatchError<Error>>)
        ensures
            e is Some <==> (signer(origin) is None || (ip@.ipv4 is None && ip@.ipv6 is None) || port == 0
                || self@.worker_accounts.contains_key(signer(origin)->0)),
            e == worker_register_error(self@, origin, ip@, port),
    {
        let creator = match ensure_signed::<Error>(origin) {
            Ok(who) => who,
            Err(e) => return Some(e),
        };
        if ip.ipv4.is_none() && ip.ipv6.is_none() {
            return Some(DispatchError::Module(Error::WorkerRegisterMissingIp));
        }
        if port == 0 {
            return Some(DispatchError::Module(Error::WorkerRegisterMissingPort));
        }
        if self.worker_accounts.contains_key(&creator) {
            return Some(DispatchError::Module(Error::ClusterExists));
        }
        None
    }

    /// Register a cluster for the signing account, at block `block_number`.
    /// The cluster needs an address and a non-zero port, and an account
    /// registers at most one cluster.  The new cluster gets the next id; the
    /// returned registration holds the event and the off-chain index entry
    /// (this block's key, the label and the new id), which the off-chain
    /// worker reads back as this cluster.  The next id must have room to
    /// move up when the registration succeeds.
    pub fn worker_register(
        &mut self,
        origin: Origin,
        block_number: BlockNumber,
        name: Vec<u8>,
        ip: Ip,
        port: u32,
    ) -> (res: Result<Registration, DispatchError<Error>>)
        requires
            worker_register_error(old(self)@, origin, ip@, port) is None ==> old(self)@.next_cluster_id < u64::MAX,
        ensures
            res is Err <==> (signer(origin) is None || (ip@.ipv4 is None && ip@.ipv6 is None) || port == 0
                || old(self)@.worker_accounts.contains_key(signer(origin)->0)),
            res is Err ==> final(self)@ == old(self)@,
            res is Ok ==> {
                &&& final(self)@.next_cluster_id == old(self)@.next_cluster_id + 1
                &&& final(self)@.worker_accounts == old(self)@.worker_accounts.insert(
                    signer(origin)->0,
                    old(self)@.next_cluster_id,
                )
                &&& final(self)@.worker_clusters == old(self)@.worker_clusters.insert(
                    old(self)@.next_cluster_id,
                    WorkerView {
                        id: old(self)@.next_cluster_id,
                        account: signer(origin)->0,
                        start_block: block_number,
                        name: name@,
                        ip: ip@,
                        port: port,
                        status: 1,
                    },
                )
                &&& final(self)@.worker_clusters[old(self)@.next_cluster_id].ip == ip@
            },
            old(self)@.wf() ==> final(self)@.wf(),
            match worker_register_error(old(self)@, origin, ip@, port) {
                Some(e) => res is Err && res->Err_0 == e && final(self)@ == old(self)@,
                None => res matches Ok(r) && {
                    &&& r.event == Event::WorkerRegistered { creator: signer(origin)->0 }
                    &&& r.index_key@ == derived_key_spec(block_number)
                    &&& r.index_value@ == bytes_u64_encoding(submit_label(), old(self)@.next_cluster_id)
                    &&& probe_target(final(self)@, Some(r.index_value@)) == ProbeTarget::Cluster(
                        old(self)@.next_cluster_id,
                    )
                    &&& final(self)@ == worker_register_post(
                        old(self)@,
                        signer(origin)->0,
                        block_number,
                        name@,
                        ip@,
                        port,
                    )
                },
            },
    {
        if let Some(e) = self.check_registration(origin, &ip, port) {
            return Err(e);
        }
        let creator = match origin {
            Origin::Signed(who) => who,
            _ => return Err(DispatchError::BadOrigin),
        };
        let ghost pre = self@;
        let ghost name_v = name@;
        let ghost ip_v = ip@;
        let cid = self.next_cluster_id;
        let cluster = Worker {
            id: cid,
            account: creator,
            start_block: block_number,
            name,
            ip,
            port,
            status: 1,
        };
        assert(cluster@ == new_worker(pre, creator, block_number, name_v, ip_v, port));
        self.worker_accounts.insert(creator, cid);
        self.worker_clusters.insert(cid, cluster);
        self.next_cluster_id = cid + 1;
        let ghost post = worker_register_post(pre, creator, block_number, name_v, ip_v, port);
        assert(self@.worker_clusters =~= post.worker_clusters);
        assert(self@ == post);
        proof {
            if pre.wf() {
                lemma_register_keeps_wf(pre, creator, block_number, name_v, ip_v, port);
            }
        }

        let key = derived_key(block_number);
        let label: Vec<u8> = vec![
            115u8, 117, 98, 109, 105, 116, 95, 110, 117, 109, 98, 101, 114, 95, 115, 105, 103, 110,
            101, 100,
        ];
        assert(label@ =~= submit_label());
        let value = scale_encode_bytes_u64(&label, cid);
        proof {
            lemma_decode_encoding(submit_label(), cid);
        }
        Ok(Registration { event: Event::WorkerRegistered { creator }, index_key: key, index_value: value })
    }

    /// What the off-chain worker does with the bytes `stored` it read from
    /// its local storage: decode the label and cluster id written at
    /// registration, find that cluster, and name the URL to probe.
    pub fn cluster_to_probe(&self, stored: Option<Vec<u8>>) -> (p: Probe)
        ensures
            match probe_target(self@, stored_view(stored)) {
                ProbeTarget::NoIndexingData => p is NoIndexingData,
                ProbeTarget::UnknownCluster(cid) => p matches Probe::UnknownCluster { cluster_id } && cluster_id == cid,
                ProbeTarget::Cluster(cid) => p matches Probe::Cluster { cluster_id, url } && cluster_id == cid
                    && url@ == status_url(self@.worker_clusters[cid].ip, self@.worker_clusters[cid].port),
            },
    {
        let bytes = match stored {
            Some(bytes) => bytes,
            None => return Probe::NoIndexingData,
        };
        let cid = match scale_decode_bytes_u64(&bytes) {
            Some((_label, cid)) => cid,
            None => return Probe::NoIndexingData,
        };
        match self.worker_clusters.get(&cid) {
            Some(cluster) => Probe::Cluster { cluster_id: cid, url: cluster_status_url(&cluster.ip, cluster.port) },
            None => Probe::UnknownCluster { cluster_id: cid },
        }
    }

    /// Submit the status of a worker cluster from a successful connection:
    /// the origin must be signed; nothing is stored yet.
    pub fn verify_connection(&self, origin: Origin, worker_index: ClusterId, response: String) -> (res: Result<
        (),
        DispatchError<Error>,
    >)
        ensures
            match signer(origin) {
                Some(_) => res is Ok,
                None => res == Err::<(), DispatchError<Error>>(DispatchError::BadOrigin),
            },
    {
        match ensure_signed::<Error>(origin) {
            Ok(_) => Ok(()),
            Err(e) => Err(e),
        }
    }
}

/// A successful registration keeps the pallet's invariant.
proof fn lemma_register_keeps_wf(
    s: PalletState,
    creator: AccountId,
    block_number: BlockNumber,
    name: Seq<u8>,
    ip: IpView,
    port: u32,
)
    requires
        s.wf(),
        s.next_cluster_id < u64::MAX,
        !s.worker_accounts.contains_key(creator),
        ip.ipv4 is Some || ip.ipv6 is Some,
        port > 0,
    ensures
        worker_register_post(s, creator, block_number, name, ip, port).wf(),
{
    let t = worker_register_post(s, creator, block_number, name, ip, port);
    assert forall|cid: ClusterId| #[trigger] t.worker_clusters.contains_key(cid) implies {
        let w = t.worker_clusters[cid];
        &&& w.id == cid
        &&& cid < t.next_cluster_id
        &&& t.worker_accounts.contains_key(w.account)
        &&& t.worker_accounts[w.account] == cid
        &&& w.ip.ipv4 is Some || w.ip.ipv6 is Some
        &&& w.port > 0
        &&& w.status == 1
    } by {
        if cid != s.next_cluster_id {
            assert(s.worker_clusters.contains_key(cid));
            let w = s.worker_clusters[cid];
            assert(w.account != creator);
        }
    }
    assert forall|a: AccountId| #[trigger] t.worker_accounts.contains_key(a) implies {
        &&& t.worker_clusters.contains_key(t.worker_accounts[a])
        &&& t.worker_clusters[t.worker_accounts[a]].account == a
    } by {
        if a != creator {
            assert(s.worker_accounts.contains_key(a));
            assert(s.worker_clusters.contains_key(s.worker_accounts[a]));
        }
    }
}

/// An account registers at most one cluster: once its registration
/// succeeded, any later registration by it is refused with `ClusterExists`.
pub proof fn lemma_one_cluster_per_account(
    s: PalletState,
    o1: Origin,
    o2: Origin,
    block_number: BlockNumber,
    name: Seq<u8>,
    ip: IpView,
    port: u32,
    ip2: IpView,
    port2: u32,
)
    requires
        s.wf(),
        worker_register_error(s, o1, ip, port) is None,
        signer(o2) == signer(o1),
        ip2.ipv4 is Some || ip2.ipv6 is Some,
        port2 > 0,
    ensures
        worker_register_error(
            worker_register_post(s, signer(o1)->0, block_number, name, ip, port),
            o2,
            ip2,
            port2,
        ) == Some(DispatchError::Module(Error::ClusterExists)),
{
}

/// Registrations get consecutive ids, and a new id was never used before:
/// the new cluster is stored under the old next id, which was free, and the
/// next id moves up by one.
pub proof fn lemma_fresh_consecutive_ids(
    s: PalletState,
    creator: AccountId,
    block_number: BlockNumber,
    name: Seq<u8>,
    ip: IpView,
    port: u32,
)
    requires
        s.wf(),
        s.next_cluster_id < u64::MAX,
    ensures
        !s.worker_clusters.contains_key(s.next_cluster_id),
        ({
            let t = worker_register_post(s, creator, block_number, name, ip, port);
            &&& t.next_cluster_id == s.next_cluster_id + 1
            &&& t.worker_clusters[s.next_cluster_id].id == s.next_cluster_id
            &&& forall|cid: ClusterId| #[trigger]
                s.worker_clusters.contains_key(cid) ==> t.worker_clusters.contains_key(cid)
                    && t.worker_clusters[cid] == s.worker_clusters[cid]
        }),
{
}

/// Different blocks have different off-chain index keys.
pub proof fn lemma_derived_key_injective(b1: BlockNumber, b2: BlockNumber)
    requires
        b1 != b2,
    ensures
        derived_key_spec(b1) != derived_key_spec(b2),
{
    let k1 = derived_key_spec(b1);
    let k2 = derived_key_spec(b2);
    if k1 == k2 {
        assert(k1[21] == k2[21] && k1[22] == k2[22] && k1[23] == k2[23] && k1[24] == k2[24]);
        assert(b1 == b2) by (nonlinear_arith)
            requires
                (b1 % 0x100) as u8 == (b2 % 0x100) as u8,
                ((b1 / 0x100) % 0x100) as u8 == ((b2 / 0x100) % 0x100) as u8,
                ((b1 / 0x1_0000) % 0x100) as u8 == ((b2 / 0x1_0000) % 0x100) as u8,
                (b1 / 0x100_0000) as u8 == (b2 / 0x100_0000) as u8,
        ;
    }
}

/// What a registration writes to the off-chain index is what the off-chain
/// worker of the same block finds: the entry (the label and the new id)
/// leads to the cluster just registered, whose status URL is the one of the
/// registered address and port.
pub proof fn lemma_registered_cluster_is_probed(
    s: PalletState,
    creator: AccountId,
    block_number: BlockNumber,
    name: Seq<u8>,
    ip: IpView,
    port: u32,
)
    requires
        s.wf(),
    ensures
        ({
            let t = worker_register_post(s, creator, block_number, name, ip, port);
            let entry = bytes_u64_encoding(submit_label(), s.next_cluster_id);
            &&& probe_target(t, Some(entry)) == ProbeTarget::Cluster(s.next_cluster_id)
            &&& t.worker_clusters[s.next_cluster_id].account == creator
            &&& status_url(t.worker_clusters[s.next_cluster_id].ip, t.worker_clusters[s.next_cluster_id].port)
                == status_url(ip, port)
        }),
{
    lemma_decode_encoding(submit_label(), s.next_cluster_id);
}

/// Two successful registrations in a row, by different accounts, get ids
/// one apart, and both stay registered.
pub proof fn lemma_consecutive_registrations(
    s: PalletState,
    o1: Origin,
    o2: Origin,
    b1: BlockNumber,
    b2: BlockNumber,
    name1: Seq<u8>,
    name2: Seq<u8>,
    ip1: IpView,
    ip2: IpView,
    port1: u32,
    port2: u32,
)
    requires
        s.wf(),
        s.next_cluster_id + 1 < u64::MAX,
        worker_register_error(s, o1, ip1, port1) is None,
        worker_register_error(
            worker_register_post(s, signer(o1)->0, b1, name1, ip1, port1),
            o2,
            ip2,
            port2,
        ) is None,
    ensures
        ({
            let a1 = signer(o1)->0;
            let a2 = signer(o2)->0;
            let t1 = worker_register_post(s, a1, b1, name1, ip1, port1);
            let t2 = worker_register_post(t1, a2, b2, name2, ip2, port2);
            &&& a1 != a2
            &&& t2.worker_accounts[a1] == s.next_cluster_id
            &&& t2.worker_accounts[a2] == t2.worker_accounts[a1] + 1
            &&& t2.worker_clusters[t2.worker_accounts[a1]].account == a1
            &&& t2.worker_clusters[t2.worker_accounts[a2]].account == a2
            &&& t2.next_cluster_id == s.next_cluster_id + 2
        }),
{
}

/// A registration succeeds exactly for a signed origin, an address, a
/// non-zero port and an account without a cluster, and reports the first of
/// these that fails.  A successful one stores, under the old next id, the
/// cluster exactly as given (both addresses, name, port, block, account,
/// status 1), maps the account to that id, moves the next id up by one,
/// and changes no other cluster or account.
pub proof fn lemma_worker_register_outcome(
    s: PalletState,
    origin: Origin,
    block_number: BlockNumber,
    name: Seq<u8>,
    ip: IpView,
    port: u32,
)
    requires
        s.next_cluster_id < u64::MAX,
    ensures
        worker_register_error(s, origin, ip, port) is None <==> (signer(origin) is Some && (ip.ipv4 is Some
            || ip.ipv6 is Some) && port > 0 && !s.worker_accounts.contains_key(signer(origin)->0)),
        signer(origin) is None ==> worker_register_error(s, origin, ip, port) == Some(
            DispatchError::<Error>::BadOrigin,
        ),
        signer(origin) is Some && ip.ipv4 is None && ip.ipv6 is None ==> worker_register_error(s, origin, ip, port)
            == Some(DispatchError::Module(Error::WorkerRegisterMissingIp)),
        signer(origin) is Some && (ip.ipv4 is Some || ip.ipv6 is Some) && port == 0 ==> worker_register_error(
            s,
            origin,
            ip,
            port,
        ) == Some(DispatchError::Module(Error::WorkerRegisterMissingPort)),
        signer(origin) is Some && (ip.ipv4 is Some || ip.ipv6 is Some) && port > 0
            && s.worker_accounts.contains_key(signer(origin)->0) ==> worker_register_error(s, origin, ip, port)
            == Some(DispatchError::Module(Error::ClusterExists)),
        ({
            let who = signer(origin)->0;
            let t = worker_register_post(s, who, block_number, name, ip, port);
            let w = t.worker_clusters[s.next_cluster_id];
            &&& t.next_cluster_id == s.next_cluster_id + 1
            &&& t.worker_accounts == s.worker_accounts.insert(who, s.next_cluster_id)
            &&& t.worker_clusters.contains_key(s.next_cluster_id)
            &&& w.id == s.next_cluster_id
            &&& w.account == who
            &&& w.start_block == block_number
            &&& w.name == name
            &&& w.ip == ip
            &&& w.ip.ipv4 == ip.ipv4
            &&& w.ip.ipv6 == ip.ipv6
            &&& w.port == port
            &&& w.status == 1
            &&& forall|cid: ClusterId|
                cid != s.next_cluster_id ==> (#[trigger] t.worker_clusters.contains_key(cid)
                    == s.worker_clusters.contains_key(cid) && t.worker_clusters[cid] == s.worker_clusters[cid])
        }),
{
}

/// The off-chain index key of a block is `cluster::storage::tx/` followed by
/// the four little-endian bytes of the block number.
pub proof fn lemma_derived_key_layout(block_number: BlockNumber)
    ensures
        derived_key_spec(block_number).len() == 25,
        derived_key_spec(block_number).subrange(0, 21) == seq![
            99u8, 108, 117, 115, 116, 101, 114, 58, 58, 115, 116, 111, 114, 97, 103, 101, 58, 58,
            116, 120, 47,
        ],
        derived_key_spec(block_number)[21] + 0x100 * derived_key_spec(block_number)[22] + 0x1_0000
            * derived_key_spec(block_number)[23] + 0x100_0000 * derived_key_spec(block_number)[24]
            == block_number,
{
    let k = derived_key_spec(block_number);
    assert(k.subrange(0, 21) =~= seq![
        99u8, 108, 117, 115, 116, 101, 114, 58, 58, 115, 116, 111, 114, 97, 103, 101, 58, 58,
        116, 120, 47,
    ]);
    lemma_le_bytes_u32_value(block_number);
}

/// What the off-chain worker finds: nothing when nothing is stored or the
/// bytes do not start with an encoded (label, id) pair; otherwise the
/// decoded id, registered or not.
pub proof fn lemma_probe_target_outcome(s: PalletState, bytes: Seq<u8>, label: Seq<u8>, cid: ClusterId)
    ensures
        probe_target(s, None) == ProbeTarget::NoIndexingData,
        scale_decoded_bytes_u64(bytes) is None ==> probe_target(s, Some(bytes)) == ProbeTarget::NoIndexingData,
        scale_decoded_bytes_u64(bytes) == Some((label, cid)) && s.worker_clusters.contains_key(cid) ==> probe_target(
            s,
            Some(bytes),
        ) == ProbeTarget::Cluster(cid),
        scale_decoded_bytes_u64(bytes) == Some((label, cid)) && !s.worker_clusters.contains_key(cid) ==> probe_target(
            s,
            Some(bytes),
        ) == ProbeTarget::UnknownCluster(cid),
{
}

/// What the invariant promises of every reachable state: every cluster is
/// stored under its own id, below the next id, with an address, a non-zero
/// port and status 1; its account maps back to it; and every registered
/// account maps to a cluster of that account.
pub proof fn lemma_wf_meaning(s: PalletState)
    requires
        s.wf(),
    ensures
        forall|cid: ClusterId| #[trigger]
            s.worker_clusters.contains_key(cid) ==> {
                &&& s.worker_clusters[cid].id == cid
                &&& cid < s.next_cluster_id
                &&& s.worker_clusters[cid].ip.ipv4 is Some || s.worker_clusters[cid].ip.ipv6 is Some
                &&& s.worker_clusters[cid].port > 0
                &&& s.worker_clusters[cid].status == 1
                &&& s.worker_accounts.contains_key(s.worker_clusters[cid].account)
                &&& s.worker_accounts[s.worker_clusters[cid].account] == cid
            },
        forall|a: AccountId| #[trigger]
            s.worker_accounts.contains_key(a) ==> s.worker_clusters.contains_key(s.worker_accounts[a])
                && s.worker_clusters[s.worker_accounts[a]].account == a,
{
}

/// The off-chain index entry of a registration is the byte 80 (the compact
/// length 20), the bytes `submit_number_signed`, then the eight
/// little-endian bytes of the new id.
pub proof fn lemma_index_entry_layout(cid: ClusterId)
    ensures
        bytes_u64_encoding(submit_label(), cid) == seq![80u8] + seq![
            115u8, 117, 98, 109, 105, 116, 95, 110, 117, 109, 98, 101, 114, 95, 115, 105, 103, 110,
            101, 100,
        ] + le_bytes_u64(cid),
{
    assert(compact_u32(20) =~= seq![80u8]);
    assert(submit_label() =~= seq![
        115u8, 117, 98, 109, 105, 116, 95, 110, 117, 109, 98, 101, 114, 95, 115, 105, 103, 110,
        101, 100,
    ]);
}

/// The views of an address and of a cluster keep every field: both
/// address lists, and the id, account, block, name, address, port and
/// status of the cluster.
pub proof fn lemma_views(ip: Ip, w: Worker)
    ensures
        ip.ipv4 is None <==> ip@.ipv4 is None,
        ip.ipv6 is None <==> ip@.ipv6 is None,
        ip.ipv4 is Some ==> ip@.ipv4 == Some(ip.ipv4->0@),
        ip.ipv6 is Some ==> ip@.ipv6 == Some(ip.ipv6->0@),
        w@.id == w.id,
        w@.account == w.account,
        w@.start_block == w.start_block,
        w@.name == w.name@,
        w@.ip.ipv4 == w.ip@.ipv4,
        w@.ip.ipv6 == w.ip@.ipv6,
        w@.port == w.port,
        w@.status == w.status,
{
}

/// The pallet's view is its storage: the next id, the accounts, and the
/// view of every stored cluster under the same id.
pub proof fn lemma_pallet_view(p: Pallet)
    ensures
        p@.next_cluster_id == p.next_cluster_id,
        p@.worker_accounts == p.worker_accounts@,
        p@.worker_clusters.dom() == p.worker_clusters@.dom(),
        forall|cid: ClusterId| #[trigger]
            p.worker_clusters@.contains_key(cid) ==> p@.worker_clusters[cid] == p.worker_clusters@[cid]@,
{
    assert(p@.worker_clusters.dom() =~= p.worker_clusters@.dom());
}

} // verus!
