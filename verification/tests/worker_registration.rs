use cyborg_pallets::cluster_status::{cluster_status, cluster_status_url, HttpError, HttpReply};
use cyborg_pallets::worker_registration::{
    derived_key, offchain_worker_key, DefaultForm1, Error, Event, Ip, Pallet, Probe, Worker,
};
use cyborg_pallets::{DispatchError, Origin};

fn ipv4(parts: &[u32]) -> Ip {
    Ip { ipv4: Some(parts.to_vec()), ipv6: None }
}

fn index_value(id: u64) -> Vec<u8> {
    let mut v = vec![80u8];
    v.extend_from_slice(b"submit_number_signed");
    v.extend_from_slice(&id.to_le_bytes());
    v
}

#[test]
fn default_next_cluster_id_is_one() {
    assert_eq!(DefaultForm1(), 1);
    assert_eq!(Pallet::new().get_next_cluster_id(), 1);
}

#[test]
fn derived_key_appends_encoded_block_number() {
    assert_eq!(derived_key(5), b"cluster::storage::tx/\x05\x00\x00\x00".to_vec());
    assert_eq!(derived_key(0x0102_0304), b"cluster::storage::tx/\x04\x03\x02\x01".to_vec());
    assert_ne!(derived_key(1), derived_key(256));
}

#[test]
fn worker_register_works() {
    let mut p = Pallet::new();
    let r = p
        .worker_register(Origin::Signed(7), 5, b"alpha".to_vec(), ipv4(&[192, 168, 1, 10]), 8080)
        .unwrap();
    assert_eq!(r.event, Event::WorkerRegistered { creator: 7 });
    assert_eq!(r.index_key, b"cluster::storage::tx/\x05\x00\x00\x00".to_vec());
    assert_eq!(r.index_value, index_value(1));
    assert_eq!(p.get_next_cluster_id(), 2);
    assert_eq!(p.get_worker_accounts(7), Some(1));
    assert_eq!(
        p.get_worker_clusters(1),
        Some(&Worker {
            id: 1,
            account: 7,
            start_block: 5,
            name: b"alpha".to_vec(),
            ip: ipv4(&[192, 168, 1, 10]),
            port: 8080,
            status: 1,
        })
    );
}

#[test]
fn worker_register_assigns_consecutive_ids() {
    let mut p = Pallet::new();
    p.worker_register(Origin::Signed(7), 1, vec![], ipv4(&[1]), 1).unwrap();
    let r = p
        .worker_register(Origin::Signed(8), 2, vec![], Ip { ipv4: None, ipv6: Some(vec![0, 1]) }, 2)
        .unwrap();
    assert_eq!(r.index_value, index_value(2));
    assert_eq!(p.get_worker_accounts(8), Some(2));
    assert_eq!(p.get_worker_clusters(2).unwrap().account, 8);
    assert_eq!(p.get_next_cluster_id(), 3);
}

#[test]
fn worker_register_errors() {
    let mut p = Pallet::new();
    assert_eq!(
        p.worker_register(Origin::Root, 1, vec![], ipv4(&[1]), 1).err(),
        Some(DispatchError::BadOrigin)
    );
    assert_eq!(
        p.worker_register(Origin::Signed(7), 1, vec![], Ip::default(), 1).err(),
        Some(DispatchError::Module(Error::WorkerRegisterMissingIp))
    );
    assert_eq!(
        p.worker_register(Origin::Signed(7), 1, vec![], ipv4(&[1]), 0).err(),
        Some(DispatchError::Module(Error::WorkerRegisterMissingPort))
    );
    assert_eq!(p.get_next_cluster_id(), 1);
    p.worker_register(Origin::Signed(7), 1, vec![], ipv4(&[1]), 1).unwrap();
    assert_eq!(
        p.worker_register(Origin::Signed(7), 2, vec![], ipv4(&[2]), 2).err(),
        Some(DispatchError::Module(Error::ClusterExists))
    );
    assert_eq!(p.get_next_cluster_id(), 2);
    assert_eq!(p.get_worker_clusters(2), None);
}

#[test]
fn verify_connection_needs_signer() {
    let p = Pallet::new();
    assert_eq!(p.verify_connection(Origin::Signed(1), 3, "ok".to_string()), Ok(()));
    assert_eq!(
        p.verify_connection(Origin::Unsigned, 3, "ok".to_string()),
        Err(DispatchError::BadOrigin)
    );
}

#[test]
fn offchain_worker_key_needs_signer() {
    assert_eq!(offchain_worker_key(false, 5), None);
    assert_eq!(offchain_worker_key(true, 5), Some(derived_key(5)));
}

#[test]
fn registered_cluster_is_probed() {
    let mut p = Pallet::new();
    let r = p
        .worker_register(Origin::Signed(7), 5, b"alpha".to_vec(), ipv4(&[192, 168, 1, 10]), 8080)
        .unwrap();
    assert_eq!(offchain_worker_key(true, 5), Some(r.index_key.clone()));
    match p.cluster_to_probe(Some(r.index_value)) {
        Probe::Cluster { cluster_id, url } => {
            assert_eq!(cluster_id, 1);
            assert_eq!(url, "http://192.168.1.10:8080/status");
        }
        _ => panic!("registered cluster not found"),
    }
}

#[test]
fn probe_without_usable_data() {
    let p = Pallet::new();
    assert!(matches!(p.cluster_to_probe(None), Probe::NoIndexingData));
    assert!(matches!(p.cluster_to_probe(Some(vec![])), Probe::NoIndexingData));
    assert!(matches!(p.cluster_to_probe(Some(vec![80, 1, 2])), Probe::NoIndexingData));
    assert!(matches!(
        p.cluster_to_probe(Some(index_value(42))),
        Probe::UnknownCluster { cluster_id: 42 }
    ));
}

#[test]
fn status_url_formats() {
    assert_eq!(cluster_status_url(&ipv4(&[10, 0, 0, 1]), 80), "http://10.0.0.1:80/status");
    assert_eq!(
        cluster_status_url(&Ip { ipv4: None, ipv6: Some(vec![65535, 0, 1]) }, 443),
        "http://65535:0:1:443/status"
    );
    assert_eq!(cluster_status_url(&Ip::default(), 0), "http://localhost:0/status");
    assert_eq!(
        cluster_status_url(&Ip { ipv4: Some(vec![]), ipv6: Some(vec![1]) }, 4294967295),
        "http://:4294967295/status"
    );
}

#[test]
fn cluster_status_replies() {
    assert_eq!(cluster_status(HttpReply::SendFailed), Err(HttpError::IoError));
    assert_eq!(cluster_status(HttpReply::WaitFailed), Err(HttpError::DeadlineReached));
    assert_eq!(cluster_status(HttpReply::Failed(HttpError::Unknown)), Err(HttpError::Unknown));
    assert_eq!(
        cluster_status(HttpReply::Received { code: 200, body: b"healthy".to_vec() }),
        Ok("healthy".to_string())
    );
    assert_eq!(
        cluster_status(HttpReply::Received { code: 404, body: b"healthy".to_vec() }),
        Err(HttpError::Unknown)
    );
    assert_eq!(
        cluster_status(HttpReply::Received { code: 200, body: vec![] }),
        Err(HttpError::Unknown)
    );
    assert_eq!(
        cluster_status(HttpReply::Received { code: 200, body: vec![0xff, 0xfe] }),
        Err(HttpError::Unknown)
    );
    assert_eq!(
        cluster_status(HttpReply::Received { code: 200, body: "é".as_bytes().to_vec() }),
        Ok("é".to_string())
    );
}

#[test]
fn registration_errors_at_last_id() {
    let mut p = Pallet::new();
    p.next_cluster_id = u64::MAX;
    assert_eq!(
        p.check_registration(Origin::Signed(7), &Ip::default(), 1),
        Some(DispatchError::Module(Error::WorkerRegisterMissingIp))
    );
    assert_eq!(
        p.worker_register(Origin::Signed(7), 1, vec![], Ip::default(), 1).err(),
        Some(DispatchError::Module(Error::WorkerRegisterMissingIp))
    );
    assert_eq!(
        p.worker_register(Origin::Signed(7), 1, vec![], ipv4(&[1]), 0).err(),
        Some(DispatchError::Module(Error::WorkerRegisterMissingPort))
    );
    assert_eq!(
        p.worker_register(Origin::Root, 1, vec![], ipv4(&[1]), 1).err(),
        Some(DispatchError::BadOrigin)
    );
    assert_eq!(p.check_registration(Origin::Signed(7), &ipv4(&[1]), 1), None);
    assert_eq!(p.get_next_cluster_id(), u64::MAX);
}

#[test]
fn check_registration_matches_register() {
    let mut p = Pallet::new();
    assert_eq!(p.check_registration(Origin::Signed(7), &ipv4(&[1]), 1), None);
    p.worker_register(Origin::Signed(7), 1, vec![], ipv4(&[1]), 1).unwrap();
    assert_eq!(
        p.check_registration(Origin::Signed(7), &ipv4(&[1]), 1),
        Some(DispatchError::Module(Error::ClusterExists))
    );
    assert_eq!(p.check_registration(Origin::Signed(8), &ipv4(&[1]), 1), None);
}
