use deployment_tracker::{
    create_block_hash, create_smart_contract_hash, Address, DeploymentTracker,
    DeploymentTrackingError, InsertionError, SmartContractTrackingDataEntry, TrackingData, H256,
};

fn block(b: u8) -> H256 {
    let mut bytes = [0u8; 32];
    bytes[31] = b;
    H256 { bytes }
}

fn address(b: u8) -> Address {
    Address { bytes: [b; 20] }
}

fn entry(name: &str, b: u8) -> SmartContractTrackingDataEntry {
    SmartContractTrackingDataEntry { name: name.to_string(), address: address(b) }
}

fn empty_tracker() -> DeploymentTracker {
    DeploymentTracker::new(Ok(TrackingData::new()))
}

fn missing_tracker() -> DeploymentTracker {
    DeploymentTracker::new(Err(DeploymentTrackingError::DatabaseNotFound))
}

#[test]
fn end_to_end_scenario() {
    let mut tracker = missing_tracker();
    tracker.create_database();
    let args: Vec<String> = vec![];
    tracker.track(block(1), "Token".to_string(), "0x6001".to_string(), &args, address(0x11)).unwrap();
    let record = tracker
        .get_smart_contract_tracking_data(&block(1), "Token", "0x6001", &args)
        .unwrap()
        .unwrap();
    assert_eq!(record.name, "Token");
    assert_eq!(record.address.bytes, [0x11; 20]);

    tracker.track(block(1), "Token".to_string(), "0x6001".to_string(), &args, address(0x22)).unwrap();
    let bucket = tracker.get_all_smart_contract_tracking_data(&block(1)).unwrap().unwrap();
    assert_eq!(bucket.len(), 1);
    let (key, record) = &bucket.entries()[0];
    assert_eq!(key, &create_smart_contract_hash("Token", "0x6001", &args));
    assert_eq!(record.name, "Token");
    assert_eq!(record.address.bytes, [0x22; 20]);
}

#[test]
fn track_then_get_round_trip() {
    let mut tracker = empty_tracker();
    let args = vec!["100".to_string(), "abc".to_string()];
    tracker.track(block(7), "Coin".to_string(), "0x60606040".to_string(), &args, address(0xab)).unwrap();
    let record = tracker
        .get_smart_contract_tracking_data(&block(7), "Coin", "0x60606040", &args)
        .unwrap()
        .unwrap();
    assert_eq!(record.name, "Coin");
    assert_eq!(record.address.bytes, [0xab; 20]);
}

#[test]
fn second_track_overwrites_first() {
    let mut tracker = empty_tracker();
    let args: Vec<String> = vec![];
    tracker.track(block(3), "A".to_string(), "0x01".to_string(), &args, address(1)).unwrap();
    tracker.track(block(3), "A".to_string(), "0x01".to_string(), &args, address(2)).unwrap();
    let record = tracker.get_smart_contract_tracking_data(&block(3), "A", "0x01", &args).unwrap().unwrap();
    assert_eq!(record.address.bytes, [2; 20]);
    let bucket = tracker.get_all_smart_contract_tracking_data(&block(3)).unwrap().unwrap();
    assert_eq!(bucket.len(), 1);
}

#[test]
fn missing_database_is_none_for_chain_but_error_for_record() {
    let mut tracker = missing_tracker();
    assert!(!tracker.database_exists());
    assert!(matches!(tracker.get_all_smart_contract_tracking_data(&block(1)), Ok(None)));
    assert!(matches!(
        tracker.get_smart_contract_tracking_data(&block(1), "Token", "0x6001", &vec![]),
        Err(DeploymentTrackingError::DatabaseNotFound)
    ));
    assert!(matches!(
        tracker.track(block(1), "Token".to_string(), "0x6001".to_string(), &vec![], address(1)),
        Err(DeploymentTrackingError::DatabaseNotFound)
    ));
    assert!(matches!(tracker.document, Err(DeploymentTrackingError::DatabaseNotFound)));
}

#[test]
fn unreadable_database_propagates_its_error() {
    let mut tracker = DeploymentTracker::new(Err(DeploymentTrackingError::Format("bad".to_string())));
    assert!(tracker.database_exists());
    match tracker.get_all_smart_contract_tracking_data(&block(1)) {
        Err(DeploymentTrackingError::Format(m)) => assert_eq!(m, "bad"),
        other => panic!("unexpected {:?}", other),
    }
    match tracker.get_smart_contract_tracking_data(&block(1), "T", "0x", &vec![]) {
        Err(DeploymentTrackingError::Format(m)) => assert_eq!(m, "bad"),
        other => panic!("unexpected {:?}", other),
    }
    match tracker.track(block(1), "T".to_string(), "0x".to_string(), &vec![], address(1)) {
        Err(DeploymentTrackingError::Format(m)) => assert_eq!(m, "bad"),
        other => panic!("unexpected {:?}", other),
    }
}

#[test]
fn unknown_chain_and_record_are_none() {
    let mut tracker = empty_tracker();
    assert!(tracker.database_exists());
    assert!(tracker.get_all_smart_contract_tracking_data(&block(9)).unwrap().is_none());
    tracker.track(block(9), "A".to_string(), "0x01".to_string(), &vec![], address(1)).unwrap();
    assert!(tracker.get_smart_contract_tracking_data(&block(9), "B", "0x01", &vec![]).unwrap().is_none());
    assert!(tracker.get_smart_contract_tracking_data(&block(8), "A", "0x01", &vec![]).unwrap().is_none());
    assert!(tracker.get_all_smart_contract_tracking_data(&block(8)).unwrap().is_none());
}

#[test]
fn create_database_empties_existing_document() {
    let mut tracker = empty_tracker();
    tracker.track(block(1), "A".to_string(), "0x01".to_string(), &vec![], address(1)).unwrap();
    tracker.create_database();
    assert!(tracker.get_all_smart_contract_tracking_data(&block(1)).unwrap().is_none());
}

#[test]
fn store_insert_refuses_existing_path() {
    let mut db = TrackingData::new();
    let c = create_block_hash(&block(1));
    assert_eq!(db.insert(c.clone(), "k".to_string(), entry("A", 1)), Ok(()));
    assert_eq!(db.insert(c.clone(), "k".to_string(), entry("A", 2)), Err(InsertionError::PathExists));
    assert_eq!(db.read_entry(&c, &"k".to_string()).unwrap().address.bytes, [1; 20]);
    assert_eq!(db.insert(c.clone(), "j".to_string(), entry("B", 3)), Ok(()));
    assert_eq!(db.read_chain(&c).unwrap().len(), 2);
}

#[test]
fn store_set_needs_parent_and_overwrites() {
    let mut db = TrackingData::new();
    assert_eq!(db.set("c".to_string(), "k".to_string(), entry("A", 1)), Err(InsertionError::ParentMissing));
    assert!(db.read_chain(&"c".to_string()).is_none());
    db.insert("c".to_string(), "k".to_string(), entry("A", 1)).unwrap();
    assert_eq!(db.set("c".to_string(), "k".to_string(), entry("A", 5)), Ok(()));
    assert_eq!(db.read_entry(&"c".to_string(), &"k".to_string()).unwrap().address.bytes, [5; 20]);
    assert_eq!(db.set("c".to_string(), "m".to_string(), entry("M", 6)), Ok(()));
    assert_eq!(db.chains().len(), 1);
    assert_eq!(db.read_chain(&"c".to_string()).unwrap().len(), 2);
}

#[test]
fn track_writes_under_derived_keys() {
    let mut tracker = empty_tracker();
    let args = vec!["x".to_string()];
    tracker.track(block(4), "N".to_string(), "0xff".to_string(), &args, address(4)).unwrap();
    let db = tracker.document.as_ref().unwrap();
    let chain = create_block_hash(&block(4));
    let contract = create_smart_contract_hash("N", "0xff", &args);
    assert_eq!(db.read_entry(&chain, &contract).unwrap().name, "N");
}
