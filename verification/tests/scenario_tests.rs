use kv_harness::message::Status;
use kv_harness::scenario::CheckKind;
use kv_harness::scenario::Scenario;
use kv_harness::scenario::ScenarioPhase;
use kv_harness::scenario::StoreAction;
use kv_harness::scenario::StoreEvent;
use kv_harness::store::ModelStore;

fn perform(store: &mut ModelStore, action: &StoreAction) -> Option<StoreEvent> {
    match action {
        StoreAction::Put(req) => {
            store.put(kv_harness::message::create_kv_entry(
                req.entry.key.clone(),
                req.entry.value.clone(),
            ));
            Some(StoreEvent::PutDone(Status::Success))
        }
        StoreAction::Get(req) => Some(StoreEvent::GetDone(store.get(&req.key))),
        StoreAction::Delete(req) => {
            store.delete(&req.key);
            Some(StoreEvent::DeleteDone(Status::Success))
        }
        StoreAction::Scan(req) => Some(StoreEvent::ScanDone(store.scan(
            &req.start_key,
            req.limit,
            req.reverse,
            req.key_only,
        ))),
        StoreAction::Finish => None,
    }
}

#[test]
fn scenario_against_reference_store_passes_every_check() {
    let mut store = ModelStore::new();
    let mut scenario = Scenario::new();
    let mut event = StoreEvent::Started;
    let mut steps = 0usize;
    loop {
        let action = scenario.step(event);
        steps += 1;
        assert!(steps < 100, "the scenario script must terminate");
        match perform(&mut store, &action) {
            Some(next) => event = next,
            None => break,
        }
    }
    assert_eq!(scenario.phase, ScenarioPhase::Finished);
    assert_eq!(scenario.checks.len(), 3);
    assert_eq!(scenario.checks[0].kind, CheckKind::RoundTripValue);
    assert_eq!(scenario.checks[1].kind, CheckKind::ProbeScanCount);
    assert_eq!(scenario.checks[2].kind, CheckKind::BulkScanCount);
    for outcome in &scenario.checks {
        assert!(outcome.pass);
    }
}

#[test]
fn scenario_issues_the_fixed_script() {
    let mut scenario = Scenario::new();
    let action = scenario.step(StoreEvent::Started);
    let first_key = match &action {
        StoreAction::Put(req) => {
            assert_eq!(req.entry.key.len(), 256);
            assert_eq!(req.entry.value.len(), 3074);
            req.entry.key.clone()
        }
        _ => panic!("the script opens with a put"),
    };
    let action = scenario.step(StoreEvent::PutDone(Status::Success));
    match &action {
        StoreAction::Get(req) => assert_eq!(req.key, first_key),
        _ => panic!("a get of the same key follows the first put"),
    }
    let action = scenario.step(StoreEvent::GetDone(None));
    match &action {
        StoreAction::Scan(req) => {
            assert_eq!(req.start_key, first_key);
            assert_eq!(req.limit, 1);
            assert!(!req.reverse);
            assert!(req.key_only);
        }
        _ => panic!("a probe scan follows the get"),
    }
    let action = scenario.step(StoreEvent::ScanDone(Vec::new()));
    match &action {
        StoreAction::Delete(req) => assert_eq!(req.key, first_key),
        _ => panic!("the round-trip key is deleted next"),
    }
    let action = scenario.step(StoreEvent::DeleteDone(Status::Success));
    match &action {
        StoreAction::Delete(req) => assert_eq!(req.key, b"xiao".to_vec()),
        _ => panic!("the possibly absent key is deleted next"),
    }
    let mut action = scenario.step(StoreEvent::DeleteDone(Status::Success));
    for i in 0..20u64 {
        match &action {
            StoreAction::Put(req) => {
                assert_eq!(req.entry.key, kv_harness::message::bulk_key(i));
                assert_eq!(req.entry.value, kv_harness::message::bulk_value(i));
            }
            _ => panic!("twenty bulk puts follow"),
        }
        action = scenario.step(StoreEvent::PutDone(Status::Success));
    }
    match &action {
        StoreAction::Scan(req) => {
            assert_eq!(req.start_key, b"xiao0".to_vec());
            assert_eq!(req.limit, 10);
            assert!(!req.reverse);
            assert!(!req.key_only);
        }
        _ => panic!("the bulk scan closes the script"),
    }
    let action = scenario.step(StoreEvent::ScanDone(Vec::new()));
    assert!(matches!(action, StoreAction::Finish));
    assert_eq!(scenario.phase, ScenarioPhase::Finished);
}

#[test]
fn scenario_records_round_trip_mismatch_softly() {
    let mut scenario = Scenario::new();
    scenario.step(StoreEvent::Started);
    scenario.step(StoreEvent::PutDone(Status::Success));
    // The store answers with the wrong value: the check fails but the
    // script continues.
    scenario.step(StoreEvent::GetDone(Some(b"wrong".to_vec())));
    assert_eq!(scenario.checks.len(), 1);
    assert_eq!(scenario.checks[0].kind, CheckKind::RoundTripValue);
    assert!(!scenario.checks[0].pass);
    assert_eq!(scenario.phase, ScenarioPhase::ProbeScan);
}

#[test]
fn scenario_records_absent_value_as_mismatch() {
    let mut scenario = Scenario::new();
    scenario.step(StoreEvent::Started);
    scenario.step(StoreEvent::PutDone(Status::Success));
    scenario.step(StoreEvent::GetDone(None));
    assert_eq!(scenario.checks.len(), 1);
    assert!(!scenario.checks[0].pass);
}

#[test]
fn scenario_flags_overlong_bulk_scan_reply() {
    let mut store = ModelStore::new();
    let mut scenario = Scenario::new();
    let mut event = StoreEvent::Started;
    loop {
        let action = scenario.step(event);
        // Misreport the closing bulk scan with too few entries.
        if scenario.phase == ScenarioPhase::Finished {
            break;
        }
        event = match perform(&mut store, &action) {
            Some(StoreEvent::ScanDone(entries))
                if scenario.phase == ScenarioPhase::BulkScan && entries.len() == 10 =>
            {
                let mut shortened = entries;
                shortened.pop();
                StoreEvent::ScanDone(shortened)
            }
            Some(next) => next,
            None => break,
        };
    }
    let last = scenario.checks.last().expect("the bulk scan check is recorded");
    assert_eq!(last.kind, CheckKind::BulkScanCount);
    assert!(!last.pass);
}
