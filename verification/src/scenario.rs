//! The correctness scenario as a sequential state machine.
//!
//! The scenario is a fixed script: put a maximum-size pair, get it back
//! and compare, probe it with a scan, delete it, delete a possibly
//! absent key, put twenty deterministically named entries, and scan
//! them.  Each call of `step` consumes the store's reply to the previous
//! request and returns the next request; an outer driver, which owns the
//! transport, performs it.  Failed comparisons are soft: they are
//! recorded as outcomes and the scenario runs on to its end.

use vstd::prelude::*;
use crate::message::DeleteKvRequest;
use crate::message::GetKvRequest;
use crate::message::KvEntry;
use crate::message::PutKvRequest;
use crate::message::ScanKvRequest;
use crate::message::Status;
use crate::message::absent_probe_key;
use crate::message::absent_probe_key_spec;
use crate::message::bulk_key;
use crate::message::bulk_key_spec;
use crate::message::bulk_value;
use crate::message::bulk_value_spec;
use crate::message::copy_bytes;
use crate::message::create_kv_entry;
use crate::order::bytes_eq;
use crate::payload::generate_random_bytes;

verus! {

/// How many entries the bulk phase puts.
pub const BULK_ENTRY_COUNT: usize = 20;

/// Limit of the scan that closes the bulk phase.
pub const BULK_SCAN_LIMIT: u32 = 10;

/// Limit of the probe scan after the first put.
pub const PROBE_SCAN_LIMIT: u32 = 1;

/// Where the scenario stands: each phase waits for the reply to the
/// request it issued.
#[derive(Clone, Copy, PartialEq, Eq, Structural, Debug)]
pub enum ScenarioPhase {
    Start,
    FirstPut,
    RoundTripGet,
    ProbeScan,
    DeleteKey,
    DeleteAbsent,
    BulkPut,
    BulkScan,
    Finished,
}

/// The next request the driver must perform, or the end of the script.
pub enum StoreAction {
    Put(PutKvRequest),
    Get(GetKvRequest),
    Delete(DeleteKvRequest),
    Scan(ScanKvRequest),
    Finish,
}

/// The store's reply to the previous request, as the driver hands it
/// back.  `Started` opens the script.
pub enum StoreEvent {
    Started,
    PutDone(Status),
    GetDone(Option<Vec<u8>>),
    DeleteDone(Status),
    ScanDone(Vec<KvEntry>),
}

/// Which replies a phase can consume.
pub open spec fn accepts(phase: ScenarioPhase, event: StoreEvent) -> bool {
    match (phase, event) {
        (ScenarioPhase::Start, StoreEvent::Started) => true,
        (ScenarioPhase::FirstPut, StoreEvent::PutDone(_)) => true,
        (ScenarioPhase::RoundTripGet, StoreEvent::GetDone(_)) => true,
        (ScenarioPhase::ProbeScan, StoreEvent::ScanDone(_)) => true,
        (ScenarioPhase::DeleteKey, StoreEvent::DeleteDone(_)) => true,
        (ScenarioPhase::DeleteAbsent, StoreEvent::DeleteDone(_)) => true,
        (ScenarioPhase::BulkPut, StoreEvent::PutDone(_)) => true,
        (ScenarioPhase::BulkScan, StoreEvent::ScanDone(_)) => true,
        _ => false,
    }
}

/// The value a get reply carries, as a sequence; `None` for absence or
/// for any other event.
pub open spec fn got_value(event: StoreEvent) -> Option<Seq<u8>> {
    match event {
        StoreEvent::GetDone(got) => match got {
            Option::Some(v) => Option::Some(v@),
            Option::None => Option::None,
        },
        _ => Option::None,
    }
}

/// How many entries a scan reply carries; zero for any other event.
pub open spec fn scanned_count(event: StoreEvent) -> nat {
    match event {
        StoreEvent::ScanDone(entries) => entries@.len(),
        _ => 0,
    }
}

/// Which soft check an outcome records.
#[derive(Clone, Copy, PartialEq, Eq, Structural, Debug)]
pub enum CheckKind {
    RoundTripValue,
    ProbeScanCount,
    BulkScanCount,
}

/// One recorded soft check: which check ran and whether it passed.
#[derive(Clone, Copy, PartialEq, Eq, Structural, Debug)]
pub struct CheckOutcome {
    pub kind: CheckKind,
    pub pass: bool,
}

/// The scenario's state: its phase, the round-trip pair it generated,
/// how many bulk puts it has issued, and the soft checks recorded so
/// far.
pub struct Scenario {
    pub phase: ScenarioPhase,
    pub bulk_issued: usize,
    pub key: Vec<u8>,
    pub value: Vec<u8>,
    pub checks: Vec<CheckOutcome>,
}

impl Scenario {
    /// In the bulk phase, between one and all of the puts are issued.
    pub open spec fn wf(self) -> bool {
        self.phase is BulkPut ==> 1 <= self.bulk_issued <= BULK_ENTRY_COUNT
    }

    /// A scenario at its start, with no checks recorded.
    pub fn new() -> (s: Scenario)
        ensures
            s.wf(),
            s.phase is Start,
            s.checks@.len() == 0,
    {
        Scenario {
            phase: ScenarioPhase::Start,
            bulk_issued: 0,
            key: Vec::new(),
            value: Vec::new(),
            checks: Vec::new(),
        }
    }

    /// Consumes the reply to the previous request and returns the next
    /// one.  The transitions follow the fixed script; soft checks are
    /// appended to `checks` and never stop the run.
    pub fn step(&mut self, event: StoreEvent) -> (action: StoreAction)
        requires
            old(self).wf(),
            accepts(old(self).phase, event),
        ensures
            final(self).wf(),
            old(self).phase is Start ==> ({
                &&& final(self).phase is FirstPut
                &&& final(self).key@.len() == crate::MAX_KEY_SIZE
                &&& final(self).value@.len() == crate::MAX_VALUE_SIZE
                &&& final(self).checks@ == old(self).checks@
                &&& action matches StoreAction::Put(req) && req.entry.key@ == final(self).key@
                    && req.entry.value@ == final(self).value@
            }),
            old(self).phase is FirstPut ==> ({
                &&& final(self).phase is RoundTripGet
                &&& final(self).key@ == old(self).key@
                &&& final(self).value@ == old(self).value@
                &&& final(self).checks@ == old(self).checks@
                &&& action matches StoreAction::Get(req) && req.key@ == old(self).key@
            }),
            old(self).phase is RoundTripGet ==> ({
                &&& final(self).phase is ProbeScan
                &&& final(self).key@ == old(self).key@
                &&& final(self).value@ == old(self).value@
                &&& final(self).checks@ == old(self).checks@.push(
                    (CheckOutcome {
                        kind: CheckKind::RoundTripValue,
                        pass: got_value(event) == Option::Some(old(self).value@),
                    }),
                )
                &&& action matches StoreAction::Scan(req) && req.start_key@ == old(self).key@
                    && req.limit == PROBE_SCAN_LIMIT && !req.reverse && req.key_only
            }),
            old(self).phase is ProbeScan ==> ({
                &&& final(self).phase is DeleteKey
                &&& final(self).key@ == old(self).key@
                &&& final(self).checks@ == old(self).checks@.push(
                    (CheckOutcome {
                        kind: CheckKind::ProbeScanCount,
                        pass: scanned_count(event) <= PROBE_SCAN_LIMIT as nat,
                    }),
                )
                &&& action matches StoreAction::Delete(req) && req.key@ == old(self).key@
            }),
            old(self).phase is DeleteKey ==> ({
                &&& final(self).phase is DeleteAbsent
                &&& final(self).checks@ == old(self).checks@
                &&& action matches StoreAction::Delete(req) && req.key@ == absent_probe_key_spec()
            }),
            old(self).phase is DeleteAbsent ==> ({
                &&& final(self).phase is BulkPut
                &&& final(self).bulk_issued == 1
                &&& final(self).checks@ == old(self).checks@
                &&& action matches StoreAction::Put(req) && req.entry.key@ == bulk_key_spec(0)
                    && req.entry.value@ == bulk_value_spec(0)
            }),
            old(self).phase is BulkPut ==> ({
                &&& final(self).checks@ == old(self).checks@
                &&& if old(self).bulk_issued < BULK_ENTRY_COUNT {
                    &&& final(self).phase is BulkPut
                    &&& final(self).bulk_issued == old(self).bulk_issued + 1
                    &&& action matches StoreAction::Put(req) && req.entry.key@ == bulk_key_spec(
                        old(self).bulk_issued as nat,
                    ) && req.entry.value@ == bulk_value_spec(old(self).bulk_issued as nat)
                } else {
                    &&& final(self).phase is BulkScan
                    &&& action matches StoreAction::Scan(req) && req.start_key@ == bulk_key_spec(0)
                        && req.limit == BULK_SCAN_LIMIT && !req.reverse && !req.key_only
                }
            }),
            old(self).phase is BulkScan ==> ({
                &&& final(self).phase is Finished
                &&& final(self).checks@ == old(self).checks@.push(
                    (CheckOutcome {
                        kind: CheckKind::BulkScanCount,
                        pass: scanned_count(event) == BULK_SCAN_LIMIT as nat,
                    }),
                )
                &&& action is Finish
            }),
    {
        let ph = self.phase;
        match (ph, event) {
            (ScenarioPhase::Start, StoreEvent::Started) => {
                self.key = generate_random_bytes(crate::MAX_KEY_SIZE);
                self.value = generate_random_bytes(crate::MAX_VALUE_SIZE);
                self.phase = ScenarioPhase::FirstPut;
                let entry = create_kv_entry(copy_bytes(&self.key), copy_bytes(&self.value));
                StoreAction::Put(PutKvRequest { entry })
            },
            (ScenarioPhase::FirstPut, StoreEvent::PutDone(_status)) => {
                self.phase = ScenarioPhase::RoundTripGet;
                StoreAction::Get(GetKvRequest { key: copy_bytes(&self.key) })
            },
            (ScenarioPhase::RoundTripGet, StoreEvent::GetDone(got)) => {
                let pass = match &got {
                    Some(v) => bytes_eq(v, &self.value),
                    None => false,
                };
                self.checks.push(CheckOutcome { kind: CheckKind::RoundTripValue, pass });
                self.phase = ScenarioPhase::ProbeScan;
                StoreAction::Scan(
                    ScanKvRequest {
                        start_key: copy_bytes(&self.key),
                        limit: PROBE_SCAN_LIMIT,
                        reverse: false,
                        key_only: true,
                    },
                )
            },
            (ScenarioPhase::ProbeScan, StoreEvent::ScanDone(entries)) => {
                let pass = entries.len() <= PROBE_SCAN_LIMIT as usize;
                self.checks.push(CheckOutcome { kind: CheckKind::ProbeScanCount, pass });
                self.phase = ScenarioPhase::DeleteKey;
                StoreAction::Delete(DeleteKvRequest { key: copy_bytes(&self.key) })
            },
            (ScenarioPhase::DeleteKey, StoreEvent::DeleteDone(_status)) => {
                self.phase = ScenarioPhase::DeleteAbsent;
                StoreAction::Delete(DeleteKvRequest { key: absent_probe_key() })
            },
            (ScenarioPhase::DeleteAbsent, StoreEvent::DeleteDone(_status)) => {
                self.phase = ScenarioPhase::BulkPut;
                self.bulk_issued = 1;
                let entry = create_kv_entry(bulk_key(0), bulk_value(0));
                StoreAction::Put(PutKvRequest { entry })
            },
            (ScenarioPhase::BulkPut, StoreEvent::PutDone(_status)) => {
                if self.bulk_issued < BULK_ENTRY_COUNT {
                    let i = self.bulk_issued as u64;
                    self.bulk_issued = self.bulk_issued + 1;
                    let entry = create_kv_entry(bulk_key(i), bulk_value(i));
                    StoreAction::Put(PutKvRequest { entry })
                } else {
                    self.phase = ScenarioPhase::BulkScan;
                    StoreAction::Scan(
                        ScanKvRequest {
                            start_key: bulk_key(0),
                            limit: BULK_SCAN_LIMIT,
                            reverse: false,
                            key_only: false,
                        },
                    )
                }
            },
            (ScenarioPhase::BulkScan, StoreEvent::ScanDone(entries)) => {
                let pass = entries.len() == BULK_SCAN_LIMIT as usize;
                self.checks.push(CheckOutcome { kind: CheckKind::BulkScanCount, pass });
                self.phase = ScenarioPhase::Finished;
                StoreAction::Finish
            },
            _ => {
                proof {
                    assert(false);
                }
                StoreAction::Finish
            },
        }
    }
}

} // verus!
