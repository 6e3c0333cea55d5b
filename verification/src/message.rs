//! The messages the harness exchanges with the store, modeled as plain
//! values: one entry type and one request type per operation, and the
//! status a put or delete reply carries.  Also the deterministic key and
//! value naming the bulk phase of the scenario uses.

use vstd::prelude::*;
use crate::payload::generate_random_bytes;

verus! {

/// One key/value pair, as carried by a put request or a scan reply.
pub struct KvEntry {
    pub key: Vec<u8>,
    pub value: Vec<u8>,
}

impl KvEntry {
    /// Both components within the harness's configured bounds.
    pub open spec fn wf(self) -> bool {
        self.key@.len() <= crate::MAX_KEY_SIZE && self.value@.len() <= crate::MAX_VALUE_SIZE
    }
}

/// Builds an entry from its two components.
pub fn create_kv_entry(key: Vec<u8>, value: Vec<u8>) -> (e: KvEntry)
    ensures
        e.key@ == key@,
        e.value@ == value@,
{
    KvEntry { key, value }
}

/// Status of a put or delete as the store reports it.
#[derive(Clone, Copy, PartialEq, Eq, Structural, Debug)]
pub enum Status {
    Success,
    Failure,
}

/// Request for a put of one entry.
pub struct PutKvRequest {
    pub entry: KvEntry,
}

/// Request for a get of one key.
pub struct GetKvRequest {
    pub key: Vec<u8>,
}

/// Request for a delete of one key.
pub struct DeleteKvRequest {
    pub key: Vec<u8>,
}

/// Request for a scan: from `start_key`, at most `limit` entries,
/// descending when `reverse`, keys without values when `key_only`.
pub struct ScanKvRequest {
    pub start_key: Vec<u8>,
    pub limit: u32,
    pub reverse: bool,
    pub key_only: bool,
}

/// Builds a put request around fresh random payloads of the given sizes.
pub fn create_put_kv_request(key_size: usize, value_size: usize) -> (r: PutKvRequest)
    ensures
        r.entry.key@.len() == key_size,
        r.entry.value@.len() == value_size,
{
    let key = generate_random_bytes(key_size);
    let value = generate_random_bytes(value_size);
    PutKvRequest { entry: create_kv_entry(key, value) }
}

/// Copies a byte vector.
pub fn copy_bytes(a: &Vec<u8>) -> (r: Vec<u8>)
    ensures
        r@ == a@,
{
    let mut r: Vec<u8> = Vec::new();
    let mut i: usize = 0;
    while i < a.len()
        invariant
            i <= a@.len(),
            r@.len() == i as nat,
            forall|j: int| 0 <= j < i ==> r@[j] == a@[j],
        decreases a@.len() - i,
    {
        r.push(a[i]);
        i = i + 1;
    }
    proof {
        assert(r@ =~= a@);
    }
    r
}

/// Decimal digits of `n`, most significant first, as ASCII bytes.
pub open spec fn dec_rep(n: nat) -> Seq<u8>
    decreases n,
{
    if n < 10 {
        seq![(48 + n) as u8]
    } else {
        dec_rep(n / 10).push((48 + n % 10) as u8)
    }
}

/// Writes `n` in decimal.
pub fn to_decimal(n: u64) -> (r: Vec<u8>)
    ensures
        r@ == dec_rep(n as nat),
    decreases n,
{
    if n < 10 {
        let mut r: Vec<u8> = Vec::new();
        r.push(48 + (n as u8));
        proof {
            assert(r@ =~= dec_rep(n as nat));
        }
        r
    } else {
        proof {
            assert(n as nat / 10 < n as nat) by (nonlinear_arith)
                requires n >= 10;
        }
        let mut r = to_decimal(n / 10);
        r.push(48 + ((n % 10) as u8));
        proof {
            assert(r@ =~= dec_rep(n as nat));
        }
        r
    }
}

/// Key of bulk entry `i`: "xiao" followed by `i` in decimal.
pub open spec fn bulk_key_spec(i: nat) -> Seq<u8> {
    seq![120u8, 105u8, 97u8, 111u8] + dec_rep(i)
}

/// Value of bulk entry `i`: "chen" followed by `i` in decimal.
pub open spec fn bulk_value_spec(i: nat) -> Seq<u8> {
    seq![99u8, 104u8, 101u8, 110u8] + dec_rep(i)
}

/// The fixed key, "xiao", the scenario deletes as a smoke test of
/// deleting a possibly absent key.
pub open spec fn absent_probe_key_spec() -> Seq<u8> {
    seq![120u8, 105u8, 97u8, 111u8]
}

/// Builds the key of bulk entry `i`.
pub fn bulk_key(i: u64) -> (r: Vec<u8>)
    ensures
        r@ == bulk_key_spec(i as nat),
{
    let mut r: Vec<u8> = Vec::new();
    r.push(120);
    r.push(105);
    r.push(97);
    r.push(111);
    let mut d = to_decimal(i);
    r.append(&mut d);
    proof {
        assert(r@ =~= bulk_key_spec(i as nat));
    }
    r
}

/// Builds the value of bulk entry `i`.
pub fn bulk_value(i: u64) -> (r: Vec<u8>)
    ensures
        r@ == bulk_value_spec(i as nat),
{
    let mut r: Vec<u8> = Vec::new();
    r.push(99);
    r.push(104);
    r.push(101);
    r.push(110);
    let mut d = to_decimal(i);
    r.append(&mut d);
    proof {
        assert(r@ =~= bulk_value_spec(i as nat));
    }
    r
}

/// Builds the fixed possibly-absent probe key.
pub fn absent_probe_key() -> (r: Vec<u8>)
    ensures
        r@ == absent_probe_key_spec(),
{
    let mut r: Vec<u8> = Vec::new();
    r.push(120);
    r.push(105);
    r.push(97);
    r.push(111);
    proof {
        assert(r@ =~= absent_probe_key_spec());
    }
    r
}

} // verus!
