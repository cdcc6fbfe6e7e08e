//! The values that travel between callers, the vault actor and the secure
//! store.

use vstd::prelude::*;
use vstd::std_specs::cmp::PartialEqSpecImpl;
use vstd::string::*;

verus! {

/// The label of the record that holds the seed.
pub const SEED_HINT: &'static str = "IOTA_WALLET_SEED";

/// The label of the records that hold account secrets.
pub const ACCOUNT_HINT: &'static str = "IOTA_WALLET_ACCOUNT";

/// How long the actor waits for one result of the secure store, in
/// milliseconds. A wait that runs out fails the request; nothing is tried
/// again.
pub const TIMEOUT_MILLIS: u64 = 500;

/// Names a vault of the secure store. It never leaves the vault boundary.
#[derive(Clone, Copy, Debug, PartialEq, Eq)]
pub struct VaultId {
    pub bytes: [u8; 24],
}

/// Names a record of a vault. It never leaves the vault boundary.
#[derive(Clone, Copy, Debug, PartialEq, Eq)]
pub struct RecordId {
    pub bytes: [u8; 24],
}

/// Says what a record is used for.
#[derive(Clone, Copy, Debug, Eq)]
pub struct RecordHint {
    pub bytes: [u8; 24],
}

impl PartialEq for RecordHint {
    fn eq(&self, other: &RecordHint) -> (r: bool) {
        let mut i: usize = 0;
        while i < 24
            invariant
                i <= 24,
                forall|j: int| 0 <= j < i ==> self.bytes[j] == other.bytes[j],
            decreases 24 - i,
        {
            if self.bytes[i] != other.bytes[i] {
                return false;
            }
            i += 1;
        }
        assert(self.bytes =~= other.bytes);
        true
    }
}

impl PartialEqSpecImpl for RecordHint {
    open spec fn obeys_eq_spec() -> bool {
        true
    }

    open spec fn eq_spec(&self, other: &RecordHint) -> bool {
        *self == *other
    }
}

/// The bytes of a label, filled up with zeros to 24 bytes.
pub open spec fn padded(hint: Seq<u8>) -> Seq<u8> {
    Seq::new(24, |i: int| if i < hint.len() { hint[i] } else { 0u8 })
}

impl RecordHint {
    /// The hint with the given label, if the label has at most 24 bytes.
    pub fn new(hint: &[u8]) -> (r: Option<RecordHint>)
        ensures
            r.is_some() <==> hint@.len() <= 24,
            r matches Some(h) ==> h.bytes@ == padded(hint@),
    {
        if hint.len() > 24 {
            return None;
        }
        let mut buf: [u8; 24] = [0u8; 24];
        let mut i: usize = 0;
        while i < hint.len()
            invariant
                i <= hint.len() <= 24,
                forall|j: int| 0 <= j < i ==> buf[j] == hint[j],
                forall|j: int| i <= j < 24 ==> buf[j] == 0,
            decreases hint.len() - i,
        {
            buf[i] = hint[i];
            i += 1;
        }
        assert(buf@ =~= padded(hint@));
        Some(RecordHint { bytes: buf })
    }
}

/// The hint of the record that holds the seed.
pub closed spec fn spec_seed_hint() -> RecordHint {
    choose|h: RecordHint| h.bytes@ == padded(SEED_HINT.spec_bytes())
}

/// The hint of the records that hold account secrets.
pub closed spec fn spec_account_hint() -> RecordHint {
    choose|h: RecordHint| h.bytes@ == padded(ACCOUNT_HINT.spec_bytes())
}

/// The hint of the record that holds the seed.
#[verifier::when_used_as_spec(spec_seed_hint)]
pub fn seed_hint() -> (r: RecordHint)
    ensures
        r == spec_seed_hint(),
        r.bytes@ == padded(SEED_HINT.spec_bytes()),
{
    proof {
        reveal_strlit("IOTA_WALLET_SEED");
        is_ascii_spec_bytes(SEED_HINT);
    }
    assert(SEED_HINT@.len() == 16);
    assert(SEED_HINT.spec_bytes().len() == 16);
    let hint = RecordHint::new(SEED_HINT.as_bytes()).unwrap();
    assert(hint.bytes =~= spec_seed_hint().bytes);
    hint
}

/// The hint of the records that hold account secrets.
#[verifier::when_used_as_spec(spec_account_hint)]
pub fn account_hint() -> (r: RecordHint)
    ensures
        r == spec_account_hint(),
        r.bytes@ == padded(ACCOUNT_HINT.spec_bytes()),
{
    proof {
        reveal_strlit("IOTA_WALLET_ACCOUNT");
        is_ascii_spec_bytes(ACCOUNT_HINT);
    }
    assert(ACCOUNT_HINT@.len() == 19);
    assert(ACCOUNT_HINT.spec_bytes().len() == 19);
    let hint = RecordHint::new(ACCOUNT_HINT.as_bytes()).unwrap();
    assert(hint.bytes =~= spec_account_hint().bytes);
    hint
}

/// The seed hint and the account hint are different labels.
pub proof fn lemma_hints_differ()
    ensures
        spec_seed_hint() != spec_account_hint(),
{
    reveal_strlit("IOTA_WALLET_SEED");
    reveal_strlit("IOTA_WALLET_ACCOUNT");
    is_ascii_spec_bytes(SEED_HINT);
    is_ascii_spec_bytes(ACCOUNT_HINT);
    assert(SEED_HINT@.len() == 16);
    assert(ACCOUNT_HINT@.len() == 19);
    let s = padded(SEED_HINT.spec_bytes());
    let a = padded(ACCOUNT_HINT.spec_bytes());
    lemma_hint_exists(s);
    lemma_hint_exists(a);
    assert(spec_seed_hint().bytes@ == s);
    assert(spec_account_hint().bytes@ == a);
    assert(s[16] == 0u8);
    assert(ACCOUNT_HINT@[16] == 'U');
    assert(a[16] != 0u8);
}

/// Some hint has the given 24 bytes.
proof fn lemma_hint_exists(s: Seq<u8>)
    requires
        s.len() == 24,
    ensures
        exists|h: RecordHint| h.bytes@ == s,
{
    let h: [u8; 24] = [
        s[0], s[1], s[2], s[3], s[4], s[5], s[6], s[7], s[8], s[9], s[10], s[11],
        s[12], s[13], s[14], s[15], s[16], s[17], s[18], s[19], s[20], s[21], s[22], s[23],
    ];
    assert(h@ =~= s);
    assert((RecordHint { bytes: h }).bytes@ == s);
}

} // verus!
