//! How vaults and records are laid out in a store of keys and values.
//!
//! A vault is marked by the key that holds its 24 bytes. A record lives
//! under the bytes of its vault followed by its own 24 bytes, and its value
//! holds its hint in front of its data.

use crate::stronghold::types::{RecordHint, RecordId, VaultId};
use vstd::prelude::*;

verus! {

/// Copies 24 bytes from `from` on.
fn take24(bytes: &Vec<u8>, from: usize) -> (r: [u8; 24])
    requires
        from + 24 <= bytes.len(),
    ensures
        r@ == bytes@.subrange(from as int, from + 24),
{
    let mut out: [u8; 24] = [0u8; 24];
    let mut i: usize = 0;
    while i < 24
        invariant
            i <= 24,
            from + 24 <= bytes.len(),
            forall|j: int| 0 <= j < i ==> out[j] == bytes[from + j],
        decreases 24 - i,
    {
        out[i] = bytes[from + i];
        i += 1;
    }
    assert(out@ =~= bytes@.subrange(from as int, from + 24));
    out
}

/// Puts 24 bytes behind what `out` holds.
fn put24(out: &mut Vec<u8>, bytes: &[u8; 24])
    ensures
        final(out)@ == old(out)@ + bytes@,
{
    let ghost before = out@;
    let mut i: usize = 0;
    while i < 24
        invariant
            i <= 24,
            out@ == before + bytes@.take(i as int),
        decreases 24 - i,
    {
        out.push(bytes[i]);
        proof {
            assert(out@ =~= before + bytes@.take(i + 1));
        }
        i += 1;
    }
    assert(bytes@.take(24) =~= bytes@);
}

/// Tells whether two runs of 24 bytes are the same.
fn same24(a: &[u8; 24], b: &[u8; 24]) -> (r: bool)
    ensures
        r == (*a == *b),
{
    let mut i: usize = 0;
    while i < 24
        invariant
            i <= 24,
            forall|j: int| 0 <= j < i ==> a[j] == b[j],
        decreases 24 - i,
    {
        if a[i] != b[i] {
            return false;
        }
        i += 1;
    }
    assert(*a =~= *b);
    true
}

/// The key that marks a vault.
pub fn vault_key(vault: &VaultId) -> (key: Vec<u8>)
    ensures
        key@ == vault.bytes@,
{
    let mut key: Vec<u8> = Vec::new();
    put24(&mut key, &vault.bytes);
    assert(key@ =~= vault.bytes@);
    key
}

/// The key of a record of a vault.
pub fn record_key(vault: &VaultId, record: &RecordId) -> (key: Vec<u8>)
    ensures
        key@ == vault.bytes@ + record.bytes@,
{
    let mut key = vault_key(vault);
    put24(&mut key, &record.bytes);
    key
}

/// Whether a key marks a vault or holds a record.
pub open spec fn names_vault(key: Seq<u8>) -> bool {
    key.len() == 24 || key.len() == 48
}

/// The vault of the first 24 bytes of a key.
pub open spec fn vault_at(key: Seq<u8>) -> VaultId {
    VaultId {
        bytes: [
            key[0], key[1], key[2], key[3], key[4], key[5], key[6], key[7],
            key[8], key[9], key[10], key[11], key[12], key[13], key[14], key[15],
            key[16], key[17], key[18], key[19], key[20], key[21], key[22], key[23],
        ],
    }
}

/// The vault that a key belongs to: that of its first 24 bytes, if the key
/// marks a vault or holds a record.
pub fn key_vault(key: &Vec<u8>) -> (r: Option<VaultId>)
    ensures
        r.is_some() <==> names_vault(key@),
        r matches Some(vault) ==> vault == vault_at(key@) && vault.bytes@ == key@.take(24),
{
    if key.len() == 24 || key.len() == 48 {
        let bytes = take24(key, 0);
        assert(key@.subrange(0, 24) =~= key@.take(24));
        assert(bytes =~= vault_at(key@).bytes);
        Some(VaultId { bytes })
    } else {
        None
    }
}

/// The record of the last 24 bytes of a key of 48 bytes.
pub open spec fn record_at(key: Seq<u8>) -> RecordId {
    RecordId {
        bytes: [
            key[24], key[25], key[26], key[27], key[28], key[29], key[30], key[31],
            key[32], key[33], key[34], key[35], key[36], key[37], key[38], key[39],
            key[40], key[41], key[42], key[43], key[44], key[45], key[46], key[47],
        ],
    }
}

/// The hint of the first 24 bytes of a value.
pub open spec fn hint_at(value: Seq<u8>) -> RecordHint {
    RecordHint {
        bytes: [
            value[0], value[1], value[2], value[3], value[4], value[5], value[6], value[7],
            value[8], value[9], value[10], value[11], value[12], value[13], value[14], value[15],
            value[16], value[17], value[18], value[19], value[20], value[21], value[22], value[23],
        ],
    }
}

/// Whether a key holds a record of `vault`.
pub open spec fn holds_record(key: Seq<u8>, vault: VaultId) -> bool {
    key.len() == 48 && key.take(24) == vault.bytes@
}

/// The record of `vault` that a key holds, if it holds one.
pub fn key_record(key: &Vec<u8>, vault: &VaultId) -> (r: Option<RecordId>)
    ensures
        r.is_some() <==> holds_record(key@, *vault),
        r matches Some(record) ==> record == record_at(key@) && key@ == vault.bytes@
            + record.bytes@,
{
    if key.len() != 48 {
        return None;
    }
    proof {
        assert(key@.subrange(0, 24) =~= key@.take(24));
    }
    let front = take24(key, 0);
    if !same24(&front, &vault.bytes) {
        proof {
            if key@.take(24) == vault.bytes@ {
                assert(front =~= vault.bytes);
            }
        }
        return None;
    }
    let bytes = take24(key, 24);
    assert(key@ =~= vault.bytes@ + bytes@);
    assert(bytes =~= record_at(key@).bytes);
    Some(RecordId { bytes })
}

/// The value of a record: its hint, then its data.
pub fn pack(hint: &RecordHint, data: &Vec<u8>) -> (value: Vec<u8>)
    ensures
        value@ == hint.bytes@ + data@,
{
    let mut value: Vec<u8> = Vec::new();
    put24(&mut value, &hint.bytes);
    let ghost front = value@;
    let mut i: usize = 0;
    while i < data.len()
        invariant
            i <= data.len(),
            value@ == front + data@.take(i as int),
        decreases data.len() - i,
    {
        value.push(data[i]);
        proof {
            assert(value@ =~= front + data@.take(i + 1));
        }
        i += 1;
    }
    assert(data@.take(data.len() as int) =~= data@);
    assert(front =~= hint.bytes@);
    value
}

/// The hint and the data of a record, if the value holds a record.
pub fn unpack(value: &Vec<u8>) -> (r: Option<(RecordHint, Vec<u8>)>)
    ensures
        r.is_some() <==> value.len() >= 24,
        r matches Some(record) ==> record.0 == hint_at(value@) && record.1@ == value@.skip(24)
            && value@ == record.0.bytes@ + record.1@,
{
    if value.len() < 24 {
        return None;
    }
    let bytes = take24(value, 0);
    let mut data: Vec<u8> = Vec::new();
    let mut i: usize = 24;
    while i < value.len()
        invariant
            24 <= i <= value.len(),
            data@ == value@.subrange(24, i as int),
        decreases value.len() - i,
    {
        data.push(value[i]);
        proof {
            assert(data@ =~= value@.subrange(24, i + 1));
        }
        i += 1;
    }
    assert(value@ =~= bytes@ + data@);
    assert(data@ =~= value@.skip(24));
    assert(bytes =~= hint_at(value@).bytes);
    Some((RecordHint { bytes }, data))
}

/// The number that the first two bytes of a vault spell.
pub open spec fn number(vault: VaultId) -> int {
    vault.bytes[0] * 256 + vault.bytes[1]
}

/// The largest number of the vaults, or zero where there is no vault.
pub open spec fn max_number(vaults: Seq<VaultId>) -> int
    decreases vaults.len(),
{
    if vaults.len() == 0 {
        0
    } else {
        let front = max_number(vaults.drop_last());
        if number(vaults.last()) > front {
            number(vaults.last())
        } else {
            front
        }
    }
}

/// No vault has a number beyond the largest one.
pub proof fn lemma_max_number(vaults: Seq<VaultId>)
    ensures
        0 <= max_number(vaults) <= 65535,
        forall|k: int| 0 <= k < vaults.len() ==> number(#[trigger] vaults[k]) <= max_number(vaults),
    decreases vaults.len(),
{
    if vaults.len() > 0 {
        let front = vaults.drop_last();
        lemma_max_number(front);
        assert forall|k: int| 0 <= k < vaults.len() implies number(#[trigger] vaults[k])
            <= max_number(vaults) by {
            if k < front.len() {
                assert(front[k] == vaults[k]);
            }
        }
    }
}

/// A vault that is none of the taken ones: the one with the number behind
/// the largest taken number, and zeros behind its number. There is none
/// once the numbers have run out.
pub fn fresh_vault(taken: &Vec<VaultId>) -> (r: Option<VaultId>)
    ensures
        r.is_some() <==> max_number(taken@) < 65535,
        r matches Some(vault) ==> {
            &&& number(vault) == max_number(taken@) + 1
            &&& forall|j: int| 2 <= j < 24 ==> vault.bytes[j] == 0
            &&& !taken@.contains(vault)
        },
{
    let mut largest: u32 = 0;
    let mut i: usize = 0;
    while i < taken.len()
        invariant
            i <= taken.len(),
            largest == max_number(taken@.take(i as int)),
            largest <= 65535,
        decreases taken.len() - i,
    {
        proof {
            assert(taken@.take(i + 1).drop_last() =~= taken@.take(i as int));
        }
        let here = taken[i].bytes[0] as u32 * 256 + taken[i].bytes[1] as u32;
        if here > largest {
            largest = here;
        }
        i += 1;
    }
    proof {
        assert(taken@.take(taken.len() as int) =~= taken@);
        lemma_max_number(taken@);
    }
    if largest >= 65535 {
        return None;
    }
    let next = largest + 1;
    let mut bytes: [u8; 24] = [0u8; 24];
    bytes[0] = (next / 256) as u8;
    bytes[1] = (next % 256) as u8;
    let vault = VaultId { bytes };
    proof {
        assert(number(vault) == next);
        if taken@.contains(vault) {
            let k = choose|k: int| 0 <= k < taken@.len() && taken@[k] == vault;
            assert(number(taken@[k]) <= max_number(taken@));
        }
    }
    Some(vault)
}

/// The vaults of some keys, each of them once, in the order in which the
/// keys name them first.
pub open spec fn vaults_in(keys: Seq<Vec<u8>>) -> Seq<VaultId>
    decreases keys.len(),
{
    if keys.len() == 0 {
        Seq::empty()
    } else {
        let front = vaults_in(keys.drop_last());
        let key = keys.last()@;
        if names_vault(key) && !front.contains(vault_at(key)) {
            front.push(vault_at(key))
        } else {
            front
        }
    }
}

/// Tells whether `vault` is among the vaults.
pub fn has_vault(vaults: &Vec<VaultId>, vault: &VaultId) -> (r: bool)
    ensures
        r == vaults@.contains(*vault),
{
    let mut i: usize = 0;
    while i < vaults.len()
        invariant
            i <= vaults.len(),
            forall|j: int| 0 <= j < i ==> vaults[j] != *vault,
        decreases vaults.len() - i,
    {
        if same24(&vaults[i].bytes, &vault.bytes) {
            assert(vaults[i as int] == *vault);
            return true;
        }
        i += 1;
    }
    false
}

/// Lists the vaults of some keys, each of them once, in the order in which
/// the keys name them first.
pub fn listed_vaults(keys: &Vec<Vec<u8>>) -> (vaults: Vec<VaultId>)
    ensures
        vaults@ == vaults_in(keys@),
{
    let mut vaults: Vec<VaultId> = Vec::new();
    let mut k: usize = 0;
    while k < keys.len()
        invariant
            k <= keys.len(),
            vaults@ == vaults_in(keys@.take(k as int)),
        decreases keys.len() - k,
    {
        proof {
            assert(keys@.take(k + 1).drop_last() =~= keys@.take(k as int));
        }
        match key_vault(&keys[k]) {
            Some(vault) => {
                if !has_vault(&vaults, &vault) {
                    vaults.push(vault);
                }
            },
            None => {},
        }
        k += 1;
    }
    proof {
        assert(keys@.take(keys.len() as int) =~= keys@);
    }
    vaults
}

/// The records of a vault among some keys with their values, in the order
/// of the keys: their identifiers and hints. A value that is too short for a
/// hint holds no record.
pub open spec fn records_in(entries: Seq<(Vec<u8>, Vec<u8>)>, vault: VaultId) -> Seq<
    (RecordId, RecordHint),
>
    decreases entries.len(),
{
    if entries.len() == 0 {
        Seq::empty()
    } else {
        let front = records_in(entries.drop_last(), vault);
        let key = entries.last().0@;
        let value = entries.last().1@;
        if holds_record(key, vault) && value.len() >= 24 {
            front.push((record_at(key), hint_at(value)))
        } else {
            front
        }
    }
}

/// Lists the records of a vault among some keys with their values.
pub fn listed_records(entries: &Vec<(Vec<u8>, Vec<u8>)>, vault: &VaultId) -> (records: Vec<
    (RecordId, RecordHint),
>)
    ensures
        records@ == records_in(entries@, *vault),
{
    let mut records: Vec<(RecordId, RecordHint)> = Vec::new();
    let mut k: usize = 0;
    while k < entries.len()
        invariant
            k <= entries.len(),
            records@ == records_in(entries@.take(k as int), *vault),
        decreases entries.len() - k,
    {
        proof {
            assert(entries@.take(k + 1).drop_last() =~= entries@.take(k as int));
        }
        match key_record(&entries[k].0, vault) {
            Some(record) => {
                match unpack(&entries[k].1) {
                    Some(held) => {
                        records.push((record, held.0));
                    },
                    None => {},
                }
            },
            None => {},
        }
        k += 1;
    }
    proof {
        assert(entries@.take(entries.len() as int) =~= entries@);
    }
    records
}

/// A key that was made for a record is read as that record of its vault,
/// and a value that was made of a hint and data is read as that hint and
/// that data.
pub proof fn lemma_layout_is_read_back(
    vault: VaultId,
    record: RecordId,
    other: RecordId,
    hint: RecordHint,
    back: RecordHint,
    data: Seq<u8>,
    read: Seq<u8>,
)
    ensures
        vault.bytes@ + record.bytes@ == vault.bytes@ + other.bytes@ ==> record == other,
        hint.bytes@ + data == back.bytes@ + read ==> hint == back && data == read,
        (vault.bytes@ + record.bytes@).len() == 48,
        (vault.bytes@ + record.bytes@).take(24) == vault.bytes@,
{
    assert((vault.bytes@ + record.bytes@).take(24) =~= vault.bytes@);
    if vault.bytes@ + record.bytes@ == vault.bytes@ + other.bytes@ {
        assert forall|j: int| 0 <= j < 24 implies record.bytes[j] == other.bytes[j] by {
            assert((vault.bytes@ + record.bytes@)[24 + j] == record.bytes[j]);
            assert((vault.bytes@ + other.bytes@)[24 + j] == other.bytes[j]);
        }
        assert(record.bytes =~= other.bytes);
    }
    if hint.bytes@ + data == back.bytes@ + read {
        assert forall|j: int| 0 <= j < 24 implies hint.bytes[j] == back.bytes[j] by {
            assert((hint.bytes@ + data)[j] == hint.bytes[j]);
            assert((back.bytes@ + read)[j] == back.bytes[j]);
        }
        assert(hint.bytes =~= back.bytes);
        assert((hint.bytes@ + data).skip(24) =~= data);
        assert((back.bytes@ + read).skip(24) =~= read);
    }
}

} // verus!
