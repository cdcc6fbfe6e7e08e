//! Balanced ternary: trits, trytes and the Kerl hash.
//!
//! A trit is held as an `i8` that is -1, 0 or 1. The two functions that reach
//! into the `iota` crate are trusted: Verus believes their contracts as they
//! stand here.

use iota::crypto::{Kerl, Sponge};
use iota::ternary::{T1B1Buf, Trits, TryteBuf, T1B1};
use vstd::prelude::*;

verus! {

/// Number of trits in a hash and in an address.
pub const HASH_TRIT_LEN: usize = 243;

/// Whether every entry of `trits` is a balanced trit.
pub open spec fn valid_trits(trits: Seq<i8>) -> bool {
    forall|i: int| 0 <= i < trits.len() ==> -1 <= #[trigger] trits[i] <= 1
}

/// Whether `c` is one of the 27 tryte characters, `9` and `A` to `Z`.
pub open spec fn is_tryte(c: char) -> bool {
    c == '9' || ('A' <= c && c <= 'Z')
}

/// The number between -13 and 13 that a tryte character stands for.
pub open spec fn tryte_value(c: char) -> int {
    if c == '9' {
        0
    } else if 'A' <= c && c <= 'M' {
        c as int - 'A' as int + 1
    } else {
        c as int - 'N' as int - 13
    }
}

/// Three to the power of `k`, for the three trits of a tryte.
pub open spec fn pow3(k: int) -> int {
    if k == 0 {
        1
    } else if k == 1 {
        3
    } else {
        9
    }
}

/// The trit at position `k` (0, 1 or 2) of the tryte character `c`, least
/// significant first.
pub open spec fn tryte_trit(c: char, k: int) -> int {
    ((tryte_value(c) + 13) / pow3(k)) % 3 - 1
}

/// The Kerl hash of a sequence of trits whose length is a multiple of 243.
pub uninterp spec fn kerl_hash(input: Seq<i8>) -> Seq<i8>;

/// Calls `Kerl::digest` of the `iota` crate on a fresh sponge.
///
/// The contract claims that the sponge refuses exactly the inputs whose
/// length is no multiple of 243, and that it otherwise squeezes 243 balanced
/// trits that depend on the input alone.
#[verifier::external_body]
pub(crate) fn kerl_digest(input: &Vec<i8>) -> (hash: Option<Vec<i8>>)
    requires
        valid_trits(input@),
    ensures
        hash.is_some() <==> input.len() % 243 == 0,
        hash matches Some(h) ==> h@ == kerl_hash(input@) && h.len() == 243 && valid_trits(h@),
{
    let trits: &Trits<T1B1> = Trits::try_from_raw(input.as_slice(), input.len()).ok()?;
    match Kerl::new().digest(trits) {
        Ok(hash) => Some(hash.as_i8_slice().to_vec()),
        Err(_) => None,
    }
}

/// Calls `TryteBuf::try_from_str` of the `iota` crate and spreads the trytes
/// into one trit per entry.
///
/// The contract claims that a string is refused exactly when one of its
/// characters is no tryte, and that each tryte yields its three trits in
/// order, least significant first.
#[verifier::external_body]
pub(crate) fn trytes_to_trits(trytes: &str) -> (trits: Option<Vec<i8>>)
    ensures
        trits.is_some() <==> forall|i: int| 0 <= i < trytes@.len() ==> is_tryte(#[trigger] trytes@[i]),
        trits matches Some(t) ==> {
            &&& t.len() == 3 * trytes@.len()
            &&& valid_trits(t@)
            &&& forall|i: int, k: int|
                0 <= i < trytes@.len() && 0 <= k < 3 ==> #[trigger] t[3 * i + k] == tryte_trit(
                    trytes@[i],
                    k,
                )
        },
{
    let buf = TryteBuf::try_from_str(trytes).ok()?;
    Some(buf.as_trits().encode::<T1B1Buf>().as_i8_slice().to_vec())
}

} // verus!
