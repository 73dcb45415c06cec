//! The calls this library makes into the on-chain runtime: the cluster clock,
//! program-derived addresses and SHA-256.

use vstd::prelude::*;
use crate::pubkey::Pubkey;

verus! {

/// What the cluster clock reads at one moment.
#[derive(Clone, Copy, Debug)]
pub struct ClockReading {
    /// Seconds since the Unix epoch.
    pub unix_timestamp: i64,
    /// The current slot.
    pub slot: u64,
}

/// Reads the clock sysvar with `Clock::get()`; `None` where the runtime
/// cannot provide it. Nothing is promised of the values read: they are the
/// time.
#[verifier::external_body]
pub(crate) fn clock_get() -> (r: Option<ClockReading>) {
    match <anchor_lang::prelude::Clock as anchor_lang::solana_program::sysvar::Sysvar>::get() {
        Ok(clock) => Some(ClockReading { unix_timestamp: clock.unix_timestamp, slot: clock.slot }),
        Err(_) => None,
    }
}

/// The clock's Unix timestamp, or 0 where the clock cannot be read.
pub fn clock_unix_timestamp() -> i64 {
    match clock_get() {
        Some(c) => c.unix_timestamp,
        None => 0,
    }
}

/// The program-derived address and bump that `Pubkey::find_program_address`
/// computes for the given seeds and program id.
pub uninterp spec fn program_address(seeds: Seq<Seq<u8>>, program_id: Seq<u8>) -> (Seq<u8>, u8);

/// Calls `Pubkey::find_program_address(seeds, program_id)`. The claim is only
/// that the result is a function of the seeds and the program id (it is the
/// first off-curve hash of the seeds, a bump and the id). The call panics on
/// more than 15 seeds or a seed longer than 32 bytes, which `requires` rules
/// out, and in the statistically negligible case that no bump gives an
/// off-curve point, which nothing here can rule out.
#[verifier::external_body]
pub(crate) fn find_program_address(seeds: &Vec<Vec<u8>>, program_id: &Pubkey) -> (r: (Pubkey, u8))
    requires
        seeds.len() < 16,
        forall|i: int| 0 <= i < seeds.len() ==> #[trigger] seeds[i].len() <= 32,
    ensures
        (r.0.bytes@, r.1) == program_address(seeds.deep_view(), program_id.bytes@),
{
    let slices: Vec<&[u8]> = seeds.iter().map(|s| s.as_slice()).collect();
    let program = anchor_lang::prelude::Pubkey::new_from_array(program_id.bytes);
    let (address, bump) = anchor_lang::prelude::Pubkey::find_program_address(&slices, &program);
    (Pubkey { bytes: address.to_bytes() }, bump)
}

/// The SHA-256 digest of `data`.
pub uninterp spec fn sha256(data: Seq<u8>) -> Seq<u8>;

/// Calls `solana_program::hash::hash(data)`, the SHA-256 digest of the bytes.
/// The claim is only that the digest is a function of the bytes.
#[verifier::external_body]
pub(crate) fn hash_bytes(data: &Vec<u8>) -> (r: [u8; 32])
    ensures
        r@ == sha256(data@),
{
    anchor_lang::solana_program::hash::hash(data.as_slice()).to_bytes()
}

/// The base58 text of a 32-byte address, as `Pubkey`'s `Display` writes it.
pub uninterp spec fn base58(bytes: Seq<u8>) -> Seq<char>;

/// Calls `Pubkey::to_string` on the address, its base58 text. The claim is
/// only that the text is a function of the address's bytes.
#[verifier::external_body]
pub(crate) fn pubkey_base58(key: &Pubkey) -> (r: String)
    ensures
        r@ == base58(key.bytes@),
{
    anchor_lang::prelude::Pubkey::new_from_array(key.bytes).to_string()
}

/// The address that `Pubkey::from_str` reads from a base58 text, or none
/// where the text is not the base58 form of 32 bytes.
pub uninterp spec fn pubkey_from_text(text: Seq<char>) -> Option<Seq<u8>>;

/// Calls `Pubkey::from_str` on the text. The claim is only that the
/// outcome is a function of the text.
#[verifier::external_body]
pub(crate) fn parse_pubkey(text: &String) -> (r: Option<Pubkey>)
    ensures
        match r {
            Some(p) => pubkey_from_text(text@) == Some(p.bytes@),
            None => pubkey_from_text(text@) is None,
        },
{
    match text.parse::<anchor_lang::prelude::Pubkey>() {
        Ok(p) => Some(Pubkey { bytes: p.to_bytes() }),
        Err(_) => None,
    }
}

} // verus!
