use anchor_lang::solana_program::pubkey::Pubkey;
use vstd::prelude::*;

verus! {

/// The fixed tag, `CAMPAIGN_DEMO`, that together with the administrator's key
/// seeds the derivation of a campaign's address.
pub const CAMPAIGN_SEED: [u8; 13] = [67, 65, 77, 80, 65, 73, 71, 78, 95, 68, 69, 77, 79];

/// The program derived address, with its bump seed, that the platform finds
/// for the seeds `[tag, key]` under `program`; `None` where a seed is longer
/// than 32 bytes or no bump seed gives an address off the curve.
pub uninterp spec fn program_address_of(tag: Seq<u8>, key: Seq<u8>, program: Seq<u8>) -> Option<
    (Seq<u8>, u8),
>;

/// Relies on `Pubkey::try_find_program_address`: the address and bump seed
/// for the seeds `[tag, key]` under the program `program`, a function of these
/// bytes alone.
#[verifier::external_body]
fn find_program_address(tag: &[u8], key: &[u8; 32], program: &[u8; 32]) -> (r: Option<
    ([u8; 32], u8),
>)
    ensures
        match r {
            Some((a, b)) => program_address_of(tag@, key@, program@) == Some((a@, b)),
            None => program_address_of(tag@, key@, program@) is None,
        },
{
    Pubkey::try_find_program_address(&[tag, &key[..]], &Pubkey::new_from_array(*program)).map(
        |(k, b)| (k.to_bytes(), b),
    )
}

/// The address of the campaign administered by `admin` under `program`.
pub open spec fn campaign_address_of(admin: Seq<u8>, program: Seq<u8>) -> Option<Seq<u8>> {
    match program_address_of(CAMPAIGN_SEED@, admin, program) {
        Some((a, _)) => Some(a),
        None => None,
    }
}

/// Derives the address of the campaign record of `admin` under `program`.
pub fn campaign_address(admin: &[u8; 32], program: &[u8; 32]) -> (r: Option<[u8; 32]>)
    ensures
        match r {
            Some(a) => campaign_address_of(admin@, program@) == Some(a@),
            None => campaign_address_of(admin@, program@) is None,
        },
{
    let seed = CAMPAIGN_SEED;
    match find_program_address(vstd::array::array_as_slice(&seed), admin, program) {
        Some((a, _)) => Some(a),
        None => None,
    }
}

/// Whether two keys hold the same bytes.
pub fn keys_equal(a: &[u8; 32], b: &[u8; 32]) -> (r: bool)
    ensures
        r == (a@ == b@),
{
    let mut i: usize = 0;
    while i < 32
        invariant
            i <= 32,
            a@.len() == 32,
            b@.len() == 32,
            forall|j: int| 0 <= j < i ==> a@[j] == b@[j],
        decreases 32 - i,
    {
        if a[i] != b[i] {
            assert(a@[i as int] != b@[i as int]);
            return false;
        }
        i = i + 1;
    }
    assert(a@ =~= b@);
    true
}

} // verus!
