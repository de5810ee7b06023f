use sp_runtime::traits::AccountIdConversion;
use vstd::prelude::*;
use crate::types::AccountId;

verus! {

/// The module identifier from which the escrow account is derived.
pub const PALLET_ID: [u8; 8] = [56, 66, 65, 90, 65, 65, 82, 56];

/// The little-endian value of eight bytes.
pub open spec fn le_u64(b: Seq<u8>) -> int
    recommends
        b.len() == 8,
{
    b[0] as int + 256 * (b[1] as int + 256 * (b[2] as int + 256 * (b[3] as int + 256 * (
    b[4] as int + 256 * (b[5] as int + 256 * (b[6] as int + 256 * (b[7] as int)))))))
}

/// The account derived from a module identifier: the encoding of the tag
/// `modl` followed by the identifier, decoded as a `u64` (its first eight bytes,
/// little-endian).
pub open spec fn derived_account(id: Seq<u8>) -> int {
    le_u64(seq![109u8, 111u8, 100u8, 108u8, id[0], id[1], id[2], id[3]])
}

/// Relies on sp_runtime's `AccountIdConversion::into_account` for `ModuleId`:
/// it SCALE-encodes `(b"modl", id, ())` (twelve raw bytes) and decodes the
/// account from them padded with trailing zeroes; a `u64` decodes from the
/// first eight, little-endian.
#[verifier::external_body]
pub(crate) fn module_account(id: [u8; 8]) -> (r: AccountId)
    ensures
        r as int == derived_account(id@),
{
    sp_runtime::ModuleId(id).into_account()
}

} // verus!
