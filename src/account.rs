//! Accounts derived from a module identifier.
use vstd::prelude::*;

use crate::AccountId;

verus! {

/// An eight-byte module identifier, from which the module's own account is
/// derived.
#[derive(Clone, Copy, Debug, PartialEq, Eq)]
pub struct PalletId(pub [u8; 8]);

/// The type tag that module identifiers carry in front of their bytes.
pub open spec fn module_type_tag() -> Seq<u8> {
    seq![0x6du8, 0x6fu8, 0x64u8, 0x6cu8]
}

/// The number that `bytes` spell in little-endian order.
pub open spec fn le_value(bytes: Seq<u8>) -> nat
    decreases bytes.len(),
{
    if bytes.len() == 0 {
        0
    } else {
        bytes[0] as nat + 256 * le_value(bytes.drop_first())
    }
}

/// The account of module `id`: the type tag followed by the identifier's
/// bytes, read as a little-endian account number from its first eight bytes.
pub open spec fn spec_module_account(id: PalletId) -> AccountId {
    le_value((module_type_tag() + id.0@).take(8)) as AccountId
}

/// The account of module `id`, as [`spec_module_account`] states it.
pub fn module_account(id: PalletId) -> (r: AccountId)
    ensures
        r == spec_module_account(id),
{
    let b = id.0;
    proof {
        let t = (module_type_tag() + b@).take(8);
        reveal_with_fuel(le_value, 9);
        assert(t =~= seq![0x6du8, 0x6fu8, 0x64u8, 0x6cu8, b@[0], b@[1], b@[2], b@[3]]);
        assert(t.drop_first() =~= seq![0x6fu8, 0x64u8, 0x6cu8, b@[0], b@[1], b@[2], b@[3]]);
        assert(t.drop_first().drop_first() =~= seq![0x64u8, 0x6cu8, b@[0], b@[1], b@[2], b@[3]]);
        assert(t.drop_first().drop_first().drop_first() =~= seq![0x6cu8, b@[0], b@[1], b@[2], b@[3]]);
        assert(t.drop_first().drop_first().drop_first().drop_first() =~= seq![b@[0], b@[1], b@[2], b@[3]]);
        assert(t.drop_first().drop_first().drop_first().drop_first().drop_first() =~= seq![b@[1], b@[2], b@[3]]);
        assert(t.drop_first().drop_first().drop_first().drop_first().drop_first().drop_first() =~= seq![b@[2], b@[3]]);
        assert(t.drop_first().drop_first().drop_first().drop_first().drop_first().drop_first().drop_first() =~= seq![b@[3]]);
    }
    0x6c64_6f6d_u64 + (b[0] as u64) * 0x1_0000_0000 + (b[1] as u64) * 0x100_0000_0000
        + (b[2] as u64) * 0x1_0000_0000_0000 + (b[3] as u64) * 0x100_0000_0000_0000
}

} // verus!
