//! Where the vault keeps its claims.

use crate::claims::Claims;
use vstd::prelude::*;

verus! {

/// The claim store of the vault: unlocking positions that are created when
/// vault tokens are redeemed while a lockup is in force.
pub fn claims() -> (store: Claims<'static>)
    ensures
        store.wf(),
        store.claims_namespace@ == "claims"@,
        store.claims_index_namespace@ == "claims_index"@,
        store.num_claims_key@ == "num_claims"@,
{
    proof {
        reveal_strlit("claims");
        reveal_strlit("claims_index");
        reveal_strlit("num_claims");
        vstd::utf8::is_ascii_chars_encode_utf8("claims"@);
        vstd::utf8::is_ascii_chars_encode_utf8("claims_index"@);
        vstd::utf8::is_ascii_chars_encode_utf8("num_claims"@);
        assert("claims"@.len() == 6);
        assert("claims_index"@.len() == 12);
        assert("num_claims"@[0] == 'n');
        assert(vstd::utf8::encode_utf8("num_claims"@)[0] == 'n' as u8);
    }
    Claims::new("claims", "claims_index", "num_claims")
}

} // verus!
