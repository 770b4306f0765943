//! The claim store: creation, withdrawal and lookup of unlocking positions.

use crate::model::{first_after, id_range, owner_fits, ClaimsState, DEFAULT_LIMIT};
use crate::storage::{
    erase_claim, index_add, index_drop, index_next, read_claim, read_counter, storage_intact,
    stored_claims, stored_counter, stored_index, write_claim, write_counter,
};
use crate::types::{page_view, BlockInfo, Claim, ClaimError, Expiration, MessageInfo};
use cosmwasm_std::MemoryStorage;
use vstd::pervasive::unreached;
use vstd::prelude::*;

verus! {

/// The names under which a claim store keeps its three parts in storage. The
/// store itself holds no data: every operation takes the storage it works on.
pub struct Claims<'a> {
    /// The namespace of the primary table, from id to claim.
    pub claims_namespace: &'a str,
    /// The namespace of the owner index.
    pub claims_index_namespace: &'a str,
    /// The key of the cell that holds the id of the next claim.
    pub num_claims_key: &'a str,
}

/// Whether three names keep the parts of a store apart in storage. The two
/// namespaces differ and are shorter than 256 bytes, so that every key of a
/// table starts with a zero byte and with the length and name of its table;
/// the key of the counter starts with no zero byte.
pub open spec fn names_apart(
    claims_namespace: Seq<char>,
    index_namespace: Seq<char>,
    counter_key: Seq<char>,
) -> bool {
    &&& claims_namespace != index_namespace
    &&& vstd::utf8::encode_utf8(claims_namespace).len() < 256
    &&& vstd::utf8::encode_utf8(index_namespace).len() < 256
    &&& vstd::utf8::encode_utf8(counter_key).len() > 0 ==> vstd::utf8::encode_utf8(
        counter_key,
    )[0] != 0
}

/// A storage without entries. It holds an empty store, which is in good
/// order under any names that keep the parts of a store apart.
pub fn new_storage() -> (storage: MemoryStorage)
    ensures
        forall|names: Claims| #[trigger] names.state(storage) == ClaimsState::empty(),
        forall|names: Claims| names.wf() ==> #[trigger] names.inv(storage),
{
    let storage = MemoryStorage::new();
    assert forall|names: Claims| #[trigger] names.state(storage) == ClaimsState::empty() by {
        assert(names.state(storage).claims =~= ClaimsState::empty().claims);
        assert(names.state(storage).index =~= ClaimsState::empty().index);
    }
    storage
}

impl<'a> Claims<'a> {
    /// Whether the names of this store keep its parts apart.
    pub open spec fn wf(&self) -> bool {
        names_apart(self.claims_namespace@, self.claims_index_namespace@, self.num_claims_key@)
    }

    /// What `storage` holds for this store.
    pub open spec fn state(&self, storage: MemoryStorage) -> ClaimsState {
        ClaimsState {
            claims: stored_claims(storage, self.claims_namespace@),
            index: stored_index(storage, self.claims_index_namespace@),
            counter: stored_counter(storage, self.num_claims_key@),
        }
    }

    /// Whether all that `storage` holds for this store can be read back.
    pub open spec fn intact(&self, storage: MemoryStorage) -> bool {
        storage_intact(
            storage,
            self.claims_namespace@,
            self.claims_index_namespace@,
            self.num_claims_key@,
        )
    }

    /// Whether `storage` holds a store in good order under these names.
    pub open spec fn inv(&self, storage: MemoryStorage) -> bool {
        &&& self.wf()
        &&& self.intact(storage)
        &&& self.state(storage).inv()
    }

    /// A store that keeps its primary table under `claims_namespace`, its
    /// owner index under `claims_index_namespace` and its id counter under
    /// `num_claims_key`.
    pub fn new(
        claims_namespace: &'a str,
        claims_index_namespace: &'a str,
        num_claims_key: &'a str,
    ) -> (claims: Self)
        ensures
            claims.claims_namespace@ == claims_namespace@,
            claims.claims_index_namespace@ == claims_index_namespace@,
            claims.num_claims_key@ == num_claims_key@,
    {
        Claims { claims_namespace, claims_index_namespace, num_claims_key }
    }

    /// The store with these three names, if they keep its parts apart.
    pub fn checked(
        claims_namespace: &'a str,
        claims_index_namespace: &'a str,
        num_claims_key: &'a str,
    ) -> (r: Option<Self>)
        ensures
            r is Some <==> names_apart(claims_namespace@, claims_index_namespace@, num_claims_key@),
            r matches Some(claims) ==> {
                &&& claims.wf()
                &&& claims.claims_namespace@ == claims_namespace@
                &&& claims.claims_index_namespace@ == claims_index_namespace@
                &&& claims.num_claims_key@ == num_claims_key@
            },
    {
        let table = claims_namespace.as_bytes();
        let index = claims_index_namespace.as_bytes();
        let key = num_claims_key.as_bytes();
        let same = claims_namespace.to_owned() == claims_index_namespace.to_owned();
        if same || table.len() >= 256 || index.len() >= 256 || (key.len() > 0 && key[0] == 0) {
            None
        } else {
            Some(Claims { claims_namespace, claims_index_namespace, num_claims_key })
        }
    }

    /// Creates a claim of `amount` base tokens for `addr` that matures at
    /// `release_at`, under the id that the counter holds, and moves the
    /// counter on by one. The amount is stored as it is given.
    pub fn create_claim(
        &self,
        storage: &mut MemoryStorage,
        addr: &str,
        amount: u128,
        release_at: Expiration,
    ) -> (r: Result<Claim, ClaimError>)
        requires
            self.inv(*old(storage)),
            owner_fits(addr@),
            self.state(*old(storage)).next_id() < u64::MAX,
        ensures
            self.inv(*final(storage)),
            r matches Ok(claim) && claim@ == self.state(*old(storage)).created(
                addr@,
                amount,
                release_at,
            ),
            self.state(*final(storage)) == self.state(*old(storage)).create(
                addr@,
                amount,
                release_at,
            ),
    {
        let id = match read_counter(self, storage) {
            Ok(Some(next)) => next,
            Ok(None) => 0,
            Err(_) => unreached(),
        };
        match write_counter(self, storage, id + 1) {
            Ok(()) => {},
            Err(_) => unreached(),
        }
        let claim = Claim { id, owner: addr.to_owned(), release_at, base_token_amount: amount };
        match index_add(self, storage, &claim) {
            Ok(()) => {},
            Err(_) => unreached(),
        }
        match write_claim(self, storage, &claim) {
            Ok(()) => {},
            Err(_) => unreached(),
        }
        Ok(claim)
    }

    /// Withdraws the claim `id` for the sender of `info`: the claim has to
    /// exist, to belong to the sender and to have matured in `block`, tested
    /// in this order. The claim is then removed and its whole amount
    /// returned. Where a test fails the storage is left as it was.
    pub fn claim_tokens(
        &self,
        storage: &mut MemoryStorage,
        block: &BlockInfo,
        info: &MessageInfo,
        id: u64,
    ) -> (r: Result<u128, ClaimError>)
        requires
            self.inv(*old(storage)),
        ensures
            self.inv(*final(storage)),
            r == self.state(*old(storage)).claim_outcome(*block, info.sender@, id),
            self.state(*final(storage)) == self.state(*old(storage)).after_claim(
                *block,
                info.sender@,
                id,
            ),
            r is Err ==> *final(storage) == *old(storage),
    {
        let claim = match read_claim(self, storage, id) {
            Ok(Some(claim)) => claim,
            _ => {
                return Err(ClaimError::NotFound);
            },
        };
        if !(claim.owner == info.sender) {
            return Err(ClaimError::Unauthorized);
        }
        if !claim.release_at.is_expired(block) {
            return Err(ClaimError::NotMatured);
        }
        self.remove(storage, &claim);
        Ok(claim.base_token_amount)
    }

    /// Withdraws `claim_amount` of the claim `lock_id` for the sender of
    /// `info`, or all of it where no amount is named, whether or not the
    /// claim has matured. The claim has to exist and to belong to the sender,
    /// and the amount may not exceed what the claim holds. A claim of which
    /// nothing is left is removed; otherwise the remainder is stored. Where a
    /// test fails the storage is left as it was.
    pub fn force_claim(
        &self,
        storage: &mut MemoryStorage,
        info: &MessageInfo,
        lock_id: u64,
        claim_amount: Option<u128>,
    ) -> (r: Result<u128, ClaimError>)
        requires
            self.inv(*old(storage)),
        ensures
            self.inv(*final(storage)),
            r == self.state(*old(storage)).force_outcome(info.sender@, lock_id, claim_amount),
            self.state(*final(storage)) == self.state(*old(storage)).after_force(
                info.sender@,
                lock_id,
                claim_amount,
            ),
            r is Err ==> *final(storage) == *old(storage),
    {
        let mut lockup = match read_claim(self, storage, lock_id) {
            Ok(Some(claim)) => claim,
            _ => {
                return Err(ClaimError::NotFound);
            },
        };
        if !(lockup.owner == info.sender) {
            return Err(ClaimError::Unauthorized);
        }
        let claimable_amount = lockup.base_token_amount;
        let claimed = match claim_amount {
            Some(amount) => amount,
            None => claimable_amount,
        };
        let left_after_claim = match claimable_amount.checked_sub(claimed) {
            Some(left) => left,
            None => {
                return Err(
                    ClaimError::InvalidAmount { claimable: claimable_amount, requested: claimed },
                );
            },
        };
        if left_after_claim > 0 {
            lockup.base_token_amount = left_after_claim;
            match write_claim(self, storage, &lockup) {
                Ok(()) => {},
                Err(_) => unreached(),
            }
        } else {
            self.remove(storage, &lockup);
        }
        Ok(claimed)
    }

    /// Removes `claim` from the primary table and from the owner index.
    fn remove(&self, storage: &mut MemoryStorage, claim: &Claim)
        requires
            self.inv(*old(storage)),
            self.state(*old(storage)).claims.contains_key(claim.id),
            self.state(*old(storage)).claims[claim.id].owner == claim.owner@,
        ensures
            self.inv(*final(storage)),
            self.state(*final(storage)) == self.state(*old(storage)).without(claim.id),
    {
        index_drop(self, storage, claim);
        erase_claim(self, storage, claim.id);
    }

    /// The claim stored under `lockup_id`.
    pub fn query_claim_by_id(&self, storage: &MemoryStorage, lockup_id: u64) -> (r: Result<
        Claim,
        ClaimError,
    >)
        requires
            self.inv(*storage),
        ensures
            match r {
                Ok(claim) => self.state(*storage).lookup(lockup_id) == Ok::<_, ClaimError>(claim@),
                Err(e) => self.state(*storage).lookup(lockup_id) == Err::<
                    crate::types::ClaimView,
                    _,
                >(e),
            },
    {
        match read_claim(self, storage, lockup_id) {
            Ok(Some(claim)) => Ok(claim),
            _ => Err(ClaimError::NotFound),
        }
    }

    /// The claims of `owner` with an id greater than `start_after`, by
    /// ascending id, and of these the first `limit`, or the first ten where
    /// no limit is named.
    pub fn query_claims_for_owner(
        &self,
        storage: &MemoryStorage,
        owner: &str,
        start_after: Option<u64>,
        limit: Option<u32>,
    ) -> (r: Result<Vec<(u64, Claim)>, ClaimError>)
        requires
            self.inv(*storage),
        ensures
            r matches Ok(found) && page_view(found@) == self.state(*storage).query(
                owner@,
                start_after,
                limit,
            ),
    {
        let cap = match limit {
            Some(n) => n,
            None => DEFAULT_LIMIT,
        };
        let ghost state = self.state(*storage);
        let mut found: Vec<(u64, Claim)> = Vec::new();
        if owner.as_bytes().len() > 0xFFFF {
            // No claim has an owner that the index cannot hold.
            proof {
                state.lemma_ids_between(owner@, first_after(start_after), id_range());
                let ids = state.ids_after(owner@, start_after);
                if ids.len() > 0 {
                    assert(state.owns(owner@, ids[0] as int));
                    assert(state.claims.contains_key(ids[0]));
                }
                assert(page_view(found@) =~= state.page(owner@, start_after, cap as nat));
            }
            return Ok(found);
        }
        let mut cursor = start_after;
        let mut taken: u32 = 0;
        while taken < cap
            invariant
                self.inv(*storage),
                state == self.state(*storage),
                owner_fits(owner@),
                taken <= cap,
                state.query(owner@, start_after, limit) == state.page(
                    owner@,
                    start_after,
                    cap as nat,
                ),
                found@.len() == taken,
                state.index_page(owner@, start_after, taken as nat, page_view(found@)),
                cursor == if taken == 0 {
                    start_after
                } else {
                    Some(found@[taken - 1].0)
                },
            decreases cap - taken,
        {
            let ghost before = page_view(found@);
            match index_next(self, storage, owner, cursor) {
                Ok(Some(entry)) => {
                    let id = entry.0;
                    let ghost claim = entry.1@;
                    proof {
                        assert(state.listed(owner@, cursor, id));
                        assert(state.index.contains((owner@, id)));
                    }
                    found.push(entry);
                    proof {
                        let after = page_view(found@);
                        assert(after =~= before.push((id, claim)));
                        assert(first_after(start_after) <= first_after(cursor)) by {
                            if taken > 0 {
                                assert(state.listed(owner@, start_after, before[taken - 1].0));
                            }
                        }
                        assert(state.listed(owner@, start_after, id));
                        assert forall|k: int| 0 <= k < after.len() implies {
                            &&& state.listed(owner@, start_after, (#[trigger] after[k]).0)
                            &&& state.claims.contains_key(after[k].0)
                            &&& after[k].1 == state.claims[after[k].0]
                        } by {
                            if k < taken {
                                assert(after[k] == before[k]);
                            }
                        }
                        assert forall|j: int, k: int| 0 <= j < k < after.len() implies (
                        #[trigger] after[j]).0 < (#[trigger] after[k]).0 by {
                            assert(after[j] == before[j]);
                            if k < taken {
                                assert(after[k] == before[k]);
                            } else {
                                assert(before[j].0 <= before[taken - 1].0) by {
                                    if j < taken - 1 {
                                        assert(before[j].0 < before[taken - 1].0);
                                    }
                                }
                            }
                        }
                        assert forall|other: u64|
                            #![trigger state.index.contains((owner@, other))]
                            state.listed(owner@, start_after, other) && (after.len() < taken + 1
                                || (after.len() > 0 && other <= after.last().0)) implies exists|
                            k: int,
                        | 0 <= k < after.len() && (#[trigger] after[k]).0 == other by {
                            if other == id {
                                assert(after[taken as int].0 == other);
                            } else if taken > 0 && other <= before[taken - 1].0 {
                                let k = choose|k: int|
                                    0 <= k < before.len() && (#[trigger] before[k]).0 == other;
                                assert(after[k].0 == other);
                            } else {
                                assert(state.listed(owner@, cursor, other));
                            }
                        }
                        assert(state.index_page(owner@, start_after, (taken + 1) as nat, after));
                    }
                    cursor = Some(id);
                    taken = taken + 1;
                },
                Ok(None) => {
                    proof {
                        assert forall|id: u64|
                            #![trigger state.index.contains((owner@, id))]
                            state.listed(owner@, start_after, id) implies exists|k: int|
                            0 <= k < before.len() && (#[trigger] before[k]).0 == id by {
                            if !(taken > 0 && id <= before[taken - 1].0) {
                                assert(state.listed(owner@, cursor, id));
                            }
                        }
                        assert(state.index_page(owner@, start_after, cap as nat, before));
                        state.lemma_index_page(owner@, start_after, cap as nat, before);
                    }
                    return Ok(found);
                },
                Err(_) => {
                    return unreached();
                },
            }
        }
        proof {
            state.lemma_index_page(owner@, start_after, cap as nat, page_view(found@));
        }
        Ok(found)
    }
}

} // verus!
