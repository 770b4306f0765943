//! The claim store as a mathematical value, and what each operation makes of
//! it. The executable store is specified against these definitions.

use crate::types::{BlockInfo, ClaimError, ClaimView, Expiration};
use vstd::prelude::*;

verus! {

/// The page size of an owner query that names no limit.
pub const DEFAULT_LIMIT: u32 = 10;

/// One more than the largest id.
pub open spec fn id_range() -> int {
    u64::MAX + 1
}

/// Whether an owner can be written into a key of the owner index: the index
/// prefixes each owner with its length in bytes, in 16 bits.
pub open spec fn owner_fits(owner: Seq<char>) -> bool {
    vstd::utf8::encode_utf8(owner).len() <= 0xFFFF
}

/// The smallest id that lies behind `start_after`.
pub open spec fn first_after(start_after: Option<u64>) -> int {
    match start_after {
        Some(id) => id + 1,
        None => 0,
    }
}

/// What the store holds: the primary table, the owner index and the cell of
/// the id counter.
pub struct ClaimsState {
    /// The live claims by id.
    pub claims: Map<u64, ClaimView>,
    /// The entries of the owner index: an owner and the id of one of its claims.
    pub index: Set<(Seq<char>, u64)>,
    /// The counter cell; `None` while nothing was written to it.
    pub counter: Option<u64>,
}

impl ClaimsState {
    /// The store before anything was written.
    pub open spec fn empty() -> ClaimsState {
        ClaimsState { claims: Map::empty(), index: Set::empty(), counter: None }
    }

    /// The id that the next claim gets; an unwritten counter counts as 0.
    pub open spec fn next_id(self) -> u64 {
        match self.counter {
            Some(id) => id,
            None => 0,
        }
    }

    /// Whether `id` is the id of a live claim of `owner`.
    pub open spec fn owns(self, owner: Seq<char>, id: int) -> bool {
        &&& 0 <= id <= u64::MAX
        &&& self.claims.contains_key(id as u64)
        &&& self.claims[id as u64].owner == owner
    }

    /// The invariant of the store: each live claim is stored under its own id,
    /// which is below the counter, its owner fits an index key, and the owner
    /// index holds exactly one entry for each live claim.
    pub open spec fn inv(self) -> bool {
        &&& forall|id: u64| #[trigger]
            self.claims.contains_key(id) ==> {
                &&& self.claims[id].id == id
                &&& id < self.next_id()
                &&& owner_fits(self.claims[id].owner)
            }
        &&& forall|owner: Seq<char>, id: u64| #[trigger]
            self.index.contains((owner, id)) <==> self.claims.contains_key(id)
                && self.claims[id].owner == owner
    }

    /// Whether every live claim holds a positive amount.
    pub open spec fn all_positive(self) -> bool {
        forall|id: u64| #[trigger]
            self.claims.contains_key(id) ==> self.claims[id].base_token_amount > 0
    }

    /// The ids of all live claims, as the primary table has them.
    pub open spec fn live_ids(self) -> Set<u64> {
        self.claims.dom()
    }

    /// The ids that a scan of the owner index finds, over all owners.
    pub open spec fn indexed_ids(self) -> Set<u64> {
        Set::new(|id: u64| exists|owner: Seq<char>| self.index.contains((owner, id)))
    }

    /// The claim that `create` stores.
    pub open spec fn created(
        self,
        owner: Seq<char>,
        amount: u128,
        release_at: Expiration,
    ) -> ClaimView {
        ClaimView { id: self.next_id(), owner, release_at, base_token_amount: amount }
    }

    /// The store after a claim for `owner` was created.
    pub open spec fn create(
        self,
        owner: Seq<char>,
        amount: u128,
        release_at: Expiration,
    ) -> ClaimsState {
        ClaimsState {
            claims: self.claims.insert(self.next_id(), self.created(owner, amount, release_at)),
            index: self.index.insert((owner, self.next_id())),
            counter: Some((self.next_id() + 1) as u64),
        }
    }

    /// The store without the claim `id`.
    pub open spec fn without(self, id: u64) -> ClaimsState {
        ClaimsState {
            claims: self.claims.remove(id),
            index: self.index.remove((self.claims[id].owner, id)),
            counter: self.counter,
        }
    }

    /// The store with the amount of claim `id` set to `amount`.
    pub open spec fn with_amount(self, id: u64, amount: u128) -> ClaimsState {
        ClaimsState {
            claims: self.claims.insert(
                id,
                ClaimView { base_token_amount: amount, ..self.claims[id] },
            ),
            ..self
        }
    }

    /// What a lookup of `id` gives.
    pub open spec fn lookup(self, id: u64) -> Result<ClaimView, ClaimError> {
        if self.claims.contains_key(id) {
            Ok(self.claims[id])
        } else {
            Err(ClaimError::NotFound)
        }
    }

    /// What `sender` gets when it claims `id` in `block`: the whole amount, if
    /// the claim exists, is the sender's and has matured. Ownership is tested
    /// before maturity.
    pub open spec fn claim_outcome(self, block: BlockInfo, sender: Seq<char>, id: u64) -> Result<
        u128,
        ClaimError,
    > {
        if !self.claims.contains_key(id) {
            Err(ClaimError::NotFound)
        } else if self.claims[id].owner != sender {
            Err(ClaimError::Unauthorized)
        } else if !self.claims[id].release_at.expired_at(block) {
            Err(ClaimError::NotMatured)
        } else {
            Ok(self.claims[id].base_token_amount)
        }
    }

    /// The store after `sender` claimed `id` in `block`: without the claim
    /// where the claim succeeds, unchanged where it fails.
    pub open spec fn after_claim(self, block: BlockInfo, sender: Seq<char>, id: u64) -> ClaimsState {
        if self.claim_outcome(block, sender, id) is Ok {
            self.without(id)
        } else {
            self
        }
    }

    /// What `sender` gets when it force-claims `amount` of `id`, or all of it
    /// where no amount is named. Maturity plays no part.
    pub open spec fn force_outcome(self, sender: Seq<char>, id: u64, amount: Option<u128>) -> Result<
        u128,
        ClaimError,
    > {
        if !self.claims.contains_key(id) {
            Err(ClaimError::NotFound)
        } else if self.claims[id].owner != sender {
            Err(ClaimError::Unauthorized)
        } else {
            let claimable = self.claims[id].base_token_amount;
            match amount {
                None => Ok(claimable),
                Some(requested) => if requested > claimable {
                    Err(ClaimError::InvalidAmount { claimable, requested })
                } else {
                    Ok(requested)
                },
            }
        }
    }

    /// The store after that force-claim: the claim is gone where nothing is
    /// left of it, holds the remainder where something is left, and the store
    /// is unchanged where the force-claim fails.
    pub open spec fn after_force(self, sender: Seq<char>, id: u64, amount: Option<u128>) -> ClaimsState {
        match self.force_outcome(sender, id, amount) {
            Ok(claimed) => if claimed == self.claims[id].base_token_amount {
                self.without(id)
            } else {
                self.with_amount(id, (self.claims[id].base_token_amount - claimed) as u128)
            },
            Err(_) => self,
        }
    }

    /// The ids of the live claims of `owner` in `lo..hi`, in ascending order.
    pub open spec fn ids_between(self, owner: Seq<char>, lo: int, hi: int) -> Seq<u64>
        decreases hi - lo,
    {
        if lo >= hi {
            Seq::empty()
        } else if self.owns(owner, hi - 1) {
            self.ids_between(owner, lo, hi - 1).push((hi - 1) as u64)
        } else {
            self.ids_between(owner, lo, hi - 1)
        }
    }

    /// The ids of the live claims of `owner` behind `start_after`, ascending.
    pub open spec fn ids_after(self, owner: Seq<char>, start_after: Option<u64>) -> Seq<u64> {
        self.ids_between(owner, first_after(start_after), id_range())
    }

    /// The ids in `ids`, each with the claim stored under it.
    pub open spec fn with_claims(self, ids: Seq<u64>) -> Seq<(u64, ClaimView)> {
        ids.map_values(|id: u64| (id, self.claims[id]))
    }

    /// All claims of `owner` behind `start_after`, in ascending order of id.
    pub open spec fn claims_after(self, owner: Seq<char>, start_after: Option<u64>) -> Seq<
        (u64, ClaimView),
    > {
        self.with_claims(self.ids_after(owner, start_after))
    }

    /// One page of an owner query: the first `limit` of the claims of `owner`
    /// behind `start_after`.
    pub open spec fn page(self, owner: Seq<char>, start_after: Option<u64>, limit: nat) -> Seq<
        (u64, ClaimView),
    > {
        let all = self.claims_after(owner, start_after);
        if limit < all.len() {
            all.take(limit as int)
        } else {
            all
        }
    }

    /// Whether the owner index lists `id` for `owner` behind `start_after`.
    pub open spec fn listed(self, owner: Seq<char>, start_after: Option<u64>, id: u64) -> bool {
        &&& self.index.contains((owner, id))
        &&& first_after(start_after) <= id
    }

    /// Whether `id` is the first id that the owner index lists for `owner`
    /// behind `start_after`.
    pub open spec fn first_listed(self, owner: Seq<char>, start_after: Option<u64>, id: u64) -> bool {
        &&& self.listed(owner, start_after, id)
        &&& forall|other: u64|
            #![trigger self.index.contains((owner, other))]
            self.listed(owner, start_after, other) ==> id <= other
    }

    /// Whether `found` is what a scan of the owner index gives for `owner`
    /// behind `start_after`, cut off after `limit` entries: each entry is
    /// listed and comes with the claim stored under its id, the ids ascend,
    /// and no listed id is passed over: every listed id up to the last one
    /// found is among those found, and so is every listed id where fewer
    /// than `limit` were found.
    pub open spec fn index_page(
        self,
        owner: Seq<char>,
        start_after: Option<u64>,
        limit: nat,
        found: Seq<(u64, ClaimView)>,
    ) -> bool {
        &&& found.len() <= limit
        &&& forall|k: int|
            0 <= k < found.len() ==> {
                &&& self.listed(owner, start_after, (#[trigger] found[k]).0)
                &&& self.claims.contains_key(found[k].0)
                &&& found[k].1 == self.claims[found[k].0]
            }
        &&& forall|j: int, k: int|
            0 <= j < k < found.len() ==> (#[trigger] found[j]).0 < (#[trigger] found[k]).0
        &&& forall|id: u64|
            #![trigger self.index.contains((owner, id))]
            self.listed(owner, start_after, id) && (found.len() < limit || (found.len() > 0 && id
                <= found.last().0)) ==> exists|k: int|
                0 <= k < found.len() && (#[trigger] found[k]).0 == id
    }

    /// What an owner query gives: a page of the default size where no limit
    /// is named.
    pub open spec fn query(
        self,
        owner: Seq<char>,
        start_after: Option<u64>,
        limit: Option<u32>,
    ) -> Seq<(u64, ClaimView)> {
        match limit {
            Some(n) => self.page(owner, start_after, n as nat),
            None => self.page(owner, start_after, DEFAULT_LIMIT as nat),
        }
    }
}

} // verus!
