//! What holds of the claim store over any run of operations, stated and
//! proved over the mathematical store that the operations are specified by.

use crate::model::{first_after, id_range, owner_fits, ClaimsState};
use crate::pages::{ascending, ids_of};
use crate::types::{BlockInfo, ClaimError, ClaimView, Expiration};
use vstd::prelude::*;

verus! {

/// One operation that changes the store.
pub enum Operation {
    /// A claim of `amount` is created for `owner`.
    Create { owner: Seq<char>, amount: u128, release_at: Expiration },
    /// `sender` claims `id` in `block`.
    Claim { block: BlockInfo, sender: Seq<char>, id: u64 },
    /// `sender` force-claims `part` of `id`, or all of it.
    ForceClaim { sender: Seq<char>, id: u64, part: Option<u128> },
}

impl ClaimsState {
    /// The store after `op`.
    pub open spec fn apply(self, op: Operation) -> ClaimsState {
        match op {
            Operation::Create { owner, amount, release_at } => self.create(
                owner,
                amount,
                release_at,
            ),
            Operation::Claim { block, sender, id } => self.after_claim(block, sender, id),
            Operation::ForceClaim { sender, id, part } => self.after_force(sender, id, part),
        }
    }

    /// Whether `op` may be called on this store: a claim can be created as
    /// long as an id is left and its owner fits a key of the index.
    pub open spec fn accepts(self, op: Operation) -> bool {
        match op {
            Operation::Create { owner, .. } => owner_fits(owner) && self.next_id() < u64::MAX,
            _ => true,
        }
    }

    /// The store after the operations of `ops`, in their order.
    pub open spec fn run(self, ops: Seq<Operation>) -> ClaimsState
        decreases ops.len(),
    {
        if ops.len() == 0 {
            self
        } else {
            self.run(ops.drop_last()).apply(ops.last())
        }
    }

    /// Whether each operation of `ops` may be called when its turn comes.
    pub open spec fn accepts_all(self, ops: Seq<Operation>) -> bool
        decreases ops.len(),
    {
        if ops.len() == 0 {
            true
        } else {
            self.accepts_all(ops.drop_last()) && self.run(ops.drop_last()).accepts(ops.last())
        }
    }

    /// The pages of an owner query, one behind the other: each page starts
    /// behind the last id of the page before it, and a page that is not full
    /// is the last one. (The last id of a page always lies behind the start
    /// of the page; the test for it shows that the pages come to an end.)
    pub open spec fn all_pages(self, owner: Seq<char>, start_after: Option<u64>, limit: nat) -> Seq<
        (u64, ClaimView),
    >
        decreases id_range() - first_after(start_after),
    {
        let page = self.page(owner, start_after, limit);
        if limit == 0 || page.len() < limit || page.last().0 < first_after(start_after) {
            page
        } else {
            page + self.all_pages(owner, Some(page.last().0), limit)
        }
    }

    /// Where the query of a paging run starts that comes after `round`
    /// queries: the first query starts at the front, and each later one
    /// behind the last id of the page before it. After an empty page the
    /// start stays where it is.
    pub open spec fn nth_start(self, owner: Seq<char>, limit: nat, round: nat) -> Option<u64>
        decreases round,
    {
        if round == 0 {
            None
        } else {
            let before = self.nth_start(owner, limit, (round - 1) as nat);
            let page = self.page(owner, before, limit);
            if page.len() == 0 {
                before
            } else {
                Some(page.last().0)
            }
        }
    }

    /// The page that the query after `round` queries of a paging run gives.
    pub open spec fn nth_page(self, owner: Seq<char>, limit: nat, round: nat) -> Seq<
        (u64, ClaimView),
    > {
        self.page(owner, self.nth_start(owner, limit, round), limit)
    }

    /// `count`, but no more than `all`.
    pub open spec fn capped(count: nat, all: nat) -> int {
        if count < all {
            count as int
        } else {
            all as int
        }
    }

    /// The store before anything was written is in good order.
    pub proof fn law_empty_in_order()
        ensures
            ClaimsState::empty().inv(),
            ClaimsState::empty().all_positive(),
    {
    }

    /// In a store in good order the live ids are the ids that a scan of the
    /// owner index finds over all owners.
    pub proof fn law_index_matches_claims(self)
        requires
            self.inv(),
        ensures
            self.live_ids() == self.indexed_ids(),
    {
        assert forall|id: u64| self.live_ids().contains(id) implies self.indexed_ids().contains(
            id,
        ) by {
            assert(self.index.contains((self.claims[id].owner, id)));
        }
        assert(self.live_ids() =~= self.indexed_ids());
    }

    /// An operation leaves a store in good order in good order.
    pub proof fn law_step_keeps_order(self, op: Operation)
        requires
            self.inv(),
            self.accepts(op),
        ensures
            self.apply(op).inv(),
    {
        let after = self.apply(op);
        match op {
            Operation::Create { owner, amount, release_at } => {
                assert forall|o: Seq<char>, id: u64| #[trigger]
                    after.index.contains((o, id)) <==> after.claims.contains_key(id)
                        && after.claims[id].owner == o by {
                    if id != self.next_id() {
                        assert(self.index.contains((o, id)) <==> self.claims.contains_key(id)
                            && self.claims[id].owner == o);
                    }
                }
            },
            Operation::Claim { block, sender, id } => {
                if self.claim_outcome(block, sender, id) is Ok {
                    self.lemma_without_keeps_order(id);
                }
            },
            Operation::ForceClaim { sender, id, part } => {
                match self.force_outcome(sender, id, part) {
                    Ok(claimed) => {
                        if claimed == self.claims[id].base_token_amount {
                            self.lemma_without_keeps_order(id);
                        } else {
                            assert forall|o: Seq<char>, other: u64| #[trigger]
                                after.index.contains((o, other)) <==> after.claims.contains_key(
                                    other,
                                ) && after.claims[other].owner == o by {
                                assert(self.index.contains((o, other))
                                    <==> self.claims.contains_key(other) && self.claims[other].owner
                                    == o);
                            }
                        }
                    },
                    Err(_) => {},
                }
            },
        }
    }

    /// Removing a live claim leaves a store in good order in good order.
    pub proof fn lemma_without_keeps_order(self, id: u64)
        requires
            self.inv(),
            self.claims.contains_key(id),
        ensures
            self.without(id).inv(),
    {
        let after = self.without(id);
        assert forall|o: Seq<char>, other: u64| #[trigger]
            after.index.contains((o, other)) <==> after.claims.contains_key(other)
                && after.claims[other].owner == o by {
            assert(self.index.contains((o, other)) <==> self.claims.contains_key(other)
                && self.claims[other].owner == o);
        }
    }

    /// What was accepted as a whole was accepted up to each point.
    pub proof fn lemma_accepts_prefix(self, ops: Seq<Operation>, k: int)
        requires
            self.accepts_all(ops),
            0 <= k <= ops.len(),
        ensures
            self.accepts_all(ops.take(k)),
        decreases ops.len(),
    {
        if k == ops.len() {
            assert(ops.take(k) =~= ops);
        } else {
            self.lemma_accepts_prefix(ops.drop_last(), k);
            assert(ops.drop_last().take(k) =~= ops.take(k));
        }
    }

    /// Index and primary table agree at every point of a run: after any
    /// number of operations on a store in good order the store is in good
    /// order, and its live ids are the ids that the owner index lists.
    pub proof fn law_run_keeps_order(self, ops: Seq<Operation>, k: int)
        requires
            self.inv(),
            self.accepts_all(ops),
            0 <= k <= ops.len(),
        ensures
            self.run(ops.take(k)).inv(),
            self.run(ops.take(k)).live_ids() == self.run(ops.take(k)).indexed_ids(),
        decreases k,
    {
        let upto = ops.take(k);
        self.lemma_accepts_prefix(ops, k);
        if k > 0 {
            assert(upto.drop_last() =~= ops.take(k - 1));
            self.law_run_keeps_order(ops, k - 1);
            self.run(ops.take(k - 1)).law_step_keeps_order(upto.last());
        }
        self.run(upto).law_index_matches_claims();
    }

    /// A force-claim and a claim leave no claim without tokens behind, and
    /// neither does creating a claim of a positive amount.
    pub proof fn law_step_keeps_positive(self, op: Operation)
        requires
            self.all_positive(),
            op matches Operation::Create { amount, .. } ==> amount > 0,
        ensures
            self.apply(op).all_positive(),
    {
    }

    /// Every live claim holds a positive amount at every point of a run in
    /// which no claim of zero tokens is created.
    pub proof fn law_run_keeps_positive(self, ops: Seq<Operation>, k: int)
        requires
            self.all_positive(),
            forall|j: int|
                0 <= j < ops.len() ==> ((#[trigger] ops[j]) matches Operation::Create {
                    amount,
                    ..
                } ==> amount > 0),
            0 <= k <= ops.len(),
        ensures
            self.run(ops.take(k)).all_positive(),
        decreases k,
    {
        let upto = ops.take(k);
        if k > 0 {
            assert(upto.drop_last() =~= ops.take(k - 1));
            self.law_run_keeps_positive(ops, k - 1);
            assert(upto.last() == ops[k - 1]);
            self.run(ops.take(k - 1)).law_step_keeps_positive(upto.last());
        }
    }

    /// A force-claim that takes all of a claim removes it: no claim of zero
    /// tokens is left behind, whatever the store held.
    pub proof fn law_force_claim_exhausts(self, sender: Seq<char>, id: u64, amount: Option<u128>)
        requires
            self.force_outcome(sender, id, amount) is Ok,
        ensures
            self.after_force(sender, id, amount).claims.contains_key(id) ==> self.after_force(
                sender,
                id,
                amount,
            ).claims[id].base_token_amount > 0,
    {
    }

    /// No operation makes the counter smaller.
    pub proof fn law_step_counts_up(self, op: Operation)
        requires
            self.accepts(op),
        ensures
            self.next_id() <= self.apply(op).next_id(),
            op is Create ==> self.apply(op).next_id() == self.next_id() + 1,
    {
    }

    /// The counter never decreases in the course of a run.
    pub proof fn law_counter_never_decreases(self, ops: Seq<Operation>, j: int, k: int)
        requires
            self.accepts_all(ops),
            0 <= j <= k <= ops.len(),
        ensures
            self.run(ops.take(j)).next_id() <= self.run(ops.take(k)).next_id(),
        decreases k - j,
    {
        if j < k {
            self.law_counter_never_decreases(ops, j, k - 1);
            let upto = ops.take(k);
            assert(upto.drop_last() =~= ops.take(k - 1));
            self.lemma_accepts_prefix(ops, k);
            self.run(ops.take(k - 1)).law_step_counts_up(upto.last());
        }
    }

    /// No id is given out twice: a claim that is created gets an id under
    /// which no claim lives, and two claims created in one run get two ids.
    pub proof fn law_ids_never_shared(self, ops: Seq<Operation>, j: int, k: int)
        requires
            self.inv(),
            self.accepts_all(ops),
            0 <= j < k < ops.len(),
            ops[j] is Create,
            ops[k] is Create,
        ensures
            !self.run(ops.take(k)).claims.contains_key(self.run(ops.take(k)).next_id()),
            self.run(ops.take(j)).next_id() < self.run(ops.take(k)).next_id(),
    {
        self.law_run_keeps_order(ops, k);
        let upto = ops.take(j + 1);
        assert(upto.drop_last() =~= ops.take(j));
        assert(upto.last() == ops[j]);
        self.lemma_accepts_prefix(ops, j + 1);
        self.run(ops.take(j)).law_step_counts_up(ops[j]);
        self.law_counter_never_decreases(ops, j + 1, k);
    }

    /// A claim that was just created is found under its id, equal in every
    /// field to the claim that the creation returned.
    pub proof fn law_created_claim_is_found(
        self,
        owner: Seq<char>,
        amount: u128,
        release_at: Expiration,
    )
        ensures
            self.create(owner, amount, release_at).lookup(self.next_id()) == Ok::<_, ClaimError>(
                self.created(owner, amount, release_at),
            ),
    {
    }

    /// A force-claim of a part of a claim leaves exactly the rest: the claim
    /// is still found under its id and in the owner index, with what it held
    /// less what was taken. A second force-claim of the rest returns the rest
    /// and removes the claim, so that the two together return what the claim
    /// held, no more and no less.
    pub proof fn law_partial_force_claim_exact(self, sender: Seq<char>, id: u64, part: u128)
        requires
            self.inv(),
            self.claims.contains_key(id),
            self.claims[id].owner == sender,
            part < self.claims[id].base_token_amount,
        ensures
            ({
                let held = self.claims[id].base_token_amount;
                let rest = (held - part) as u128;
                let once = self.after_force(sender, id, Some(part));
                let twice = once.after_force(sender, id, Some(rest));
                &&& self.force_outcome(sender, id, Some(part)) == Ok::<_, ClaimError>(part)
                &&& once.lookup(id) == Ok::<_, ClaimError>(
                    ClaimView { base_token_amount: rest, ..self.claims[id] },
                )
                &&& once.index.contains((sender, id))
                &&& once.force_outcome(sender, id, Some(rest)) == Ok::<_, ClaimError>(rest)
                &&& twice.lookup(id) == Err::<ClaimView, _>(ClaimError::NotFound)
                &&& !twice.index.contains((sender, id))
                &&& part + rest == held
            }),
    {
    }

    /// The claims of an owner behind `start_after` come in strictly ascending
    /// order of id, so none comes twice, and they are the live claims of the
    /// owner with such an id, each with its record.
    pub proof fn law_claims_after(self, owner: Seq<char>, start_after: Option<u64>)
        ensures
            ascending(ids_of(self.claims_after(owner, start_after))),
            forall|k: int|
                0 <= k < self.claims_after(owner, start_after).len() ==> {
                    let entry = #[trigger] self.claims_after(owner, start_after)[k];
                    &&& first_after(start_after) <= entry.0
                    &&& self.owns(owner, entry.0 as int)
                    &&& entry.1 == self.claims[entry.0]
                },
            forall|id: u64|
                first_after(start_after) <= id && #[trigger] self.owns(owner, id as int)
                    ==> self.claims_after(owner, start_after).contains((id, self.claims[id])),
    {
        let ids = self.ids_after(owner, start_after);
        let all = self.claims_after(owner, start_after);
        self.lemma_ids_between(owner, first_after(start_after), id_range());
        assert(ids_of(all) =~= ids);
        assert forall|id: u64|
            first_after(start_after) <= id && #[trigger] self.owns(owner, id as int) implies all.contains(
            (id, self.claims[id]),
        ) by {
            assert(ids.contains(id));
            let k = choose|k: int| 0 <= k < ids.len() && ids[k] == id;
            assert(all[k] == (id, self.claims[id]));
        }
    }

    /// Paging is complete and stable: for any limit but zero the pages, put
    /// one behind the other, are the claims of the owner behind
    /// `start_after`: all of them, each once, in ascending order of id.
    pub proof fn law_pages_give_all(self, owner: Seq<char>, start_after: Option<u64>, limit: nat)
        requires
            limit > 0,
        ensures
            self.all_pages(owner, start_after, limit) == self.claims_after(owner, start_after),
        decreases id_range() - first_after(start_after),
    {
        let lo = first_after(start_after);
        let all = self.claims_after(owner, start_after);
        let ids = self.ids_after(owner, start_after);
        let page = self.page(owner, start_after, limit);
        self.lemma_ids_between(owner, lo, id_range());
        if page.len() < limit {
        } else {
            let last = page.last().0;
            assert(page.last() == all[limit - 1]);
            assert(last == ids[limit - 1]);
            let head = ids.take(limit as int);
            assert forall|id: int| lo <= id < last + 1 && #[trigger] self.owns(owner, id) implies head.contains(
                id as u64,
            ) by {
                assert(ids.contains(id as u64));
                let k = choose|k: int| 0 <= k < ids.len() && ids[k] == id as u64;
                if k >= limit {
                    assert(ids[limit - 1] < ids[k]);
                }
                assert(head[k] == id as u64);
            }
            assert forall|k: int| 0 <= k < head.len() implies lo <= (#[trigger] head[k]) < last + 1
                && self.owns(owner, head[k] as int) by {
                assert(head[k] == ids[k]);
                if k < limit - 1 {
                    assert(ids[k] < ids[limit - 1]);
                }
            }
            assert(ascending(head)) by {
                assert forall|i: int, j: int| 0 <= i < j < head.len() implies head[i] < head[j] by {
                    assert(ids[i] < ids[j]);
                }
            }
            self.lemma_ids_unique(owner, lo, last + 1, head);
            self.lemma_ids_between_split(owner, lo, last + 1, id_range());
            let behind = self.ids_between(owner, last + 1, id_range());
            assert(ids == head + behind);
            self.law_pages_give_all(owner, Some(last), limit);
            assert(self.claims_after(owner, Some(last)) == self.with_claims(behind));
            assert(page =~= self.with_claims(head));
            assert(all =~= self.with_claims(head) + self.with_claims(behind));
        }
    }

    /// The claims of an owner behind one of its ids are the claims that
    /// follow that id in the listing of its claims.
    pub proof fn lemma_claims_behind(self, owner: Seq<char>, start_after: Option<u64>, at: int)
        requires
            0 <= at < self.ids_after(owner, start_after).len(),
        ensures
            self.ids_after(owner, Some(self.ids_after(owner, start_after)[at])) == self.ids_after(
                owner,
                start_after,
            ).subrange(at + 1, self.ids_after(owner, start_after).len() as int),
    {
        let lo = first_after(start_after);
        let ids = self.ids_after(owner, start_after);
        let last = ids[at];
        let head = ids.take(at + 1);
        self.lemma_ids_between(owner, lo, id_range());
        assert forall|id: int| lo <= id < last + 1 && #[trigger] self.owns(owner, id) implies head.contains(
            id as u64,
        ) by {
            assert(ids.contains(id as u64));
            let k = choose|k: int| 0 <= k < ids.len() && ids[k] == id as u64;
            if k > at {
                assert(ids[at] < ids[k]);
            }
            assert(head[k] == id as u64);
        }
        assert forall|k: int| 0 <= k < head.len() implies lo <= (#[trigger] head[k]) < last + 1
            && self.owns(owner, head[k] as int) by {
            assert(head[k] == ids[k]);
            if k < at {
                assert(ids[k] < ids[at]);
            }
        }
        assert(ascending(head)) by {
            assert forall|i: int, j: int| 0 <= i < j < head.len() implies head[i] < head[j] by {
                assert(ids[i] < ids[j]);
            }
        }
        self.lemma_ids_unique(owner, lo, last + 1, head);
        self.lemma_ids_between_split(owner, lo, last + 1, id_range());
        let behind = self.ids_between(owner, last + 1, id_range());
        assert(ids == head + behind);
        assert(behind =~= ids.subrange(at + 1, ids.len() as int));
    }

    /// Where a paging run stands after `round` queries: it has passed the
    /// first `round` times `limit` claims of the owner, or all of them.
    pub proof fn lemma_paging_start(self, owner: Seq<char>, limit: nat, round: nat)
        requires
            limit > 0,
        ensures
            ({
                let all = self.claims_after(owner, None);
                let passed = Self::capped(round * limit, all.len());
                &&& 0 <= passed <= all.len()
                &&& self.claims_after(owner, self.nth_start(owner, limit, round)) == all.subrange(
                    passed,
                    all.len() as int,
                )
            }),
        decreases round,
    {
        let all = self.claims_after(owner, None);
        let n = all.len() as int;
        let ids = self.ids_after(owner, None);
        assert(round * limit >= 0) by (nonlinear_arith)
            requires
                round >= 0,
                limit > 0,
        ;
        if round == 0 {
            assert(round * limit == 0) by (nonlinear_arith)
                requires
                    round == 0,
            ;
            assert(all =~= all.subrange(0, n));
        } else {
            let earlier = (round - 1) as nat;
            self.lemma_paging_start(owner, limit, earlier);
            assert(round * limit == earlier * limit + limit) by (nonlinear_arith)
                requires
                    round == earlier + 1,
            ;
            let before = self.nth_start(owner, limit, earlier);
            let passed = Self::capped(earlier * limit, all.len());
            let rest = self.claims_after(owner, before);
            let page = self.page(owner, before, limit);
            assert(rest == all.subrange(passed, n));
            if page.len() == 0 {
                assert(rest.len() == 0);
            } else {
                let upto = Self::capped(round * limit, all.len());
                assert(page =~= all.subrange(passed, upto));
                assert(page.last() == all[upto - 1]);
                assert(all[upto - 1].0 == ids[upto - 1]);
                self.lemma_claims_behind(owner, None, upto - 1);
                assert(self.claims_after(owner, Some(ids[upto - 1])) =~= all.subrange(upto, n));
            }
        }
    }

    /// Paging comes to an end: the query that follows `round` queries gives
    /// the claims of the owner from the one at `round` times `limit` on, at
    /// most `limit` of them. So it gives an empty page once `round` times
    /// `limit` is no less than the number of claims of the owner: for n
    /// claims the empty page comes with query n / `limit` + 1, rounded up,
    /// at the latest.
    pub proof fn law_paging_ends(self, owner: Seq<char>, limit: nat, round: nat)
        requires
            limit > 0,
        ensures
            ({
                let all = self.claims_after(owner, None);
                let n = all.len() as int;
                &&& self.nth_page(owner, limit, round) == all.subrange(
                    Self::capped(round * limit, all.len()),
                    Self::capped((round + 1) * limit, all.len()),
                )
                &&& round * limit >= n ==> self.nth_page(owner, limit, round).len() == 0
            }),
    {
        let all = self.claims_after(owner, None);
        let n = all.len() as int;
        self.lemma_paging_start(owner, limit, round);
        assert((round + 1) * limit == round * limit + limit) by (nonlinear_arith);
        let passed = Self::capped(round * limit, all.len());
        let upto = Self::capped((round + 1) * limit, all.len());
        assert(self.nth_page(owner, limit, round) =~= all.subrange(passed, upto));
    }
}

} // verus!
