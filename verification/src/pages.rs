//! Lemmas on the ascending listing of an owner's claims, and on the pages
//! that a scan of the owner index gives.

use crate::model::{first_after, id_range, ClaimsState};
use crate::types::ClaimView;
use vstd::prelude::*;

verus! {

/// Whether the ids of `ids` ascend strictly.
pub open spec fn ascending(ids: Seq<u64>) -> bool {
    forall|j: int, k: int| 0 <= j < k < ids.len() ==> ids[j] < ids[k]
}

/// The ids of the entries of a page.
pub open spec fn ids_of(entries: Seq<(u64, ClaimView)>) -> Seq<u64> {
    entries.map_values(|entry: (u64, ClaimView)| entry.0)
}

impl ClaimsState {
    /// The listing of `lo..hi` holds ids of that range that `owner` owns, in
    /// strictly ascending order, and leaves none of them out.
    pub proof fn lemma_ids_between(self, owner: Seq<char>, lo: int, hi: int)
        requires
            0 <= lo,
            hi <= id_range(),
        ensures
            forall|k: int|
                0 <= k < self.ids_between(owner, lo, hi).len() ==> {
                    &&& lo <= (#[trigger] self.ids_between(owner, lo, hi)[k]) < hi
                    &&& self.owns(owner, self.ids_between(owner, lo, hi)[k] as int)
                },
            ascending(self.ids_between(owner, lo, hi)),
            forall|id: int|
                lo <= id < hi && #[trigger] self.owns(owner, id) ==> self.ids_between(
                    owner,
                    lo,
                    hi,
                ).contains(id as u64),
        decreases hi - lo,
    {
        let listing = self.ids_between(owner, lo, hi);
        if lo < hi {
            self.lemma_ids_between(owner, lo, hi - 1);
            let before = self.ids_between(owner, lo, hi - 1);
            assert forall|id: int| lo <= id < hi && #[trigger] self.owns(owner, id) implies listing.contains(
                id as u64,
            ) by {
                if id < hi - 1 {
                    assert(before.contains(id as u64));
                    let k = choose|k: int| 0 <= k < before.len() && before[k] == id as u64;
                    assert(listing[k] == id as u64);
                } else {
                    assert(listing[listing.len() - 1] == id as u64);
                }
            }
        }
    }

    /// A listing can be cut in two at any id.
    pub proof fn lemma_ids_between_split(self, owner: Seq<char>, lo: int, mid: int, hi: int)
        requires
            lo <= mid <= hi,
        ensures
            self.ids_between(owner, lo, hi) == self.ids_between(owner, lo, mid)
                + self.ids_between(owner, mid, hi),
        decreases hi - mid,
    {
        if mid < hi {
            self.lemma_ids_between_split(owner, lo, mid, hi - 1);
            assert(self.ids_between(owner, lo, hi) =~= self.ids_between(owner, lo, mid)
                + self.ids_between(owner, mid, hi));
        } else {
            assert(self.ids_between(owner, lo, hi) =~= self.ids_between(owner, lo, mid)
                + self.ids_between(owner, mid, hi));
        }
    }

    /// There is one ascending sequence of the ids of `lo..hi` that `owner`
    /// owns: the listing.
    pub proof fn lemma_ids_unique(self, owner: Seq<char>, lo: int, hi: int, ids: Seq<u64>)
        requires
            0 <= lo,
            hi <= id_range(),
            forall|k: int|
                0 <= k < ids.len() ==> lo <= (#[trigger] ids[k]) < hi && self.owns(
                    owner,
                    ids[k] as int,
                ),
            ascending(ids),
            forall|id: int|
                lo <= id < hi && #[trigger] self.owns(owner, id) ==> ids.contains(id as u64),
        ensures
            ids == self.ids_between(owner, lo, hi),
        decreases hi - lo,
    {
        if lo >= hi {
            if ids.len() > 0 {
                assert(lo <= ids[0] < hi);
            }
            assert(ids =~= self.ids_between(owner, lo, hi));
        } else if self.owns(owner, hi - 1) {
            let top = (hi - 1) as u64;
            assert(ids.contains(top));
            let at = choose|k: int| 0 <= k < ids.len() && ids[k] == top;
            if at < ids.len() - 1 {
                assert(ids[at] < ids[ids.len() - 1]);
                assert(ids[ids.len() - 1] < hi);
            }
            let rest = ids.drop_last();
            assert forall|id: int| lo <= id < hi - 1 && #[trigger] self.owns(owner, id) implies rest.contains(
                id as u64,
            ) by {
                assert(ids.contains(id as u64));
                let k = choose|k: int| 0 <= k < ids.len() && ids[k] == id as u64;
                assert(rest[k] == id as u64);
            }
            assert forall|k: int| 0 <= k < rest.len() implies lo <= (#[trigger] rest[k]) < hi - 1
                && self.owns(owner, rest[k] as int) by {
                assert(ids[k] < ids[ids.len() - 1]);
            }
            self.lemma_ids_unique(owner, lo, hi - 1, rest);
            assert(ids =~= rest.push(top));
        } else {
            assert forall|k: int| 0 <= k < ids.len() implies lo <= (#[trigger] ids[k]) < hi - 1
                && self.owns(owner, ids[k] as int) by {
                assert(self.owns(owner, ids[k] as int));
            }
            self.lemma_ids_unique(owner, lo, hi - 1, ids);
        }
    }

    /// In a store in good order a scan of the owner index gives the page of
    /// the owner's claims: what `index_page` describes is `page`.
    pub proof fn lemma_index_page(
        self,
        owner: Seq<char>,
        start_after: Option<u64>,
        limit: nat,
        found: Seq<(u64, ClaimView)>,
    )
        requires
            self.inv(),
            self.index_page(owner, start_after, limit, found),
        ensures
            found == self.page(owner, start_after, limit),
    {
        let lo = first_after(start_after);
        let ids = ids_of(found);
        let all_ids = self.ids_after(owner, start_after);
        assert(ascending(ids));
        assert forall|k: int| 0 <= k < ids.len() implies lo <= (#[trigger] ids[k]) && self.owns(
            owner,
            ids[k] as int,
        ) by {
            assert(self.listed(owner, start_after, found[k].0));
        }
        assert(found =~= self.with_claims(ids));
        if found.len() < limit {
            assert forall|id: int| lo <= id < id_range() && #[trigger] self.owns(owner, id) implies ids.contains(
                id as u64,
            ) by {
                assert(self.index.contains((owner, id as u64)));
                assert(self.listed(owner, start_after, id as u64));
                let k = choose|k: int| 0 <= k < found.len() && (#[trigger] found[k]).0 == id as u64;
                assert(ids[k] == id as u64);
            }
            self.lemma_ids_unique(owner, lo, id_range(), ids);
        } else if found.len() == 0 {
            assert(self.page(owner, start_after, limit) =~= found);
        } else {
            let last = found.last().0;
            assert(ids[ids.len() - 1] == last);
            assert forall|k: int| 0 <= k < ids.len() implies (#[trigger] ids[k]) < last + 1 by {
                if k < ids.len() - 1 {
                    assert(ids[k] < ids[ids.len() - 1]);
                }
            }
            assert forall|id: int| lo <= id < last + 1 && #[trigger] self.owns(owner, id) implies ids.contains(
                id as u64,
            ) by {
                assert(self.index.contains((owner, id as u64)));
                assert(self.listed(owner, start_after, id as u64));
                let k = choose|k: int| 0 <= k < found.len() && (#[trigger] found[k]).0 == id as u64;
                assert(ids[k] == id as u64);
            }
            self.lemma_ids_unique(owner, lo, last + 1, ids);
            self.lemma_ids_between_split(owner, lo, last + 1, id_range());
            let behind = self.ids_between(owner, last + 1, id_range());
            assert(all_ids == ids + behind);
            assert(self.page(owner, start_after, limit) =~= found);
        }
    }
}

} // verus!
