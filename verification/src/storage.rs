//! The storage layer under the claim store.
//!
//! The store keeps its tables in a `cosmwasm_std::MemoryStorage`, through the
//! containers of `cw_storage_plus`. Verus does not read either crate: what
//! this file states of them is believed, not proved.

use crate::claims::Claims;
use crate::types::{Claim, ClaimView, Expiration};
use cosmwasm_std::{Addr, MemoryStorage, Order, StdError, Timestamp, Uint128};
use cw_storage_plus::{Bound, Index, Item, MultiIndex, PrimaryKey};
use cw_vault_standard::extensions::lockup::UnlockingPosition;
use vstd::prelude::*;

verus! {

/// `cosmwasm_std::MemoryStorage`, an ordered map from byte keys to byte
/// values. Verus sees nothing inside it.
#[verifier::external_type_specification]
#[verifier::external_body]
pub struct ExMemoryStorage(MemoryStorage);

/// `cosmwasm_std::StdError`, the error of the storage containers.
#[verifier::external_type_specification]
#[verifier::external_body]
pub struct ExStdError(StdError);

/// `cosmwasm_std::Addr`, an account address.
#[verifier::external_type_specification]
#[verifier::external_body]
pub struct ExAddr(Addr);

/// `cw_vault_standard::extensions::lockup::UnlockingPosition`, the record
/// that the primary table stores for a claim.
#[verifier::external_type_specification]
#[verifier::external_body]
pub struct ExUnlockingPosition(UnlockingPosition);

/// The key by which the owner index files a record: its owner. It is handed
/// to `MultiIndex::new`.
#[verifier::external_body]
fn record_owner(_id: &[u8], record: &UnlockingPosition) -> Addr {
    record.owner.clone()
}

/// The record that the primary table stores for `claim`: the same id, owner,
/// expiry and amount, in the types of the storage layer.
#[verifier::external_body]
fn to_record(claim: &Claim) -> UnlockingPosition {
    UnlockingPosition {
        id: claim.id,
        owner: Addr::unchecked(claim.owner.as_str()),
        release_at: match claim.release_at {
            Expiration::AtHeight(height) => cw_utils::Expiration::AtHeight(height),
            Expiration::AtTime(time) => cw_utils::Expiration::AtTime(Timestamp::from_nanos(time)),
            Expiration::Never => cw_utils::Expiration::Never {},
        },
        base_token_amount: Uint128::new(claim.base_token_amount),
    }
}

/// The claim that a record of the primary table stands for: the same id,
/// owner, expiry and amount, in the types of this library.
#[verifier::external_body]
fn from_record(record: UnlockingPosition) -> Claim {
    Claim {
        id: record.id,
        owner: record.owner.into_string(),
        release_at: match record.release_at {
            cw_utils::Expiration::AtHeight(height) => Expiration::AtHeight(height),
            cw_utils::Expiration::AtTime(time) => Expiration::AtTime(time.nanos()),
            cw_utils::Expiration::Never {} => Expiration::Never,
        },
        base_token_amount: record.base_token_amount.u128(),
    }
}

/// The primary table that `storage` holds under `namespace`: for each id the
/// record that `Map::<u64, UnlockingPosition>::may_load` reads under it, where
/// it reads one.
pub uninterp spec fn stored_claims(storage: MemoryStorage, namespace: Seq<char>) -> Map<
    u64,
    ClaimView,
>;

/// The owner index that `storage` holds under `namespace`: each owner and id
/// for which the storage holds the entry that `MultiIndex::save` writes, with
/// the owner as the key of the index, for a record of that owner under that
/// id.
pub uninterp spec fn stored_index(storage: MemoryStorage, namespace: Seq<char>) -> Set<
    (Seq<char>, u64),
>;

/// The counter that `storage` holds under `key`: the number that
/// `Item::<u64>::may_load` reads there, where it reads one.
pub uninterp spec fn stored_counter(storage: MemoryStorage, key: Seq<char>) -> Option<u64>;

/// Whether all that `storage` holds for a store with these three names can be
/// read back: each value under the prefix of `claims_namespace` parses as a
/// record, each entry under the prefix of `index_namespace` has the form that
/// `MultiIndex` writes for a 64-bit id, and the value under `counter_key`, if
/// there is one, parses as a number.
pub uninterp spec fn storage_intact(
    storage: MemoryStorage,
    claims_namespace: Seq<char>,
    index_namespace: Seq<char>,
    counter_key: Seq<char>,
) -> bool;

/// `MemoryStorage::new` gives a storage without entries: under every name the
/// tables are empty, no counter is stored, and nothing stands in the way of
/// reading.
pub assume_specification[ MemoryStorage::new ]() -> (storage: MemoryStorage)
    ensures
        (forall|namespace: Seq<char>| #[trigger]
            stored_claims(storage, namespace) == Map::<u64, ClaimView>::empty()),
        (forall|namespace: Seq<char>| #[trigger]
            stored_index(storage, namespace) == Set::<(Seq<char>, u64)>::empty()),
        (forall|key: Seq<char>| #[trigger] stored_counter(storage, key) is None),
        (forall|claims: Seq<char>, index: Seq<char>, counter: Seq<char>| #[trigger]
            storage_intact(storage, claims, index, counter)),
;

/// `Item::may_load` on the counter cell: `Ok(None)` where the cell is empty,
/// `Ok` of the number where it parses, an error where it does not parse.
#[verifier::external_body]
pub(crate) fn read_counter(names: &Claims, storage: &MemoryStorage) -> (r: Result<
    Option<u64>,
    StdError,
>)
    ensures
        r matches Ok(value) ==> value == names.state(*storage).counter,
        names.intact(*storage) ==> r is Ok,
{
    Item::<u64>::new(names.num_claims_key).may_load(storage)
}

/// `Item::save` on the counter cell: it serialises `value` and sets the cell,
/// and touches no other key. It returns an error only where serialising
/// fails, and the serialiser has no failing path for a number.
#[verifier::external_body]
pub(crate) fn write_counter(names: &Claims, storage: &mut MemoryStorage, value: u64) -> (r: Result<
    (),
    StdError,
>)
    requires
        names.wf(),
    ensures
        r is Ok,
        names.state(*final(storage)) == (crate::model::ClaimsState {
            counter: Some(value),
            ..names.state(*old(storage))
        }),
        names.intact(*old(storage)) ==> names.intact(*final(storage)),
{
    Item::<u64>::new(names.num_claims_key).save(storage, &value)
}

/// `Map::may_load` on the primary table: `Ok(None)` where nothing is stored
/// under `id`, `Ok` of the record where it parses, an error where it does not.
#[verifier::external_body]
pub(crate) fn read_claim(names: &Claims, storage: &MemoryStorage, id: u64) -> (r: Result<
    Option<Claim>,
    StdError,
>)
    requires
        names.wf(),
    ensures
        r matches Ok(found) ==> match found {
            Some(claim) => names.state(*storage).claims.contains_key(id) && names.state(
                *storage,
            ).claims[id] == claim@,
            None => !names.state(*storage).claims.contains_key(id),
        },
        names.intact(*storage) ==> r is Ok,
{
    let table = cw_storage_plus::Map::<u64, UnlockingPosition>::new(names.claims_namespace);
    Ok(table.may_load(storage, id)?.map(from_record))
}

/// `Map::save` on the primary table: it serialises the record and sets the
/// key of `claim.id`, and touches no other key. It returns an error only
/// where serialising fails, and the serialiser has no failing path for a
/// record of numbers, strings and an expiry.
#[verifier::external_body]
pub(crate) fn write_claim(names: &Claims, storage: &mut MemoryStorage, claim: &Claim) -> (r: Result<
    (),
    StdError,
>)
    requires
        names.wf(),
    ensures
        r is Ok,
        names.state(*final(storage)) == (crate::model::ClaimsState {
            claims: names.state(*old(storage)).claims.insert(claim.id, claim@),
            ..names.state(*old(storage))
        }),
        names.intact(*old(storage)) ==> names.intact(*final(storage)),
{
    let table = cw_storage_plus::Map::<u64, UnlockingPosition>::new(names.claims_namespace);
    table.save(storage, claim.id, &to_record(claim))
}

/// `Map::remove` on the primary table: it removes the key of `id` and touches
/// no other key.
#[verifier::external_body]
pub(crate) fn erase_claim(names: &Claims, storage: &mut MemoryStorage, id: u64)
    requires
        names.wf(),
    ensures
        names.state(*final(storage)) == (crate::model::ClaimsState {
            claims: names.state(*old(storage)).claims.remove(id),
            ..names.state(*old(storage))
        }),
        names.intact(*old(storage)) ==> names.intact(*final(storage)),
{
    cw_storage_plus::Map::<u64, UnlockingPosition>::new(names.claims_namespace).remove(storage, id)
}

/// `MultiIndex::save` on the owner index: it sets the key made of the owner
/// and the id of `claim`, and touches no other key. It returns an error only
/// where serialising the length of the id fails, and the serialiser has no
/// failing path for a number.
#[verifier::external_body]
pub(crate) fn index_add(names: &Claims, storage: &mut MemoryStorage, claim: &Claim) -> (r: Result<
    (),
    StdError,
>)
    requires
        names.wf(),
        crate::model::owner_fits(claim.owner@),
    ensures
        r is Ok,
        names.state(*final(storage)) == (crate::model::ClaimsState {
            index: names.state(*old(storage)).index.insert((claim.owner@, claim.id)),
            ..names.state(*old(storage))
        }),
        names.intact(*old(storage)) ==> names.intact(*final(storage)),
{
    let record = to_record(claim);
    MultiIndex::<Addr, UnlockingPosition, u64>::new(
        record_owner,
        names.claims_namespace,
        names.claims_index_namespace,
    ).save(storage, &claim.id.joined_key(), &record)
}

/// `MultiIndex::remove` on the owner index: it removes the key made of the
/// owner and the id of `claim`, touches no other key, and always returns `Ok`.
#[verifier::external_body]
pub(crate) fn index_drop(names: &Claims, storage: &mut MemoryStorage, claim: &Claim)
    requires
        names.wf(),
        crate::model::owner_fits(claim.owner@),
    ensures
        names.state(*final(storage)) == (crate::model::ClaimsState {
            index: names.state(*old(storage)).index.remove((claim.owner@, claim.id)),
            ..names.state(*old(storage))
        }),
        names.intact(*old(storage)) ==> names.intact(*final(storage)),
{
    let record = to_record(claim);
    let _ = MultiIndex::<Addr, UnlockingPosition, u64>::new(
        record_owner,
        names.claims_namespace,
        names.claims_index_namespace,
    ).remove(storage, &claim.id.joined_key(), &record);
}

/// `MultiIndex::prefix` and `Prefix::range` on the owner index, ascending,
/// from behind `start_after`, and the first item of that scan: the entry of
/// `owner` with the smallest id behind `start_after`, with the record that
/// the primary table holds under that id. There is no item where the owner
/// has no such entry, and the item is an error where the entry has no record
/// that parses.
#[verifier::external_body]
pub(crate) fn index_next(
    names: &Claims,
    storage: &MemoryStorage,
    owner: &str,
    start_after: Option<u64>,
) -> (r: Result<Option<(u64, Claim)>, StdError>)
    requires
        names.wf(),
        names.intact(*storage),
        crate::model::owner_fits(owner@),
    ensures
        match r {
            Ok(Some(entry)) => names.state(*storage).first_listed(
                owner@,
                start_after,
                entry.0,
            ) && names.state(*storage).claims.contains_key(entry.0) && names.state(
                *storage,
            ).claims[entry.0] == entry.1@,
            Ok(None) => forall|id: u64|
                #![trigger names.state(*storage).index.contains((owner@, id))]
                !names.state(*storage).listed(owner@, start_after, id),
            Err(_) => exists|id: u64|
                #![trigger names.state(*storage).index.contains((owner@, id))]
                names.state(*storage).first_listed(owner@, start_after, id) && !names.state(
                    *storage,
                ).claims.contains_key(id),
        },
{
    MultiIndex::<Addr, UnlockingPosition, u64>::new(
        record_owner,
        names.claims_namespace,
        names.claims_index_namespace,
    ).prefix(Addr::unchecked(owner)).range(
        storage,
        start_after.map(Bound::exclusive),
        None,
        Order::Ascending,
    ).next().transpose().map(|item| item.map(|(id, record)| (id, from_record(record))))
}

} // verus!
