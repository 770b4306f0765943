use cosmwasm_std::{Addr, MemoryStorage, Order, Storage, Timestamp, Uint128};
use cw_storage_plus::{Index, IndexList, IndexedMap, Item, MultiIndex};
use cw_vault_standard::extensions::lockup::UnlockingPosition;
use locked_vault_claims::state::claims;
use locked_vault_claims::types::{Claim, ClaimError, Expiration, MessageInfo};

struct OwnerIndex<'a> {
    owner: MultiIndex<'a, Addr, UnlockingPosition, u64>,
}

impl<'a> IndexList<UnlockingPosition> for OwnerIndex<'a> {
    fn get_indexes(
        &'_ self,
    ) -> Box<dyn Iterator<Item = &'_ dyn Index<UnlockingPosition>> + '_> {
        let v: Vec<&dyn Index<UnlockingPosition>> = vec![&self.owner];
        Box::new(v.into_iter())
    }
}

fn indexed_map<'a>() -> IndexedMap<'a, u64, UnlockingPosition, OwnerIndex<'a>> {
    let indexes = OwnerIndex {
        owner: MultiIndex::new(|_pk, d| d.owner.clone(), "claims", "claims_index"),
    };
    IndexedMap::new("claims", indexes)
}

fn position(id: u64, owner: &str, amount: u128, height: u64) -> UnlockingPosition {
    UnlockingPosition {
        id,
        owner: Addr::unchecked(owner),
        release_at: cw_utils::Expiration::AtHeight(height),
        base_token_amount: Uint128::new(amount),
    }
}

fn entries(storage: &MemoryStorage) -> Vec<(Vec<u8>, Vec<u8>)> {
    storage.range(None, None, Order::Ascending).collect()
}

#[test]
fn storage_is_what_an_indexed_map_writes() {
    let mut ours = MemoryStorage::new();
    let store = claims();
    store.create_claim(&mut ours, "owner", 100, Expiration::AtHeight(100)).unwrap();
    store.create_claim(&mut ours, "other", 7, Expiration::AtTime(1_700_000_000_000_000_000)).unwrap();
    store.create_claim(&mut ours, "owner", 5, Expiration::Never).unwrap();

    let mut theirs = MemoryStorage::new();
    let map = indexed_map();
    let counter: Item<u64> = Item::new("num_claims");
    map.save(&mut theirs, 0, &position(0, "owner", 100, 100)).unwrap();
    map.save(
        &mut theirs,
        1,
        &UnlockingPosition {
            id: 1,
            owner: Addr::unchecked("other"),
            release_at: cw_utils::Expiration::AtTime(Timestamp::from_nanos(
                1_700_000_000_000_000_000,
            )),
            base_token_amount: Uint128::new(7),
        },
    )
    .unwrap();
    map.save(
        &mut theirs,
        2,
        &UnlockingPosition {
            id: 2,
            owner: Addr::unchecked("owner"),
            release_at: cw_utils::Expiration::Never {},
            base_token_amount: Uint128::new(5),
        },
    )
    .unwrap();
    counter.save(&mut theirs, &3).unwrap();

    assert_eq!(entries(&ours), entries(&theirs));
    assert_eq!(entries(&ours).len(), 7);
}

#[test]
fn storage_after_withdrawals_is_what_an_indexed_map_leaves() {
    let mut ours = MemoryStorage::new();
    let store = claims();
    for _ in 0..4 {
        store.create_claim(&mut ours, "owner", 100, Expiration::AtHeight(100)).unwrap();
    }
    let sender = MessageInfo { sender: "owner".to_string(), funds: vec![] };
    store.force_claim(&mut ours, &sender, 1, Some(40)).unwrap();
    store.force_claim(&mut ours, &sender, 2, None).unwrap();

    let mut theirs = MemoryStorage::new();
    let map = indexed_map();
    for id in 0..4 {
        map.save(&mut theirs, id, &position(id, "owner", 100, 100)).unwrap();
    }
    Item::<u64>::new("num_claims").save(&mut theirs, &4).unwrap();
    map.save(&mut theirs, 1, &position(1, "owner", 60, 100)).unwrap();
    map.remove(&mut theirs, 2).unwrap();

    assert_eq!(entries(&ours), entries(&theirs));
}

#[test]
fn store_reads_what_an_indexed_map_wrote() {
    let mut storage = MemoryStorage::new();
    let map = indexed_map();
    map.save(&mut storage, 3, &position(3, "owner", 11, 50)).unwrap();
    map.save(&mut storage, 9, &position(9, "owner", 12, 60)).unwrap();
    map.save(&mut storage, 4, &position(4, "other", 13, 70)).unwrap();
    Item::<u64>::new("num_claims").save(&mut storage, &10).unwrap();

    let store = claims();
    let expected = |id: u64, owner: &str, amount: u128, height: u64| Claim {
        id,
        owner: owner.to_string(),
        release_at: Expiration::AtHeight(height),
        base_token_amount: amount,
    };
    assert_eq!(store.query_claim_by_id(&storage, 9), Ok(expected(9, "owner", 12, 60)));
    assert_eq!(store.query_claim_by_id(&storage, 5), Err(ClaimError::NotFound));
    assert_eq!(
        store.query_claims_for_owner(&storage, "owner", None, None),
        Ok(vec![(3, expected(3, "owner", 11, 50)), (9, expected(9, "owner", 12, 60))])
    );
    let next = store.create_claim(&mut storage, "other", 1, Expiration::Never).unwrap();
    assert_eq!(next.id, 10);
    assert_eq!(
        map.idx
            .owner
            .prefix(Addr::unchecked("other"))
            .keys(&storage, None, None, Order::Ascending)
            .collect::<Result<Vec<u64>, _>>()
            .unwrap(),
        vec![4, 10]
    );
}

#[test]
fn counter_is_left_alone_by_withdrawals() {
    let mut storage = MemoryStorage::new();
    let store = claims();
    let counter: Item<u64> = Item::new("num_claims");
    assert_eq!(counter.may_load(&storage).unwrap(), None);
    store.create_claim(&mut storage, "owner", 1, Expiration::AtHeight(1)).unwrap();
    store.create_claim(&mut storage, "owner", 1, Expiration::AtHeight(1)).unwrap();
    assert_eq!(counter.may_load(&storage).unwrap(), Some(2));
    let sender = MessageInfo { sender: "owner".to_string(), funds: vec![] };
    store.force_claim(&mut storage, &sender, 0, None).unwrap();
    assert_eq!(counter.may_load(&storage).unwrap(), Some(2));
    assert!(store.force_claim(&mut storage, &sender, 0, None).is_err());
    assert_eq!(counter.may_load(&storage).unwrap(), Some(2));
}
