use cosmwasm_std::MemoryStorage;
use locked_vault_claims::claims::{new_storage, Claims};
use locked_vault_claims::model::DEFAULT_LIMIT;
use locked_vault_claims::types::{BlockInfo, Claim, ClaimError, Expiration, MessageInfo};

const OWNER: &str = "owner";
const NOT_OWNER: &str = "not_owner";

const CLAIMS: &str = "claims";
const CLAIMS_INDEX: &str = "claims_index";
const NUM_CLAIMS: &str = "num_claims";
const BASE_TOKEN_AMOUNT: u128 = 100;
const EXPIRATION: Expiration = Expiration::AtHeight(100);

fn info(sender: &str) -> MessageInfo {
    MessageInfo { sender: sender.to_string(), funds: vec![] }
}

fn block(height: u64) -> BlockInfo {
    BlockInfo { height, time: 1_571_797_419_879_305_533 }
}

fn create_claim() -> (MemoryStorage, Claims<'static>, Claim) {
    let mut storage = MemoryStorage::new();
    let claims = Claims::new(CLAIMS, CLAIMS_INDEX, NUM_CLAIMS);
    let claim = claims.create_claim(&mut storage, OWNER, BASE_TOKEN_AMOUNT, EXPIRATION).unwrap();
    (storage, claims, claim)
}

fn expected_claim(id: u64) -> Claim {
    Claim {
        id,
        owner: OWNER.to_string(),
        base_token_amount: BASE_TOKEN_AMOUNT,
        release_at: EXPIRATION,
    }
}

fn expected_claims(start_id: u64, n: u32) -> Vec<Claim> {
    let mut claims = Vec::new();
    for i in start_id..(start_id + n as u64) {
        claims.push(expected_claim(i));
    }
    claims
}

#[test]
fn test_create_claim() {
    let (storage, claims, claim) = create_claim();

    let stored_claim = claims.query_claim_by_id(&storage, claim.id).unwrap();
    assert_eq!(stored_claim, claim);
    assert_eq!(
        stored_claim,
        Claim {
            id: 0,
            owner: OWNER.to_string(),
            base_token_amount: BASE_TOKEN_AMOUNT,
            release_at: EXPIRATION,
        }
    );
}

fn claim_tokens_case(block_height: u64, sender: &str) -> Result<u128, ClaimError> {
    let (mut storage, claims, _claim) = create_claim();
    match claims.claim_tokens(&mut storage, &block(block_height), &info(sender), 0) {
        Ok(amount) => {
            assert!(claims.query_claim_by_id(&storage, 0).is_err());
            Ok(amount)
        }
        Err(err) => {
            assert!(claims.query_claim_by_id(&storage, 0).is_ok());
            Err(err)
        }
    }
}

#[test]
fn test_claim_tokens() {
    let not_owned = claim_tokens_case(100, NOT_OWNER);
    assert_eq!(not_owned, Err(ClaimError::Unauthorized));
    assert_eq!(not_owned.unwrap_err().message(), "Claim not owned by sender");

    assert_eq!(claim_tokens_case(100, OWNER), Ok(BASE_TOKEN_AMOUNT));

    let immature = claim_tokens_case(99, OWNER);
    assert_eq!(immature, Err(ClaimError::NotMatured));
    assert_eq!(immature.unwrap_err().message(), "Claim has not yet matured.");
}

fn force_unlock_case(claim_amount: Option<u128>, sender: &str) -> Result<u128, ClaimError> {
    let (mut storage, claims, _claim) = create_claim();
    match claims.force_claim(&mut storage, &info(sender), 0, claim_amount) {
        Ok(amount) => {
            if amount == BASE_TOKEN_AMOUNT {
                assert!(claims.query_claim_by_id(&storage, 0).is_err());
            } else {
                assert_eq!(
                    claims.query_claim_by_id(&storage, 0).unwrap().base_token_amount,
                    BASE_TOKEN_AMOUNT - amount
                );
            }
            Ok(amount)
        }
        Err(err) => {
            assert!(claims.query_claim_by_id(&storage, 0).is_ok());
            Err(err)
        }
    }
}

#[test]
fn test_force_unlock() {
    assert_eq!(force_unlock_case(None, OWNER), Ok(BASE_TOKEN_AMOUNT));

    let not_owned = force_unlock_case(None, NOT_OWNER);
    assert_eq!(not_owned, Err(ClaimError::Unauthorized));
    assert_eq!(not_owned.unwrap_err().message(), "Claim not owned by sender");

    assert_eq!(force_unlock_case(Some(99u128), OWNER), Ok(99u128));
}

#[test]
fn test_query_claim_by_id() {
    let (storage, claims, _claim) = create_claim();
    assert_eq!(claims.query_claim_by_id(&storage, 0), Ok(expected_claim(0)));
    assert!(matches!(claims.query_claim_by_id(&storage, 1), Err(_)));
}

fn query_claims_for_owner_case(
    owner: &str,
    start_after: Option<u64>,
    limit: Option<u32>,
) -> Result<Vec<Claim>, ClaimError> {
    let mut storage = MemoryStorage::new();
    let claims = Claims::new(CLAIMS, CLAIMS_INDEX, NUM_CLAIMS);
    for _ in 0..100 {
        claims.create_claim(&mut storage, owner, BASE_TOKEN_AMOUNT, EXPIRATION).unwrap();
    }
    claims
        .query_claims_for_owner(&storage, owner, start_after, limit)
        .map(|claims| claims.iter().map(|c| c.1.clone()).collect())
}

#[test]
fn test_query_claims_for_owner() {
    assert_eq!(
        query_claims_for_owner_case(OWNER, None, None),
        Ok(expected_claims(0, DEFAULT_LIMIT))
    );
    assert_eq!(query_claims_for_owner_case(OWNER, None, Some(31)), Ok(expected_claims(0, 31)));
    assert_eq!(
        query_claims_for_owner_case(OWNER, Some(1), None),
        Ok(expected_claims(2, DEFAULT_LIMIT))
    );
    assert_eq!(query_claims_for_owner_case(OWNER, Some(1), Some(31)), Ok(expected_claims(2, 31)));
}

#[test]
fn claim_matures_at_its_height() {
    let (mut storage, claims, _claim) = create_claim();
    let early = claims.claim_tokens(&mut storage, &block(99), &info(OWNER), 0);
    assert_eq!(early, Err(ClaimError::NotMatured));
    assert_eq!(early.unwrap_err().message(), "Claim has not yet matured.");
    assert_eq!(claims.query_claim_by_id(&storage, 0), Ok(expected_claim(0)));

    assert_eq!(claims.claim_tokens(&mut storage, &block(100), &info(OWNER), 0), Ok(100));
    assert_eq!(claims.query_claim_by_id(&storage, 0), Err(ClaimError::NotFound));
    assert_eq!(claims.query_claims_for_owner(&storage, OWNER, None, None), Ok(vec![]));
}

#[test]
fn stranger_cannot_claim_at_any_height() {
    for height in [0u64, 99, 100, 101, u64::MAX] {
        let (mut storage, claims, _claim) = create_claim();
        let refused = claims.claim_tokens(&mut storage, &block(height), &info(NOT_OWNER), 0);
        assert_eq!(refused, Err(ClaimError::Unauthorized));
        assert_eq!(refused.unwrap_err().message(), "Claim not owned by sender");
        assert_eq!(claims.query_claim_by_id(&storage, 0), Ok(expected_claim(0)));
    }
}

#[test]
fn ownership_is_tested_before_maturity() {
    let (mut storage, claims, _claim) = create_claim();
    assert_eq!(
        claims.claim_tokens(&mut storage, &block(1), &info(NOT_OWNER), 0),
        Err(ClaimError::Unauthorized)
    );
}

#[test]
fn missing_claim_is_tested_first() {
    let (mut storage, claims, _claim) = create_claim();
    assert_eq!(
        claims.claim_tokens(&mut storage, &block(1), &info(NOT_OWNER), 7),
        Err(ClaimError::NotFound)
    );
    assert_eq!(
        claims.force_claim(&mut storage, &info(NOT_OWNER), 7, Some(1000)),
        Err(ClaimError::NotFound)
    );
    assert_eq!(ClaimError::NotFound.message(), "Claim not found");
}

#[test]
fn partial_force_claim_leaves_the_rest() {
    let (mut storage, claims, _claim) = create_claim();
    assert_eq!(claims.force_claim(&mut storage, &info(OWNER), 0, Some(99)), Ok(99));
    let left = claims.query_claim_by_id(&storage, 0).unwrap();
    assert_eq!(left, Claim { base_token_amount: 1, ..expected_claim(0) });
    assert_eq!(
        claims.query_claims_for_owner(&storage, OWNER, None, None),
        Ok(vec![(0, left.clone())])
    );

    assert_eq!(claims.force_claim(&mut storage, &info(OWNER), 0, None), Ok(1));
    assert_eq!(claims.query_claim_by_id(&storage, 0), Err(ClaimError::NotFound));
    assert_eq!(claims.query_claims_for_owner(&storage, OWNER, None, None), Ok(vec![]));
}

#[test]
fn force_claim_ignores_maturity() {
    let (mut storage, claims, _claim) = create_claim();
    assert_eq!(claims.force_claim(&mut storage, &info(OWNER), 0, Some(100)), Ok(100));
    assert_eq!(claims.query_claim_by_id(&storage, 0), Err(ClaimError::NotFound));
}

#[test]
fn force_claim_of_nothing_changes_nothing() {
    let (mut storage, claims, _claim) = create_claim();
    assert_eq!(claims.force_claim(&mut storage, &info(OWNER), 0, Some(0)), Ok(0));
    assert_eq!(claims.query_claim_by_id(&storage, 0), Ok(expected_claim(0)));
}

#[test]
fn force_claim_of_too_much_is_refused() {
    let (mut storage, claims, _claim) = create_claim();
    let refused = claims.force_claim(&mut storage, &info(OWNER), 0, Some(101));
    assert_eq!(refused, Err(ClaimError::InvalidAmount { claimable: 100, requested: 101 }));
    assert!(refused
        .unwrap_err()
        .message()
        .contains("Claim amount is greater than the claimable amount"));
    assert_eq!(claims.query_claim_by_id(&storage, 0), Ok(expected_claim(0)));
}

#[test]
fn hundred_claims_are_paged() {
    let mut storage = MemoryStorage::new();
    let claims = Claims::new(CLAIMS, CLAIMS_INDEX, NUM_CLAIMS);
    for expected_id in 0..100u64 {
        let claim =
            claims.create_claim(&mut storage, OWNER, BASE_TOKEN_AMOUNT, EXPIRATION).unwrap();
        assert_eq!(claim.id, expected_id);
    }
    let first = claims.query_claims_for_owner(&storage, OWNER, None, None).unwrap();
    assert_eq!(first.iter().map(|e| e.0).collect::<Vec<_>>(), (0..10u64).collect::<Vec<_>>());
    let second = claims.query_claims_for_owner(&storage, OWNER, Some(1), Some(31)).unwrap();
    assert_eq!(second.len(), 31);
    assert_eq!(second.iter().map(|e| e.0).collect::<Vec<_>>(), (2..=32u64).collect::<Vec<_>>());
    for (id, claim) in second {
        assert_eq!(claim, expected_claim(id));
    }
}

#[test]
fn lookup_of_unknown_or_claimed_id_fails() {
    let (mut storage, claims, _claim) = create_claim();
    assert_eq!(claims.query_claim_by_id(&storage, 1), Err(ClaimError::NotFound));
    assert_eq!(claims.query_claim_by_id(&storage, u64::MAX), Err(ClaimError::NotFound));
    claims.claim_tokens(&mut storage, &block(100), &info(OWNER), 0).unwrap();
    assert_eq!(claims.query_claim_by_id(&storage, 0), Err(ClaimError::NotFound));
}

#[test]
fn ids_are_never_used_again() {
    let (mut storage, claims, first) = create_claim();
    assert_eq!(first.id, 0);
    claims.force_claim(&mut storage, &info(OWNER), 0, None).unwrap();
    let second = claims.create_claim(&mut storage, NOT_OWNER, 5, Expiration::Never).unwrap();
    assert_eq!(second.id, 1);
    let third = claims.create_claim(&mut storage, OWNER, 6, Expiration::AtTime(17)).unwrap();
    assert_eq!(third.id, 2);
    assert_eq!(claims.query_claim_by_id(&storage, 0), Err(ClaimError::NotFound));
    assert_eq!(claims.query_claim_by_id(&storage, 1), Ok(second));
    assert_eq!(claims.query_claim_by_id(&storage, 2), Ok(third));
}

#[test]
fn owners_are_listed_apart() {
    let mut storage = new_storage();
    let claims = Claims::new(CLAIMS, CLAIMS_INDEX, NUM_CLAIMS);
    let owners = ["a", "b", "ab", "a", "b", "a"];
    for (i, owner) in owners.iter().enumerate() {
        claims.create_claim(&mut storage, owner, 1 + i as u128, EXPIRATION).unwrap();
    }
    let ids = |owner: &str| -> Vec<u64> {
        claims
            .query_claims_for_owner(&storage, owner, None, None)
            .unwrap()
            .iter()
            .map(|e| e.0)
            .collect()
    };
    assert_eq!(ids("a"), vec![0, 3, 5]);
    assert_eq!(ids("b"), vec![1, 4]);
    assert_eq!(ids("ab"), vec![2]);
    assert_eq!(ids("c"), Vec::<u64>::new());
    assert_eq!(ids(""), Vec::<u64>::new());
}

#[test]
fn start_after_is_exclusive_and_limit_caps() {
    let mut storage = MemoryStorage::new();
    let claims = Claims::new(CLAIMS, CLAIMS_INDEX, NUM_CLAIMS);
    for _ in 0..5 {
        claims.create_claim(&mut storage, OWNER, BASE_TOKEN_AMOUNT, EXPIRATION).unwrap();
    }
    let ids = |start_after: Option<u64>, limit: Option<u32>| -> Vec<u64> {
        claims
            .query_claims_for_owner(&storage, OWNER, start_after, limit)
            .unwrap()
            .iter()
            .map(|e| e.0)
            .collect()
    };
    assert_eq!(ids(Some(0), None), vec![1, 2, 3, 4]);
    assert_eq!(ids(Some(3), None), vec![4]);
    assert_eq!(ids(Some(4), None), Vec::<u64>::new());
    assert_eq!(ids(Some(400), None), Vec::<u64>::new());
    assert_eq!(ids(Some(u64::MAX), None), Vec::<u64>::new());
    assert_eq!(ids(None, Some(0)), Vec::<u64>::new());
    assert_eq!(ids(None, Some(2)), vec![0, 1]);
    assert_eq!(ids(None, Some(u32::MAX)), vec![0, 1, 2, 3, 4]);
}

#[test]
fn ids_above_one_byte_stay_in_order() {
    let mut storage = MemoryStorage::new();
    let claims = Claims::new(CLAIMS, CLAIMS_INDEX, NUM_CLAIMS);
    for _ in 0..600 {
        claims.create_claim(&mut storage, OWNER, 1, EXPIRATION).unwrap();
    }
    let page = claims.query_claims_for_owner(&storage, OWNER, Some(253), Some(6)).unwrap();
    assert_eq!(page.iter().map(|e| e.0).collect::<Vec<_>>(), vec![254, 255, 256, 257, 258, 259]);
    let page = claims.query_claims_for_owner(&storage, OWNER, Some(510), Some(3)).unwrap();
    assert_eq!(page.iter().map(|e| e.0).collect::<Vec<_>>(), vec![511, 512, 513]);
}

#[test]
fn pages_put_together_give_all_claims() {
    let mut storage = MemoryStorage::new();
    let claims = Claims::new(CLAIMS, CLAIMS_INDEX, NUM_CLAIMS);
    for i in 0..40u64 {
        let owner = if i % 3 == 0 { NOT_OWNER } else { OWNER };
        claims.create_claim(&mut storage, owner, 1 + i as u128, EXPIRATION).unwrap();
    }
    claims.force_claim(&mut storage, &info(OWNER), 7, None).unwrap();
    claims.claim_tokens(&mut storage, &block(100), &info(OWNER), 20).unwrap();
    let expected: Vec<u64> = (0..40u64).filter(|i| i % 3 != 0 && *i != 7 && *i != 20).collect();
    for limit in [1u32, 2, 3, 7, 10, 25, 26, 100] {
        let mut all = Vec::new();
        let mut start_after = None;
        loop {
            let page =
                claims.query_claims_for_owner(&storage, OWNER, start_after, Some(limit)).unwrap();
            let full = page.len() == limit as usize;
            if let Some(last) = page.last() {
                start_after = Some(last.0);
            }
            all.extend(page);
            if !full {
                break;
            }
        }
        assert_eq!(all.iter().map(|e| e.0).collect::<Vec<_>>(), expected);
        for (id, claim) in all {
            assert_eq!(claims.query_claim_by_id(&storage, id), Ok(claim));
        }
    }
}

#[test]
fn created_claim_is_read_back_in_every_field() {
    let mut storage = MemoryStorage::new();
    let claims = Claims::new(CLAIMS, CLAIMS_INDEX, NUM_CLAIMS);
    let owners = ["owner", "", "with \"quotes\" and \\ and \n", "\u{e9}t\u{e9} \u{1F600}"];
    let expiries =
        [Expiration::AtHeight(0), Expiration::AtTime(u64::MAX), Expiration::Never, EXPIRATION];
    let amounts = [0u128, 1, u128::MAX, 100];
    for i in 0..4 {
        let claim = claims.create_claim(&mut storage, owners[i], amounts[i], expiries[i]).unwrap();
        assert_eq!(
            claim,
            Claim {
                id: i as u64,
                owner: owners[i].to_string(),
                base_token_amount: amounts[i],
                release_at: expiries[i],
            }
        );
        assert_eq!(claims.query_claim_by_id(&storage, claim.id), Ok(claim.clone()));
        assert_eq!(
            claims.query_claims_for_owner(&storage, owners[i], None, None),
            Ok(vec![(i as u64, claim)])
        );
    }
}

#[test]
fn claim_by_time_matures_at_its_time() {
    let mut storage = MemoryStorage::new();
    let claims = Claims::new(CLAIMS, CLAIMS_INDEX, NUM_CLAIMS);
    claims.create_claim(&mut storage, OWNER, 9, Expiration::AtTime(1_000)).unwrap();
    claims.create_claim(&mut storage, OWNER, 9, Expiration::Never).unwrap();
    let at = |time: u64| BlockInfo { height: 12_345, time };
    assert_eq!(
        claims.claim_tokens(&mut storage, &at(999), &info(OWNER), 0),
        Err(ClaimError::NotMatured)
    );
    assert_eq!(claims.claim_tokens(&mut storage, &at(1_000), &info(OWNER), 0), Ok(9));
    assert_eq!(
        claims.claim_tokens(&mut storage, &at(u64::MAX), &info(OWNER), 1),
        Err(ClaimError::NotMatured)
    );
}

#[test]
fn two_stores_in_one_storage_stay_apart() {
    let mut storage = MemoryStorage::new();
    let first = Claims::new("a", "b", "c");
    let second = Claims::new("aa", "bb", "cc");
    first.create_claim(&mut storage, OWNER, 1, EXPIRATION).unwrap();
    first.create_claim(&mut storage, OWNER, 2, EXPIRATION).unwrap();
    let other = second.create_claim(&mut storage, OWNER, 3, EXPIRATION).unwrap();
    assert_eq!(other.id, 0);
    assert_eq!(first.query_claims_for_owner(&storage, OWNER, None, None).unwrap().len(), 2);
    assert_eq!(second.query_claims_for_owner(&storage, OWNER, None, None).unwrap().len(), 1);
    assert_eq!(second.query_claim_by_id(&storage, 1), Err(ClaimError::NotFound));
}

#[test]
fn names_have_to_keep_the_parts_apart() {
    assert!(Claims::checked(CLAIMS, CLAIMS_INDEX, NUM_CLAIMS).is_some());
    assert!(Claims::checked("a", "b", "").is_some());
    assert!(Claims::checked("", "b", "a").is_some());
    assert!(Claims::checked("same", "same", NUM_CLAIMS).is_none());
    assert!(Claims::checked(CLAIMS, CLAIMS_INDEX, "\0num").is_none());
    let long = "n".repeat(256);
    let longest = "n".repeat(255);
    assert!(Claims::checked(&long, CLAIMS_INDEX, NUM_CLAIMS).is_none());
    assert!(Claims::checked(CLAIMS, &long, NUM_CLAIMS).is_none());
    assert!(Claims::checked(&longest, CLAIMS_INDEX, &long).is_some());
    let wide = "\u{e9}".repeat(128);
    assert!(Claims::checked(&wide, CLAIMS_INDEX, NUM_CLAIMS).is_none());
    let store = Claims::checked(&longest, "x", "counter").unwrap();
    let mut storage = MemoryStorage::new();
    store.create_claim(&mut storage, OWNER, 1, EXPIRATION).unwrap();
    assert_eq!(store.query_claims_for_owner(&storage, OWNER, None, None).unwrap().len(), 1);
}

#[test]
fn owners_of_any_length_can_be_asked_for() {
    let (storage, claims, _claim) = create_claim();
    let long = "o".repeat(0x10000);
    assert_eq!(claims.query_claims_for_owner(&storage, &long, None, None), Ok(vec![]));
    let longest = "o".repeat(0xFFFF);
    assert_eq!(claims.query_claims_for_owner(&storage, &longest, None, Some(0)), Ok(vec![]));
    let mut storage = storage;
    let claim = claims.create_claim(&mut storage, &longest, 5, EXPIRATION).unwrap();
    assert_eq!(
        claims.query_claims_for_owner(&storage, &longest, None, None),
        Ok(vec![(1, claim)])
    );
}

#[test]
fn every_character_of_an_owner_is_kept() {
    let mut storage = MemoryStorage::new();
    let claims = Claims::new(CLAIMS, CLAIMS_INDEX, NUM_CLAIMS);
    let mut id = 0u64;
    let mut code = 0u32;
    while code <= 0x10FFFF {
        let mut owner = String::new();
        let mut taken = 0;
        while taken < 2_048 && code <= 0x10FFFF {
            if let Some(c) = char::from_u32(code) {
                owner.push(c);
                taken += 1;
            }
            code += if code < 0x3000 { 1 } else { 97 };
        }
        let claim = claims.create_claim(&mut storage, &owner, 7, EXPIRATION).unwrap();
        assert_eq!(claim.owner, owner);
        assert_eq!(claims.query_claim_by_id(&storage, id), Ok(claim.clone()));
        assert_eq!(
            claims.query_claims_for_owner(&storage, &owner, None, None),
            Ok(vec![(id, claim)])
        );
        let sender = MessageInfo { sender: owner.clone(), funds: vec![] };
        assert_eq!(claims.force_claim(&mut storage, &sender, id, Some(3)), Ok(3));
        assert_eq!(claims.query_claim_by_id(&storage, id).unwrap().owner, owner);
        assert_eq!(claims.claim_tokens(&mut storage, &block(100), &sender, id), Ok(4));
        assert_eq!(claims.query_claims_for_owner(&storage, &owner, None, None), Ok(vec![]));
        id += 1;
    }
    assert!(id > 5);
}

#[test]
fn pages_end_after_the_claims_are_through() {
    for (count, limit) in [(0u64, 1u32), (1, 1), (5, 2), (6, 2), (6, 3), (7, 10), (20, 7)] {
        let mut storage = MemoryStorage::new();
        let claims = Claims::new(CLAIMS, CLAIMS_INDEX, NUM_CLAIMS);
        for _ in 0..count {
            claims.create_claim(&mut storage, OWNER, 1, EXPIRATION).unwrap();
        }
        let mut start_after = None;
        let mut queries = 0u64;
        loop {
            let page =
                claims.query_claims_for_owner(&storage, OWNER, start_after, Some(limit)).unwrap();
            let first = queries * limit as u64;
            let expected: Vec<u64> =
                (first.min(count)..(first + limit as u64).min(count)).collect();
            assert_eq!(page.iter().map(|e| e.0).collect::<Vec<_>>(), expected);
            queries += 1;
            match page.last() {
                Some(last) => start_after = Some(last.0),
                None => break,
            }
        }
        let rounds = (count + limit as u64 - 1) / limit as u64;
        assert_eq!(queries, rounds + 1);
    }
}
