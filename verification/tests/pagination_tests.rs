//! Pagination: the server-side cap, and cursor follow-ups that paginate
//! with no duplication and no gap.

use nft_marketplace::contract::instantiate;
use nft_marketplace::msg::{CollaboratorAnswers, InstantiateMsg};
use nft_marketplace::order_state::Asset;
use nft_marketplace::state::{contract, AuctionConfig, ListingStatus, MarketplaceContract};
use nft_marketplace::types::{BlockInfo, Coin, Env, Expiration, MessageInfo};

const SELLER: u64 = 1;
const COLLECTION: u64 = 100;
const OTHER_COLLECTION: u64 = 101;
const VAURA_TOKEN: u64 = 200;

fn page_env() -> Env {
    Env { block: BlockInfo { height: 1_000, time: 1_000_000 }, contract_address: 99 }
}

fn page_setup(listed_tokens: u64) -> MarketplaceContract {
    let mut m = contract();
    let info = MessageInfo { sender: SELLER, funds: vec![] };
    instantiate(&mut m, &info, InstantiateMsg { owner: SELLER }).unwrap();
    for token in 0..listed_tokens {
        let cfg = AuctionConfig::FixedPrice {
            price: Coin { denom: "uaura".to_string(), amount: 100 },
            start_time: None,
            end_time: None,
        };
        m.execute_list_nft(&info, COLLECTION, token, cfg, Some(SELLER), Some(Expiration::Never))
            .unwrap();
    }
    // one listing in another collection must never show up
    let cfg = AuctionConfig::FixedPrice {
        price: Coin { denom: "uaura".to_string(), amount: 100 },
        start_time: None,
        end_time: None,
    };
    m.execute_list_nft(&info, OTHER_COLLECTION, 0, cfg, Some(SELLER), Some(Expiration::Never))
        .unwrap();
    m
}

#[test]
fn listing_query_capped_at_thirty() {
    let m = page_setup(40);
    let page = m.query_listings_by_contract_address(
        ListingStatus::Ongoing {}.name(),
        COLLECTION,
        None,
        Some(100),
    );
    assert_eq!(page.listings.len(), 30);
    assert_eq!(page.listings[0].token_id, 0);
    assert_eq!(page.listings[29].token_id, 29);
}

#[test]
fn listing_pages_have_no_duplicates_or_gaps() {
    let m = page_setup(40);
    let status = ListingStatus::Ongoing {}.name();
    let page1 = m.query_listings_by_contract_address(status.clone(), COLLECTION, None, Some(100));
    assert_eq!(page1.listings.len(), 30);

    // follow up with the last returned token as the exclusive cursor
    let cursor = page1.listings.last().unwrap().token_id;
    let page2 =
        m.query_listings_by_contract_address(status, COLLECTION, Some(cursor), Some(100));
    assert_eq!(page2.listings.len(), 10);

    let mut all: Vec<u64> = page1.listings.iter().map(|l| l.token_id).collect();
    all.extend(page2.listings.iter().map(|l| l.token_id));
    let expected: Vec<u64> = (0..40).collect();
    assert_eq!(all, expected);
}

#[test]
fn listing_pages_respect_requested_limit() {
    let m = page_setup(12);
    let status = ListingStatus::Ongoing {}.name();
    let page1 = m.query_listings_by_contract_address(status.clone(), COLLECTION, None, Some(5));
    let tokens1: Vec<u64> = page1.listings.iter().map(|l| l.token_id).collect();
    assert_eq!(tokens1, vec![0, 1, 2, 3, 4]);

    let page2 = m.query_listings_by_contract_address(status, COLLECTION, Some(4), Some(5));
    let tokens2: Vec<u64> = page2.listings.iter().map(|l| l.token_id).collect();
    assert_eq!(tokens2, vec![5, 6, 7, 8, 9]);
}

#[test]
fn offer_query_capped_at_thirty() {
    let mut m = contract();
    let admin = MessageInfo { sender: SELLER, funds: vec![] };
    instantiate(&mut m, &admin, InstantiateMsg { owner: SELLER }).unwrap();
    let answers = CollaboratorAnswers {
        owner_of: Some(SELLER),
        approval: None,
        royalty: None,
        allowance: Some(1_000_000),
        balance: Some(1_000_000),
    };
    for offerer in 1_000..1_035u64 {
        let info = MessageInfo { sender: offerer, funds: vec![] };
        m.execute_offer_nft(
            &page_env(),
            &info,
            Asset::Nft { nft_address: COLLECTION, token_id: Some(7) },
            Asset::Cw20 { token_address: VAURA_TOKEN, amount: 500 },
            Expiration::AtTime(2_000_000),
            answers.allowance,
            answers.balance,
            answers.owner_of,
        )
        .unwrap();
    }

    // first page: the 30 highest offerers, descending
    let page1 = m.query_nft_offers(COLLECTION, 7, None, Some(100));
    assert_eq!(page1.offers.len(), 30);
    assert_eq!(page1.offers[0].offerer, 1_034);
    assert_eq!(page1.offers[29].offerer, 1_005);

    // follow up below the last returned offerer: the remaining 5
    let cursor = page1.offers.last().unwrap().offerer;
    let page2 = m.query_nft_offers(COLLECTION, 7, Some(cursor), Some(100));
    let who: Vec<u64> = page2.offers.iter().map(|o| o.offerer).collect();
    assert_eq!(who, vec![1_004, 1_003, 1_002, 1_001, 1_000]);
}

#[test]
fn queries_on_empty_store_return_nothing() {
    let m = contract();
    let page = m.query_listings_by_contract_address(
        ListingStatus::Ongoing {}.name(),
        COLLECTION,
        None,
        Some(100),
    );
    assert_eq!(page.listings.len(), 0);
    let offers = m.query_nft_offers(COLLECTION, 7, None, None);
    assert_eq!(offers.offers.len(), 0);
    let offers = m.query_user_offers(SELLER, None, None);
    assert_eq!(offers.offers.len(), 0);
}
