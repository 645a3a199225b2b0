//! Listing lifecycle: instantiation, listing, cancelling, buying, and
//! the royalty edge cases of settlement.

use nft_marketplace::contract::{execute, instantiate, query};
use nft_marketplace::error::ContractError;
use nft_marketplace::msg::{
    CollaboratorAnswers, ExecuteMsg, InstantiateMsg, QueryAnswer, QueryMsg,
};
use nft_marketplace::royalty::RoyaltiesInfoResponse;
use nft_marketplace::state::{contract, AuctionConfig, ListingStatus, MarketplaceContract};
use nft_marketplace::types::{BlockInfo, Coin, Env, Expiration, Instruction, MessageInfo};

const OWNER: u64 = 1;
const CREATOR: u64 = 2;
const BUYER: u64 = 3;
const ANYONE: u64 = 4;
const MOCK_CW2981_ADDR: u64 = 100;

fn mock_env() -> Env {
    Env { block: BlockInfo { height: 12_345, time: 1_571_797_419_879_305_533 }, contract_address: 99 }
}

fn mock_info(sender: u64, amount: u128) -> MessageInfo {
    MessageInfo { sender, funds: vec![Coin { denom: "uaura".to_string(), amount }] }
}

fn no_lookup() -> CollaboratorAnswers {
    CollaboratorAnswers { owner_of: None, approval: None, royalty: None, allowance: None, balance: None }
}

/// The custody answers for an asset `OWNER` owns with a permanent
/// marketplace approval, and the royalty the mock collaborator reports
/// for the token: as in the reference collaborator, token 1 carries a
/// 10-unit royalty to `CREATOR`, token 2 a zero royalty, token 3 a
/// royalty to `OWNER` personally, and other tokens none at all.
fn mock_answers(token_id: u64) -> CollaboratorAnswers {
    let royalty = match token_id {
        1 => Some(RoyaltiesInfoResponse { address: Some(CREATOR), royalty_amount: 10 }),
        2 => Some(RoyaltiesInfoResponse { address: Some(CREATOR), royalty_amount: 0 }),
        3 => Some(RoyaltiesInfoResponse { address: Some(OWNER), royalty_amount: 10 }),
        _ => None,
    };
    CollaboratorAnswers {
        owner_of: Some(OWNER),
        approval: Some(Expiration::Never),
        royalty,
        allowance: None,
        balance: None,
    }
}

fn mock_contract() -> MarketplaceContract {
    let mut m = contract();
    let res = instantiate(&mut m, &mock_info(CREATOR, 1000), InstantiateMsg { owner: OWNER })
        .unwrap();
    assert_eq!(0, res.messages.len());
    m
}

fn create_listing(
    m: &mut MarketplaceContract,
    sender: u64,
    contract_address: u64,
    token_id: u64,
) -> Result<nft_marketplace::types::Response, ContractError> {
    let msg = ExecuteMsg::ListNft {
        contract_address,
        token_id,
        auction_config: AuctionConfig::FixedPrice {
            price: Coin { denom: "uaura".to_string(), amount: 100 },
            start_time: None,
            end_time: None,
        },
    };
    let mut answers = mock_answers(token_id);
    // Custody reports the true owner whoever asks; authorization is the
    // engine's decision.
    answers.owner_of = Some(OWNER);
    execute(m, &mock_env(), &mock_info(sender, 1000), msg, &answers)
}

#[test]
fn proper_initialization() {
    let m = mock_contract();
    let res = query(&m, QueryMsg::Config {}).unwrap();
    match res {
        QueryAnswer::Config(config) => {
            println!("Got: {}", config.owner);
            assert_eq!(OWNER, config.owner);
        }
        _ => panic!("unexpected answer"),
    }
}

#[test]
fn owner_can_create_listing() {
    let mut m = mock_contract();
    for i in 0..25 {
        create_listing(&mut m, OWNER, MOCK_CW2981_ADDR, i).unwrap();
    }

    // now can query the listings
    let query_res = m.query_listings_by_contract_address(
        ListingStatus::Ongoing {}.name(),
        MOCK_CW2981_ADDR,
        Some(10),
        Some(10),
    );
    println!("Query Response: {:?}", &query_res);
    assert_eq!(query_res.listings.len(), 10);
    assert_eq!(query_res.listings[0].token_id, 11);

    // can get 1 listing
    let query_listing = m.query_listing(MOCK_CW2981_ADDR, 5).unwrap();
    println!("Listing 5: {:?}", &query_listing);
    assert_eq!(query_listing.token_id, 5);
    assert_eq!(query_listing.seller, OWNER);
}

#[test]
fn other_cannot_create_listing() {
    let mut m = mock_contract();
    // custody says OWNER owns the token, so CREATOR's attempt fails
    let response = create_listing(&mut m, CREATOR, MOCK_CW2981_ADDR, 1);
    println!("Response: {:?}", &response);
    assert!(response.is_err());
    assert_eq!(response.unwrap_err(), ContractError::Unauthorized {});
}

#[test]
fn listing_requires_permanent_approval() {
    let mut m = mock_contract();
    let msg = ExecuteMsg::ListNft {
        contract_address: MOCK_CW2981_ADDR,
        token_id: 1,
        auction_config: AuctionConfig::FixedPrice {
            price: Coin { denom: "uaura".to_string(), amount: 100 },
            start_time: None,
            end_time: None,
        },
    };
    let answers = CollaboratorAnswers {
        owner_of: Some(OWNER),
        approval: Some(Expiration::AtHeight(99_999)),
        royalty: None,
        allowance: None,
        balance: None,
    };
    let response = execute(&mut m, &mock_env(), &mock_info(OWNER, 1000), msg, &answers);
    assert_eq!(response.unwrap_err(), ContractError::Unauthorized {});
}

#[test]
fn cannot_relist_active_listing() {
    let mut m = mock_contract();
    create_listing(&mut m, OWNER, MOCK_CW2981_ADDR, 1).unwrap();
    let response = create_listing(&mut m, OWNER, MOCK_CW2981_ADDR, 1);
    assert_eq!(response.unwrap_err(), ContractError::AlreadyExists {});
}

#[test]
fn owner_cancel_listing() {
    let mut m = mock_contract();
    for i in 0..20 {
        create_listing(&mut m, OWNER, MOCK_CW2981_ADDR, i).unwrap();
    }

    let listing_5 = m.query_listing(MOCK_CW2981_ADDR, 5).unwrap();
    assert_eq!(listing_5.token_id, 5);

    // cancel the listing, with the correct seller
    let msg = ExecuteMsg::Cancel { contract_address: MOCK_CW2981_ADDR, token_id: 5 };
    let _response = execute(&mut m, &mock_env(), &mock_info(OWNER, 100000), msg, &no_lookup())
        .unwrap();

    // get listing again: it is retained, in a terminal state
    let listing_5 = m.query_listing(MOCK_CW2981_ADDR, 5).unwrap();
    println!("Listing 5: {:?}", &listing_5.status.name());
    assert_eq!(matches!(listing_5.status, ListingStatus::Cancelled { .. }), true);

    // a terminal slot may be listed again
    create_listing(&mut m, OWNER, MOCK_CW2981_ADDR, 5).unwrap();
    let listing_5 = m.query_listing(MOCK_CW2981_ADDR, 5).unwrap();
    assert_eq!(matches!(listing_5.status, ListingStatus::Ongoing {}), true);
}

#[test]
fn other_cannot_cancel_listing() {
    let mut m = mock_contract();
    create_listing(&mut m, OWNER, MOCK_CW2981_ADDR, 1).unwrap();

    let msg = ExecuteMsg::Cancel { contract_address: MOCK_CW2981_ADDR, token_id: 1 };
    let response = execute(&mut m, &mock_env(), &mock_info(ANYONE, 100000), msg, &no_lookup());
    match response {
        Ok(_) => panic!("Expected error"),
        Err(ContractError::Unauthorized {}) => {}
        Err(e) => panic!("Unexpected error: {:?}", e),
    }
}

#[test]
fn anyone_can_cancel_expired_listing() {
    let mut m = mock_contract();
    let msg = ExecuteMsg::ListNft {
        contract_address: MOCK_CW2981_ADDR,
        token_id: 1,
        auction_config: AuctionConfig::FixedPrice {
            price: Coin { denom: "uaura".to_string(), amount: 100 },
            start_time: None,
            end_time: Some(Expiration::AtHeight(10)),
        },
    };
    execute(&mut m, &mock_env(), &mock_info(OWNER, 1000), msg, &mock_answers(1)).unwrap();

    // the listing's end height has passed: anyone may clean it up
    let msg = ExecuteMsg::Cancel { contract_address: MOCK_CW2981_ADDR, token_id: 1 };
    execute(&mut m, &mock_env(), &mock_info(ANYONE, 1), msg, &no_lookup()).unwrap();
    let listing = m.query_listing(MOCK_CW2981_ADDR, 1).unwrap();
    assert_eq!(matches!(listing.status, ListingStatus::Cancelled { .. }), true);
}

#[test]
fn can_query_by_contract_address() {
    let mut m = mock_contract();
    for i in 0..5 {
        create_listing(&mut m, OWNER, MOCK_CW2981_ADDR, i).unwrap();
    }

    let query_res = m.query_listings_by_contract_address(
        ListingStatus::Ongoing {}.name(),
        MOCK_CW2981_ADDR,
        None,
        Some(10),
    );
    println!("Query Response: {:?}", &query_res);
    assert_eq!(query_res.listings.len(), 5);

    // now cancel listing 3
    let msg = ExecuteMsg::Cancel { contract_address: MOCK_CW2981_ADDR, token_id: 3 };
    execute(&mut m, &mock_env(), &mock_info(OWNER, 100000), msg, &no_lookup()).unwrap();

    // now can query ongoing listings again
    let answer = query(
        &m,
        QueryMsg::ListingsByContractAddress {
            contract_address: MOCK_CW2981_ADDR,
            start_after: None,
            limit: Some(10),
        },
    )
    .unwrap();
    match answer {
        QueryAnswer::Listings(query_res) => {
            println!("Query Response: {:?}", &query_res);
            assert_eq!(query_res.listings.len(), 4);
        }
        _ => panic!("unexpected answer"),
    }

    // query cancelled listings
    let query_res = m.query_listings_by_contract_address(
        ListingStatus::Cancelled { cancelled_at: 0 }.name(),
        MOCK_CW2981_ADDR,
        None,
        Some(10),
    );
    println!("Query Response: {:?}", &query_res);
    assert_eq!(query_res.listings.len(), 1);
    assert_eq!(query_res.listings[0].token_id, 3);
}

#[test]
fn cannot_buy_non_existent_listing() {
    let mut m = mock_contract();
    let msg = ExecuteMsg::Buy { contract_address: MOCK_CW2981_ADDR, token_id: 1 };
    let response = execute(&mut m, &mock_env(), &mock_info(BUYER, 100000), msg, &mock_answers(1));
    println!("Response: {:?}", &response);
    match response {
        Ok(_) => panic!("Expected error"),
        Err(ContractError::NotFound {}) => {}
        Err(e) => panic!("Unexpected error: {:?}", e),
    }
}

#[test]
fn cannot_buy_cancelled_listing() {
    let mut m = mock_contract();
    create_listing(&mut m, OWNER, MOCK_CW2981_ADDR, 1).unwrap();

    let msg = ExecuteMsg::Cancel { contract_address: MOCK_CW2981_ADDR, token_id: 1 };
    execute(&mut m, &mock_env(), &mock_info(OWNER, 100000), msg, &no_lookup()).unwrap();

    let msg = ExecuteMsg::Buy { contract_address: MOCK_CW2981_ADDR, token_id: 1 };
    let response = execute(&mut m, &mock_env(), &mock_info(BUYER, 100000), msg, &mock_answers(1));
    println!("Response: {:?}", &response);
    match response {
        Ok(_) => panic!("Expected error"),
        Err(ContractError::ListingNotActive {}) => {}
        Err(e) => panic!("Unexpected error: {:?}", e),
    }
}

#[test]
fn cannot_buy_sold_listing() {
    let mut m = mock_contract();
    create_listing(&mut m, OWNER, MOCK_CW2981_ADDR, 1).unwrap();

    let msg = ExecuteMsg::Buy { contract_address: MOCK_CW2981_ADDR, token_id: 1 };
    execute(&mut m, &mock_env(), &mock_info(BUYER, 100), msg, &mock_answers(1)).unwrap();

    // the sold listing is retained, and is never payable twice
    let msg = ExecuteMsg::Buy { contract_address: MOCK_CW2981_ADDR, token_id: 1 };
    let response = execute(&mut m, &mock_env(), &mock_info(ANYONE, 100), msg, &mock_answers(1));
    match response {
        Ok(_) => panic!("Expected error"),
        Err(ContractError::ListingNotActive {}) => {}
        Err(e) => panic!("Unexpected error: {:?}", e),
    }
}

#[test]
fn owner_cannot_buy() {
    let mut m = mock_contract();
    create_listing(&mut m, OWNER, MOCK_CW2981_ADDR, 1).unwrap();

    let msg = ExecuteMsg::Buy { contract_address: MOCK_CW2981_ADDR, token_id: 1 };
    let response = execute(&mut m, &mock_env(), &mock_info(OWNER, 100000), msg, &mock_answers(1));
    match response {
        Ok(_) => panic!("Expected error"),
        Err(ContractError::CustomError { .. }) => {}
        Err(e) => panic!("Unexpected error: {:?}", e),
    }
}

#[test]
fn cannot_buy_without_enough_funds() {
    let mut m = mock_contract();
    create_listing(&mut m, OWNER, MOCK_CW2981_ADDR, 1).unwrap();

    let msg = ExecuteMsg::Buy { contract_address: MOCK_CW2981_ADDR, token_id: 1 };
    let response = execute(&mut m, &mock_env(), &mock_info(BUYER, 99), msg, &mock_answers(1));
    println!("Response: {:?}", &response);
    match response {
        Ok(_) => panic!("Expected error"),
        Err(ContractError::InsufficientFunds {}) => {}
        Err(e) => panic!("Unexpected error: {:?}", e),
    }
}

#[test]
fn can_buy_listing() {
    let mut m = mock_contract();
    create_listing(&mut m, OWNER, MOCK_CW2981_ADDR, 1).unwrap();

    let msg = ExecuteMsg::Buy { contract_address: MOCK_CW2981_ADDR, token_id: 1 };
    let response = execute(&mut m, &mock_env(), &mock_info(BUYER, 100), msg, &mock_answers(1))
        .unwrap();
    assert_eq!(3, response.messages.len());
    println!("Response: {:?}", &response);
    assert_eq!(
        response.messages[0],
        Instruction::TransferNft { collection: MOCK_CW2981_ADDR, token_id: 1, recipient: BUYER },
        "should transfer nft to buyer"
    );
    assert_eq!(
        response.messages[1],
        Instruction::Send {
            to_address: CREATOR,
            amount: Coin { denom: "uaura".to_string(), amount: 10 },
        },
        "should transfer royalty to creator"
    );
    assert_eq!(
        response.messages[2],
        Instruction::Send {
            to_address: OWNER,
            amount: Coin { denom: "uaura".to_string(), amount: 90 },
        },
        "should transfer the rest to the seller"
    );

    let listing = m.query_listing(MOCK_CW2981_ADDR, 1).unwrap();
    assert_eq!(listing.status, ListingStatus::Sold { buyer: BUYER });
    assert_eq!(listing.buyer, Some(BUYER));
}

#[test]
fn can_buy_listing_with_0_royalty() {
    let mut m = mock_contract();
    create_listing(&mut m, OWNER, MOCK_CW2981_ADDR, 2).unwrap();

    let msg = ExecuteMsg::Buy { contract_address: MOCK_CW2981_ADDR, token_id: 2 };
    let response = execute(&mut m, &mock_env(), &mock_info(BUYER, 100), msg, &mock_answers(2))
        .unwrap();
    assert_eq!(2, response.messages.len());
    println!("Response: {:?}", &response);
    assert_eq!(
        response.messages[0],
        Instruction::TransferNft { collection: MOCK_CW2981_ADDR, token_id: 2, recipient: BUYER },
        "should transfer nft to buyer"
    );
    assert_eq!(
        response.messages[1],
        Instruction::Send {
            to_address: OWNER,
            amount: Coin { denom: "uaura".to_string(), amount: 100 },
        },
        "should transfer all funds to the seller"
    );
}

#[test]
fn can_buy_listing_without_royalty() {
    let mut m = mock_contract();
    create_listing(&mut m, OWNER, MOCK_CW2981_ADDR, 4).unwrap();

    let msg = ExecuteMsg::Buy { contract_address: MOCK_CW2981_ADDR, token_id: 4 };
    let response = execute(&mut m, &mock_env(), &mock_info(BUYER, 100), msg, &mock_answers(4))
        .unwrap();
    assert_eq!(2, response.messages.len());
    println!("Response: {:?}", &response);
    assert_eq!(
        response.messages[0],
        Instruction::TransferNft { collection: MOCK_CW2981_ADDR, token_id: 4, recipient: BUYER },
        "should transfer nft to buyer"
    );
    assert_eq!(
        response.messages[1],
        Instruction::Send {
            to_address: OWNER,
            amount: Coin { denom: "uaura".to_string(), amount: 100 },
        },
        "should transfer all funds to the seller"
    );
}

#[test]
fn can_buy_listing_when_owner_is_creator() {
    let mut m = mock_contract();
    create_listing(&mut m, OWNER, MOCK_CW2981_ADDR, 3).unwrap();

    let msg = ExecuteMsg::Buy { contract_address: MOCK_CW2981_ADDR, token_id: 3 };
    let response = execute(&mut m, &mock_env(), &mock_info(BUYER, 100), msg, &mock_answers(3))
        .unwrap();
    assert_eq!(2, response.messages.len());
    println!("Response: {:?}", &response);
    assert_eq!(
        response.messages[0],
        Instruction::TransferNft { collection: MOCK_CW2981_ADDR, token_id: 3, recipient: BUYER },
        "should transfer nft to buyer"
    );
    assert_eq!(
        response.messages[1],
        Instruction::Send {
            to_address: OWNER,
            amount: Coin { denom: "uaura".to_string(), amount: 100 },
        },
        "should transfer all funds to the seller"
    );
}

#[test]
fn buy_respects_sale_window() {
    let mut m = mock_contract();
    let msg = ExecuteMsg::ListNft {
        contract_address: MOCK_CW2981_ADDR,
        token_id: 1,
        auction_config: AuctionConfig::FixedPrice {
            price: Coin { denom: "uaura".to_string(), amount: 100 },
            start_time: Some(Expiration::AtHeight(20_000)),
            end_time: Some(Expiration::AtHeight(30_000)),
        },
    };
    execute(&mut m, &mock_env(), &mock_info(OWNER, 1000), msg, &mock_answers(1)).unwrap();

    // the sale has not started at the current height of 12,345
    let msg = ExecuteMsg::Buy { contract_address: MOCK_CW2981_ADDR, token_id: 1 };
    let response = execute(&mut m, &mock_env(), &mock_info(BUYER, 100), msg, &mock_answers(1));
    match response {
        Err(ContractError::CustomError { val }) => assert_eq!(val, "Auction not started"),
        other => panic!("Unexpected: {:?}", other),
    }

    // past the end height the sale is over
    let late = Env {
        block: BlockInfo { height: 30_000, time: 9_999_999_999 },
        contract_address: 99,
    };
    let msg = ExecuteMsg::Buy { contract_address: MOCK_CW2981_ADDR, token_id: 1 };
    let response = execute(&mut m, &late, &mock_info(BUYER, 100), msg, &mock_answers(1));
    match response {
        Err(ContractError::CustomError { val }) => assert_eq!(val, "Auction ended"),
        other => panic!("Unexpected: {:?}", other),
    }
}
