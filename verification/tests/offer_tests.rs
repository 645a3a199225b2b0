//! Standing-offer lifecycle: placing, replacing, accepting, cancelling,
//! and cancelling all of a user's offers at once.

use nft_marketplace::contract::{execute, instantiate};
use nft_marketplace::error::ContractError;
use nft_marketplace::msg::{CollaboratorAnswers, ExecuteMsg, InstantiateMsg};
use nft_marketplace::order_state::{Asset, NFT};
use nft_marketplace::royalty::RoyaltiesInfoResponse;
use nft_marketplace::state::{contract, MarketplaceContract};
use nft_marketplace::types::{BlockInfo, Env, Expiration, Instruction, MessageInfo};

const ADMIN: u64 = 1;
const NFT_OWNER: u64 = 2;
const OFFERER: u64 = 3;
const OFFERER_2: u64 = 4;
const CREATOR: u64 = 5;
const COLLECTION: u64 = 100;
const VAURA_TOKEN: u64 = 200;

fn offer_env() -> Env {
    Env { block: BlockInfo { height: 1_000, time: 1_000_000 }, contract_address: 99 }
}

fn plain_info(sender: u64) -> MessageInfo {
    MessageInfo { sender, funds: vec![] }
}

/// Collaborator answers for an offerer with ample funds on an asset that
/// `NFT_OWNER` owns.
fn funded_answers() -> CollaboratorAnswers {
    CollaboratorAnswers {
        owner_of: Some(NFT_OWNER),
        approval: None,
        royalty: None,
        allowance: Some(1_000_000),
        balance: Some(1_000_000),
    }
}

fn offer_setup() -> MarketplaceContract {
    let mut m = contract();
    instantiate(&mut m, &plain_info(ADMIN), InstantiateMsg { owner: ADMIN }).unwrap();
    m
}

fn place_offer(
    m: &mut MarketplaceContract,
    sender: u64,
    token_id: u64,
    amount: u128,
    end_time: Expiration,
) -> Result<nft_marketplace::types::Response, ContractError> {
    let msg = ExecuteMsg::OfferNft {
        nft: NFT { contract_address: COLLECTION, token_id: Some(token_id) },
        funds: Asset::Cw20 { token_address: VAURA_TOKEN, amount },
        end_time,
    };
    execute(m, &offer_env(), &plain_info(sender), msg, &funded_answers())
}

#[test]
fn offer_is_stored() {
    let mut m = offer_setup();
    place_offer(&mut m, OFFERER, 7, 500, Expiration::AtTime(2_000_000)).unwrap();
    let order = m.query_offer(COLLECTION, 7, OFFERER).unwrap();
    assert_eq!(order.offerer, OFFERER);
    assert_eq!(order.order_id, (OFFERER, (COLLECTION, 7)));
    assert_eq!(order.offer.len(), 1);
    assert_eq!(order.offer[0].item, Asset::Cw20 { token_address: VAURA_TOKEN, amount: 500 });
    assert_eq!(order.consideration.len(), 1);
    assert_eq!(
        order.consideration[0].item,
        Asset::Nft { nft_address: COLLECTION, token_id: Some(7) }
    );
    assert_eq!(order.consideration[0].recipient, OFFERER);
    assert_eq!(order.end_time, Some(Expiration::AtTime(2_000_000)));
}

#[test]
fn second_offer_overwrites_first() {
    let mut m = offer_setup();
    place_offer(&mut m, OFFERER, 7, 500, Expiration::AtTime(2_000_000)).unwrap();
    // the second offer replaces the first without an error
    place_offer(&mut m, OFFERER, 7, 750, Expiration::AtTime(3_000_000)).unwrap();
    let order = m.query_offer(COLLECTION, 7, OFFERER).unwrap();
    assert_eq!(order.offer[0].item, Asset::Cw20 { token_address: VAURA_TOKEN, amount: 750 });
    assert_eq!(order.end_time, Some(Expiration::AtTime(3_000_000)));
    // and it is still one order, not two
    let offers = m.query_nft_offers(COLLECTION, 7, None, None);
    assert_eq!(offers.offers.len(), 1);
}

#[test]
fn offer_with_past_end_time_rejected() {
    let mut m = offer_setup();
    let response = place_offer(&mut m, OFFERER, 7, 500, Expiration::AtTime(1_000_000));
    assert_eq!(response.unwrap_err(), ContractError::InvalidEndTime {});
}

#[test]
fn offer_requires_allowance_and_balance() {
    let mut m = offer_setup();
    let msg = ExecuteMsg::OfferNft {
        nft: NFT { contract_address: COLLECTION, token_id: Some(7) },
        funds: Asset::Cw20 { token_address: VAURA_TOKEN, amount: 500 },
        end_time: Expiration::AtTime(2_000_000),
    };
    let mut answers = funded_answers();
    answers.allowance = Some(499);
    let r = execute(&mut m, &offer_env(), &plain_info(OFFERER), msg, &answers);
    assert_eq!(r.unwrap_err(), ContractError::InsufficientAllowance {});

    let msg = ExecuteMsg::OfferNft {
        nft: NFT { contract_address: COLLECTION, token_id: Some(7) },
        funds: Asset::Cw20 { token_address: VAURA_TOKEN, amount: 500 },
        end_time: Expiration::AtTime(2_000_000),
    };
    let mut answers = funded_answers();
    answers.balance = Some(499);
    let r = execute(&mut m, &offer_env(), &plain_info(OFFERER), msg, &answers);
    assert_eq!(r.unwrap_err(), ContractError::InsufficientBalance {});
}

#[test]
fn cannot_offer_own_nft() {
    let mut m = offer_setup();
    let response = place_offer(&mut m, NFT_OWNER, 7, 500, Expiration::AtTime(2_000_000));
    match response {
        Err(ContractError::CustomError { val }) => assert_eq!(val, "Cannot offer owned nft"),
        other => panic!("Unexpected: {:?}", other),
    }
}

#[test]
fn offer_on_missing_nft_rejected() {
    let mut m = offer_setup();
    let msg = ExecuteMsg::OfferNft {
        nft: NFT { contract_address: COLLECTION, token_id: Some(7) },
        funds: Asset::Cw20 { token_address: VAURA_TOKEN, amount: 500 },
        end_time: Expiration::AtTime(2_000_000),
    };
    let mut answers = funded_answers();
    answers.owner_of = None;
    let r = execute(&mut m, &offer_env(), &plain_info(OFFERER), msg, &answers);
    match r {
        Err(ContractError::CustomError { val }) => assert_eq!(val, "Nft not exist"),
        other => panic!("Unexpected: {:?}", other),
    }
}

#[test]
fn collection_offer_rejected() {
    let mut m = offer_setup();
    let msg = ExecuteMsg::OfferNft {
        nft: NFT { contract_address: COLLECTION, token_id: None },
        funds: Asset::Cw20 { token_address: VAURA_TOKEN, amount: 500 },
        end_time: Expiration::AtTime(2_000_000),
    };
    let r = execute(&mut m, &offer_env(), &plain_info(OFFERER), msg, &funded_answers());
    match r {
        Err(ContractError::CustomError { val }) => {
            assert_eq!(val, "Collection offer is not supported")
        }
        other => panic!("Unexpected: {:?}", other),
    }
}

#[test]
fn native_funds_offer_rejected() {
    let mut m = offer_setup();
    let msg = ExecuteMsg::OfferNft {
        nft: NFT { contract_address: COLLECTION, token_id: Some(7) },
        funds: Asset::Native { denom: "uaura".to_string(), amount: 500 },
        end_time: Expiration::AtTime(2_000_000),
    };
    let r = execute(&mut m, &offer_env(), &plain_info(OFFERER), msg, &funded_answers());
    match r {
        Err(ContractError::CustomError { val }) => assert_eq!(val, "Invalid Offer funds"),
        other => panic!("Unexpected: {:?}", other),
    }
}

#[test]
fn accept_offer_settles_and_removes() {
    let mut m = offer_setup();
    place_offer(&mut m, OFFERER, 7, 500, Expiration::AtTime(2_000_000)).unwrap();

    let msg = ExecuteMsg::AcceptNftOffer {
        offerer: OFFERER,
        nft: NFT { contract_address: COLLECTION, token_id: Some(7) },
    };
    let answers = CollaboratorAnswers {
        owner_of: Some(NFT_OWNER),
        approval: None,
        royalty: Some(RoyaltiesInfoResponse { address: Some(CREATOR), royalty_amount: 20 }),
        allowance: None,
        balance: None,
    };
    let response = execute(&mut m, &offer_env(), &plain_info(NFT_OWNER), msg, &answers).unwrap();
    assert_eq!(3, response.messages.len());
    assert_eq!(
        response.messages[0],
        Instruction::TransferNft { collection: COLLECTION, token_id: 7, recipient: OFFERER },
        "should transfer nft to the offerer"
    );
    assert_eq!(
        response.messages[1],
        Instruction::Cw20TransferFrom {
            token_address: VAURA_TOKEN,
            owner: OFFERER,
            recipient: CREATOR,
            amount: 20,
        },
        "should transfer royalty from offerer to creator"
    );
    assert_eq!(
        response.messages[2],
        Instruction::Cw20TransferFrom {
            token_address: VAURA_TOKEN,
            owner: OFFERER,
            recipient: NFT_OWNER,
            amount: 480,
        },
        "should transfer remaining funds from offerer to owner"
    );

    // the order is consumed exactly once
    assert_eq!(m.query_offer(COLLECTION, 7, OFFERER).unwrap_err(), ContractError::NotFound {});
    let msg = ExecuteMsg::AcceptNftOffer {
        offerer: OFFERER,
        nft: NFT { contract_address: COLLECTION, token_id: Some(7) },
    };
    let again = execute(&mut m, &offer_env(), &plain_info(NFT_OWNER), msg, &answers);
    assert_eq!(again.unwrap_err(), ContractError::NotFound {});
}

#[test]
fn accept_expired_offer_fails_and_keeps_order() {
    let mut m = offer_setup();
    place_offer(&mut m, OFFERER, 7, 500, Expiration::AtTime(2_000_000)).unwrap();

    let late = Env { block: BlockInfo { height: 2_000, time: 2_000_000 }, contract_address: 99 };
    let msg = ExecuteMsg::AcceptNftOffer {
        offerer: OFFERER,
        nft: NFT { contract_address: COLLECTION, token_id: Some(7) },
    };
    let response = execute(&mut m, &late, &plain_info(NFT_OWNER), msg, &funded_answers());
    match response {
        Err(ContractError::CustomError { val }) => assert_eq!(val, "Offer is expired"),
        other => panic!("Unexpected: {:?}", other),
    }
    // the failing call left the order un-removed
    assert!(m.query_offer(COLLECTION, 7, OFFERER).is_ok());
}

#[test]
fn only_owner_can_accept() {
    let mut m = offer_setup();
    place_offer(&mut m, OFFERER, 7, 500, Expiration::AtTime(2_000_000)).unwrap();

    let msg = ExecuteMsg::AcceptNftOffer {
        offerer: OFFERER,
        nft: NFT { contract_address: COLLECTION, token_id: Some(7) },
    };
    // custody says NFT_OWNER owns the token; OFFERER_2's accept fails
    let response = execute(&mut m, &offer_env(), &plain_info(OFFERER_2), msg, &funded_answers());
    assert_eq!(response.unwrap_err(), ContractError::Unauthorized {});
}

#[test]
fn cancel_offer_removes_it() {
    let mut m = offer_setup();
    place_offer(&mut m, OFFERER, 7, 500, Expiration::AtTime(2_000_000)).unwrap();

    let msg = ExecuteMsg::CancelNftOffer {
        nft: NFT { contract_address: COLLECTION, token_id: Some(7) },
    };
    execute(&mut m, &offer_env(), &plain_info(OFFERER), msg, &funded_answers()).unwrap();
    assert_eq!(m.query_offer(COLLECTION, 7, OFFERER).unwrap_err(), ContractError::NotFound {});

    // cancelling an absent offer is an idempotent no-op
    let msg = ExecuteMsg::CancelNftOffer {
        nft: NFT { contract_address: COLLECTION, token_id: Some(7) },
    };
    execute(&mut m, &offer_env(), &plain_info(OFFERER), msg, &funded_answers()).unwrap();
}

#[test]
fn cancel_all_removes_only_callers_offers() {
    let mut m = offer_setup();
    for token in 1..6 {
        place_offer(&mut m, OFFERER, token, 500, Expiration::AtTime(2_000_000)).unwrap();
    }
    for token in 1..4 {
        place_offer(&mut m, OFFERER_2, token, 600, Expiration::AtTime(2_000_000)).unwrap();
    }

    let msg = ExecuteMsg::CancelAllOffer {};
    execute(&mut m, &offer_env(), &plain_info(OFFERER), msg, &funded_answers()).unwrap();

    // every order keyed by the caller is gone
    for token in 1..6 {
        assert_eq!(
            m.query_offer(COLLECTION, token, OFFERER).unwrap_err(),
            ContractError::NotFound {}
        );
    }
    // and nobody else's was touched
    for token in 1..4 {
        let kept = m.query_offer(COLLECTION, token, OFFERER_2).unwrap();
        assert_eq!(kept.offerer, OFFERER_2);
    }
    let remaining = m.query_user_offers(OFFERER_2, None, None);
    assert_eq!(remaining.offers.len(), 3);
    let gone = m.query_user_offers(OFFERER, None, None);
    assert_eq!(gone.offers.len(), 0);
}

#[test]
fn nft_offers_listed_descending() {
    let mut m = offer_setup();
    for offerer in [OFFERER, OFFERER_2, 9u64, 8u64] {
        place_offer(&mut m, offerer, 7, 500, Expiration::AtTime(2_000_000)).unwrap();
    }
    let offers = m.query_nft_offers(COLLECTION, 7, None, None);
    let who: Vec<u64> = offers.offers.iter().map(|o| o.offerer).collect();
    assert_eq!(who, vec![9, 8, OFFERER_2, OFFERER]);

    // the cursor is an exclusive upper bound for the next page
    let offers = m.query_nft_offers(COLLECTION, 7, Some(8), None);
    let who: Vec<u64> = offers.offers.iter().map(|o| o.offerer).collect();
    assert_eq!(who, vec![OFFERER_2, OFFERER]);
}

#[test]
fn user_offers_listed_descending() {
    let mut m = offer_setup();
    for token in [2u64, 5u64, 9u64] {
        place_offer(&mut m, OFFERER, token, 500, Expiration::AtTime(2_000_000)).unwrap();
    }
    let offers = m.query_user_offers(OFFERER, None, None);
    let tokens: Vec<u64> = offers.offers.iter().map(|o| o.order_id.1 .1).collect();
    assert_eq!(tokens, vec![9, 5, 2]);

    let offers = m.query_user_offers(
        OFFERER,
        Some(NFT { contract_address: COLLECTION, token_id: Some(9) }),
        None,
    );
    let tokens: Vec<u64> = offers.offers.iter().map(|o| o.order_id.1 .1).collect();
    assert_eq!(tokens, vec![5, 2]);
}
