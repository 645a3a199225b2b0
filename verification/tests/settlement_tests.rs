//! Settlement and the royalty formula: floor rounding, the sum
//! invariant, and every edge case that collapses to "no royalty".

use nft_marketplace::order_state::PaymentAsset;
use nft_marketplace::royalty::{check_royalties, query_royalties_info, royalty_share, CheckRoyaltiesResponse, Metadata, RoyaltiesInfoResponse};
use nft_marketplace::state::contract;
use nft_marketplace::types::{Coin, Instruction};

const SELLER: u64 = 1;
const CREATOR: u64 = 2;
const BUYER: u64 = 3;

fn metadata_with_royalty(percentage: u64, payee: u64) -> Metadata {
    Metadata {
        image: None,
        image_data: None,
        external_url: None,
        description: None,
        name: None,
        attributes: None,
        background_color: None,
        animation_url: None,
        youtube_url: None,
        royalty_percentage: Some(percentage),
        royalty_payment_address: Some(payee),
    }
}

fn native(amount: u128) -> PaymentAsset {
    PaymentAsset::Native { denom: "uaura".to_string(), amount }
}

#[test]
fn royalty_is_floor_rounded() {
    // 4% of 43 units is 1 unit, not 1.72
    assert_eq!(royalty_share(43, 4), 1);
    assert_eq!(royalty_share(100, 10), 10);
    assert_eq!(royalty_share(99, 50), 49);
    assert_eq!(royalty_share(1, 99), 0);
    assert_eq!(royalty_share(0, 100), 0);
    let info = query_royalties_info(&metadata_with_royalty(4, CREATOR), 43);
    assert_eq!(info, RoyaltiesInfoResponse { address: Some(CREATOR), royalty_amount: 1 });
}

#[test]
fn split_sums_to_price() {
    let m = contract();
    let royalty = Some(RoyaltiesInfoResponse { address: Some(CREATOR), royalty_amount: 1 });
    let msgs = m.payment_with_royalty(&native(43), BUYER, SELLER, &royalty);
    assert_eq!(msgs.len(), 2);
    assert_eq!(
        msgs[0],
        Instruction::Send { to_address: CREATOR, amount: Coin { denom: "uaura".to_string(), amount: 1 } }
    );
    assert_eq!(
        msgs[1],
        Instruction::Send { to_address: SELLER, amount: Coin { denom: "uaura".to_string(), amount: 42 } }
    );
    // royalty_amount + proceeds == price, always
    let total: u128 = msgs
        .iter()
        .map(|i| match i {
            Instruction::Send { amount, .. } => amount.amount,
            _ => 0,
        })
        .sum();
    assert_eq!(total, 43);
}

#[test]
fn failed_lookup_pays_seller_in_full() {
    let m = contract();
    let msgs = m.payment_with_royalty(&native(100), BUYER, SELLER, &None);
    assert_eq!(msgs.len(), 1);
    assert_eq!(
        msgs[0],
        Instruction::Send { to_address: SELLER, amount: Coin { denom: "uaura".to_string(), amount: 100 } }
    );
}

#[test]
fn empty_recipient_pays_seller_in_full() {
    let m = contract();
    let royalty = Some(RoyaltiesInfoResponse { address: None, royalty_amount: 10 });
    let msgs = m.payment_with_royalty(&native(100), BUYER, SELLER, &royalty);
    assert_eq!(msgs.len(), 1);
    assert_eq!(
        msgs[0],
        Instruction::Send { to_address: SELLER, amount: Coin { denom: "uaura".to_string(), amount: 100 } }
    );
}

#[test]
fn zero_royalty_pays_seller_in_full() {
    let m = contract();
    let royalty = Some(RoyaltiesInfoResponse { address: Some(CREATOR), royalty_amount: 0 });
    let msgs = m.payment_with_royalty(&native(100), BUYER, SELLER, &royalty);
    assert_eq!(msgs.len(), 1);
    assert_eq!(
        msgs[0],
        Instruction::Send { to_address: SELLER, amount: Coin { denom: "uaura".to_string(), amount: 100 } }
    );
}

#[test]
fn royalty_to_seller_collapses() {
    let m = contract();
    let royalty = Some(RoyaltiesInfoResponse { address: Some(SELLER), royalty_amount: 10 });
    let msgs = m.payment_with_royalty(&native(100), BUYER, SELLER, &royalty);
    assert_eq!(msgs.len(), 1);
    assert_eq!(
        msgs[0],
        Instruction::Send { to_address: SELLER, amount: Coin { denom: "uaura".to_string(), amount: 100 } }
    );
}

#[test]
fn oversized_royalty_fails_open() {
    // A misbehaving royalty collaborator reporting more than the price is
    // treated like any other malformed answer: no royalty, no underflow.
    let m = contract();
    let royalty = Some(RoyaltiesInfoResponse { address: Some(CREATOR), royalty_amount: 101 });
    let msgs = m.payment_with_royalty(&native(100), BUYER, SELLER, &royalty);
    assert_eq!(msgs.len(), 1);
    assert_eq!(
        msgs[0],
        Instruction::Send { to_address: SELLER, amount: Coin { denom: "uaura".to_string(), amount: 100 } }
    );
}

#[test]
fn cw20_settlement_moves_from_payer() {
    let m = contract();
    let token = PaymentAsset::Cw20 { token_address: 200, amount: 60 };
    let royalty = Some(RoyaltiesInfoResponse { address: Some(CREATOR), royalty_amount: 15 });
    let msgs = m.payment_with_royalty(&token, BUYER, SELLER, &royalty);
    assert_eq!(msgs.len(), 2);
    assert_eq!(
        msgs[0],
        Instruction::Cw20TransferFrom { token_address: 200, owner: BUYER, recipient: CREATOR, amount: 15 }
    );
    assert_eq!(
        msgs[1],
        Instruction::Cw20TransferFrom { token_address: 200, owner: BUYER, recipient: SELLER, amount: 45 }
    );
}

#[test]
fn metadata_without_percentage_owes_nothing() {
    let mut metadata = metadata_with_royalty(10, CREATOR);
    metadata.royalty_percentage = None;
    let info = query_royalties_info(&metadata, 1_000);
    assert_eq!(info.royalty_amount, 0);
    assert_eq!(info.address, Some(CREATOR));
}

#[test]
fn check_royalties_response() {
    let expected = CheckRoyaltiesResponse { royalty_payments: true };
    let res = check_royalties();
    assert_eq!(res, expected);
}

#[test]
fn check_token_royalties() {
    const JEANLUC: u64 = 10;
    const JANEWAY: u64 = 11;

    let metadata = Metadata {
        description: Some("Spaceship with Warp Drive".to_string()),
        name: Some("Starship USS Enterprise".to_string()),
        royalty_payment_address: Some(JEANLUC),
        royalty_percentage: Some(10),
        image: None,
        image_data: None,
        external_url: None,
        attributes: None,
        background_color: None,
        animation_url: None,
        youtube_url: None,
    };
    let expected = RoyaltiesInfoResponse { address: Some(JEANLUC), royalty_amount: 10 };
    let res = query_royalties_info(&metadata, 100);
    assert_eq!(res, expected);

    // check for rounding down, which is the default behaviour
    let voyager_metadata = Metadata {
        description: Some("Spaceship with Warp Drive".to_string()),
        name: Some("Starship USS Voyager".to_string()),
        royalty_payment_address: Some(JANEWAY),
        royalty_percentage: Some(4),
        image: None,
        image_data: None,
        external_url: None,
        attributes: None,
        background_color: None,
        animation_url: None,
        youtube_url: None,
    };
    // 43 x 0.04 (i.e., 4%) should be 1.72
    // we expect this to be rounded down to 1
    let voyager_expected = RoyaltiesInfoResponse { address: Some(JANEWAY), royalty_amount: 1 };
    let res = query_royalties_info(&voyager_metadata, 43);
    assert_eq!(res, voyager_expected);
}
