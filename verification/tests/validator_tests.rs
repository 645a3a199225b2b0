//! The auction policy validator, expirations, and the handler registry
//! with its unique version tags.

use nft_marketplace::contract::{instantiate, query};
use nft_marketplace::error::ContractError;
use nft_marketplace::msg::{InstantiateMsg, QueryAnswer, QueryMsg};
use nft_marketplace::state::{
    contract, AuctionConfig, AuctionContract, AuctionContractStatus, AuctionType,
};
use nft_marketplace::types::{BlockInfo, Coin, Expiration, MessageInfo};

const ADMIN: u64 = 1;

fn fixed(amount: u128, start: Option<Expiration>, end: Option<Expiration>) -> AuctionConfig {
    AuctionConfig::FixedPrice {
        price: Coin { denom: "uaura".to_string(), amount },
        start_time: start,
        end_time: end,
    }
}

fn handler(address: u64, code_id: u32) -> AuctionContract {
    AuctionContract {
        contract_address: address,
        code_id,
        name: "auction-handler".to_string(),
        status: AuctionContractStatus::Enable,
    }
}

#[test]
fn fixed_price_validation() {
    let m = contract();
    // a zero price is rejected
    assert!(!m.validate_auction_config(&fixed(0, None, None)));
    // no window is fine
    assert!(m.validate_auction_config(&fixed(100, None, None)));
    // a window needs start strictly before end
    assert!(m.validate_auction_config(&fixed(
        100,
        Some(Expiration::AtHeight(5)),
        Some(Expiration::AtHeight(6)),
    )));
    assert!(!m.validate_auction_config(&fixed(
        100,
        Some(Expiration::AtHeight(6)),
        Some(Expiration::AtHeight(6)),
    )));
    assert!(!m.validate_auction_config(&fixed(
        100,
        Some(Expiration::AtHeight(7)),
        Some(Expiration::AtHeight(6)),
    )));
    // a single bound is not constrained
    assert!(m.validate_auction_config(&fixed(100, Some(Expiration::AtHeight(9)), None)));
    assert!(m.validate_auction_config(&fixed(100, None, Some(Expiration::AtHeight(9)))));
    // heights order before times, both before "never"
    assert!(m.validate_auction_config(&fixed(
        100,
        Some(Expiration::AtHeight(700)),
        Some(Expiration::AtTime(5)),
    )));
    assert!(m.validate_auction_config(&fixed(
        100,
        Some(Expiration::AtTime(700)),
        Some(Expiration::Never),
    )));
    assert!(!m.validate_auction_config(&fixed(
        100,
        Some(Expiration::Never),
        Some(Expiration::AtTime(700)),
    )));
}

#[test]
fn other_auction_kind_always_rejected() {
    let m = contract();
    let other = AuctionConfig::Other {
        auction: AuctionType { name: "english".to_string(), code_id: 3, contract_address: 42 },
        config: "{}".to_string(),
    };
    assert!(!m.validate_auction_config(&other));
}

#[test]
fn expiration_is_expired() {
    let block = BlockInfo { height: 100, time: 5_000 };
    assert!(Expiration::AtHeight(100).is_expired(&block));
    assert!(!Expiration::AtHeight(101).is_expired(&block));
    assert!(Expiration::AtTime(5_000).is_expired(&block));
    assert!(!Expiration::AtTime(5_001).is_expired(&block));
    assert!(!Expiration::Never.is_expired(&block));
}

#[test]
fn registry_enforces_unique_code_id() {
    let mut m = contract();
    let info = MessageInfo { sender: ADMIN, funds: vec![] };
    instantiate(&mut m, &info, InstantiateMsg { owner: ADMIN }).unwrap();

    m.execute_add_auction_contract(&info, handler(42, 7)).unwrap();
    // a different address cannot claim the same version tag
    let clash = m.execute_add_auction_contract(&info, handler(43, 7));
    assert_eq!(clash.unwrap_err(), ContractError::AlreadyExists {});
    // the same address may re-register its version
    m.execute_add_auction_contract(&info, handler(42, 7)).unwrap();
    // and a fresh version is fine
    m.execute_add_auction_contract(&info, handler(43, 8)).unwrap();

    let addresses = m.query_auction_contracts();
    assert_eq!(addresses, vec![42, 43]);

    // a registered handler validates; an unknown one is not found
    let ok = query(
        &m,
        QueryMsg::ValidateAuctionConfig {
            contract_address: 42,
            code_id: 7,
            auction_config: fixed(100, None, None),
        },
    )
    .unwrap();
    match ok {
        QueryAnswer::Validate(v) => assert!(v.valid),
        _ => panic!("unexpected answer"),
    }
    let missing = query(
        &m,
        QueryMsg::ValidateAuctionConfig {
            contract_address: 77,
            code_id: 7,
            auction_config: fixed(100, None, None),
        },
    );
    assert!(missing.is_err());

    // removal frees the version tag
    m.execute_remove_auction_contract(&info, 42).unwrap();
    m.execute_add_auction_contract(&info, handler(44, 7)).unwrap();
    let addresses = m.query_auction_contracts();
    assert_eq!(addresses, vec![43, 44]);
}

#[test]
fn migrate_changes_nothing() {
    let mut m = contract();
    let info = MessageInfo { sender: ADMIN, funds: vec![] };
    instantiate(&mut m, &info, InstantiateMsg { owner: ADMIN }).unwrap();
    let res = nft_marketplace::contract::migrate(&mut m, nft_marketplace::msg::MigrateMsg {})
        .unwrap();
    assert_eq!(res.messages.len(), 0);
    match query(&m, QueryMsg::Config {}).unwrap() {
        QueryAnswer::Config(c) => assert_eq!(c.owner, ADMIN),
        _ => panic!("unexpected answer"),
    }
}
