//! Typed command and query dispatch: one `match`, one engine call per
//! arm, no logic of its own.

use vstd::prelude::*;
use crate::error::ContractError;
use crate::msg::{
    CollaboratorAnswers, ExecuteMsg, InstantiateMsg, MigrateMsg, QueryAnswer, QueryMsg,
    ValidateResponse,
};
use crate::order_state::Asset;
use crate::state::{Config, MarketplaceContract};
use crate::types::{Env, MessageInfo, Response};

verus! {

/// Install the configuration record.  The host calls this exactly once,
/// before any other operation.
pub fn instantiate(contract: &mut MarketplaceContract, _info: &MessageInfo, msg: InstantiateMsg) -> (
    r: Result<Response, ContractError>)
    requires
        old(contract).wf(),
    ensures
        final(contract).wf(),
        r is Ok,
        final(contract).config == Some(Config { owner: msg.owner }),
        final(contract).listings == old(contract).listings,
        final(contract).offers == old(contract).offers,
        final(contract).auction_contracts == old(contract).auction_contracts,
        r matches Ok(resp) ==> resp.messages@ == Seq::<crate::types::Instruction>::empty(),
{
    contract.config = Some(Config { owner: msg.owner });
    Ok(Response::new())
}

/// Route one command to its engine.  Each arm forwards the caller, the
/// command's fields, and the collaborator answers the host gathered;
/// every contract of the engines carries over unchanged.
pub fn execute(
    contract: &mut MarketplaceContract,
    env: &Env,
    info: &MessageInfo,
    msg: ExecuteMsg,
    answers: &CollaboratorAnswers,
) -> (r: Result<Response, ContractError>)
    requires
        old(contract).wf(),
    ensures
        final(contract).wf(),
        msg matches ExecuteMsg::ListNft { contract_address, token_id, auction_config } ==> {
            &&& r is Ok <==> old(contract).spec_list_ok(
                info.sender,
                contract_address,
                token_id,
                auction_config,
                answers.owner_of,
                answers.approval,
            )
            &&& r is Ok ==> final(contract).listings.as_map() == old(
                contract,
            ).listings.as_map().insert(
                (contract_address, token_id),
                crate::execute::spec_new_listing(
                    info.sender,
                    contract_address,
                    token_id,
                    auction_config,
                ),
            )
            &&& r matches Err(e) ==> *final(contract) == *old(contract) && old(
                contract,
            ).spec_list_err(
                info.sender,
                contract_address,
                token_id,
                auction_config,
                answers.owner_of,
                answers.approval,
                e,
            )
        },
        msg matches ExecuteMsg::Buy { contract_address, token_id } ==> {
            &&& r is Ok <==> old(contract).spec_buy_ok(
                *env,
                info.sender,
                info.funds@,
                contract_address,
                token_id,
            )
            &&& r matches Ok(resp) ==> final(contract).listings.as_map() == old(
                contract,
            ).listings.as_map().insert(
                (contract_address, token_id),
                crate::execute::spec_sold_listing(
                    old(contract).listings.spec_get((contract_address, token_id)),
                    info.sender,
                ),
            ) && resp.messages@ == old(contract).spec_buy_messages(
                info.sender,
                contract_address,
                token_id,
                answers.royalty,
            )
            &&& r matches Err(e) ==> *final(contract) == *old(contract) && old(
                contract,
            ).spec_buy_err(*env, info.sender, info.funds@, contract_address, token_id, e)
        },
        msg matches ExecuteMsg::Cancel { contract_address, token_id } ==> {
            &&& r is Ok <==> old(contract).spec_cancel_ok(
                *env,
                info.sender,
                contract_address,
                token_id,
            )
            &&& r is Ok ==> final(contract).listings.as_map() == old(
                contract,
            ).listings.as_map().insert(
                (contract_address, token_id),
                crate::execute::spec_cancelled_listing(
                    old(contract).listings.spec_get((contract_address, token_id)),
                    env.block.time,
                ),
            )
            &&& r matches Err(e) ==> *final(contract) == *old(contract) && old(
                contract,
            ).spec_cancel_err(*env, info.sender, contract_address, token_id, e)
        },
        msg matches ExecuteMsg::AddAuctionContract { auction_contract } ==> {
            &&& r is Ok <==> !old(contract).auction_contracts.code_id_taken_by_other(
                auction_contract.code_id,
                auction_contract.contract_address,
            )
            &&& r is Ok ==> final(contract).auction_contracts.as_map() == old(
                contract,
            ).auction_contracts.as_map().insert(
                auction_contract.contract_address,
                auction_contract,
            )
            &&& r is Err ==> *final(contract) == *old(contract)
        },
        msg matches ExecuteMsg::RemoveAuctionContract { contract_address } ==> {
            &&& r is Ok
            &&& final(contract).auction_contracts.as_map() == old(
                contract,
            ).auction_contracts.as_map().remove(contract_address)
        },
        msg matches ExecuteMsg::OfferNft { nft, funds, end_time } ==> {
            &&& r is Ok <==> old(contract).spec_offer_ok(
                *env,
                info.sender,
                Asset::Nft { nft_address: nft.contract_address, token_id: nft.token_id },
                funds,
                end_time,
                answers.allowance,
                answers.balance,
                answers.owner_of,
            )
            &&& r matches Err(e) ==> *final(contract) == *old(contract) && old(
                contract,
            ).spec_offer_err(
                *env,
                info.sender,
                Asset::Nft { nft_address: nft.contract_address, token_id: nft.token_id },
                funds,
                end_time,
                answers.allowance,
                answers.balance,
                answers.owner_of,
                e,
            )
            &&& r is Ok ==> (nft.token_id matches Some(tid) ==> (funds matches Asset::Cw20 {
                token_address,
                amount,
            } ==> {
                let key = (info.sender, (nft.contract_address, tid));
                &&& final(contract).offers.contains_key(key)
                &&& crate::execute::spec_offer_saved(
                    final(contract).offers.spec_get(key),
                    info.sender,
                    nft.contract_address,
                    tid,
                    token_address,
                    amount,
                    end_time,
                )
                &&& final(contract).offers.as_map().remove(key) == old(
                    contract,
                ).offers.as_map().remove(key)
            }))
        },
        msg matches ExecuteMsg::AcceptNftOffer { offerer, nft } ==> {
            &&& r is Ok <==> old(contract).spec_accept_ok(
                *env,
                info.sender,
                offerer,
                Asset::Nft { nft_address: nft.contract_address, token_id: nft.token_id },
                answers.owner_of,
            )
            &&& r matches Err(e) ==> *final(contract) == *old(contract) && old(
                contract,
            ).spec_accept_err(
                *env,
                info.sender,
                offerer,
                Asset::Nft { nft_address: nft.contract_address, token_id: nft.token_id },
                answers.owner_of,
                e,
            )
            &&& r matches Ok(resp) ==> (nft.token_id matches Some(tid) ==> {
                let key = (offerer, (nft.contract_address, tid));
                &&& final(contract).offers.as_map() == old(contract).offers.as_map().remove(key)
                &&& resp.messages@ == old(contract).spec_accept_messages(
                    info.sender,
                    offerer,
                    nft.contract_address,
                    tid,
                    answers.royalty,
                )
            })
        },
        msg matches ExecuteMsg::CancelNftOffer { nft } ==> {
            &&& r is Ok <==> nft.token_id is Some
            &&& r is Ok ==> (nft.token_id matches Some(tid) ==> final(contract).offers.as_map()
                == old(contract).offers.as_map().remove(
                (info.sender, (nft.contract_address, tid)),
            ))
            &&& r is Err ==> *final(contract) == *old(contract)
        },
        msg matches ExecuteMsg::CancelAllOffer { } ==> {
            &&& r is Ok
            &&& final(contract).offers.as_map() == old(contract).offers.as_map().remove_keys(
                Set::new(|k: crate::order_state::OrderKey| k.0 == info.sender),
            )
        },
{
    match msg {
        ExecuteMsg::ListNft { contract_address, token_id, auction_config } => contract
            .execute_list_nft(
            info,
            contract_address,
            token_id,
            auction_config,
            answers.owner_of,
            answers.approval,
        ),
        ExecuteMsg::Buy { contract_address, token_id } => contract.execute_buy(
            env,
            info,
            contract_address,
            token_id,
            &answers.royalty,
        ),
        ExecuteMsg::Cancel { contract_address, token_id } => contract.execute_cancel(
            env,
            info,
            contract_address,
            token_id,
        ),
        ExecuteMsg::AddAuctionContract { auction_contract } => contract
            .execute_add_auction_contract(info, auction_contract),
        ExecuteMsg::RemoveAuctionContract { contract_address } => contract
            .execute_remove_auction_contract(info, contract_address),
        ExecuteMsg::OfferNft { nft, funds, end_time } => contract.execute_offer_nft(
            env,
            info,
            Asset::Nft { nft_address: nft.contract_address, token_id: nft.token_id },
            funds,
            end_time,
            answers.allowance,
            answers.balance,
            answers.owner_of,
        ),
        ExecuteMsg::AcceptNftOffer { offerer, nft } => contract.execute_accept_nft_offer(
            env,
            info,
            offerer,
            Asset::Nft { nft_address: nft.contract_address, token_id: nft.token_id },
            answers.owner_of,
            &answers.royalty,
        ),
        ExecuteMsg::CancelNftOffer { nft } => contract.execute_cancel_nft_offer(
            info,
            Asset::Nft { nft_address: nft.contract_address, token_id: nft.token_id },
        ),
        ExecuteMsg::CancelAllOffer {  } => contract.execute_cancel_all_offer(info),
    }
}

/// Route one query to its read path.
pub fn query(contract: &MarketplaceContract, msg: QueryMsg) -> (r: Result<
    QueryAnswer,
    ContractError,
>)
    requires
        contract.wf(),
        msg matches QueryMsg::UserOffers { start_after_nft: Some(n), .. } ==> n.token_id is Some,
    ensures
        msg matches QueryMsg::Config {  } ==> {
            &&& r is Ok <==> contract.config is Some
            &&& r matches Ok(a) ==> (a matches QueryAnswer::Config(c) && Some(c)
                == contract.config)
            &&& r matches Err(e) ==> e is NotFound
        },
        msg matches QueryMsg::Listing { contract_address, token_id } ==> {
            &&& r is Ok <==> contract.listings.contains_key((contract_address, token_id))
            &&& r matches Ok(a) ==> (a matches QueryAnswer::Listing(l) && l
                == contract.listings.spec_get((contract_address, token_id)))
            &&& r matches Err(e) ==> e is NotFound
        },
        msg matches QueryMsg::ListingsByContractAddress { contract_address, start_after, limit }
            ==> (r matches Ok(a) && a matches QueryAnswer::Listings(resp) && {
            let m = crate::listing_store::matching_listings(
                contract.listings.entry_seq(),
                "ongoing"@,
                contract_address,
                start_after,
            );
            let cap = crate::query::spec_effective_limit(limit) as int;
            &&& resp.listings@.len() == if m.len() <= cap {
                m.len() as int
            } else {
                cap
            }
            &&& resp.listings@ == m.take(resp.listings@.len() as int)
        }),
        msg matches QueryMsg::AuctionContracts {  } ==> (r matches Ok(a) && a matches
            QueryAnswer::AuctionContracts(v) && v@.len() <= 30),
        msg matches QueryMsg::ValidateAuctionConfig { contract_address, .. } ==> {
            &&& r is Ok <==> contract.auction_contracts.contains_key(contract_address)
            &&& r matches Ok(a) ==> (a matches QueryAnswer::Validate(v) && v.valid == true)
            &&& r matches Err(e) ==> e is NotFound
        },
        msg matches QueryMsg::Offer { contract_address, token_id, offerer } ==> {
            &&& r is Ok <==> contract.offers.contains_key((offerer, (contract_address, token_id)))
            &&& r matches Ok(a) ==> (a matches QueryAnswer::Offer(o) && o.spec_same(
                contract.offers.spec_get((offerer, (contract_address, token_id))),
            ))
            &&& r matches Err(e) ==> e is NotFound
        },
        msg matches QueryMsg::NftOffers { contract_address, token_id, start_after_offerer, limit }
            ==> (r matches Ok(a) && a matches QueryAnswer::Offers(resp)
            && crate::order_store::range_result_ok(
            contract.offers.entry_seq(),
            crate::order_store::nft_offers_pred(
                (contract_address, token_id),
                start_after_offerer,
            ),
            crate::query::spec_effective_limit(limit),
            resp.offers@,
        )),
        msg matches QueryMsg::UserOffers { offerer, start_after_nft, limit } ==> (r matches Ok(a)
            && a matches QueryAnswer::Offers(resp) && crate::order_store::range_result_ok(
            contract.offers.entry_seq(),
            crate::order_store::user_offers_pred(
                offerer,
                crate::query::spec_nft_cursor(start_after_nft),
            ),
            crate::query::spec_effective_limit(limit),
            resp.offers@,
        )),
{
    match msg {
        QueryMsg::Config {  } => match &contract.config {
            Some(c) => Ok(QueryAnswer::Config(*c)),
            None => Err(ContractError::NotFound {}),
        },
        QueryMsg::ListingsByContractAddress { contract_address, start_after, limit } => {
            let status = crate::state::ListingStatus::Ongoing {  }.name();
            Ok(QueryAnswer::Listings(contract.query_listings_by_contract_address(
                status,
                contract_address,
                start_after,
                limit,
            )))
        },
        QueryMsg::Listing { contract_address, token_id } => match contract.query_listing(
            contract_address,
            token_id,
        ) {
            Ok(l) => Ok(QueryAnswer::Listing(l)),
            Err(e) => Err(e),
        },
        QueryMsg::AuctionContracts {  } => Ok(QueryAnswer::AuctionContracts(
            contract.query_auction_contracts(),
        )),
        QueryMsg::ValidateAuctionConfig { contract_address, code_id, auction_config } => match
            contract.query_validate_auction_config(contract_address, code_id, &auction_config) {
            Ok(v) => Ok(QueryAnswer::Validate(ValidateResponse { valid: v })),
            Err(e) => Err(e),
        },
        QueryMsg::Offer { contract_address, token_id, offerer } => match contract.query_offer(
            contract_address,
            token_id,
            offerer,
        ) {
            Ok(o) => Ok(QueryAnswer::Offer(o)),
            Err(e) => Err(e),
        },
        QueryMsg::NftOffers { contract_address, token_id, start_after_offerer, limit } => Ok(
            QueryAnswer::Offers(contract.query_nft_offers(
                contract_address,
                token_id,
                start_after_offerer,
                limit,
            )),
        ),
        QueryMsg::UserOffers { offerer, start_after_nft, limit } => Ok(QueryAnswer::Offers(
            contract.query_user_offers(offerer, start_after_nft, limit),
        )),
    }
}

/// Nothing is migrated in the current scope.
pub fn migrate(contract: &mut MarketplaceContract, _msg: MigrateMsg) -> (r: Result<
    Response,
    ContractError,
>)
    requires
        old(contract).wf(),
    ensures
        final(contract).wf(),
        *final(contract) == *old(contract),
        r is Ok,
        r matches Ok(resp) ==> resp.messages@ == Seq::<crate::types::Instruction>::empty(),
{
    Ok(Response::new())
}

} // verus!
