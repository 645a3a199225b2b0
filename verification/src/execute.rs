//! The lifecycle engines: list / buy / cancel for listings, offer /
//! accept / cancel / cancel-all for standing offers, handler
//! registration, and the royalty-aware settlement they share.
//!
//! Every operation is a pure step of a state machine: collaborator
//! answers (asset custody, royalty lookup, fungible-token balances) enter
//! as plain values the host obtained, and side effects leave as the
//! instruction list of the returned [`Response`].  A failing operation
//! returns its error and leaves the state exactly as it was.

use vstd::prelude::*;
use crate::error::ContractError;
use crate::order_state::{
    consideration_item, offer_item, order_key, Asset, ItemType, OrderComponents, OrderKey,
    OrderType, PaymentAsset,
};
use crate::royalty::RoyaltiesInfoResponse;
use crate::state::{
    AuctionConfig, AuctionContract, Listing, ListingKey, ListingStatus, MarketplaceContract,
};
use crate::types::{Addr, Coin, Env, Expiration, Instruction, MessageInfo, Response, TokenId};

verus! {

// ---------------------------------------------------------------------
// Auction policy validation
// ---------------------------------------------------------------------
/// A fixed-price configuration is valid when the price is nonzero and,
/// where both window bounds are present, the start lies strictly before
/// the end.  The pluggable handler scheme is always rejected in the
/// current scope.
pub open spec fn spec_valid_auction_config(c: AuctionConfig) -> bool {
    match c {
        AuctionConfig::FixedPrice { price, start_time, end_time } => {
            &&& price.amount != 0
            &&& !(start_time is Some && end_time is Some && !start_time.unwrap().spec_lt(
                end_time.unwrap(),
            ))
        },
        AuctionConfig::Other { .. } => false,
    }
}

// ---------------------------------------------------------------------
// Settlement
// ---------------------------------------------------------------------
/// The amount a payment asset moves.
pub open spec fn spec_payment_amount(token: PaymentAsset) -> u128 {
    match token {
        PaymentAsset::Native { amount, .. } => amount,
        PaymentAsset::Cw20 { amount, .. } => amount,
    }
}

/// The instruction that moves `amount` of `token` from `sender` to `to`.
pub open spec fn spec_transfer(token: PaymentAsset, sender: Addr, to: Addr, amount: u128) -> Instruction {
    match token {
        PaymentAsset::Native { denom, .. } => Instruction::Send {
            to_address: to,
            amount: Coin { denom, amount },
        },
        PaymentAsset::Cw20 { token_address, .. } => Instruction::Cw20TransferFrom {
            token_address,
            owner: sender,
            recipient: to,
            amount,
        },
    }
}

/// The royalty cut that is actually paid out, if any.  A failed royalty
/// lookup, an empty recipient, a zero amount, a recipient equal to the
/// proceeds recipient, and an amount exceeding the sale price all
/// collapse to "no royalty": the lookup is optional, so every malformed
/// answer fails open.
pub open spec fn spec_effective_royalty(
    royalty: Option<RoyaltiesInfoResponse>,
    recipient: Addr,
    amount: u128,
) -> Option<(Addr, u128)> {
    match royalty {
        Some(info) => match info.address {
            Some(creator) => if info.royalty_amount == 0 || creator == recipient
                || info.royalty_amount > amount {
                None
            } else {
                Some((creator, info.royalty_amount))
            },
            None => None,
        },
        None => None,
    }
}

/// The payment legs of a settlement: the whole price to the proceeds
/// recipient, or the royalty cut to the creator followed by the
/// remainder to the proceeds recipient.
pub open spec fn spec_payment_messages(
    token: PaymentAsset,
    sender: Addr,
    recipient: Addr,
    royalty: Option<RoyaltiesInfoResponse>,
) -> Seq<Instruction> {
    let amount = spec_payment_amount(token);
    match spec_effective_royalty(royalty, recipient, amount) {
        None => seq![spec_transfer(token, sender, recipient, amount)],
        Some((creator, cut)) => seq![
            spec_transfer(token, sender, creator, cut),
            spec_transfer(token, sender, recipient, (amount - cut) as u128),
        ],
    }
}

/// When a royalty cut is paid, the cut and the remainder sum to the sale
/// price exactly: settlement never creates or destroys funds.
pub proof fn lemma_royalty_split_sums_to_price(
    token: PaymentAsset,
    sender: Addr,
    recipient: Addr,
    royalty: Option<RoyaltiesInfoResponse>,
)
    requires
        spec_effective_royalty(royalty, recipient, spec_payment_amount(token)) is Some,
    ensures
        ({
            let amount = spec_payment_amount(token);
            let (creator, cut) = spec_effective_royalty(royalty, recipient, amount).unwrap();
            cut + (amount - cut) == amount
        }),
{
}

/// When the royalty lookup failed, named no recipient, named the
/// proceeds recipient, or reported a zero or oversized amount, the whole
/// price goes to the proceeds recipient in a single instruction and no
/// royalty transfer is emitted.
pub proof fn lemma_no_royalty_pays_recipient_in_full(
    token: PaymentAsset,
    sender: Addr,
    recipient: Addr,
    royalty: Option<RoyaltiesInfoResponse>,
)
    requires
        spec_effective_royalty(royalty, recipient, spec_payment_amount(token)) is None,
    ensures
        spec_payment_messages(token, sender, recipient, royalty) == seq![
            spec_transfer(token, sender, recipient, spec_payment_amount(token)),
        ],
{
}

impl MarketplaceContract {
    /// Pure predicate over an auction configuration; listings are only
    /// accepted under a valid one.
    pub fn validate_auction_config(&self, auction_config: &AuctionConfig) -> (r: bool)
        ensures
            r == spec_valid_auction_config(*auction_config),
    {
        match auction_config {
            AuctionConfig::FixedPrice { price, start_time, end_time } => {
                if price.amount == 0 {
                    return false;
                }
                if let (Some(s), Some(e)) = (start_time, end_time) {
                    if !s.lt(e) {
                        return false;
                    }
                }
                true
            },
            AuctionConfig::Other { .. } => false,
        }
    }

    /// Decide the payment legs that settle a sale of the asset for
    /// `token`, paid by `sender`, with proceeds owed to `recipient`,
    /// given the royalty collaborator's answer (`None` when the lookup
    /// failed).
    pub fn payment_with_royalty(
        &self,
        token: &PaymentAsset,
        sender: Addr,
        recipient: Addr,
        royalty: &Option<RoyaltiesInfoResponse>,
    ) -> (msgs: Vec<Instruction>)
        ensures
            msgs@ == spec_payment_messages(*token, sender, recipient, *royalty),
    {
        let amount = match token {
            PaymentAsset::Native { amount, .. } => *amount,
            PaymentAsset::Cw20 { amount, .. } => *amount,
        };
        let effective: Option<(Addr, u128)> = match royalty {
            Some(info) => match info.address {
                Some(creator) => {
                    if info.royalty_amount == 0 || creator == recipient || info.royalty_amount
                        > amount {
                        None
                    } else {
                        Some((creator, info.royalty_amount))
                    }
                },
                None => None,
            },
            None => None,
        };
        let mut msgs: Vec<Instruction> = Vec::new();
        match effective {
            None => {
                msgs.push(self.transfer_instruction(token, sender, recipient, amount));
                proof {
                    assert(msgs@ =~= spec_payment_messages(*token, sender, recipient, *royalty));
                }
            },
            Some((creator, cut)) => {
                msgs.push(self.transfer_instruction(token, sender, creator, cut));
                msgs.push(self.transfer_instruction(token, sender, recipient, amount - cut));
                proof {
                    assert(msgs@ =~= spec_payment_messages(*token, sender, recipient, *royalty));
                }
            },
        }
        msgs
    }

    /// Build the single instruction that moves `amount` of `token`.
    fn transfer_instruction(&self, token: &PaymentAsset, sender: Addr, to: Addr, amount: u128) -> (r:
        Instruction)
        ensures
            r == spec_transfer(*token, sender, to, amount),
    {
        match token {
            PaymentAsset::Native { denom, .. } => Instruction::Send {
                to_address: to,
                amount: Coin { denom: denom.clone(), amount },
            },
            PaymentAsset::Cw20 { token_address, .. } => Instruction::Cw20TransferFrom {
                token_address: *token_address,
                owner: sender,
                recipient: to,
                amount,
            },
        }
    }
}

// ---------------------------------------------------------------------
// Listing lifecycle
// ---------------------------------------------------------------------
/// The listing stored by a successful `list`.
pub open spec fn spec_new_listing(
    sender: Addr,
    contract_address: Addr,
    token_id: TokenId,
    auction_config: AuctionConfig,
) -> Listing {
    Listing {
        contract_address,
        token_id,
        auction_config,
        seller: sender,
        buyer: None,
        status: ListingStatus::Ongoing {},
    }
}

/// The listing after a successful `buy`.
pub open spec fn spec_sold_listing(l: Listing, buyer: Addr) -> Listing {
    Listing { buyer: Some(buyer), status: ListingStatus::Sold { buyer }, ..l }
}

/// The listing after a successful `cancel`.
pub open spec fn spec_cancelled_listing(l: Listing, at: u64) -> Listing {
    Listing { status: ListingStatus::Cancelled { cancelled_at: at }, ..l }
}

impl MarketplaceContract {
    /// Whether `list` succeeds: the seller owns the asset, the
    /// marketplace holds a never-expiring transfer approval, the auction
    /// configuration is valid, and no ongoing listing occupies the slot.
    pub open spec fn spec_list_ok(
        self,
        sender: Addr,
        contract_address: Addr,
        token_id: TokenId,
        auction_config: AuctionConfig,
        owner_of: Option<Addr>,
        approval: Option<Expiration>,
    ) -> bool {
        &&& owner_of == Some(sender)
        &&& approval == Some(Expiration::Never)
        &&& spec_valid_auction_config(auction_config)
        &&& !(self.listings.contains_key((contract_address, token_id)) && self.listings.spec_get(
            (contract_address, token_id),
        ).spec_is_active())
    }

    /// Which error `list` returns, by the order the checks run in.
    pub open spec fn spec_list_err(
        self,
        sender: Addr,
        contract_address: Addr,
        token_id: TokenId,
        auction_config: AuctionConfig,
        owner_of: Option<Addr>,
        approval: Option<Expiration>,
        e: ContractError,
    ) -> bool {
        if owner_of != Some(sender) {
            e is Unauthorized
        } else if approval is None {
            e matches ContractError::CustomError { val } && val@ == "Require never expired approval"@
        } else if approval != Some(Expiration::Never) {
            e is Unauthorized
        } else if !spec_valid_auction_config(auction_config) {
            e matches ContractError::CustomError { val } && val@ == "Invalid auction config"@
        } else {
            e is AlreadyExists
        }
    }

    /// List an asset for sale.  `owner_of` is the custody service's
    /// answer for the asset's owner and `approval` the expiry of the
    /// transfer approval it reports for the marketplace; `None` stands
    /// for a failed lookup, and authorization fails closed.  A listing
    /// may overwrite a terminal slot but never an ongoing one.
    pub fn execute_list_nft(
        &mut self,
        info: &MessageInfo,
        contract_address: Addr,
        token_id: TokenId,
        auction_config: AuctionConfig,
        owner_of: Option<Addr>,
        approval: Option<Expiration>,
    ) -> (r: Result<Response, ContractError>)
        requires
            old(self).wf(),
        ensures
            final(self).wf(),
            r is Ok <==> old(self).spec_list_ok(
                info.sender,
                contract_address,
                token_id,
                auction_config,
                owner_of,
                approval,
            ),
            r matches Ok(resp) ==> {
                &&& final(self).listings.as_map() == old(self).listings.as_map().insert(
                    (contract_address, token_id),
                    spec_new_listing(info.sender, contract_address, token_id, auction_config),
                )
                &&& final(self).listings.contains_key((contract_address, token_id))
                &&& final(self).listings.spec_get((contract_address, token_id))
                    == spec_new_listing(info.sender, contract_address, token_id, auction_config)
                &&& final(self).config == old(self).config
                &&& final(self).offers == old(self).offers
                &&& final(self).auction_contracts == old(self).auction_contracts
                &&& resp.messages@ == Seq::<Instruction>::empty()
            },
            r matches Err(e) ==> *final(self) == *old(self) && old(self).spec_list_err(
                info.sender,
                contract_address,
                token_id,
                auction_config,
                owner_of,
                approval,
                e,
            ),
    {
        match owner_of {
            Some(owner) => {
                if owner != info.sender {
                    return Err(ContractError::Unauthorized {});
                }
            },
            None => {
                return Err(ContractError::Unauthorized {});
            },
        }
        match approval {
            Some(Expiration::Never) => {},
            Some(_) => {
                return Err(ContractError::Unauthorized {});
            },
            None => {
                return Err(ContractError::CustomError {
                    val: "Require never expired approval".to_owned(),
                });
            },
        }
        if !self.validate_auction_config(&auction_config) {
            return Err(ContractError::CustomError { val: "Invalid auction config".to_owned() });
        }
        let key = crate::state::listing_key(&contract_address, &token_id);
        match self.listings.get(key) {
            Some(existing) => {
                if existing.is_active() {
                    return Err(ContractError::AlreadyExists {});
                }
            },
            None => {},
        }
        let listing = Listing {
            contract_address,
            token_id,
            auction_config,
            seller: info.sender,
            buyer: None,
            status: ListingStatus::Ongoing {},
        };
        self.listings.save(key, listing);
        Ok(Response::new())
    }

    /// Whether `buy` succeeds: an ongoing listing exists, the buyer is
    /// not the seller, the sale window is open, and the attached payment
    /// equals the fixed price exactly.
    pub open spec fn spec_buy_ok(
        self,
        env: Env,
        sender: Addr,
        funds: Seq<Coin>,
        contract_address: Addr,
        token_id: TokenId,
    ) -> bool {
        let key = (contract_address, token_id);
        &&& self.listings.contains_key(key)
        &&& {
            let l = self.listings.spec_get(key);
            &&& l.spec_is_active()
            &&& sender != l.seller
            &&& match l.auction_config {
                AuctionConfig::FixedPrice { price, start_time, end_time } => {
                    &&& (start_time matches Some(s) ==> s.spec_is_expired(env.block))
                    &&& (end_time matches Some(t) ==> !t.spec_is_expired(env.block))
                    &&& funds.len() >= 1
                    &&& funds[0].spec_same(price)
                },
                AuctionConfig::Other { .. } => false,
            }
        }
    }

    /// Which error `buy` returns, by the order the checks run in.
    pub open spec fn spec_buy_err(
        self,
        env: Env,
        sender: Addr,
        funds: Seq<Coin>,
        contract_address: Addr,
        token_id: TokenId,
        e: ContractError,
    ) -> bool {
        let key = (contract_address, token_id);
        if !self.listings.contains_key(key) {
            e is NotFound
        } else {
            let l = self.listings.spec_get(key);
            if !l.spec_is_active() {
                e is ListingNotActive
            } else if sender == l.seller {
                e matches ContractError::CustomError { val } && val@ == "Owner cannot buy"@
            } else {
                match l.auction_config {
                    AuctionConfig::FixedPrice { price, start_time, end_time } => {
                        if start_time matches Some(s) && !s.spec_is_expired(env.block) {
                            e matches ContractError::CustomError { val } && val@
                                == "Auction not started"@
                        } else if end_time matches Some(t) && t.spec_is_expired(env.block) {
                            e matches ContractError::CustomError { val } && val@ == "Auction ended"@
                        } else if funds.len() == 0 || !funds[0].spec_same(price) {
                            e is InsufficientFunds
                        } else {
                            false
                        }
                    },
                    AuctionConfig::Other { .. } => e matches ContractError::CustomError { val }
                        && val@ == "Invalid Auction Config"@,
                }
            }
        }
    }

    /// The full instruction list of a successful `buy`: the asset moves
    /// to the buyer first, then the payment legs follow.
    pub open spec fn spec_buy_messages(
        self,
        sender: Addr,
        contract_address: Addr,
        token_id: TokenId,
        royalty: Option<RoyaltiesInfoResponse>,
    ) -> Seq<Instruction> {
        let l = self.listings.spec_get((contract_address, token_id));
        match l.auction_config {
            AuctionConfig::FixedPrice { price, .. } => seq![
                Instruction::TransferNft { collection: contract_address, token_id, recipient: sender },
            ] + spec_payment_messages(
                PaymentAsset::Native { denom: price.denom, amount: price.amount },
                sender,
                l.seller,
                royalty,
            ),
            AuctionConfig::Other { .. } => Seq::empty(),
        }
    }

    /// Buy an ongoing fixed-price listing.  `royalty` is the royalty
    /// collaborator's answer for (asset, price); `None` stands for a
    /// failed lookup and fails open to "no royalty".  On success the
    /// listing turns `Sold` — a terminal state: it is never payable
    /// twice — and the response instructs the asset transfer and the
    /// payment split.
    pub fn execute_buy(
        &mut self,
        env: &Env,
        info: &MessageInfo,
        contract_address: Addr,
        token_id: TokenId,
        royalty: &Option<RoyaltiesInfoResponse>,
    ) -> (r: Result<Response, ContractError>)
        requires
            old(self).wf(),
        ensures
            final(self).wf(),
            r is Ok <==> old(self).spec_buy_ok(
                *env,
                info.sender,
                info.funds@,
                contract_address,
                token_id,
            ),
            r matches Ok(resp) ==> {
                &&& final(self).listings.as_map() == old(self).listings.as_map().insert(
                    (contract_address, token_id),
                    spec_sold_listing(
                        old(self).listings.spec_get((contract_address, token_id)),
                        info.sender,
                    ),
                )
                &&& final(self).listings.contains_key((contract_address, token_id))
                &&& final(self).listings.spec_get((contract_address, token_id))
                    == spec_sold_listing(
                    old(self).listings.spec_get((contract_address, token_id)),
                    info.sender,
                )
                &&& final(self).config == old(self).config
                &&& final(self).offers == old(self).offers
                &&& final(self).auction_contracts == old(self).auction_contracts
                &&& resp.messages@ == old(self).spec_buy_messages(
                    info.sender,
                    contract_address,
                    token_id,
                    *royalty,
                )
            },
            r matches Err(e) ==> *final(self) == *old(self) && old(self).spec_buy_err(
                *env,
                info.sender,
                info.funds@,
                contract_address,
                token_id,
                e,
            ),
    {
        let key = crate::state::listing_key(&contract_address, &token_id);
        let listing = match self.listings.get(key) {
            Some(l) => l.clone(),
            None => {
                return Err(ContractError::NotFound {});
            },
        };
        if !listing.is_active() {
            return Err(ContractError::ListingNotActive {});
        }
        if info.sender == listing.seller {
            return Err(ContractError::CustomError { val: "Owner cannot buy".to_owned() });
        }
        match &listing.auction_config {
            AuctionConfig::FixedPrice { price, start_time, end_time } => {
                if let Some(s) = start_time {
                    if !s.is_expired(&env.block) {
                        return Err(ContractError::CustomError {
                            val: "Auction not started".to_owned(),
                        });
                    }
                }
                if let Some(t) = end_time {
                    if t.is_expired(&env.block) {
                        return Err(ContractError::CustomError { val: "Auction ended".to_owned() });
                    }
                }
                if info.funds.len() == 0 || !info.funds[0].same(price) {
                    return Err(ContractError::InsufficientFunds {});
                }
                let payment = PaymentAsset::Native {
                    denom: price.denom.clone(),
                    amount: price.amount,
                };
                let mut payments = self.payment_with_royalty(
                    &payment,
                    info.sender,
                    listing.seller,
                    royalty,
                );
                let mut messages: Vec<Instruction> = Vec::new();
                messages.push(Instruction::TransferNft {
                    collection: contract_address,
                    token_id,
                    recipient: info.sender,
                });
                messages.append(&mut payments);
                let sold = Listing {
                    contract_address: listing.contract_address,
                    token_id: listing.token_id,
                    auction_config: listing.auction_config,
                    seller: listing.seller,
                    buyer: Some(info.sender),
                    status: ListingStatus::Sold { buyer: info.sender },
                };
                self.listings.save(key, sold);
                proof {
                    assert(final(self).listings.as_map() == old(self).listings.as_map().insert(
                        key,
                        spec_sold_listing(
                            old(self).listings.spec_get(key),
                            info.sender,
                        ),
                    ));
                }
                Ok(Response { messages })
            },
            AuctionConfig::Other { .. } => Err(ContractError::CustomError {
                val: "Invalid Auction Config".to_owned(),
            }),
        }
    }

    /// Whether `cancel` succeeds: an ongoing listing exists and the
    /// caller is its seller, or the listing has expired, in which case
    /// anyone may clean it up.
    pub open spec fn spec_cancel_ok(
        self,
        env: Env,
        sender: Addr,
        contract_address: Addr,
        token_id: TokenId,
    ) -> bool {
        let key = (contract_address, token_id);
        &&& self.listings.contains_key(key)
        &&& {
            let l = self.listings.spec_get(key);
            &&& l.spec_is_active()
            &&& (l.seller == sender || l.spec_is_expired(env.block))
        }
    }

    /// Which error `cancel` returns, by the order the checks run in.
    pub open spec fn spec_cancel_err(
        self,
        env: Env,
        sender: Addr,
        contract_address: Addr,
        token_id: TokenId,
        e: ContractError,
    ) -> bool {
        let key = (contract_address, token_id);
        if !self.listings.contains_key(key) {
            e is NotFound
        } else if !self.listings.spec_get(key).spec_is_active() {
            e is ListingNotActive
        } else {
            e is Unauthorized
        }
    }

    /// Cancel an ongoing listing.  The slot turns `Cancelled` — a
    /// terminal state that no longer blocks re-listing.
    pub fn execute_cancel(
        &mut self,
        env: &Env,
        info: &MessageInfo,
        contract_address: Addr,
        token_id: TokenId,
    ) -> (r: Result<Response, ContractError>)
        requires
            old(self).wf(),
        ensures
            final(self).wf(),
            r is Ok <==> old(self).spec_cancel_ok(
                *env,
                info.sender,
                contract_address,
                token_id,
            ),
            r matches Ok(resp) ==> {
                &&& final(self).listings.as_map() == old(self).listings.as_map().insert(
                    (contract_address, token_id),
                    spec_cancelled_listing(
                        old(self).listings.spec_get((contract_address, token_id)),
                        env.block.time,
                    ),
                )
                &&& final(self).listings.contains_key((contract_address, token_id))
                &&& final(self).listings.spec_get((contract_address, token_id))
                    == spec_cancelled_listing(
                    old(self).listings.spec_get((contract_address, token_id)),
                    env.block.time,
                )
                &&& final(self).config == old(self).config
                &&& final(self).offers == old(self).offers
                &&& final(self).auction_contracts == old(self).auction_contracts
                &&& resp.messages@ == Seq::<Instruction>::empty()
            },
            r matches Err(e) ==> *final(self) == *old(self) && old(self).spec_cancel_err(
                *env,
                info.sender,
                contract_address,
                token_id,
                e,
            ),
    {
        let key = crate::state::listing_key(&contract_address, &token_id);
        let listing = match self.listings.get(key) {
            Some(l) => l.clone(),
            None => {
                return Err(ContractError::NotFound {});
            },
        };
        if !listing.is_active() {
            return Err(ContractError::ListingNotActive {});
        }
        if !listing.is_expired(&env.block) && listing.seller != info.sender {
            return Err(ContractError::Unauthorized {});
        }
        let cancelled = Listing {
            contract_address: listing.contract_address,
            token_id: listing.token_id,
            auction_config: listing.auction_config,
            seller: listing.seller,
            buyer: listing.buyer,
            status: ListingStatus::Cancelled { cancelled_at: env.block.time },
        };
        self.listings.save(key, cancelled);
        Ok(Response::new())
    }

    /// Register an auction handler.  Fails with `AlreadyExists` when a
    /// different registration already claims the same version tag.
    pub fn execute_add_auction_contract(
        &mut self,
        _info: &MessageInfo,
        auction_contract: AuctionContract,
    ) -> (r: Result<Response, ContractError>)
        requires
            old(self).wf(),
        ensures
            final(self).wf(),
            r is Ok <==> !old(self).auction_contracts.code_id_taken_by_other(
                auction_contract.code_id,
                auction_contract.contract_address,
            ),
            r matches Ok(resp) ==> {
                &&& final(self).auction_contracts.as_map() == old(
                    self,
                ).auction_contracts.as_map().insert(
                    auction_contract.contract_address,
                    auction_contract,
                )
                &&& final(self).config == old(self).config
                &&& final(self).listings == old(self).listings
                &&& final(self).offers == old(self).offers
                &&& resp.messages@ == Seq::<Instruction>::empty()
            },
            r matches Err(e) ==> *final(self) == *old(self) && e is AlreadyExists,
    {
        let key = auction_contract.contract_address;
        match self.auction_contracts.save(key, auction_contract) {
            Ok(()) => Ok(Response::new()),
            Err(e) => Err(e),
        }
    }

    /// Drop an auction handler's registration; absent addresses are a
    /// no-op.
    pub fn execute_remove_auction_contract(
        &mut self,
        _info: &MessageInfo,
        contract_address: Addr,
    ) -> (r: Result<Response, ContractError>)
        requires
            old(self).wf(),
        ensures
            final(self).wf(),
            r is Ok,
            final(self).auction_contracts.as_map() == old(self).auction_contracts.as_map().remove(
                contract_address,
            ),
            final(self).config == old(self).config,
            final(self).listings == old(self).listings,
            final(self).offers == old(self).offers,
            r matches Ok(resp) ==> resp.messages@ == Seq::<Instruction>::empty(),
    {
        self.auction_contracts.remove(contract_address);
        Ok(Response::new())
    }
}

// ---------------------------------------------------------------------
// Offer lifecycle
// ---------------------------------------------------------------------
/// What a successful `offer` stores: a single fungible-token payment item
/// against a single specific-asset consideration item routed back to the
/// offerer, expiring at `end_time`.
pub open spec fn spec_offer_saved(
    o: OrderComponents,
    sender: Addr,
    nft_address: Addr,
    token_id: TokenId,
    token_address: Addr,
    amount: u128,
    end_time: Expiration,
) -> bool {
    &&& o.order_type == OrderType::OFFER
    &&& o.order_id == (sender, (nft_address, token_id))
    &&& o.offerer == sender
    &&& o.offer@.len() == 1
    &&& o.offer@[0].item_type == ItemType::CW20
    &&& o.offer@[0].item == (Asset::Cw20 { token_address, amount })
    &&& o.offer@[0].identifier_or_criteria@ == Seq::<char>::empty()
    &&& o.offer@[0].start_amount == 0
    &&& o.offer@[0].end_amount == 0
    &&& o.consideration@.len() == 1
    &&& o.consideration@[0].item_type == ItemType::CW721
    &&& o.consideration@[0].item == (Asset::Nft { nft_address, token_id: Some(token_id) })
    &&& o.consideration@[0].start_amount == 0
    &&& o.consideration@[0].end_amount == 0
    &&& o.consideration@[0].recipient == sender
    &&& o.start_time is None
    &&& o.end_time == Some(end_time)
}

impl MarketplaceContract {
    /// Whether `offer` succeeds: the expiry lies in the future, the
    /// payment is a fungible-token asset the offerer has allowance and
    /// balance for, and the target is a specific existing asset the
    /// offerer does not own.
    pub open spec fn spec_offer_ok(
        self,
        env: Env,
        sender: Addr,
        nft: Asset,
        funds: Asset,
        end_time: Expiration,
        allowance: Option<u128>,
        balance: Option<u128>,
        owner_of: Option<Addr>,
    ) -> bool {
        match funds {
            Asset::Cw20 { token_address, amount } => {
                &&& !end_time.spec_is_expired(env.block)
                &&& (allowance matches Some(a) && a >= amount)
                &&& (balance matches Some(b) && b >= amount)
                &&& match nft {
                    Asset::Nft { nft_address, token_id } => {
                        &&& token_id is Some
                        &&& owner_of is Some
                        &&& owner_of != Some(sender)
                    },
                    _ => false,
                }
            },
            _ => false,
        }
    }

    /// Which error `offer` returns, by the order the checks run in.  A
    /// failed allowance or balance lookup fails closed; a failed
    /// ownership lookup reads as "the asset does not exist".
    pub open spec fn spec_offer_err(
        self,
        env: Env,
        sender: Addr,
        nft: Asset,
        funds: Asset,
        end_time: Expiration,
        allowance: Option<u128>,
        balance: Option<u128>,
        owner_of: Option<Addr>,
        e: ContractError,
    ) -> bool {
        if end_time.spec_is_expired(env.block) {
            e is InvalidEndTime
        } else {
            match funds {
                Asset::Cw20 { token_address, amount } => {
                    if !(allowance matches Some(a) && a >= amount) {
                        e is InsufficientAllowance
                    } else if !(balance matches Some(b) && b >= amount) {
                        e is InsufficientBalance
                    } else {
                        match nft {
                            Asset::Nft { nft_address, token_id } => {
                                if token_id is None {
                                    e matches ContractError::CustomError { val } && val@
                                        == "Collection offer is not supported"@
                                } else if owner_of is None {
                                    e matches ContractError::CustomError { val } && val@
                                        == "Nft not exist"@
                                } else {
                                    e matches ContractError::CustomError { val } && val@
                                        == "Cannot offer owned nft"@
                                }
                            },
                            _ => e matches ContractError::CustomError { val } && val@
                                == "Invalid Consideration"@,
                        }
                    }
                },
                _ => e matches ContractError::CustomError { val } && val@
                    == "Invalid Offer funds"@,
            }
        }
    }

    /// Place (or replace) a standing offer: pay `funds` for `nft`, valid
    /// until `end_time`.  `allowance` and `balance` are the
    /// fungible-token service's answers for the offerer, `owner_of` the
    /// custody service's answer for the asset; `None` stands for a failed
    /// lookup.  The latest offer for an (offerer, asset) pair
    /// unconditionally replaces any earlier one.
    pub fn execute_offer_nft(
        &mut self,
        env: &Env,
        info: &MessageInfo,
        nft: Asset,
        funds: Asset,
        end_time: Expiration,
        allowance: Option<u128>,
        balance: Option<u128>,
        owner_of: Option<Addr>,
    ) -> (r: Result<Response, ContractError>)
        requires
            old(self).wf(),
        ensures
            final(self).wf(),
            r is Ok <==> old(self).spec_offer_ok(
                *env,
                info.sender,
                nft,
                funds,
                end_time,
                allowance,
                balance,
                owner_of,
            ),
            r matches Ok(resp) ==> (nft matches Asset::Nft { nft_address, token_id: Some(tid) }
                && funds matches Asset::Cw20 { token_address, amount } && {
                let key = (info.sender, (nft_address, tid));
                &&& final(self).offers.contains_key(key)
                &&& spec_offer_saved(
                    final(self).offers.spec_get(key),
                    info.sender,
                    nft_address,
                    tid,
                    token_address,
                    amount,
                    end_time,
                )
                &&& final(self).offers.as_map().remove(key) == old(self).offers.as_map().remove(
                    key,
                )
                &&& final(self).config == old(self).config
                &&& final(self).listings == old(self).listings
                &&& final(self).auction_contracts == old(self).auction_contracts
                &&& resp.messages@ == Seq::<Instruction>::empty()
            }),
            r matches Err(e) ==> *final(self) == *old(self) && old(self).spec_offer_err(
                *env,
                info.sender,
                nft,
                funds,
                end_time,
                allowance,
                balance,
                owner_of,
                e,
            ),
    {
        if end_time.is_expired(&env.block) {
            return Err(ContractError::InvalidEndTime {});
        }
        match funds {
            Asset::Cw20 { token_address, amount } => {
                let enough_allowance = match allowance {
                    Some(a) => a >= amount,
                    None => false,
                };
                if !enough_allowance {
                    return Err(ContractError::InsufficientAllowance {});
                }
                let enough_balance = match balance {
                    Some(b) => b >= amount,
                    None => false,
                };
                if !enough_balance {
                    return Err(ContractError::InsufficientBalance {});
                }
                match nft {
                    Asset::Nft { nft_address, token_id } => {
                        if let Some(tid) = token_id {
                            match owner_of {
                                Some(owner) => {
                                    if owner == info.sender {
                                        return Err(ContractError::CustomError {
                                            val: "Cannot offer owned nft".to_owned(),
                                        });
                                    }
                                },
                                None => {
                                    return Err(ContractError::CustomError {
                                        val: "Nft not exist".to_owned(),
                                    });
                                },
                            }
                            let key = order_key(&info.sender, &nft_address, &tid);
                            let pay_item = offer_item(
                                &ItemType::CW20,
                                &(Asset::Cw20 { token_address, amount }),
                                &0u128,
                                &0u128,
                            );
                            let want_item = consideration_item(
                                &ItemType::CW721,
                                &(Asset::Nft { nft_address, token_id: Some(tid) }),
                                &0u128,
                                &0u128,
                                &info.sender,
                            );
                            let mut offer: Vec<crate::order_state::OfferItem> = Vec::new();
                            offer.push(pay_item);
                            let mut consideration: Vec<crate::order_state::ConsiderationItem> =
                                Vec::new();
                            consideration.push(want_item);
                            let order = OrderComponents {
                                order_type: OrderType::OFFER,
                                order_id: key,
                                offerer: info.sender,
                                offer,
                                consideration,
                                start_time: None,
                                end_time: Some(end_time),
                            };
                            proof {
                                assert(crate::order_state::order_wf(key, order));
                            }
                            self.offers.save(key, order);
                            proof {
                                assert(self.offers.as_map().remove(key) =~= old(
                                    self,
                                ).offers.as_map().remove(key));
                            }
                            Ok(Response::new())
                        } else {
                            Err(ContractError::CustomError {
                                val: "Collection offer is not supported".to_owned(),
                            })
                        }
                    },
                    _ => Err(ContractError::CustomError {
                        val: "Invalid Consideration".to_owned(),
                    }),
                }
            },
            _ => Err(ContractError::CustomError { val: "Invalid Offer funds".to_owned() }),
        }
    }

    /// Whether `accept` succeeds: a live order exists for (offerer,
    /// asset), its consideration is the asset, and the caller owns it.
    pub open spec fn spec_accept_ok(
        self,
        env: Env,
        sender: Addr,
        offerer: Addr,
        nft: Asset,
        owner_of: Option<Addr>,
    ) -> bool {
        match nft {
            Asset::Nft { nft_address, token_id } => {
                &&& token_id is Some
                &&& {
                    let key = (offerer, (nft_address, token_id.unwrap()));
                    &&& self.offers.contains_key(key)
                    &&& {
                        let o = self.offers.spec_get(key);
                        &&& (o.end_time matches Some(t) && !t.spec_is_expired(env.block))
                        &&& o.consideration@.len() >= 1
                        &&& o.consideration@[0].item is Nft
                        &&& owner_of == Some(sender)
                        &&& o.offer@.len() >= 1
                        &&& o.offer@[0].item is Cw20
                    }
                }
            },
            _ => false,
        }
    }

    /// Which error `accept` returns, by the order the checks run in.  An
    /// expired order fails with a validation error and is left in place.
    /// A failed ownership lookup fails closed as `Unauthorized`.
    pub open spec fn spec_accept_err(
        self,
        env: Env,
        sender: Addr,
        offerer: Addr,
        nft: Asset,
        owner_of: Option<Addr>,
        e: ContractError,
    ) -> bool {
        match nft {
            Asset::Nft { nft_address, token_id } => {
                if token_id is None {
                    e matches ContractError::CustomError { val } && val@
                        == "Collection offer is not supported"@
                } else {
                    let key = (offerer, (nft_address, token_id.unwrap()));
                    if !self.offers.contains_key(key) {
                        e is NotFound
                    } else {
                        let o = self.offers.spec_get(key);
                        if !(o.end_time matches Some(t) && !t.spec_is_expired(env.block)) {
                            e matches ContractError::CustomError { val } && val@
                                == "Offer is expired"@
                        } else if !(o.consideration@.len() >= 1 && o.consideration@[0].item
                            is Nft) {
                            e matches ContractError::CustomError { val } && val@
                                == "Consideration is not NFT"@
                        } else if owner_of != Some(sender) {
                            e is Unauthorized
                        } else {
                            e matches ContractError::CustomError { val } && val@
                                == "Invalid Offer funding type"@
                        }
                    }
                }
            },
            _ => e matches ContractError::CustomError { val } && val@ == "Invalid NFT"@,
        }
    }

    /// The full instruction list of a successful `accept`: the asset
    /// moves to the offerer first, then the payment legs follow, paid by
    /// the offerer with proceeds owed to the accepting owner.
    pub open spec fn spec_accept_messages(
        self,
        sender: Addr,
        offerer: Addr,
        nft_address: Addr,
        token_id: TokenId,
        royalty: Option<RoyaltiesInfoResponse>,
    ) -> Seq<Instruction> {
        let key = (offerer, (nft_address, token_id));
        let o = self.offers.spec_get(key);
        let payment = match o.offer@[0].item {
            Asset::Cw20 { token_address, amount } => PaymentAsset::Cw20 { token_address, amount },
            _ => arbitrary(),
        };
        seq![
            Instruction::TransferNft { collection: nft_address, token_id, recipient: o.offerer },
        ] + spec_payment_messages(payment, offerer, sender, royalty)
    }

    /// Accept a standing offer on an asset the caller owns.  `owner_of`
    /// is the custody service's answer for the asset, `royalty` the
    /// royalty collaborator's answer for (asset, offered amount).  On
    /// success the order is consumed: read, settled, and removed.
    pub fn execute_accept_nft_offer(
        &mut self,
        env: &Env,
        info: &MessageInfo,
        offerer: Addr,
        nft: Asset,
        owner_of: Option<Addr>,
        royalty: &Option<RoyaltiesInfoResponse>,
    ) -> (r: Result<Response, ContractError>)
        requires
            old(self).wf(),
        ensures
            final(self).wf(),
            r is Ok <==> old(self).spec_accept_ok(*env, info.sender, offerer, nft, owner_of),
            r matches Ok(resp) ==> (nft matches Asset::Nft { nft_address, token_id: Some(tid) }
                && {
                let key = (offerer, (nft_address, tid));
                &&& final(self).offers.as_map() == old(self).offers.as_map().remove(key)
                &&& final(self).config == old(self).config
                &&& final(self).listings == old(self).listings
                &&& final(self).auction_contracts == old(self).auction_contracts
                &&& resp.messages@ == old(self).spec_accept_messages(
                    info.sender,
                    offerer,
                    nft_address,
                    tid,
                    *royalty,
                )
            }),
            r matches Err(e) ==> *final(self) == *old(self) && old(self).spec_accept_err(
                *env,
                info.sender,
                offerer,
                nft,
                owner_of,
                e,
            ),
    {
        match nft {
            Asset::Nft { nft_address, token_id } => {
                if let Some(tid) = token_id {
                    let key = order_key(&offerer, &nft_address, &tid);
                    let order = match self.offers.get(key) {
                        Some(o) => o.clone(),
                        None => {
                            return Err(ContractError::NotFound {});
                        },
                    };
                    let live = match &order.end_time {
                        Some(t) => !t.is_expired(&env.block),
                        None => false,
                    };
                    if !live {
                        return Err(ContractError::CustomError {
                            val: "Offer is expired".to_owned(),
                        });
                    }
                    if order.consideration.len() < 1 {
                        return Err(ContractError::CustomError {
                            val: "Consideration is not NFT".to_owned(),
                        });
                    }
                    let is_nft = match &order.consideration[0].item {
                        Asset::Nft { .. } => true,
                        _ => false,
                    };
                    if !is_nft {
                        return Err(ContractError::CustomError {
                            val: "Consideration is not NFT".to_owned(),
                        });
                    }
                    let owner_ok = match owner_of {
                        Some(owner) => owner == info.sender,
                        None => false,
                    };
                    if !owner_ok {
                        return Err(ContractError::Unauthorized {});
                    }
                    if order.offer.len() < 1 {
                        return Err(ContractError::CustomError {
                            val: "Invalid Offer funding type".to_owned(),
                        });
                    }
                    let payment = match &order.offer[0].item {
                        Asset::Cw20 { token_address, amount } => PaymentAsset::Cw20 {
                            token_address: *token_address,
                            amount: *amount,
                        },
                        _ => {
                            return Err(ContractError::CustomError {
                                val: "Invalid Offer funding type".to_owned(),
                            });
                        },
                    };
                    let mut payments = self.payment_with_royalty(
                        &payment,
                        offerer,
                        info.sender,
                        royalty,
                    );
                    let mut messages: Vec<Instruction> = Vec::new();
                    messages.push(Instruction::TransferNft {
                        collection: nft_address,
                        token_id: tid,
                        recipient: order.offerer,
                    });
                    messages.append(&mut payments);
                    self.offers.remove(key);
                    Ok(Response { messages })
                } else {
                    Err(ContractError::CustomError {
                        val: "Collection offer is not supported".to_owned(),
                    })
                }
            },
            _ => Err(ContractError::CustomError { val: "Invalid NFT".to_owned() }),
        }
    }

    /// Whether `cancel` of an offer succeeds: the argument names a
    /// specific asset.  Removal itself is idempotent: an absent order is
    /// a no-op.
    pub open spec fn spec_cancel_offer_ok(self, nft: Asset) -> bool {
        nft matches Asset::Nft { token_id: Some(_), .. }
    }

    /// Which error `cancel` of an offer returns.
    pub open spec fn spec_cancel_offer_err(self, nft: Asset, e: ContractError) -> bool {
        match nft {
            Asset::Nft { token_id, .. } => {
                &&& token_id is None
                &&& e matches ContractError::CustomError { val } && val@
                    == "Collection offer is not supported"@
            },
            _ => e matches ContractError::CustomError { val } && val@ == "Invalid NFT"@,
        }
    }

    /// Withdraw the caller's standing offer on one asset, if any.
    pub fn execute_cancel_nft_offer(&mut self, info: &MessageInfo, nft: Asset) -> (r: Result<
        Response,
        ContractError,
    >)
        requires
            old(self).wf(),
        ensures
            final(self).wf(),
            r is Ok <==> old(self).spec_cancel_offer_ok(nft),
            r matches Ok(resp) ==> (nft matches Asset::Nft { nft_address, token_id: Some(tid) }
                && {
                &&& final(self).offers.as_map() == old(self).offers.as_map().remove(
                    (info.sender, (nft_address, tid)),
                )
                &&& final(self).config == old(self).config
                &&& final(self).listings == old(self).listings
                &&& final(self).auction_contracts == old(self).auction_contracts
                &&& resp.messages@ == Seq::<Instruction>::empty()
            }),
            r matches Err(e) ==> *final(self) == *old(self) && old(self).spec_cancel_offer_err(
                nft,
                e,
            ),
    {
        match nft {
            Asset::Nft { nft_address, token_id } => {
                if let Some(tid) = token_id {
                    let key = order_key(&info.sender, &nft_address, &tid);
                    self.offers.remove(key);
                    Ok(Response::new())
                } else {
                    Err(ContractError::CustomError {
                        val: "Collection offer is not supported".to_owned(),
                    })
                }
            },
            _ => Err(ContractError::CustomError { val: "Invalid NFT".to_owned() }),
        }
    }

    /// Withdraw every standing offer the caller has placed, and no
    /// other's.
    pub fn execute_cancel_all_offer(&mut self, info: &MessageInfo) -> (r: Result<
        Response,
        ContractError,
    >)
        requires
            old(self).wf(),
        ensures
            final(self).wf(),
            r is Ok,
            final(self).offers.as_map() == old(self).offers.as_map().remove_keys(
                Set::new(|k: OrderKey| k.0 == info.sender),
            ),
            final(self).config == old(self).config,
            final(self).listings == old(self).listings,
            final(self).auction_contracts == old(self).auction_contracts,
            r matches Ok(resp) ==> resp.messages@ == Seq::<Instruction>::empty(),
    {
        self.offers.remove_user(info.sender);
        Ok(Response::new())
    }
}

} // verus!
