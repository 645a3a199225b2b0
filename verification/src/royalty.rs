//! The royalty collaborator's data model and reference formula: token
//! metadata carries an optional royalty percentage and payment address,
//! and the royalty owed on a sale is the floor of the percentage share.

use vstd::prelude::*;
use vstd::arithmetic::div_mod::{
    lemma_div_by_multiple, lemma_div_is_ordered, lemma_fundamental_div_mod,
    lemma_hoist_over_denominator,
};
use crate::types::Addr;

verus! {

/// One displayable attribute of a token.
#[derive(Debug, PartialEq)]
pub struct Trait {
    pub display_type: Option<String>,
    pub trait_type: String,
    pub value: String,
}

/// Token metadata, including the creator's royalty terms.
#[derive(Debug, PartialEq)]
pub struct Metadata {
    pub image: Option<String>,
    pub image_data: Option<String>,
    pub external_url: Option<String>,
    pub description: Option<String>,
    pub name: Option<String>,
    pub attributes: Option<Vec<Trait>>,
    pub background_color: Option<String>,
    pub animation_url: Option<String>,
    pub youtube_url: Option<String>,
    /// The creator's cut on every sale, in whole percent.
    pub royalty_percentage: Option<u64>,
    /// Where the royalty is paid; may differ from the minter.
    pub royalty_payment_address: Option<Addr>,
}

/// What the royalty collaborator answers for (asset, sale price): an
/// optional recipient and the amount owed.  An absent address stands for
/// an empty recipient on the wire.
#[derive(Clone, Copy, Debug, PartialEq, Eq, Structural)]
pub struct RoyaltiesInfoResponse {
    pub address: Option<Addr>,
    pub royalty_amount: u128,
}

/// Whether the royalty interface is implemented at all.
#[derive(Clone, Copy, Debug, PartialEq, Eq, Structural)]
pub struct CheckRoyaltiesResponse {
    pub royalty_payments: bool,
}

/// The royalty collaborator implements the royalty interface.
pub fn check_royalties() -> (r: CheckRoyaltiesResponse)
    ensures
        r.royalty_payments == true,
{
    CheckRoyaltiesResponse { royalty_payments: true }
}

/// The royalty owed on a sale: the percentage share of the price, with
/// fractional units always rounded down.
pub open spec fn royalty_of(sale_price: u128, percentage: u64) -> int {
    (sale_price * percentage) / 100
}

pub proof fn lemma_royalty_of_le_price(sale_price: u128, percentage: u64)
    requires
        percentage <= 100,
    ensures
        0 <= royalty_of(sale_price, percentage) <= sale_price,
{
    let p = sale_price as int;
    let c = percentage as int;
    assert(p * c >= 0) by (nonlinear_arith)
        requires
            p >= 0 && c >= 0,
    ;
    assert(p * c <= p * 100) by (nonlinear_arith)
        requires
            p >= 0 && c <= 100,
    ;
    lemma_div_is_ordered(p * c, p * 100, 100);
    lemma_div_by_multiple(p, 100);
}

/// Floor of the percentage share, computed without overflow by splitting
/// the price at the hundreds boundary.
pub fn royalty_share(sale_price: u128, percentage: u64) -> (r: u128)
    requires
        percentage <= 100,
    ensures
        r == royalty_of(sale_price, percentage),
        r <= sale_price,
{
    let q = sale_price / 100;
    let rem = sale_price % 100;
    let c = percentage as u128;
    proof {
        let p = sale_price as int;
        let qi = q as int;
        let remi = rem as int;
        let ci = c as int;
        lemma_fundamental_div_mod(p, 100);
        assert(p == 100 * qi + remi);
        // Bounds, so that the computation below cannot overflow.
        assert(qi * ci <= qi * 100) by (nonlinear_arith)
            requires
                qi >= 0 && ci <= 100,
        ;
        assert(qi * 100 == 100 * qi) by (nonlinear_arith);
        assert(remi * ci <= 99 * 100) by (nonlinear_arith)
            requires
                0 <= remi < 100 && 0 <= ci <= 100,
        ;
        assert(remi * ci >= 0) by (nonlinear_arith)
            requires
                remi >= 0 && ci >= 0,
        ;
        assert(remi * ci <= remi * 100) by (nonlinear_arith)
            requires
                remi >= 0 && ci <= 100,
        ;
        lemma_div_is_ordered(remi * ci, remi * 100, 100);
        lemma_div_by_multiple(remi, 100);
        // Exactness: (100 q + rem) c / 100 == q c + (rem c) / 100.
        assert(p * ci == remi * ci + (qi * ci) * 100) by (nonlinear_arith)
            requires
                p == 100 * qi + remi,
        ;
        lemma_hoist_over_denominator(remi * ci, qi * ci, 100nat);
        assert(qi * ci >= 0) by (nonlinear_arith)
            requires
                qi >= 0 && ci >= 0,
        ;
    }
    q * c + (rem * c) / 100
}

/// The royalty collaborator's answer for a token with this metadata: the
/// floor share of the sale price when a percentage is set, and nothing
/// otherwise.
pub fn query_royalties_info(metadata: &Metadata, sale_price: u128) -> (r: RoyaltiesInfoResponse)
    requires
        metadata.royalty_percentage matches Some(p) ==> p <= 100,
    ensures
        r.address == metadata.royalty_payment_address,
        r.royalty_amount == match metadata.royalty_percentage {
            Some(p) => royalty_of(sale_price, p),
            None => 0int,
        },
{
    match metadata.royalty_percentage {
        Some(p) => RoyaltiesInfoResponse {
            address: metadata.royalty_payment_address,
            royalty_amount: royalty_share(sale_price, p),
        },
        None => RoyaltiesInfoResponse { address: metadata.royalty_payment_address, royalty_amount: 0 },
    }
}

} // verus!
