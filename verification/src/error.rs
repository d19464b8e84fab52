//! Why a trade or a query is turned down.

use crate::payment::{PaymentError, PaymentErrorView};
use vstd::prelude::*;

verus! {

/// The reasons for which the market turns a message down. None of them
/// leaves a change in the ledger.
#[derive(Clone, Debug, PartialEq, Eq)]
pub enum FriendTechAppError {
    /// The funds sent are not one coin of the market's denomination.
    Payment(PaymentError),
    /// The account has no owner, so nobody is the issuer.
    AccountOwnerMustBeSetToIssueKey {},
    /// Less was paid than the trade costs.
    InsufficientFunds { required: u128, paid: u128 },
    /// The seller holds fewer keys than are to be sold.
    CannotSellMoreThanOwned { owned: u128, to_sell: u128 },
    /// The issuer would be left without a key.
    IssuerCannotSellLastKey {},
    /// A price, a cost or a supply leaves the range of 128 bits.
    Overflow {},
}

/// What a `FriendTechAppError` stands for.
pub enum FriendTechAppErrorView {
    Payment(PaymentErrorView),
    AccountOwnerMustBeSetToIssueKey,
    InsufficientFunds { required: nat, paid: nat },
    CannotSellMoreThanOwned { owned: nat, to_sell: nat },
    IssuerCannotSellLastKey,
    Overflow,
}

impl View for FriendTechAppError {
    type V = FriendTechAppErrorView;

    open spec fn view(&self) -> FriendTechAppErrorView {
        match self {
            FriendTechAppError::Payment(e) => FriendTechAppErrorView::Payment(e@),
            FriendTechAppError::AccountOwnerMustBeSetToIssueKey {  } =>
                FriendTechAppErrorView::AccountOwnerMustBeSetToIssueKey,
            FriendTechAppError::InsufficientFunds { required, paid } =>
                FriendTechAppErrorView::InsufficientFunds {
                    required: *required as nat,
                    paid: *paid as nat,
                },
            FriendTechAppError::CannotSellMoreThanOwned { owned, to_sell } =>
                FriendTechAppErrorView::CannotSellMoreThanOwned {
                    owned: *owned as nat,
                    to_sell: *to_sell as nat,
                },
            FriendTechAppError::IssuerCannotSellLastKey {  } =>
                FriendTechAppErrorView::IssuerCannotSellLastKey,
            FriendTechAppError::Overflow {  } => FriendTechAppErrorView::Overflow,
        }
    }
}

} // verus!
