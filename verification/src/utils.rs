//! Who the issuer is.

use crate::error::{FriendTechAppError, FriendTechAppErrorView};
use vstd::prelude::*;

verus! {

/// A result whose error is taken as what it stands for.
pub open spec fn error_view<T>(outcome: Result<T, FriendTechAppError>) -> Result<
    T,
    FriendTechAppErrorView,
> {
    match outcome {
        Ok(value) => Ok(value),
        Err(e) => Err(e@),
    }
}

/// The issuer of a market whose account has the owner `account_owner`.
pub open spec fn issuer_of(account_owner: Option<Seq<char>>) -> Result<
    Seq<char>,
    FriendTechAppErrorView,
> {
    match account_owner {
        Some(owner) => Ok(owner),
        None => Err(FriendTechAppErrorView::AccountOwnerMustBeSetToIssueKey),
    }
}

/// The owner of an account, as the text that stands for it.
pub open spec fn owner_view(account_owner: Option<String>) -> Option<Seq<char>> {
    match account_owner {
        Some(owner) => Some(owner@),
        None => None,
    }
}

/// The issuer's address: the owner of the account that the market belongs
/// to. An account without an owner has no issuer.
pub fn get_issuer_addr(account_owner: Option<String>) -> (issuer: Result<
    String,
    FriendTechAppError,
>)
    ensures
        match issuer {
            Ok(address) => issuer_of(owner_view(account_owner)) == Ok::<
                Seq<char>,
                FriendTechAppErrorView,
            >(address@),
            Err(e) => issuer_of(owner_view(account_owner)) == Err::<
                Seq<char>,
                FriendTechAppErrorView,
            >(e@),
        },
{
    match account_owner {
        Some(owner) => Ok(owner),
        None => Err(FriendTechAppError::AccountOwnerMustBeSetToIssueKey {  }),
    }
}

} // verus!
