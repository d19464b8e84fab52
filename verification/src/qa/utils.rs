//! Who may answer.

use crate::qa::error::{QAAppError, QAAppErrorView};
use vstd::prelude::*;

verus! {

/// The one who may answer the questions put to an account with the owner
/// `account_owner`.
pub open spec fn answerer_of(account_owner: Option<Seq<char>>) -> Result<
    Seq<char>,
    QAAppErrorView,
> {
    match account_owner {
        Some(owner) => Ok(owner),
        None => Err(QAAppErrorView::AccountOwnerMustBeSetToAnswer),
    }
}

/// The address of the account's owner. An account without an owner has
/// nobody to answer.
pub fn get_account_owner_addr(account_owner: Option<String>) -> (owner: Result<String, QAAppError>)
    ensures
        match owner {
            Ok(address) => account_owner is Some && address@ == account_owner->Some_0@,
            Err(e) => account_owner is None && e@ == QAAppErrorView::AccountOwnerMustBeSetToAnswer,
        },
{
    match account_owner {
        Some(owner) => Ok(owner),
        None => Err(QAAppError::AccountOwnerMustBeSetToAnswer {  }),
    }
}

} // verus!
