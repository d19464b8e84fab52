//! Opening a book of questions.

use crate::qa::error::{QAAppError, QAAppErrorView};
use crate::qa::msg::QAAppInstantiateMsg;
use crate::qa::state::{QuestionBook, QuestionView};
use crate::qa::utils::get_account_owner_addr;
use vstd::prelude::*;

verus! {

/// Opens a book of questions for the account whose owner is
/// `account_owner`. An account without an owner gets none.
pub fn instantiate_handler(account_owner: Option<String>, msg: QAAppInstantiateMsg) -> (made: Result<
    QuestionBook,
    QAAppError,
>)
    ensures
        match made {
            Ok(book) => {
                &&& account_owner is Some
                &&& book@.next_question_id == 0
                &&& book@.unanswered == Seq::<QuestionView>::empty()
                &&& book@.answered == Seq::<QuestionView>::empty()
                &&& book@.well_formed()
            },
            Err(e) => account_owner is None && e@ == QAAppErrorView::AccountOwnerMustBeSetToAnswer,
        },
{
    match get_account_owner_addr(account_owner) {
        Ok(_) => Ok(QuestionBook::new()),
        Err(e) => Err(e),
    }
}

} // verus!
