//! Why a question or an answer is turned down.

use crate::payment::{PaymentError, PaymentErrorView};
use vstd::prelude::*;

verus! {

/// The reasons for which a message about questions is turned down. None of
/// them leaves a change in the book of questions.
#[derive(Clone, Debug, PartialEq, Eq)]
pub enum QAAppError {
    /// The funds sent are not what the message takes.
    Payment(PaymentError),
    /// The account has no owner, so nobody can answer.
    AccountOwnerMustBeSetToAnswer {},
    /// Somebody other than the account's owner tried to answer.
    OnlyAccountOwnerCanAnswer {},
    /// The question to answer is not among the open ones.
    QuestionNotFoundInUnansweredQuestions { question_id: u64 },
    /// Less was paid than a question costs.
    InsufficientFunds { required: u128, paid: u128 },
    /// No question has the number asked for.
    QuestionNotFound {},
    /// The cost of a question does not fit in 128 bits, or the numbers for
    /// questions have run out.
    Overflow {},
}

/// What a `QAAppError` stands for.
pub enum QAAppErrorView {
    Payment(PaymentErrorView),
    AccountOwnerMustBeSetToAnswer,
    OnlyAccountOwnerCanAnswer,
    QuestionNotFoundInUnansweredQuestions { question_id: u64 },
    InsufficientFunds { required: nat, paid: nat },
    QuestionNotFound,
    Overflow,
}

impl View for QAAppError {
    type V = QAAppErrorView;

    open spec fn view(&self) -> QAAppErrorView {
        match self {
            QAAppError::Payment(e) => QAAppErrorView::Payment(e@),
            QAAppError::AccountOwnerMustBeSetToAnswer {  } =>
                QAAppErrorView::AccountOwnerMustBeSetToAnswer,
            QAAppError::OnlyAccountOwnerCanAnswer {  } => QAAppErrorView::OnlyAccountOwnerCanAnswer,
            QAAppError::QuestionNotFoundInUnansweredQuestions { question_id } =>
                QAAppErrorView::QuestionNotFoundInUnansweredQuestions { question_id: *question_id },
            QAAppError::InsufficientFunds { required, paid } => QAAppErrorView::InsufficientFunds {
                required: *required as nat,
                paid: *paid as nat,
            },
            QAAppError::QuestionNotFound {  } => QAAppErrorView::QuestionNotFound,
            QAAppError::Overflow {  } => QAAppErrorView::Overflow,
        }
    }
}

} // verus!
