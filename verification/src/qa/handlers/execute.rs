//! Asking and answering.
//!
//! A message is checked in full before the book is touched, so a message
//! that is turned down leaves no trace.

use crate::msg::{BankSend, BankSendView};
use crate::payment::{
    must_pay, nonpayable, payment_of, Coin, CoinView, MessageInfo, MessageInfoView,
    PaymentErrorView,
};
use crate::qa::error::{QAAppError, QAAppErrorView};
use crate::qa::handlers::query::{ask_cost, query_ask_cost};
use crate::qa::msg::{
    AskCostResponse, AskCostView, QAAppExecuteMsg, QAEvent, QAEventView, QAResponse,
    QAResponseView,
};
use crate::qa::state::{
    is_numbered, question_in, Question, QuestionBook, QuestionBookView, QuestionView,
};
use crate::qa::utils::{answerer_of, get_account_owner_addr};
use crate::state::{Ledger, LedgerView};
use crate::utils::owner_view;
use vstd::prelude::*;

verus! {

/// Whether a question is taken at the cost `cost`. The checks come in this
/// order: the payment is one coin of the denomination of the cost; it covers
/// the cost; a number is left for the question.
pub open spec fn ask_verdict_at(book: QuestionBookView, cost: AskCostView, info: MessageInfoView)
    -> Result<AskCostView, QAAppErrorView> {
    match payment_of(info.funds, cost.fee_denom) {
        Err(e) => Err(QAAppErrorView::Payment(e)),
        Ok(paid) => if cost.cost > paid {
            Err(QAAppErrorView::InsufficientFunds { required: cost.cost, paid })
        } else if book.next_question_id == u64::MAX {
            Err(QAAppErrorView::Overflow)
        } else {
            Ok(cost)
        },
    }
}

/// A question as it is entered: open, and without an answer.
pub open spec fn open_question(id: u64, asker: Seq<char>, content: Seq<char>) -> QuestionView {
    QuestionView { id, asker, question_content: content, answered: false, answer_content: None }
}

/// A question as it stands once `content` has answered it.
pub open spec fn answered_question(question: QuestionView, content: Seq<char>) -> QuestionView {
    QuestionView {
        id: question.id,
        asker: question.asker,
        question_content: question.question_content,
        answered: true,
        answer_content: Some(content),
    }
}

/// What asking asks of its surroundings: the cost goes to the fee collector.
pub open spec fn ask_response(id: u64, asker: Seq<char>, content: Seq<char>, cost: AskCostView)
    -> QAResponseView {
    QAResponseView {
        messages: seq![
            BankSendView {
                to_address: cost.ask_fee_collector,
                amount: CoinView { denom: cost.fee_denom, amount: cost.cost },
            },
        ],
        event: QAEventView::Ask {
            asker,
            question_id: id,
            question_content: content,
            cost: cost.cost,
            fee_denom: cost.fee_denom,
            ask_fee_collector: cost.ask_fee_collector,
        },
    }
}

/// What answering asks of its surroundings: no transfer, and a fact.
pub open spec fn answer_response(question: QuestionView, content: Seq<char>) -> QAResponseView {
    QAResponseView {
        messages: Seq::<BankSendView>::empty(),
        event: QAEventView::Answer {
            asker: question.asker,
            question_id: question.id,
            answer_content: content,
        },
    }
}

/// What a question with the text `content` from the sender of `info` makes
/// of the book `before`: turned down, it leaves the book as it was; else the
/// question is open under the next number, and the book moves on by one.
pub open spec fn asked(
    before: QuestionBookView,
    market: LedgerView,
    info: MessageInfoView,
    content: Seq<char>,
    after: QuestionBookView,
    outcome: Result<QAResponse, QAAppError>,
) -> bool {
    match ask_cost(market) {
        Err(e) => outcome is Err && outcome->Err_0@ == e && after == before,
        Ok(cost) => asked_at(before, cost, info, content, after, outcome),
    }
}

/// What a question at the cost `cost` makes of the book `before`: turned
/// down, it leaves the book as it was; else the question is open under the
/// next number, and the book moves on by one.
pub open spec fn asked_at(
    before: QuestionBookView,
    cost: AskCostView,
    info: MessageInfoView,
    content: Seq<char>,
    after: QuestionBookView,
    outcome: Result<QAResponse, QAAppError>,
) -> bool {
    let id = before.next_question_id;
    match ask_verdict_at(before, cost, info) {
        Err(e) => outcome is Err && outcome->Err_0@ == e && after == before,
        Ok(cost) => {
            &&& outcome is Ok
            &&& outcome->Ok_0@ == ask_response(id, info.sender, content, cost)
            &&& after.next_question_id == id + 1
            &&& after.answered == before.answered
            &&& forall|other: u64|
                #[trigger] question_in(after.unanswered, other) == (if other == id {
                    Some(open_question(id, info.sender, content))
                } else {
                    question_in(before.unanswered, other)
                })
        },
    }
}

/// Whether an answer is taken, and for which question. The checks come in
/// this order: no funds came with the message; the account has an owner; the
/// sender is that owner; the question is open.
pub open spec fn answer_verdict(
    book: QuestionBookView,
    account_owner: Option<Seq<char>>,
    info: MessageInfoView,
    question_id: u64,
) -> Result<QuestionView, QAAppErrorView> {
    if info.funds.len() > 0 {
        Err(QAAppErrorView::Payment(PaymentErrorView::NonPayable))
    } else {
        match answerer_of(account_owner) {
            Err(e) => Err(e),
            Ok(owner) => if info.sender != owner {
                Err(QAAppErrorView::OnlyAccountOwnerCanAnswer)
            } else {
                match question_in(book.unanswered, question_id) {
                    None => Err(
                        QAAppErrorView::QuestionNotFoundInUnansweredQuestions { question_id },
                    ),
                    Some(question) => Ok(question),
                }
            },
        }
    }
}

/// What an answer with the text `content` to the question `question_id`
/// makes of the book `before`: turned down, it leaves the book as it was;
/// else the question leaves the open ones and stands, with its answer, among
/// the answered ones.
pub open spec fn answered(
    before: QuestionBookView,
    account_owner: Option<Seq<char>>,
    info: MessageInfoView,
    question_id: u64,
    content: Seq<char>,
    after: QuestionBookView,
    outcome: Result<QAResponse, QAAppError>,
) -> bool {
    match answer_verdict(before, account_owner, info, question_id) {
        Err(e) => outcome is Err && outcome->Err_0@ == e && after == before,
        Ok(question) => {
            &&& outcome is Ok
            &&& outcome->Ok_0@ == answer_response(question, content)
            &&& after.next_question_id == before.next_question_id
            &&& forall|other: u64|
                #[trigger] question_in(after.unanswered, other) == (if other == question.id {
                    None
                } else {
                    question_in(before.unanswered, other)
                })
            &&& forall|other: u64|
                #[trigger] question_in(after.answered, other) == (if other == question.id {
                    Some(answered_question(question, content))
                } else {
                    question_in(before.answered, other)
                })
        },
    }
}

/// Puts a question to the account's owner, for the price of one key on
/// `market`, which the sender of `info` pays with the funds of `info`.
pub fn ask(book: &mut QuestionBook, market: &Ledger, info: &MessageInfo, content: String) -> (outcome:
    Result<QAResponse, QAAppError>)
    requires
        old(book)@.well_formed(),
    ensures
        final(book)@.well_formed(),
        asked(old(book)@, market@, info@, content@, final(book)@, outcome),
{
    match query_ask_cost(market) {
        Ok(cost_resp) => ask_at(book, info, content, cost_resp),
        Err(e) => Err(e),
    }
}

/// Puts a question to the account's owner at the cost `cost_resp`, which
/// the sender of `info` pays with the funds of `info`.
pub fn ask_at(
    book: &mut QuestionBook,
    info: &MessageInfo,
    content: String,
    cost_resp: AskCostResponse,
) -> (outcome: Result<QAResponse, QAAppError>)
    requires
        old(book)@.well_formed(),
    ensures
        final(book)@.well_formed(),
        asked_at(old(book)@, cost_resp@, info@, content@, final(book)@, outcome),
{
    let paid: u128 = match must_pay(info, cost_resp.fee_denom.as_str()) {
        Ok(paid) => paid,
        Err(e) => {
            return Err(QAAppError::Payment(e));
        },
    };
    if cost_resp.cost > paid {
        return Err(QAAppError::InsufficientFunds { required: cost_resp.cost, paid });
    }
    let next_question_id: u64 = book.load_next_question_id();
    if next_question_id == u64::MAX {
        return Err(QAAppError::Overflow {  });
    }
    book.enter(
        Question {
            id: next_question_id,
            asker: info.sender.clone(),
            question_content: content.clone(),
            answered: false,
            answer_content: None,
        },
    );
    let mut messages: Vec<BankSend> = Vec::new();
    messages.push(
        BankSend {
            to_address: cost_resp.ask_fee_collector.clone(),
            amount: Coin { denom: cost_resp.fee_denom.clone(), amount: cost_resp.cost },
        },
    );
    let response = QAResponse {
        messages,
        event: QAEvent::Ask {
            asker: info.sender.clone(),
            question_id: next_question_id,
            question_content: content,
            cost: cost_resp.cost,
            fee_denom: cost_resp.fee_denom,
            ask_fee_collector: cost_resp.ask_fee_collector,
        },
    };
    proof {
        assert(response@.messages =~= ask_response(
            next_question_id,
            info@.sender,
            content@,
            cost_resp@,
        ).messages);
    }
    Ok(response)
}

/// Answers the open question `question_id`. Only the owner of the account,
/// `account_owner`, may do so, and no funds may come with the message.
pub fn answer(
    book: &mut QuestionBook,
    info: &MessageInfo,
    question_id: u64,
    content: String,
    account_owner: Option<String>,
) -> (outcome: Result<QAResponse, QAAppError>)
    requires
        old(book)@.well_formed(),
    ensures
        final(book)@.well_formed(),
        answered(
            old(book)@,
            owner_view(account_owner),
            info@,
            question_id,
            content@,
            final(book)@,
            outcome,
        ),
{
    match nonpayable(info) {
        Ok(_) => {},
        Err(e) => {
            return Err(QAAppError::Payment(e));
        },
    }
    let owner: String = match get_account_owner_addr(account_owner) {
        Ok(owner) => owner,
        Err(e) => {
            return Err(e);
        },
    };
    if info.sender != owner {
        return Err(QAAppError::OnlyAccountOwnerCanAnswer {  });
    }
    let question: Question = match book.may_load_unanswered(question_id) {
        Some(question) => question,
        None => {
            return Err(QAAppError::QuestionNotFoundInUnansweredQuestions { question_id });
        },
    };
    let ghost found = question@;
    proof {
        assert(is_numbered(book@.unanswered, question.id));
    }
    let response = QAResponse {
        messages: Vec::new(),
        event: QAEvent::Answer {
            asker: question.asker.clone(),
            question_id,
            answer_content: content.clone(),
        },
    };
    book.settle(
        Question {
            id: question.id,
            asker: question.asker,
            question_content: question.question_content,
            answered: true,
            answer_content: Some(content),
        },
    );
    proof {
        assert(response@.messages =~= answer_response(found, content@).messages);
    }
    Ok(response)
}

/// Carries out a message: a question or an answer, as it says.
pub fn execute_handler(
    book: &mut QuestionBook,
    market: &Ledger,
    info: &MessageInfo,
    account_owner: Option<String>,
    msg: QAAppExecuteMsg,
) -> (outcome: Result<QAResponse, QAAppError>)
    requires
        old(book)@.well_formed(),
    ensures
        final(book)@.well_formed(),
        match msg {
            QAAppExecuteMsg::Ask { content } => asked(
                old(book)@,
                market@,
                info@,
                content@,
                final(book)@,
                outcome,
            ),
            QAAppExecuteMsg::Answer { question_id, content } => answered(
                old(book)@,
                owner_view(account_owner),
                info@,
                question_id,
                content@,
                final(book)@,
                outcome,
            ),
        },
{
    match msg {
        QAAppExecuteMsg::Ask { content } => ask(book, market, info, content),
        QAAppExecuteMsg::Answer { question_id, content } => answer(
            book,
            info,
            question_id,
            content,
            account_owner,
        ),
    }
}

} // verus!
