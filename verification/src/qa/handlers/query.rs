//! The answers that the book of questions gives without changing.

use crate::handlers::query::{query_buy_key_cost, query_issuer, simulate_buy};
use crate::msg::{IssuerResponse, SimulateBuyKeyResponse};
use crate::paging::{page_size, DEFAULT_QUERY_LIMIT, MAX_QUERY_LIMIT};
use crate::qa::error::{QAAppError, QAAppErrorView};
use crate::qa::msg::{
    AskCostResponse, AskCostView, QAAppQueryMsg, QAAppQueryResponse, QuestionResponse,
    QuestionsResponse, StatsResponse,
};
use crate::qa::state::{numbers_page, question_in, QuestionBook, QuestionBookView, QuestionView};
use crate::state::{Ledger, LedgerView};
use vstd::prelude::*;

verus! {

/// What a question costs where the issuer's market answers `answerer` and
/// one key costs `cost` to buy: the buyer's whole cost, in the market's
/// denomination, owed to the market's fee collector.
pub open spec fn ask_cost_from(answerer: IssuerResponse, cost: SimulateBuyKeyResponse)
    -> AskCostView {
    AskCostView {
        fee_denom: answerer.fee_denom@,
        cost: cost.total_cost as nat,
        ask_fee_collector: answerer.issuer_fee_collector@,
    }
}

/// What a question costs on a market: what one key costs to buy there, in
/// the market's denomination, owed to the market's fee collector.
pub open spec fn ask_cost(market: LedgerView) -> Result<AskCostView, QAAppErrorView> {
    match simulate_buy(market.supply, 1) {
        Ok(cost) => Ok(
            AskCostView {
                fee_denom: market.config.fee_denom,
                cost: cost.total_cost as nat,
                ask_fee_collector: market.config.issuer_fee_collector,
            },
        ),
        Err(_) => Err(QAAppErrorView::Overflow),
    }
}

/// The question that the book holds under `id`: an open one first, else an
/// answered one.
pub open spec fn question_of(book: QuestionBookView, id: u64) -> Option<QuestionView> {
    match question_in(book.unanswered, id) {
        Some(question) => Some(question),
        None => question_in(book.answered, id),
    }
}

/// How many questions were asked so far.
pub fn query_stats(book: &QuestionBook) -> (response: StatsResponse)
    ensures
        response.total_question_count == book@.next_question_id,
{
    StatsResponse { total_question_count: book.load_next_question_id() }
}

/// What asking a question costs now.
pub fn query_ask_cost(market: &Ledger) -> (response: Result<AskCostResponse, QAAppError>)
    ensures
        match response {
            Ok(cost) => ask_cost(market@) == Ok::<AskCostView, QAAppErrorView>(cost@),
            Err(e) => ask_cost(market@) == Err::<AskCostView, QAAppErrorView>(e@),
        },
{
    let answerer = query_issuer(market);
    match query_buy_key_cost(market, 1) {
        Ok(cost) => Ok(ask_cost_response(answerer, cost)),
        Err(_) => Err(QAAppError::Overflow {  }),
    }
}

/// What asking a question costs, from what the issuer's market answers: who
/// the issuer is, and what one key costs to buy.
pub fn ask_cost_response(answerer: IssuerResponse, cost: SimulateBuyKeyResponse) -> (response:
    AskCostResponse)
    ensures
        response@ == ask_cost_from(answerer, cost),
{
    AskCostResponse {
        fee_denom: answerer.fee_denom,
        cost: cost.total_cost,
        ask_fee_collector: answerer.issuer_fee_collector,
    }
}

/// The page size that a request gets, as a count in memory.
fn page_limit(limit: Option<u32>) -> (size: usize)
    ensures
        size == page_size(limit),
{
    let asked: u32 = match limit {
        Some(n) => n,
        None => DEFAULT_QUERY_LIMIT,
    };
    if asked <= MAX_QUERY_LIMIT {
        asked as usize
    } else {
        MAX_QUERY_LIMIT as usize
    }
}

/// One page of the numbers of the answered questions, in ascending order.
pub fn query_answered_questions(
    book: &QuestionBook,
    limit: Option<u32>,
    start_after: Option<u64>,
) -> (response: QuestionsResponse)
    ensures
        response.question_ids@ == numbers_page(book@.answered, start_after, page_size(limit)),
{
    QuestionsResponse { question_ids: book.range_answered(start_after, page_limit(limit)) }
}

/// One page of the numbers of the open questions, in ascending order.
pub fn query_unanswered_questions(
    book: &QuestionBook,
    limit: Option<u32>,
    start_after: Option<u64>,
) -> (response: QuestionsResponse)
    ensures
        response.question_ids@ == numbers_page(book@.unanswered, start_after, page_size(limit)),
{
    QuestionsResponse { question_ids: book.range_unanswered(start_after, page_limit(limit)) }
}

/// The question with the number `question_id`, open or answered.
pub fn query_question(book: &QuestionBook, question_id: u64) -> (response: Result<
    QuestionResponse,
    QAAppError,
>)
    requires
        book@.well_formed(),
    ensures
        match response {
            Ok(found) => question_of(book@, question_id) == Some(found.question@),
            Err(e) => question_of(book@, question_id) is None && e@
                == QAAppErrorView::QuestionNotFound,
        },
{
    match book.may_load_unanswered(question_id) {
        Some(question) => Ok(QuestionResponse { question }),
        None => match book.may_load_answered(question_id) {
            Some(question) => Ok(QuestionResponse { question }),
            None => Err(QAAppError::QuestionNotFound {  }),
        },
    }
}

/// Whether `response` answers `msg` on `book` and `market`: it is the
/// answer of the query that the message names.
pub open spec fn answers(
    book: &QuestionBook,
    market: &Ledger,
    msg: QAAppQueryMsg,
    response: Result<QAAppQueryResponse, QAAppError>,
) -> bool {
    match msg {
        QAAppQueryMsg::Stats {  } => {
            &&& response matches Ok(QAAppQueryResponse::Stats(stats))
            &&& stats.total_question_count == book@.next_question_id
        },
        QAAppQueryMsg::AskCost {  } => match ask_cost(market@) {
            Ok(view) => {
                &&& response matches Ok(QAAppQueryResponse::AskCost(cost))
                &&& cost@ == view
            },
            Err(e) => response is Err && response->Err_0@ == e,
        },
        QAAppQueryMsg::AnsweredQuestions { limit, start_after } => {
            &&& response matches Ok(QAAppQueryResponse::AnsweredQuestions(page))
            &&& page.question_ids@ == numbers_page(book@.answered, start_after, page_size(limit))
        },
        QAAppQueryMsg::UnansweredQuestions { limit, start_after } => {
            &&& response matches Ok(QAAppQueryResponse::UnansweredQuestions(page))
            &&& page.question_ids@ == numbers_page(
                book@.unanswered,
                start_after,
                page_size(limit),
            )
        },
        QAAppQueryMsg::Question { id } => match question_of(book@, id) {
            Some(view) => {
                &&& response matches Ok(QAAppQueryResponse::Question(found))
                &&& found.question@ == view
            },
            None => response is Err && response->Err_0@ == QAAppErrorView::QuestionNotFound,
        },
    }
}

/// Answers a query. Neither the book nor the market changes.
pub fn query_handler(book: &QuestionBook, market: &Ledger, msg: QAAppQueryMsg) -> (response: Result<
    QAAppQueryResponse,
    QAAppError,
>)
    requires
        book@.well_formed(),
    ensures
        answers(book, market, msg, response),
{
    match msg {
        QAAppQueryMsg::Stats {  } => Ok(QAAppQueryResponse::Stats(query_stats(book))),
        QAAppQueryMsg::AskCost {  } => match query_ask_cost(market) {
            Ok(cost) => Ok(QAAppQueryResponse::AskCost(cost)),
            Err(e) => Err(e),
        },
        QAAppQueryMsg::AnsweredQuestions { limit, start_after } => Ok(
            QAAppQueryResponse::AnsweredQuestions(
                query_answered_questions(book, limit, start_after),
            ),
        ),
        QAAppQueryMsg::UnansweredQuestions { limit, start_after } => Ok(
            QAAppQueryResponse::UnansweredQuestions(
                query_unanswered_questions(book, limit, start_after),
            ),
        ),
        QAAppQueryMsg::Question { id } => match query_question(book, id) {
            Ok(found) => Ok(QAAppQueryResponse::Question(found)),
            Err(e) => Err(e),
        },
    }
}

} // verus!
