//! The messages about questions and the answers to them.

use crate::msg::{BankSend, BankSendView};
use crate::qa::state::Question;
use vstd::prelude::*;

verus! {

/// Opens a book of questions. It carries nothing.
#[derive(Clone, Copy, Debug, PartialEq, Eq)]
pub struct QAAppInstantiateMsg {}

/// Asking and answering.
#[derive(Clone, Debug, PartialEq, Eq)]
pub enum QAAppExecuteMsg {
    /// Anyone may ask the account's owner a question, for a fee.
    Ask { content: String },
    /// The account's owner alone may answer.
    Answer { question_id: u64, content: String },
}

/// Moves a book of questions to a later version. It carries nothing.
#[derive(Clone, Copy, Debug, PartialEq, Eq)]
pub struct QAAppMigrateMsg {}

/// The questions about questions.
#[derive(Clone, Copy, Debug, PartialEq, Eq)]
pub enum QAAppQueryMsg {
    Stats {},
    AskCost {},
    AnsweredQuestions { limit: Option<u32>, start_after: Option<u64> },
    UnansweredQuestions { limit: Option<u32>, start_after: Option<u64> },
    Question { id: u64 },
}

/// How many questions were asked so far.
#[derive(Clone, Copy, Debug, PartialEq, Eq)]
pub struct StatsResponse {
    pub total_question_count: u64,
}

/// What asking a question costs, and who receives it.
#[derive(Clone, Debug, PartialEq, Eq)]
pub struct AskCostResponse {
    pub fee_denom: String,
    pub cost: u128,
    pub ask_fee_collector: String,
}

/// One page of question numbers, in ascending order.
#[derive(Clone, Debug, PartialEq, Eq)]
pub struct QuestionsResponse {
    pub question_ids: Vec<u64>,
}

/// One question.
#[derive(Clone, Debug, PartialEq, Eq)]
pub struct QuestionResponse {
    pub question: Question,
}


/// What an `AskCostResponse` stands for.
pub struct AskCostView {
    pub fee_denom: Seq<char>,
    pub cost: nat,
    pub ask_fee_collector: Seq<char>,
}

impl View for AskCostResponse {
    type V = AskCostView;

    open spec fn view(&self) -> AskCostView {
        AskCostView {
            fee_denom: self.fee_denom@,
            cost: self.cost as nat,
            ask_fee_collector: self.ask_fee_collector@,
        }
    }
}

/// The answer to a query, one kind for each kind of question.
#[derive(Clone, Debug, PartialEq, Eq)]
pub enum QAAppQueryResponse {
    Stats(StatsResponse),
    AskCost(AskCostResponse),
    AnsweredQuestions(QuestionsResponse),
    UnansweredQuestions(QuestionsResponse),
    Question(QuestionResponse),
}

/// The fact that asking or answering records.
#[derive(Clone, Debug, PartialEq, Eq)]
pub enum QAEvent {
    Ask {
        asker: String,
        question_id: u64,
        question_content: String,
        cost: u128,
        fee_denom: String,
        ask_fee_collector: String,
    },
    Answer { asker: String, question_id: u64, answer_content: String },
}

/// What a `QAEvent` stands for.
pub enum QAEventView {
    Ask {
        asker: Seq<char>,
        question_id: u64,
        question_content: Seq<char>,
        cost: nat,
        fee_denom: Seq<char>,
        ask_fee_collector: Seq<char>,
    },
    Answer { asker: Seq<char>, question_id: u64, answer_content: Seq<char> },
}

impl View for QAEvent {
    type V = QAEventView;

    open spec fn view(&self) -> QAEventView {
        match self {
            QAEvent::Ask {
                asker,
                question_id,
                question_content,
                cost,
                fee_denom,
                ask_fee_collector,
            } => QAEventView::Ask {
                asker: asker@,
                question_id: *question_id,
                question_content: question_content@,
                cost: *cost as nat,
                fee_denom: fee_denom@,
                ask_fee_collector: ask_fee_collector@,
            },
            QAEvent::Answer { asker, question_id, answer_content } => QAEventView::Answer {
                asker: asker@,
                question_id: *question_id,
                answer_content: answer_content@,
            },
        }
    }
}

/// What asking or answering asks of its surroundings: the transfers to
/// make, in order, and the fact to record.
#[derive(Clone, Debug, PartialEq, Eq)]
pub struct QAResponse {
    pub messages: Vec<BankSend>,
    pub event: QAEvent,
}

/// What a `QAResponse` stands for.
pub struct QAResponseView {
    pub messages: Seq<BankSendView>,
    pub event: QAEventView,
}

impl View for QAResponse {
    type V = QAResponseView;

    open spec fn view(&self) -> QAResponseView {
        QAResponseView {
            messages: self.messages@.map_values(|m: BankSend| m@),
            event: self.event@,
        }
    }
}

} // verus!
