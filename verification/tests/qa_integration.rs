use friend_tech_app::handlers::instantiate::instantiate_handler as instantiate_market;
use friend_tech_app::msg::{BankSend, FriendTechAppInstantiateMsg};
use friend_tech_app::payment::{Coin, MessageInfo};
use friend_tech_app::qa::error::QAAppError;
use friend_tech_app::qa::handlers::execute::{answer, ask};
use friend_tech_app::qa::handlers::instantiate::instantiate_handler;
use friend_tech_app::qa::handlers::query::{
    query_answered_questions, query_ask_cost, query_question, query_stats,
    query_unanswered_questions,
};
use friend_tech_app::qa::msg::{
    QAAppInstantiateMsg, QAResponse, QuestionResponse, QuestionsResponse, StatsResponse,
};
use friend_tech_app::qa::state::{Question, QuestionBook};
use friend_tech_app::state::Ledger;

const DENOM: &str = "ucosm";

const OWNER: &str = "mock1owner";

const USER1: &str = "user1";

const APP: &str = "app";

struct Bank {
    balances: Vec<(String, u128)>,
}

impl Bank {
    fn new() -> Bank {
        Bank { balances: Vec::new() }
    }

    fn query_balance(&self, address: &str) -> u128 {
        self.balances.iter().find(|(a, _)| a == address).map(|(_, b)| *b).unwrap_or(0)
    }

    fn set_balance(&mut self, address: &str, amount: u128) {
        self.balances.retain(|(a, _)| a != address);
        self.balances.push((address.to_string(), amount));
    }

    fn transfer(&mut self, from: &str, to: &str, amount: u128) {
        let left = self.query_balance(from).checked_sub(amount).unwrap();
        self.set_balance(from, left);
        let more = self.query_balance(to) + amount;
        self.set_balance(to, more);
    }

    fn settle(&mut self, info: &MessageInfo, response: &QAResponse) {
        for coin in &info.funds {
            self.transfer(&info.sender, APP, coin.amount);
        }
        for BankSend { to_address, amount } in &response.messages {
            self.transfer(APP, to_address, amount.amount);
        }
    }
}

fn coins(amount: u128, denom: &str) -> Vec<Coin> {
    vec![Coin { denom: denom.to_string(), amount }]
}

fn call_as(sender: &str, funds: Vec<Coin>) -> MessageInfo {
    MessageInfo { sender: sender.to_string(), funds }
}

/// A book of questions beside the market that prices them; the account's
/// owner issues the keys and collects the fees.
fn setup() -> (QuestionBook, Ledger) {
    let market = instantiate_market(
        Some(OWNER.to_string()),
        FriendTechAppInstantiateMsg {
            username: "test".to_string(),
            fee_denom: DENOM.to_string(),
            issuer_fee_collector: OWNER.to_string(),
        },
    )
    .unwrap();
    let book = instantiate_handler(Some(OWNER.to_string()), QAAppInstantiateMsg {}).unwrap();
    (book, market)
}

#[test]
fn integration_successful_install() {
    let (app, _market) = setup();

    let stats = query_stats(&app);
    assert_eq!(stats, StatsResponse { total_question_count: 0 });
}

#[test]
fn failed_ask() {
    let (mut app, market) = setup();

    let ask_cost_resp = query_ask_cost(&market).unwrap();

    let err: QAAppError = ask(
        &mut app,
        &market,
        &call_as(USER1, coins(1, &ask_cost_resp.fee_denom)),
        "this is a question".to_string(),
    )
    .unwrap_err();
    assert_eq!(
        err,
        QAAppError::InsufficientFunds { required: ask_cost_resp.cost, paid: 1 }
    );
}

#[test]
fn successful_ask() {
    let (mut app, market) = setup();
    let mut bank = Bank::new();

    let ask_cost_resp = query_ask_cost(&market).unwrap();

    bank.set_balance(USER1, ask_cost_resp.cost);

    let info = call_as(USER1, coins(ask_cost_resp.cost, &ask_cost_resp.fee_denom));
    let response = ask(&mut app, &market, &info, "this is a question".to_string()).unwrap();
    bank.settle(&info, &response);

    assert_eq!(bank.query_balance(USER1), 0);
    assert_eq!(ask_cost_resp.ask_fee_collector, OWNER);
    assert_eq!(bank.query_balance(&ask_cost_resp.ask_fee_collector), ask_cost_resp.cost);

    let stats = query_stats(&app);
    assert_eq!(stats, StatsResponse { total_question_count: 1 });

    let unanswered_questions = query_unanswered_questions(&app, None, None);
    assert_eq!(unanswered_questions, QuestionsResponse { question_ids: vec![0] });

    let question = query_question(&app, unanswered_questions.question_ids[0]).unwrap();
    assert_eq!(
        question,
        QuestionResponse {
            question: Question {
                id: 0,
                asker: USER1.to_string(),
                question_content: "this is a question".to_string(),
                answered: false,
                answer_content: None
            }
        }
    );
}

#[test]
fn failed_answer_not_answerer() {
    let (mut app, _market) = setup();

    let err: QAAppError = answer(
        &mut app,
        &call_as(USER1, vec![]),
        0,
        "this is an answer".to_string(),
        Some(OWNER.to_string()),
    )
    .unwrap_err();
    assert_eq!(err, QAAppError::OnlyAccountOwnerCanAnswer {});
}

#[test]
fn failed_answer_question_not_exist() {
    let (mut app, _market) = setup();

    let err: QAAppError = answer(
        &mut app,
        &call_as(OWNER, vec![]),
        0,
        "this is an answer".to_string(),
        Some(OWNER.to_string()),
    )
    .unwrap_err();
    assert_eq!(err, QAAppError::QuestionNotFoundInUnansweredQuestions { question_id: 0 });
}

#[test]
fn successful_answer() {
    let (mut app, market) = setup();

    let ask_cost_resp = query_ask_cost(&market).unwrap();

    let info = call_as(USER1, coins(ask_cost_resp.cost, &ask_cost_resp.fee_denom));
    ask(&mut app, &market, &info, "this is a question".to_string()).unwrap();

    answer(
        &mut app,
        &call_as(OWNER, vec![]),
        0,
        "this is an answer".to_string(),
        Some(OWNER.to_string()),
    )
    .unwrap();

    let unanswered_questions = query_unanswered_questions(&app, None, None);
    assert_eq!(unanswered_questions, QuestionsResponse { question_ids: vec![] });

    let answered_questions = query_answered_questions(&app, None, None);
    assert_eq!(answered_questions, QuestionsResponse { question_ids: vec![0] });

    let question = query_question(&app, answered_questions.question_ids[0]).unwrap();
    assert_eq!(
        question,
        QuestionResponse {
            question: Question {
                id: 0,
                asker: USER1.to_string(),
                question_content: "this is a question".to_string(),
                answered: true,
                answer_content: Some("this is an answer".to_string())
            }
        }
    );
}
