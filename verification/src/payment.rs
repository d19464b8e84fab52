//! Payments attached to a message, and the rule that a trade is paid in one
//! coin of the market's denomination.

use vstd::prelude::*;

verus! {

/// An amount of one denomination.
#[derive(Clone, Debug, PartialEq, Eq)]
pub struct Coin {
    pub denom: String,
    pub amount: u128,
}

/// What a `Coin` stands for.
pub struct CoinView {
    pub denom: Seq<char>,
    pub amount: nat,
}

impl View for Coin {
    type V = CoinView;

    open spec fn view(&self) -> CoinView {
        CoinView { denom: self.denom@, amount: self.amount as nat }
    }
}

/// Who sent a message, and the funds that came with it.
#[derive(Clone, Debug, PartialEq, Eq)]
pub struct MessageInfo {
    pub sender: String,
    pub funds: Vec<Coin>,
}

/// What a `MessageInfo` stands for.
pub struct MessageInfoView {
    pub sender: Seq<char>,
    pub funds: Seq<CoinView>,
}

impl View for MessageInfo {
    type V = MessageInfoView;

    open spec fn view(&self) -> MessageInfoView {
        MessageInfoView { sender: self.sender@, funds: self.funds@.map_values(|c: Coin| c@) }
    }
}

/// Why the attached funds are not the payment that was asked for.
#[derive(Clone, Debug, PartialEq, Eq)]
pub enum PaymentError {
    /// The one coin sent is of another denomination than the one named.
    MissingDenom(String),
    /// A coin of a denomination other than the one named was sent.
    ExtraDenom(String),
    /// More than one coin was sent.
    MultipleDenoms,
    /// Nothing was sent, or a coin of amount zero.
    NoFunds,
    /// Funds were sent with a message that takes none.
    NonPayable,
}

/// What a `PaymentError` stands for.
pub enum PaymentErrorView {
    MissingDenom(Seq<char>),
    ExtraDenom(Seq<char>),
    MultipleDenoms,
    NoFunds,
    NonPayable,
}

impl View for PaymentError {
    type V = PaymentErrorView;

    open spec fn view(&self) -> PaymentErrorView {
        match self {
            PaymentError::MissingDenom(d) => PaymentErrorView::MissingDenom(d@),
            PaymentError::ExtraDenom(d) => PaymentErrorView::ExtraDenom(d@),
            PaymentError::MultipleDenoms => PaymentErrorView::MultipleDenoms,
            PaymentError::NoFunds => PaymentErrorView::NoFunds,
            PaymentError::NonPayable => PaymentErrorView::NonPayable,
        }
    }
}

/// The payment in `denom` that `funds` make: the amount of the one coin sent,
/// if it is of that denomination and not zero.
pub open spec fn payment_of(funds: Seq<CoinView>, denom: Seq<char>) -> Result<
    nat,
    PaymentErrorView,
> {
    if funds.len() == 0 {
        Err(PaymentErrorView::NoFunds)
    } else if funds.len() > 1 {
        Err(PaymentErrorView::MultipleDenoms)
    } else if funds[0].amount == 0 {
        Err(PaymentErrorView::NoFunds)
    } else if funds[0].denom != denom {
        Err(PaymentErrorView::MissingDenom(denom))
    } else {
        Ok(funds[0].amount)
    }
}

/// What an amount paid, or the reason why none was, stands for.
pub open spec fn payment_view(paid: Result<u128, PaymentError>) -> Result<nat, PaymentErrorView> {
    match paid {
        Ok(amount) => Ok(amount as nat),
        Err(e) => Err(e@),
    }
}

/// Calls `cw_utils::must_pay` on the funds of `info`. Believed of it, as its
/// source reads: with no coin, or one coin of amount zero, it fails with
/// `NoFunds`; with more than one coin, with `MultipleDenoms`; with one coin
/// of another denomination, with `MissingDenom` of the denomination asked
/// for; else it returns the coin's amount.
#[verifier::external_body]
pub(crate) fn must_pay(info: &MessageInfo, denom: &str) -> (paid: Result<u128, PaymentError>)
    ensures
        payment_view(paid) == payment_of(info@.funds, denom@),
{
    let funds = info.funds.iter().map(|c| cosmwasm_std::coin(c.amount, c.denom.clone())).collect();
    let sender = cosmwasm_std::Addr::unchecked(info.sender.clone());
    match cw_utils::must_pay(&cosmwasm_std::MessageInfo { sender, funds }, denom) {
        Ok(amount) => Ok(amount.u128()),
        Err(cw_utils::PaymentError::MissingDenom(d)) => Err(PaymentError::MissingDenom(d)),
        Err(cw_utils::PaymentError::ExtraDenom(d)) => Err(PaymentError::ExtraDenom(d)),
        Err(cw_utils::PaymentError::MultipleDenoms {}) => Err(PaymentError::MultipleDenoms),
        Err(cw_utils::PaymentError::NoFunds {}) => Err(PaymentError::NoFunds),
        Err(cw_utils::PaymentError::NonPayable {}) => Err(PaymentError::NonPayable),
    }
}


/// Calls `cw_utils::nonpayable` on the funds of `info`. Believed of it, as
/// its source reads: it succeeds where no coin was sent, and fails with
/// `NonPayable` where any was.
#[verifier::external_body]
pub(crate) fn nonpayable(info: &MessageInfo) -> (checked: Result<(), PaymentError>)
    ensures
        checked is Ok == (info@.funds.len() == 0),
        checked is Err ==> checked->Err_0@ == PaymentErrorView::NonPayable,
{
    let funds = info.funds.iter().map(|c| cosmwasm_std::coin(c.amount, c.denom.clone())).collect();
    let sender = cosmwasm_std::Addr::unchecked(info.sender.clone());
    match cw_utils::nonpayable(&cosmwasm_std::MessageInfo { sender, funds }) {
        Ok(()) => Ok(()),
        Err(cw_utils::PaymentError::MissingDenom(d)) => Err(PaymentError::MissingDenom(d)),
        Err(cw_utils::PaymentError::ExtraDenom(d)) => Err(PaymentError::ExtraDenom(d)),
        Err(cw_utils::PaymentError::MultipleDenoms {}) => Err(PaymentError::MultipleDenoms),
        Err(cw_utils::PaymentError::NoFunds {}) => Err(PaymentError::NoFunds),
        Err(cw_utils::PaymentError::NonPayable {}) => Err(PaymentError::NonPayable),
    }
}

} // verus!
