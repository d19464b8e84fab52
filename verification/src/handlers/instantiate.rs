//! Setting a market up.

use crate::error::{FriendTechAppError, FriendTechAppErrorView};
use crate::msg::FriendTechAppInstantiateMsg;
use crate::state::{first_listing, Config, ConfigView, Ledger};
use crate::utils::get_issuer_addr;
use vstd::prelude::*;

verus! {

/// The configuration that a set-up message asks for.
pub open spec fn config_of(msg: FriendTechAppInstantiateMsg) -> ConfigView {
    ConfigView {
        username: msg.username@,
        fee_denom: msg.fee_denom@,
        issuer_fee_collector: msg.issuer_fee_collector@,
    }
}

/// Sets a market up for the account whose owner is `account_owner`: the
/// owner is the issuer and holds the first key, which is the whole supply.
/// An account without an owner gets no market.
pub fn instantiate_handler(account_owner: Option<String>, msg: FriendTechAppInstantiateMsg) -> (made:
    Result<Ledger, FriendTechAppError>)
    ensures
        match made {
            Ok(ledger) => {
                &&& account_owner is Some
                &&& ledger@.config == config_of(msg)
                &&& ledger@.supply == 1
                &&& ledger@.holders == first_listing(account_owner->Some_0@)
                &&& ledger@.well_formed()
            },
            Err(e) => account_owner is None && e@
                == FriendTechAppErrorView::AccountOwnerMustBeSetToIssueKey,
        },
{
    let account_owner_addr: String = match get_issuer_addr(account_owner) {
        Ok(address) => address,
        Err(e) => {
            return Err(e);
        },
    };
    let config = Config {
        username: msg.username,
        fee_denom: msg.fee_denom,
        issuer_fee_collector: msg.issuer_fee_collector,
    };
    Ok(Ledger::new(config, account_owner_addr))
}

} // verus!
