//! The market's ledger: its configuration, the number of keys that are out,
//! and who holds how many of them.

use crate::address::{
    address_before, lemma_address_before_asymmetric, lemma_address_before_connected,
    lemma_address_before_transitive, precedes,
};
use crate::paging::{after_cursor, cursor_view, holders_page, lines_after, addresses_of, texts};
use vstd::prelude::*;

verus! {

/// What a market is set up with. It does not change afterwards.
#[derive(Clone, Debug, PartialEq, Eq)]
pub struct Config {
    /// Display name of the issuer.
    pub username: String,
    /// Denomination in which keys are paid.
    pub fee_denom: String,
    /// Address that receives the issuer's fee.
    pub issuer_fee_collector: String,
}

/// What a `Config` stands for.
pub struct ConfigView {
    pub username: Seq<char>,
    pub fee_denom: Seq<char>,
    pub issuer_fee_collector: Seq<char>,
}

impl View for Config {
    type V = ConfigView;

    open spec fn view(&self) -> ConfigView {
        ConfigView {
            username: self.username@,
            fee_denom: self.fee_denom@,
            issuer_fee_collector: self.issuer_fee_collector@,
        }
    }
}

/// One line of the holder listing: an address and the keys it holds.
#[derive(Clone, Debug, PartialEq, Eq)]
pub struct Holder {
    pub address: String,
    pub amount: u128,
}

/// What a `Holder` stands for.
pub struct HolderView {
    pub address: Seq<char>,
    pub amount: nat,
}

impl View for Holder {
    type V = HolderView;

    open spec fn view(&self) -> HolderView {
        HolderView { address: self.address@, amount: self.amount as nat }
    }
}

/// The lines of a listing, each as what it stands for.
pub open spec fn listing_view(holders: Seq<Holder>) -> Seq<HolderView> {
    holders.map_values(|h: Holder| h@)
}

/// The addresses of a listing rise from line to line, so none occurs twice.
pub open spec fn listed_ascending(holders: Seq<HolderView>) -> bool {
    forall|i: int, j: int|
        #![trigger holders[i], holders[j]]
        0 <= i < j < holders.len() ==> address_before(holders[i].address, holders[j].address)
}

/// No line of a listing holds zero keys.
pub open spec fn listed_positive(holders: Seq<HolderView>) -> bool {
    forall|i: int| 0 <= i < holders.len() ==> (#[trigger] holders[i]).amount > 0
}

/// Line `i` of the listing is that of `address`.
pub open spec fn listed_at(holders: Seq<HolderView>, address: Seq<char>, i: int) -> bool {
    0 <= i < holders.len() && holders[i].address == address
}

/// The listing has a line for `address`.
pub open spec fn is_listed(holders: Seq<HolderView>, address: Seq<char>) -> bool {
    exists|i: int| listed_at(holders, address, i)
}

/// The keys that `address` holds: the amount on its line, zero without one.
pub open spec fn balance_in(holders: Seq<HolderView>, address: Seq<char>) -> nat {
    if is_listed(holders, address) {
        holders[choose|i: int| listed_at(holders, address, i)].amount
    } else {
        0
    }
}

/// The keys on all lines of a listing together.
pub open spec fn sum_of_balances(holders: Seq<HolderView>) -> nat
    decreases holders.len(),
{
    if holders.len() == 0 {
        0
    } else {
        sum_of_balances(holders.drop_last()) + holders.last().amount
    }
}

/// The listing of a market at its start: the issuer alone, with one key.
pub open spec fn first_listing(issuer: Seq<char>) -> Seq<HolderView> {
    seq![HolderView { address: issuer, amount: 1 }]
}

/// What a `Ledger` stands for.
pub struct LedgerView {
    pub config: ConfigView,
    /// Number of keys that are out.
    pub supply: nat,
    /// The holders, in ascending order of address.
    pub holders: Seq<HolderView>,
}

impl LedgerView {
    /// The keys that `address` holds, zero if it is no holder.
    pub open spec fn balance_of(self, address: Seq<char>) -> nat {
        balance_in(self.holders, address)
    }

    /// `address` holds at least one line of the listing.
    pub open spec fn holds(self, address: Seq<char>) -> bool {
        is_listed(self.holders, address)
    }

    /// The accounts are in order: each holder is listed once, in ascending
    /// order of address; no holder is listed with zero keys; and the supply
    /// is the sum of what the holders hold.
    pub open spec fn well_formed(self) -> bool {
        &&& listed_ascending(self.holders)
        &&& listed_positive(self.holders)
        &&& self.supply == sum_of_balances(self.holders)
    }
}

/// On an ascending listing, the balance of the address on line `i` is the
/// amount on that line.
pub proof fn lemma_balance_on_line(holders: Seq<HolderView>, i: int)
    requires
        listed_ascending(holders),
        0 <= i < holders.len(),
    ensures
        is_listed(holders, holders[i].address),
        balance_in(holders, holders[i].address) == holders[i].amount,
{
    let address = holders[i].address;
    assert(listed_at(holders, address, i));
    let k: int = choose|k: int| listed_at(holders, address, k);
    lemma_address_before_asymmetric(address, address);
    if k < i {
        assert(address_before(holders[k].address, holders[i].address));
    } else if i < k {
        assert(address_before(holders[i].address, holders[k].address));
    }
}

/// The sum over two listings put end to end is the sum of their sums.
pub proof fn lemma_sum_of_concat(a: Seq<HolderView>, b: Seq<HolderView>)
    ensures
        sum_of_balances(a + b) == sum_of_balances(a) + sum_of_balances(b),
    decreases b.len(),
{
    if b.len() == 0 {
        assert(a + b =~= a);
    } else {
        lemma_sum_of_concat(a, b.drop_last());
        assert((a + b).drop_last() =~= a + b.drop_last());
    }
}

/// A new line adds its amount to the sum.
pub proof fn lemma_sum_after_insert(holders: Seq<HolderView>, i: int, line: HolderView)
    requires
        0 <= i <= holders.len(),
    ensures
        sum_of_balances(holders.insert(i, line)) == sum_of_balances(holders) + line.amount,
{
    let front = holders.subrange(0, i);
    let back = holders.subrange(i, holders.len() as int);
    assert(holders =~= front + back);
    lemma_sum_of_concat(front, back);
    lemma_sum_of_concat(front.push(line), back);
    assert(front.push(line).drop_last() =~= front);
}

/// A line that leaves takes its amount from the sum.
pub proof fn lemma_sum_after_remove(holders: Seq<HolderView>, i: int)
    requires
        0 <= i < holders.len(),
    ensures
        sum_of_balances(holders.remove(i)) + holders[i].amount == sum_of_balances(holders),
{
    let rest = holders.remove(i);
    assert(rest.insert(i, holders[i]) =~= holders);
    lemma_sum_after_insert(rest, i, holders[i]);
}

/// A line that changes its amount changes the sum by the difference.
pub proof fn lemma_sum_after_update(holders: Seq<HolderView>, i: int, line: HolderView)
    requires
        0 <= i < holders.len(),
    ensures
        sum_of_balances(holders.update(i, line)) + holders[i].amount == sum_of_balances(holders)
            + line.amount,
{
    let rest = holders.remove(i);
    assert(rest.insert(i, line) =~= holders.update(i, line));
    lemma_sum_after_insert(rest, i, line);
    lemma_sum_after_remove(holders, i);
}

/// No holder holds more than the sum of all holdings.
pub proof fn lemma_balance_within_sum(holders: Seq<HolderView>, address: Seq<char>)
    ensures
        balance_in(holders, address) <= sum_of_balances(holders),
{
    if is_listed(holders, address) {
        let i: int = choose|i: int| listed_at(holders, address, i);
        lemma_sum_after_remove(holders, i);
    }
}


/// What a new line in its place does to an ascending listing.
pub proof fn lemma_line_inserted(holders: Seq<HolderView>, at: int, line: HolderView)
    requires
        listed_ascending(holders),
        0 <= at <= holders.len(),
        forall|j: int| 0 <= j < at ==> address_before(#[trigger] holders[j].address, line.address),
        forall|j: int|
            at <= j < holders.len() ==> address_before(
                line.address,
                #[trigger] holders[j].address,
            ),
    ensures
        listed_ascending(holders.insert(at, line)),
        !is_listed(holders, line.address),
        forall|a: Seq<char>|
            #[trigger] is_listed(holders.insert(at, line), a) == (a == line.address || is_listed(
                holders,
                a,
            )),
        forall|a: Seq<char>|
            #[trigger] balance_in(holders.insert(at, line), a) == (if a == line.address {
                line.amount
            } else {
                balance_in(holders, a)
            }),
        sum_of_balances(holders.insert(at, line)) == sum_of_balances(holders) + line.amount,
        listed_positive(holders) && line.amount > 0 ==> listed_positive(holders.insert(at, line)),
{
    let after = holders.insert(at, line);
    holders.insert_ensures(at, line);
    lemma_sum_after_insert(holders, at, line);
    lemma_address_before_asymmetric(line.address, line.address);
    assert forall|i: int, j: int| 0 <= i < j < after.len() implies address_before(
        after[i].address,
        after[j].address,
    ) by {
        if i < at && j > at {
            assert(after[j] == holders[j - 1]);
            assert(address_before(holders[i].address, holders[j - 1].address));
        } else if i < at && j < at {
            assert(address_before(holders[i].address, holders[j].address));
        } else if i > at {
            assert(after[i] == holders[i - 1]);
            assert(after[j] == holders[j - 1]);
            assert(address_before(holders[i - 1].address, holders[j - 1].address));
        } else if i == at {
            assert(after[j] == holders[j - 1]);
        }
    }
    assert forall|k: int| 0 <= k < holders.len() implies holders[k].address != line.address by {
        if k < at {
            assert(address_before(holders[k].address, line.address));
        } else {
            assert(address_before(line.address, holders[k].address));
        }
    }
    assert(!is_listed(holders, line.address)) by {
        if is_listed(holders, line.address) {
            let k: int = choose|k: int| listed_at(holders, line.address, k);
            assert(holders[k].address != line.address);
        }
    }
    assert forall|a: Seq<char>|
        #[trigger] is_listed(after, a) == (a == line.address || is_listed(holders, a)) by {
        if is_listed(after, a) {
            let k: int = choose|k: int| listed_at(after, a, k);
            if k < at {
                assert(listed_at(holders, a, k));
            } else if k > at {
                assert(after[k] == holders[k - 1]);
                assert(listed_at(holders, a, k - 1));
            }
        }
        if a == line.address {
            assert(listed_at(after, a, at));
        }
        if is_listed(holders, a) {
            let k: int = choose|k: int| listed_at(holders, a, k);
            if k < at {
                assert(listed_at(after, a, k));
            } else {
                assert(after[k + 1] == holders[k]);
                assert(listed_at(after, a, k + 1));
            }
        }
    }
    assert forall|a: Seq<char>| #[trigger]
        balance_in(after, a) == (if a == line.address {
            line.amount
        } else {
            balance_in(holders, a)
        }) by {
        if a == line.address {
            lemma_balance_on_line(after, at);
        } else if is_listed(holders, a) {
            let k: int = choose|k: int| listed_at(holders, a, k);
            lemma_balance_on_line(holders, k);
            if k < at {
                lemma_balance_on_line(after, k);
            } else {
                assert(after[k + 1] == holders[k]);
                lemma_balance_on_line(after, k + 1);
            }
        }
    }
    if listed_positive(holders) && line.amount > 0 {
        assert forall|i: int| 0 <= i < after.len() implies (#[trigger] after[i]).amount > 0 by {
            if i < at {
                assert(after[i] == holders[i]);
            } else if i > at {
                assert(after[i] == holders[i - 1]);
            }
        }
    }
}

/// What a new amount on a line does to an ascending listing.
pub proof fn lemma_line_updated(holders: Seq<HolderView>, at: int, line: HolderView)
    requires
        listed_ascending(holders),
        0 <= at < holders.len(),
        holders[at].address == line.address,
    ensures
        listed_ascending(holders.update(at, line)),
        is_listed(holders, line.address),
        balance_in(holders, line.address) == holders[at].amount,
        forall|a: Seq<char>|
            #[trigger] is_listed(holders.update(at, line), a) == is_listed(holders, a),
        forall|a: Seq<char>|
            #[trigger] balance_in(holders.update(at, line), a) == (if a == line.address {
                line.amount
            } else {
                balance_in(holders, a)
            }),
        sum_of_balances(holders.update(at, line)) + holders[at].amount == sum_of_balances(holders)
            + line.amount,
        listed_positive(holders) && line.amount > 0 ==> listed_positive(holders.update(at, line)),
{
    let after = holders.update(at, line);
    lemma_sum_after_update(holders, at, line);
    lemma_balance_on_line(holders, at);
    assert forall|i: int, j: int| 0 <= i < j < after.len() implies address_before(
        after[i].address,
        after[j].address,
    ) by {
        assert(address_before(holders[i].address, holders[j].address));
    }
    assert forall|a: Seq<char>| #[trigger] is_listed(after, a) == is_listed(holders, a) by {
        if is_listed(after, a) {
            let k: int = choose|k: int| listed_at(after, a, k);
            assert(listed_at(holders, a, k));
        }
        if is_listed(holders, a) {
            let k: int = choose|k: int| listed_at(holders, a, k);
            assert(listed_at(after, a, k));
        }
    }
    assert forall|a: Seq<char>| #[trigger]
        balance_in(after, a) == (if a == line.address {
            line.amount
        } else {
            balance_in(holders, a)
        }) by {
        if a == line.address {
            lemma_balance_on_line(after, at);
        } else if is_listed(holders, a) {
            let k: int = choose|k: int| listed_at(holders, a, k);
            lemma_balance_on_line(holders, k);
            assert(after[k] == holders[k]);
            lemma_balance_on_line(after, k);
        }
    }
    if listed_positive(holders) && line.amount > 0 {
        assert forall|i: int| 0 <= i < after.len() implies (#[trigger] after[i]).amount > 0 by {
            if i != at {
                assert(after[i] == holders[i]);
            }
        }
    }
}

/// What the loss of a line does to an ascending listing.
pub proof fn lemma_line_removed(holders: Seq<HolderView>, at: int)
    requires
        listed_ascending(holders),
        0 <= at < holders.len(),
    ensures
        listed_ascending(holders.remove(at)),
        balance_in(holders, holders[at].address) == holders[at].amount,
        forall|a: Seq<char>|
            #[trigger] is_listed(holders.remove(at), a) == (a != holders[at].address && is_listed(
                holders,
                a,
            )),
        forall|a: Seq<char>|
            #[trigger] balance_in(holders.remove(at), a) == (if a == holders[at].address {
                0
            } else {
                balance_in(holders, a)
            }),
        sum_of_balances(holders.remove(at)) + holders[at].amount == sum_of_balances(holders),
        listed_positive(holders) ==> listed_positive(holders.remove(at)),
{
    let after = holders.remove(at);
    let gone = holders[at].address;
    holders.remove_ensures(at);
    lemma_sum_after_remove(holders, at);
    lemma_balance_on_line(holders, at);
    lemma_address_before_asymmetric(gone, gone);
    assert forall|i: int, j: int| 0 <= i < j < after.len() implies address_before(
        after[i].address,
        after[j].address,
    ) by {
        let oi: int = if i < at {
            i
        } else {
            i + 1
        };
        let oj: int = if j < at {
            j
        } else {
            j + 1
        };
        assert(after[i] == holders[oi]);
        assert(after[j] == holders[oj]);
        assert(address_before(holders[oi].address, holders[oj].address));
    }
    assert forall|a: Seq<char>| #[trigger]
        is_listed(after, a) == (a != gone && is_listed(holders, a)) by {
        if is_listed(after, a) {
            let k: int = choose|k: int| listed_at(after, a, k);
            let ok: int = if k < at {
                k
            } else {
                k + 1
            };
            assert(after[k] == holders[ok]);
            assert(listed_at(holders, a, ok));
            if ok < at {
                assert(address_before(holders[ok].address, holders[at].address));
            } else {
                assert(address_before(holders[at].address, holders[ok].address));
            }
        }
        if a != gone && is_listed(holders, a) {
            let k: int = choose|k: int| listed_at(holders, a, k);
            if k < at {
                assert(after[k] == holders[k]);
                assert(listed_at(after, a, k));
            } else {
                assert(after[k - 1] == holders[k]);
                assert(listed_at(after, a, k - 1));
            }
        }
    }
    assert forall|a: Seq<char>| #[trigger]
        balance_in(after, a) == (if a == gone {
            0
        } else {
            balance_in(holders, a)
        }) by {
        if a != gone && is_listed(holders, a) {
            let k: int = choose|k: int| listed_at(holders, a, k);
            lemma_balance_on_line(holders, k);
            if k < at {
                assert(after[k] == holders[k]);
                lemma_balance_on_line(after, k);
            } else {
                assert(after[k - 1] == holders[k]);
                lemma_balance_on_line(after, k - 1);
            }
        }
    }
    if listed_positive(holders) {
        assert forall|i: int| 0 <= i < after.len() implies (#[trigger] after[i]).amount > 0 by {
            if i < at {
                assert(after[i] == holders[i]);
            } else {
                assert(after[i] == holders[i + 1]);
            }
        }
    }
}


/// The balances fix the listing: two ascending listings without empty lines
/// that give every address the same balance are the same listing.
pub proof fn lemma_listing_determined(a: Seq<HolderView>, b: Seq<HolderView>)
    requires
        listed_ascending(a),
        listed_positive(a),
        listed_ascending(b),
        listed_positive(b),
        forall|address: Seq<char>| balance_in(a, address) == balance_in(b, address),
    ensures
        a == b,
    decreases a.len(),
{
    if a.len() == 0 {
        if b.len() > 0 {
            lemma_balance_on_line(b, 0);
            assert(balance_in(a, b[0].address) == 0);
        }
        assert(a =~= b);
    } else {
        let last_a: int = a.len() - 1;
        lemma_balance_on_line(a, last_a);
        assert(balance_in(b, a[last_a].address) == a[last_a].amount);
        assert(is_listed(b, a[last_a].address));
        let k: int = choose|k: int| listed_at(b, a[last_a].address, k);
        let last_b: int = b.len() - 1;
        lemma_balance_on_line(b, last_b);
        lemma_balance_on_line(b, k);
        assert(balance_in(a, b[last_b].address) == b[last_b].amount);
        assert(is_listed(a, b[last_b].address));
        let m: int = choose|m: int| listed_at(a, b[last_b].address, m);
        if k < last_b {
            assert(address_before(b[k].address, b[last_b].address));
            if m < last_a {
                assert(address_before(a[m].address, a[last_a].address));
            }
            lemma_address_before_asymmetric(a[last_a].address, b[last_b].address);
        }
        assert(a[last_a] == b[last_b]);
        lemma_line_removed(a, last_a);
        lemma_line_removed(b, last_b);
        assert(a.remove(last_a) =~= a.drop_last());
        assert(b.remove(last_b) =~= b.drop_last());
        assert forall|address: Seq<char>|
            balance_in(a.drop_last(), address) == balance_in(b.drop_last(), address) by {
            assert(balance_in(a, address) == balance_in(b, address));
        }
        lemma_listing_determined(a.drop_last(), b.drop_last());
        assert(a =~= a.drop_last().push(a[last_a]));
        assert(b =~= b.drop_last().push(b[last_b]));
    }
}

/// The market's store: configuration, supply and holder listing. Trades are
/// the only way in which supply and listing change.
#[derive(Debug)]
pub struct Ledger {
    config: Config,
    supply: u128,
    holders: Vec<Holder>,
}

impl View for Ledger {
    type V = LedgerView;

    closed spec fn view(&self) -> LedgerView {
        LedgerView {
            config: self.config@,
            supply: self.supply as nat,
            holders: listing_view(self.holders@),
        }
    }
}

impl Ledger {
    /// A market at its start: one key is out, and the issuer holds it.
    pub fn new(config: Config, issuer: String) -> (ledger: Ledger)
        ensures
            ledger@.config == config@,
            ledger@.supply == 1,
            ledger@.holders == first_listing(issuer@),
            ledger@.well_formed(),
    {
        let mut holders: Vec<Holder> = Vec::new();
        holders.push(Holder { address: issuer, amount: 1 });
        let ledger = Ledger { config, supply: 1, holders };
        proof {
            let lines = ledger@.holders;
            assert(lines =~= first_listing(issuer@));
            assert(lines.drop_last() =~= Seq::<HolderView>::empty());
            assert(sum_of_balances(lines.drop_last()) == 0);
        }
        ledger
    }

    /// A ledger with the given configuration, supply and listing, if these
    /// accounts are in order: the addresses rise from line to line, no line
    /// holds zero keys, and the supply is the sum of the lines.
    pub fn restore(config: Config, supply: u128, holders: Vec<Holder>) -> (restored: Option<Ledger>)
        ensures
            match restored {
                Some(ledger) => {
                    &&& ledger@.config == config@
                    &&& ledger@.supply == supply
                    &&& ledger@.holders == listing_view(holders@)
                    &&& ledger@.well_formed()
                },
                None => {
                    ||| !listed_ascending(listing_view(holders@))
                    ||| !listed_positive(listing_view(holders@))
                    ||| supply != sum_of_balances(listing_view(holders@))
                },
            },
    {
        let ghost lines = listing_view(holders@);
        let mut total: u128 = 0;
        let mut i: usize = 0;
        proof {
            assert(lines.take(0) =~= Seq::<HolderView>::empty());
        }
        while i < holders.len()
            invariant
                lines == listing_view(holders@),
                i <= lines.len(),
                listed_ascending(lines.take(i as int)),
                listed_positive(lines.take(i as int)),
                total == sum_of_balances(lines.take(i as int)),
            decreases lines.len() - i,
        {
            let ghost seen = lines.take(i as int);
            let ghost next = lines.take(i + 1);
            proof {
                assert(next.drop_last() =~= seen);
                assert(next.last() == lines[i as int]);
                assert(lines =~= next + lines.skip(i + 1));
                lemma_sum_of_concat(next, lines.skip(i + 1));
            }
            if holders[i].amount == 0 {
                return None;
            }
            if i > 0 && !precedes(holders[i - 1].address.as_str(), holders[i].address.as_str()) {
                proof {
                    assert(!address_before(lines[i - 1].address, lines[i as int].address));
                }
                return None;
            }
            total = match total.checked_add(holders[i].amount) {
                Some(sum) => sum,
                None => {
                    return None;
                },
            };
            proof {
                assert forall|a: int, b: int| 0 <= a < b < next.len() implies address_before(
                    next[a].address,
                    next[b].address,
                ) by {
                    if b < i {
                        assert(address_before(seen[a].address, seen[b].address));
                    } else if a < i - 1 {
                        assert(address_before(seen[a].address, seen[i - 1].address));
                        lemma_address_before_transitive(
                            next[a].address,
                            next[i - 1].address,
                            next[b].address,
                        );
                    }
                }
                assert forall|a: int| 0 <= a < next.len() implies (#[trigger] next[a]).amount
                    > 0 by {
                    if a < i {
                        assert(seen[a].amount > 0);
                    }
                }
            }
            i += 1;
        }
        proof {
            assert(lines.take(i as int) =~= lines);
        }
        if total != supply {
            return None;
        }
        Some(Ledger { config, supply, holders })
    }

    /// The market's configuration.
    pub fn load_config(&self) -> (config: &Config)
        ensures
            config@ == self@.config,
    {
        &self.config
    }

    /// The number of keys that are out.
    pub fn load_supply(&self) -> (supply: u128)
        ensures
            supply == self@.supply,
    {
        self.supply
    }

    /// The number of holders.
    pub fn holder_count(&self) -> (count: usize)
        ensures
            count == self@.holders.len(),
    {
        self.holders.len()
    }

    /// The first line whose address does not come before `address`.
    fn position(&self, address: &String) -> (at: usize)
        requires
            listed_ascending(self@.holders),
        ensures
            at <= self@.holders.len(),
            forall|j: int|
                0 <= j < at ==> address_before(#[trigger] self@.holders[j].address, address@),
            forall|j: int|
                at <= j < self@.holders.len() ==> !address_before(
                    #[trigger] self@.holders[j].address,
                    address@,
                ),
    {
        let mut at: usize = 0;
        while at < self.holders.len()
            invariant
                listed_ascending(self@.holders),
                at <= self.holders@.len(),
                forall|j: int|
                    0 <= j < at ==> address_before(#[trigger] self@.holders[j].address, address@),
            decreases self.holders@.len() - at,
        {
            if !precedes(self.holders[at].address.as_str(), address.as_str()) {
                proof {
                    let lines = self@.holders;
                    assert forall|j: int| at <= j < lines.len() implies !address_before(
                        #[trigger] lines[j].address,
                        address@,
                    ) by {
                        if j > at && address_before(lines[j].address, address@) {
                            assert(address_before(lines[at as int].address, lines[j].address));
                            lemma_address_before_transitive(
                                lines[at as int].address,
                                lines[j].address,
                                address@,
                            );
                        }
                    }
                }
                return at;
            }
            at += 1;
        }
        at
    }

    /// Whether `address` is listed as a holder.
    pub fn has_holder(&self, address: &String) -> (held: bool)
        requires
            listed_ascending(self@.holders),
        ensures
            held == self@.holds(address@),
    {
        self.may_load_holder(address).is_some()
    }

    /// The keys listed for `address`, if it is listed.
    pub fn may_load_holder(&self, address: &String) -> (amount: Option<u128>)
        requires
            listed_ascending(self@.holders),
        ensures
            amount is Some == self@.holds(address@),
            amount is Some ==> amount->Some_0 == self@.balance_of(address@),
    {
        let at: usize = self.position(address);
        if at < self.holders.len() && self.holders[at].address == *address {
            proof {
                lemma_balance_on_line(self@.holders, at as int);
            }
            Some(self.holders[at].amount)
        } else {
            proof {
                self.lemma_absent_at(address@, at as int);
            }
            None
        }
    }

    /// An address that is not on the line where it would stand is not listed,
    /// and the lines from there on come after it.
    proof fn lemma_absent_at(&self, address: Seq<char>, at: int)
        requires
            listed_ascending(self@.holders),
            0 <= at <= self@.holders.len(),
            forall|j: int|
                0 <= j < at ==> address_before(#[trigger] self@.holders[j].address, address),
            forall|j: int|
                at <= j < self@.holders.len() ==> !address_before(
                    #[trigger] self@.holders[j].address,
                    address,
                ),
            at < self@.holders.len() ==> self@.holders[at].address != address,
        ensures
            !is_listed(self@.holders, address),
            forall|j: int|
                at <= j < self@.holders.len() ==> address_before(
                    address,
                    #[trigger] self@.holders[j].address,
                ),
    {
        let lines = self@.holders;
        lemma_address_before_asymmetric(address, address);
        assert forall|j: int| at <= j < lines.len() implies address_before(
            address,
            #[trigger] lines[j].address,
        ) by {
            lemma_address_before_connected(address, lines[j].address);
            if j > at {
                assert(address_before(lines[at].address, lines[j].address));
            }
        }
        if is_listed(lines, address) {
            let k: int = choose|k: int| listed_at(lines, address, k);
            if k < at {
                assert(address_before(lines[k].address, address));
            } else {
                assert(address_before(address, lines[k].address));
            }
        }
    }

    /// The addresses of up to `limit` holders that come after `start_after`,
    /// or from the start of the listing where there is no cursor.
    pub fn range_holders(&self, start_after: &Option<String>, limit: usize) -> (page: Vec<String>)
        ensures
            texts(page@) == holders_page(self@.holders, cursor_view(*start_after), limit as nat),
    {
        let ghost lines = self@.holders;
        let ghost cursor = cursor_view(*start_after);
        let ghost pred = |line: HolderView| after_cursor(cursor, line.address);
        let mut page: Vec<String> = Vec::new();
        let mut i: usize = 0;
        proof {
            assert(lines.take(0) =~= Seq::<HolderView>::empty());
            reveal(Seq::filter);
            assert(texts(page@) =~= addresses_of(lines.take(0).filter(pred)));
        }
        while i < self.holders.len() && page.len() < limit
            invariant
                lines == self@.holders,
                cursor == cursor_view(*start_after),
                pred == (|line: HolderView| after_cursor(cursor, line.address)),
                i <= lines.len(),
                page@.len() <= limit,
                page@.len() == lines.take(i as int).filter(pred).len(),
                texts(page@) == addresses_of(lines.take(i as int).filter(pred)),
            decreases lines.len() - i,
        {
            let comes_after: bool = match start_after {
                Some(address) => precedes(address.as_str(), self.holders[i].address.as_str()),
                None => true,
            };
            proof {
                assert(lines.take(i + 1) =~= lines.take(i as int).push(lines[i as int]));
                lines.take(i as int).lemma_filter_push(lines[i as int], pred);
                assert(comes_after == pred(lines[i as int]));
            }
            if comes_after {
                let ghost earlier = page@;
                page.push(self.holders[i].address.clone());
                proof {
                    assert(texts(page@) =~= texts(earlier).push(lines[i as int].address));
                    assert(addresses_of(lines.take(i as int).filter(pred).push(lines[i as int]))
                        =~= addresses_of(lines.take(i as int).filter(pred)).push(
                        lines[i as int].address,
                    ));
                }
            }
            i += 1;
        }
        proof {
            let seen = lines.take(i as int).filter(pred);
            let all = lines.filter(pred);
            assert(lines =~= lines.take(i as int) + lines.skip(i as int));
            Seq::filter_distributes_over_add(lines.take(i as int), lines.skip(i as int), pred);
            assert(all == seen + lines.skip(i as int).filter(pred));
            if i == lines.len() {
                assert(lines.skip(i as int) =~= Seq::<HolderView>::empty());
                reveal(Seq::filter);
                assert(all =~= seen);
                assert(all.take(all.len() as int) =~= all);
            } else {
                assert(seen.len() == limit);
                assert(all.take(limit as int) =~= seen);
            }
            assert(lines_after(lines, cursor) == all);
        }
        page
    }

    /// Sets the number of keys that are out.
    pub(crate) fn save_supply(&mut self, supply: u128)
        ensures
            final(self)@.config == old(self)@.config,
            final(self)@.holders == old(self)@.holders,
            final(self)@.supply == supply,
    {
        self.supply = supply;
    }

    /// Lists `amount` keys for `address`, on a new line if it has none yet.
    pub(crate) fn save_holder(&mut self, address: &String, amount: u128)
        requires
            listed_ascending(old(self)@.holders),
        ensures
            final(self)@.config == old(self)@.config,
            final(self)@.supply == old(self)@.supply,
            listed_ascending(final(self)@.holders),
            forall|a: Seq<char>|
                #[trigger] final(self)@.holds(a) == (a == address@ || old(self)@.holds(a)),
            forall|a: Seq<char>|
                #[trigger] final(self)@.balance_of(a) == (if a == address@ {
                    amount as nat
                } else {
                    old(self)@.balance_of(a)
                }),
            sum_of_balances(final(self)@.holders) + old(self)@.balance_of(address@)
                == sum_of_balances(old(self)@.holders) + amount,
            listed_positive(old(self)@.holders) && amount > 0 ==> listed_positive(
                final(self)@.holders,
            ),
    {
        let at: usize = self.position(address);
        let line = Holder { address: address.clone(), amount };
        let ghost before = self@.holders;
        if at < self.holders.len() && self.holders[at].address == *address {
            self.holders.set(at, line);
            proof {
                assert(self@.holders =~= before.update(at as int, line@));
                lemma_line_updated(before, at as int, line@);
            }
        } else {
            proof {
                self.lemma_absent_at(address@, at as int);
            }
            self.holders.insert(at, line);
            proof {
                assert(self@.holders =~= before.insert(at as int, line@));
                lemma_line_inserted(before, at as int, line@);
            }
        }
    }

    /// Takes the line of `address` off the listing, if it has one.
    pub(crate) fn remove_holder(&mut self, address: &String)
        requires
            listed_ascending(old(self)@.holders),
        ensures
            final(self)@.config == old(self)@.config,
            final(self)@.supply == old(self)@.supply,
            listed_ascending(final(self)@.holders),
            forall|a: Seq<char>|
                #[trigger] final(self)@.holds(a) == (a != address@ && old(self)@.holds(a)),
            forall|a: Seq<char>|
                #[trigger] final(self)@.balance_of(a) == (if a == address@ {
                    0
                } else {
                    old(self)@.balance_of(a)
                }),
            sum_of_balances(final(self)@.holders) + old(self)@.balance_of(address@)
                == sum_of_balances(old(self)@.holders),
            listed_positive(old(self)@.holders) ==> listed_positive(final(self)@.holders),
    {
        let at: usize = self.position(address);
        let ghost before = self@.holders;
        if at < self.holders.len() && self.holders[at].address == *address {
            let _ = self.holders.remove(at);
            proof {
                assert(self@.holders =~= before.remove(at as int));
                lemma_line_removed(before, at as int);
            }
        } else {
            proof {
                self.lemma_absent_at(address@, at as int);
            }
        }
    }
}

} // verus!
