//! Pages of the holder listing.
//!
//! A page holds the addresses that come after a cursor, in ascending order,
//! up to a limit.

use crate::address::{address_before, lemma_address_before_asymmetric};
use crate::state::{is_listed, listed_ascending, listed_at, HolderView};
use vstd::prelude::*;

verus! {

/// Page size where none is asked for.
pub const DEFAULT_QUERY_LIMIT: u32 = 10;

/// Largest page size.
pub const MAX_QUERY_LIMIT: u32 = 30;

/// The page size that a request gets: what it asks for, ten where it asks
/// for nothing, and never more than thirty.
pub open spec fn page_size(limit: Option<u32>) -> nat {
    let asked: u32 = match limit {
        Some(n) => n,
        None => DEFAULT_QUERY_LIMIT,
    };
    if asked <= MAX_QUERY_LIMIT {
        asked as nat
    } else {
        MAX_QUERY_LIMIT as nat
    }
}

/// The text that a cursor stands for, if there is one.
pub open spec fn cursor_view(start_after: Option<String>) -> Option<Seq<char>> {
    match start_after {
        Some(address) => Some(address@),
        None => None,
    }
}

/// `address` comes after the cursor. Without a cursor every address does.
pub open spec fn after_cursor(start_after: Option<Seq<char>>, address: Seq<char>) -> bool {
    match start_after {
        Some(cursor) => address_before(cursor, address),
        None => true,
    }
}

/// The lines of a listing that come after the cursor, in their order.
pub open spec fn lines_after(holders: Seq<HolderView>, start_after: Option<Seq<char>>) -> Seq<
    HolderView,
> {
    holders.filter(|line: HolderView| after_cursor(start_after, line.address))
}

/// The addresses of a sequence of lines.
pub open spec fn addresses_of(lines: Seq<HolderView>) -> Seq<Seq<char>> {
    lines.map_values(|line: HolderView| line.address)
}

/// A page of the listing: the addresses of the first `limit` lines that come
/// after the cursor, or of all of them where they are fewer.
pub open spec fn holders_page(
    holders: Seq<HolderView>,
    start_after: Option<Seq<char>>,
    limit: nat,
) -> Seq<Seq<char>> {
    let eligible = lines_after(holders, start_after);
    let count: int = if limit <= eligible.len() {
        limit as int
    } else {
        eligible.len() as int
    };
    addresses_of(eligible.take(count))
}

/// The texts that a vector of strings stands for.
pub open spec fn texts(strings: Seq<String>) -> Seq<Seq<char>> {
    strings.map_values(|s: String| s@)
}

/// The lines after the cursor are lines of the listing, in ascending order,
/// and no line of the listing that comes after the cursor is missing.
pub proof fn lemma_lines_after(holders: Seq<HolderView>, start_after: Option<Seq<char>>)
    requires
        listed_ascending(holders),
    ensures
        listed_ascending(lines_after(holders, start_after)),
        lines_after(holders, start_after).len() <= holders.len(),
        forall|i: int|
            0 <= i < lines_after(holders, start_after).len() ==> {
                let line = #[trigger] lines_after(holders, start_after)[i];
                after_cursor(start_after, line.address) && holders.contains(line)
            },
        forall|k: int|
            0 <= k < holders.len() && after_cursor(start_after, holders[k].address)
                ==> lines_after(holders, start_after).contains(#[trigger] holders[k]),
    decreases holders.len(),
{
    let pred = |line: HolderView| after_cursor(start_after, line.address);
    let kept = holders.filter(pred);
    reveal(Seq::filter);
    if holders.len() > 0 {
        let rest = holders.drop_last();
        let last = holders.last();
        let kept_rest = rest.filter(pred);
        assert forall|i: int, j: int| 0 <= i < j < rest.len() implies address_before(
            rest[i].address,
            rest[j].address,
        ) by {
            assert(address_before(holders[i].address, holders[j].address));
        }
        lemma_lines_after(rest, start_after);
        assert forall|i: int| 0 <= i < kept_rest.len() implies holders.contains(
            #[trigger] kept_rest[i],
        ) && address_before(kept_rest[i].address, last.address) by {
            assert(rest.contains(kept_rest[i]));
            let k: int = choose|k: int| 0 <= k < rest.len() && rest[k] == kept_rest[i];
            assert(holders[k] == kept_rest[i]);
            assert(address_before(holders[k].address, holders[holders.len() - 1].address));
        }
        if pred(last) {
            assert(kept == kept_rest.push(last));
            assert(holders[holders.len() - 1] == last);
            assert forall|i: int, j: int| 0 <= i < j < kept.len() implies address_before(
                kept[i].address,
                kept[j].address,
            ) by {
                if j < kept_rest.len() {
                    assert(address_before(kept_rest[i].address, kept_rest[j].address));
                } else {
                    assert(kept[i] == kept_rest[i]);
                }
            }
            assert forall|i: int| 0 <= i < kept.len() implies {
                let line = #[trigger] kept[i];
                after_cursor(start_after, line.address) && holders.contains(line)
            } by {
                if i < kept_rest.len() {
                    assert(kept[i] == kept_rest[i]);
                }
            }
            assert forall|k: int|
                0 <= k < holders.len() && after_cursor(
                    start_after,
                    holders[k].address,
                ) implies kept.contains(#[trigger] holders[k]) by {
                if k < rest.len() {
                    assert(rest[k] == holders[k]);
                    assert(kept_rest.contains(rest[k]));
                    let i: int = choose|i: int| 0 <= i < kept_rest.len() && kept_rest[i] == rest[k];
                    assert(kept[i] == holders[k]);
                } else {
                    assert(kept[kept.len() - 1] == holders[k]);
                }
            }
        } else {
            assert(kept == kept_rest);
            assert forall|k: int|
                0 <= k < holders.len() && after_cursor(
                    start_after,
                    holders[k].address,
                ) implies kept.contains(#[trigger] holders[k]) by {
                assert(rest[k] == holders[k]);
            }
        }
    }
}

/// A page holds at most `limit` addresses, each of a holder and each after
/// the cursor, so never the cursor itself; they rise from one to the next;
/// and the page is short of `limit` only where it holds every holder after
/// the cursor.
pub proof fn lemma_page_is_ascending_slice(
    holders: Seq<HolderView>,
    start_after: Option<Seq<char>>,
    limit: nat,
)
    requires
        listed_ascending(holders),
    ensures
        holders_page(holders, start_after, limit).len() <= limit,
        forall|i: int|
            0 <= i < holders_page(holders, start_after, limit).len() ==> {
                let address = #[trigger] holders_page(holders, start_after, limit)[i];
                &&& is_listed(holders, address)
                &&& after_cursor(start_after, address)
                &&& start_after != Some(address)
            },
        forall|i: int, j: int|
            0 <= i < j < holders_page(holders, start_after, limit).len() ==> address_before(
                #[trigger] holders_page(holders, start_after, limit)[i],
                #[trigger] holders_page(holders, start_after, limit)[j],
            ),
        holders_page(holders, start_after, limit).len() < limit ==> forall|k: int|
            0 <= k < holders.len() && after_cursor(start_after, holders[k].address)
                ==> holders_page(holders, start_after, limit).contains(
                (#[trigger] holders[k]).address,
            ),
        limit >= 1 && (exists|k: int|
            0 <= k < holders.len() && after_cursor(start_after, (#[trigger] holders[k]).address))
            ==> holders_page(holders, start_after, limit).len() >= 1,
{
    let eligible = lines_after(holders, start_after);
    let page = holders_page(holders, start_after, limit);
    let count: int = if limit <= eligible.len() {
        limit as int
    } else {
        eligible.len() as int
    };
    lemma_lines_after(holders, start_after);
    assert forall|i: int| 0 <= i < page.len() implies {
        let address = #[trigger] page[i];
        &&& is_listed(holders, address)
        &&& after_cursor(start_after, address)
        &&& start_after != Some(address)
    } by {
        let line = eligible[i];
        assert(page[i] == line.address);
        assert(holders.contains(line));
        let k: int = choose|k: int| 0 <= k < holders.len() && holders[k] == line;
        assert(listed_at(holders, line.address, k));
        lemma_address_before_asymmetric(line.address, line.address);
    }
    assert forall|i: int, j: int| 0 <= i < j < page.len() implies address_before(
        #[trigger] page[i],
        #[trigger] page[j],
    ) by {
        assert(address_before(eligible[i].address, eligible[j].address));
    }
    if page.len() < limit {
        assert forall|k: int|
            0 <= k < holders.len() && after_cursor(
                start_after,
                holders[k].address,
            ) implies page.contains((#[trigger] holders[k]).address) by {
            assert(eligible.contains(holders[k]));
            let i: int = choose|i: int| 0 <= i < eligible.len() && eligible[i] == holders[k];
            assert(page[i] == holders[k].address);
        }
    }
    if limit >= 1 && (exists|k: int|
        0 <= k < holders.len() && after_cursor(start_after, (#[trigger] holders[k]).address)) {
        let k: int = choose|k: int|
            0 <= k < holders.len() && after_cursor(start_after, (#[trigger] holders[k]).address);
        assert(eligible.contains(holders[k]));
    }
}

} // verus!
