//! Routing: map a message's recipient address to a configured account, with
//! a deterministic fallback to the first account.

use vstd::prelude::*;

use crate::config::Account;

verus! {

/// True when some account in `accounts` carries the routing key `address`.
pub open spec fn has_match(accounts: Seq<Account>, address: Seq<char>) -> bool {
    exists|i: int| 0 <= i < accounts.len() && accounts[i].address@ == address
}

/// Index of the first account whose key is `address`; `accounts.len()` when
/// none matches.
pub open spec fn route_index(accounts: Seq<Account>, address: Seq<char>) -> int
    decreases accounts.len(),
{
    if accounts.len() == 0 {
        0
    } else if accounts[0].address@ == address {
        0
    } else {
        1 + route_index(accounts.drop_first(), address)
    }
}

/// The account a message with recipient `address` is delivered to: the first
/// account whose key matches, or the first account of the list.
pub open spec fn spec_route(accounts: Seq<Account>, address: Seq<char>) -> Account {
    if has_match(accounts, address) {
        accounts[route_index(accounts, address)]
    } else {
        accounts[0]
    }
}

/// When a match exists, `route_index` lands on it: inside the list, on an
/// account with the right key, and with no earlier match.
proof fn lemma_route_index_finds_match(accounts: Seq<Account>, address: Seq<char>)
    requires
        has_match(accounts, address),
    ensures
        0 <= route_index(accounts, address) < accounts.len(),
        accounts[route_index(accounts, address)].address@ == address,
        forall|j: int|
            0 <= j < route_index(accounts, address) ==> accounts[j].address@ != address,
    decreases accounts.len(),
{
    if accounts[0].address@ != address {
        let rest = accounts.drop_first();
        let w = choose|i: int| 0 <= i < accounts.len() && accounts[i].address@ == address;
        assert(rest[w - 1] == accounts[w]);
        assert(has_match(rest, address));
        lemma_route_index_finds_match(rest, address);
        assert forall|j: int| 0 <= j < route_index(accounts, address) implies accounts[j].address@
            != address by {
            if j > 0 {
                assert(accounts[j] == rest[j - 1]);
            }
        }
    }
}

/// A scan that saw no match up to index `i`, and a match at `i`, pins the
/// first matching index to `i`.
proof fn lemma_route_index_unique(accounts: Seq<Account>, address: Seq<char>, i: int)
    requires
        0 <= i < accounts.len(),
        accounts[i].address@ == address,
        forall|j: int| 0 <= j < i ==> accounts[j].address@ != address,
    ensures
        has_match(accounts, address),
        route_index(accounts, address) == i,
{
    assert(has_match(accounts, address));
    lemma_route_index_finds_match(accounts, address);
    let r = route_index(accounts, address);
    if r < i {
        assert(accounts[r].address@ != address);
    }
    if r > i {
        assert(accounts[i].address@ != address);
    }
}

/// Law: over a non-empty list, routing is total and deterministic — the
/// result is always a member of the list; when some account matches the
/// address, it is the first such account in list order; otherwise it is the
/// first account.
pub proof fn lemma_route_total(accounts: Seq<Account>, address: Seq<char>)
    requires
        accounts.len() > 0,
    ensures
        accounts.contains(spec_route(accounts, address)),
        has_match(accounts, address) ==> {
            let i = route_index(accounts, address);
            &&& 0 <= i < accounts.len()
            &&& spec_route(accounts, address) == accounts[i]
            &&& accounts[i].address@ == address
            &&& forall|j: int| 0 <= j < i ==> accounts[j].address@ != address
        },
        !has_match(accounts, address) ==> spec_route(accounts, address) == accounts[0],
{
    if has_match(accounts, address) {
        lemma_route_index_finds_match(accounts, address);
        assert(accounts[route_index(accounts, address)] == spec_route(accounts, address));
    } else {
        assert(accounts.contains(accounts[0]));
    }
}

/// Returns the account that `address` routes to: the first account whose
/// `address` field equals it exactly, or `accounts[0]` when none matches.
/// Total over every non-empty list; consults nothing else.
pub fn find_account<'a>(accounts: &'a [Account], address: &'a String) -> (r: &'a Account)
    requires
        accounts@.len() > 0,
    ensures
        *r == spec_route(accounts@, address@),
        accounts@.contains(*r),
{
    let n = accounts.len();
    let mut i: usize = 0;
    while i < n
        invariant
            n == accounts@.len(),
            0 <= i <= n,
            forall|j: int| 0 <= j < i ==> accounts@[j].address@ != address@,
        decreases n - i,
    {
        if accounts[i].address == *address {
            proof {
                lemma_route_index_unique(accounts@, address@, i as int);
            }
            return &accounts[i];
        }
        i += 1;
    }
    proof {
        assert(!has_match(accounts@, address@));
        assert(accounts@.contains(accounts@[0]));
    }
    &accounts[0]
}

} // verus!
