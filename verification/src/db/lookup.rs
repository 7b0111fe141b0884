use vstd::prelude::*;
use crate::models::trade::Trade;

verus! {

/// `i` is the first place of `s` whose item satisfies `p`.
pub open spec fn is_first<T>(s: Seq<T>, p: spec_fn(T) -> bool, i: int) -> bool {
    &&& 0 <= i < s.len()
    &&& p(s[i])
    &&& forall|j: int| 0 <= j < i ==> !#[trigger] p(s[j])
}

/// The first place of `s` whose item satisfies `p`, if there is one.
pub open spec fn first_index<T>(s: Seq<T>, p: spec_fn(T) -> bool) -> Option<int> {
    if exists|i: int| is_first(s, p, i) {
        Some(choose|i: int| is_first(s, p, i))
    } else {
        None
    }
}

/// The first place is the only first place.
pub proof fn lemma_first_index_is<T>(s: Seq<T>, p: spec_fn(T) -> bool, i: int)
    requires
        is_first(s, p, i),
    ensures
        first_index(s, p) == Some(i),
{
    let c = choose|c: int| is_first(s, p, c);
    if c < i {
        assert(!p(s[c]));
    } else if i < c {
        assert(!p(s[i]));
    }
}

/// Below any place that satisfies `p` there is a first one.
pub proof fn lemma_first_exists<T>(s: Seq<T>, p: spec_fn(T) -> bool, n: int)
    requires
        0 <= n < s.len(),
        p(s[n]),
    ensures
        first_index(s, p) matches Some(i) && i <= n && is_first(s, p, i),
    decreases n,
{
    if exists|j: int| 0 <= j < n && p(s[j]) {
        let j = choose|j: int| 0 <= j < n && p(s[j]);
        lemma_first_exists(s, p, j);
    } else {
        assert(is_first(s, p, n));
        lemma_first_index_is(s, p, n);
    }
}

/// What `first_index` says of the sequence, both ways.
pub proof fn lemma_first_index<T>(s: Seq<T>, p: spec_fn(T) -> bool)
    ensures
        match first_index(s, p) {
            Some(i) => is_first(s, p, i),
            None => forall|j: int| 0 <= j < s.len() ==> !#[trigger] p(s[j]),
        },
{
    if first_index(s, p) is None {
        assert forall|j: int| 0 <= j < s.len() implies !#[trigger] p(s[j]) by {
            if p(s[j]) {
                lemma_first_exists(s, p, j);
            }
        }
    }
}

/// Two sequences that satisfy `p` at the same places have the same first
/// place.
pub proof fn lemma_first_index_same<T>(s: Seq<T>, t: Seq<T>, p: spec_fn(T) -> bool)
    requires
        s.len() == t.len(),
        forall|j: int| 0 <= j < s.len() ==> p(#[trigger] s[j]) == p(t[j]),
    ensures
        first_index(s, p) == first_index(t, p),
{
    lemma_first_index(s, p);
    match first_index(s, p) {
        Some(i) => {
            assert(p(t[i]) == p(s[i]));
            assert forall|j: int| 0 <= j < i implies !#[trigger] p(t[j]) by {
                assert(p(s[j]) == p(t[j]));
            }
            lemma_first_index_is(t, p, i);
        },
        None => {
            lemma_first_index(t, p);
            if let Some(i) = first_index(t, p) {
                assert(p(s[i]) == p(t[i]));
            }
        },
    }
}

/// A new last item is the first place only where no earlier item satisfies
/// `p`.
pub proof fn lemma_first_index_push<T>(s: Seq<T>, x: T, p: spec_fn(T) -> bool)
    ensures
        first_index(s.push(x), p) == match first_index(s, p) {
            Some(i) => Some(i),
            None => if p(x) {
                Some(s.len() as int)
            } else {
                None
            },
        },
{
    let t = s.push(x);
    lemma_first_index(s, p);
    match first_index(s, p) {
        Some(i) => {
            assert(t[i] == s[i]);
            assert forall|j: int| 0 <= j < i implies !#[trigger] p(t[j]) by {
                assert(t[j] == s[j]);
            }
            lemma_first_index_is(t, p, i);
        },
        None => {
            assert forall|j: int| 0 <= j < s.len() implies !#[trigger] p(t[j]) by {
                assert(t[j] == s[j]);
            }
            if p(x) {
                assert(t[s.len() as int] == x);
                lemma_first_index_is(t, p, s.len() as int);
            } else {
                lemma_first_index(t, p);
                if let Some(i) = first_index(t, p) {
                    assert(i == s.len() || t[i] == s[i]);
                }
            }
        },
    }
}

/// Tells the trades with the store identity `id`.
pub open spec fn has_id(id: i64) -> spec_fn(Trade) -> bool {
    |t: Trade| t.id == Some(id)
}

/// Tells the trades with the broker ticket `ticket`.
pub open spec fn has_ticket(ticket: i64) -> spec_fn(Trade) -> bool {
    |t: Trade| t.ticket == ticket
}

/// The place of the first trade with the store identity `id`. See
/// `lemma_position_of_id` and `lemma_id_is_at`.
pub open spec fn position_of_id(trades: Seq<Trade>, id: i64) -> Option<int> {
    first_index(trades, has_id(id))
}

/// The place of the first trade with the broker ticket `ticket`. See
/// `lemma_position_of_ticket` and `lemma_ticket_is_at`.
pub open spec fn position_of_ticket(trades: Seq<Trade>, ticket: i64) -> Option<int> {
    first_index(trades, has_ticket(ticket))
}

/// The trade that a message means which names it by store identity and by
/// ticket: the one with that identity; where there is none, the first with
/// that ticket.
pub open spec fn resolve(trades: Seq<Trade>, server_id: i64, ticket: i64) -> Option<int> {
    match position_of_id(trades, server_id) {
        Some(i) => Some(i),
        None => position_of_ticket(trades, ticket),
    }
}

/// What `position_of_id` says of the rows, both ways.
pub proof fn lemma_position_of_id(trades: Seq<Trade>, id: i64)
    ensures
        match position_of_id(trades, id) {
            Some(i) => {
                &&& 0 <= i < trades.len()
                &&& trades[i].id == Some(id)
                &&& forall|j: int| 0 <= j < i ==> (#[trigger] trades[j]).id != Some(id)
            },
            None => forall|j: int| 0 <= j < trades.len() ==> (#[trigger] trades[j]).id != Some(id),
        },
{
    lemma_first_index(trades, has_id(id));
    match position_of_id(trades, id) {
        Some(i) => {
            assert forall|j: int| 0 <= j < i implies (#[trigger] trades[j]).id != Some(id) by {
                assert(!has_id(id)(trades[j]));
            }
        },
        None => {
            assert forall|j: int| 0 <= j < trades.len() implies (#[trigger] trades[j]).id != Some(id) by {
                assert(!has_id(id)(trades[j]));
            }
        },
    }
}

/// What `position_of_ticket` says of the rows, both ways.
pub proof fn lemma_position_of_ticket(trades: Seq<Trade>, ticket: i64)
    ensures
        match position_of_ticket(trades, ticket) {
            Some(i) => {
                &&& 0 <= i < trades.len()
                &&& trades[i].ticket == ticket
                &&& forall|j: int| 0 <= j < i ==> (#[trigger] trades[j]).ticket != ticket
            },
            None => forall|j: int| 0 <= j < trades.len() ==> (#[trigger] trades[j]).ticket != ticket,
        },
{
    lemma_first_index(trades, has_ticket(ticket));
    match position_of_ticket(trades, ticket) {
        Some(i) => {
            assert forall|j: int| 0 <= j < i implies (#[trigger] trades[j]).ticket != ticket by {
                assert(!has_ticket(ticket)(trades[j]));
            }
        },
        None => {
            assert forall|j: int| 0 <= j < trades.len() implies (#[trigger] trades[j]).ticket != ticket by {
                assert(!has_ticket(ticket)(trades[j]));
            }
        },
    }
}

/// The first row with the identity `id` is where `position_of_id` says.
pub proof fn lemma_id_is_at(trades: Seq<Trade>, id: i64, i: int)
    requires
        0 <= i < trades.len(),
        trades[i].id == Some(id),
        forall|j: int| 0 <= j < i ==> (#[trigger] trades[j]).id != Some(id),
    ensures
        position_of_id(trades, id) == Some(i),
{
    assert(has_id(id)(trades[i]));
    assert forall|j: int| 0 <= j < i implies !#[trigger] has_id(id)(trades[j]) by {
        assert(trades[j].id != Some(id));
    }
    lemma_first_index_is(trades, has_id(id), i);
}

/// The first row with the ticket `ticket` is where `position_of_ticket` says.
pub proof fn lemma_ticket_is_at(trades: Seq<Trade>, ticket: i64, i: int)
    requires
        0 <= i < trades.len(),
        trades[i].ticket == ticket,
        forall|j: int| 0 <= j < i ==> (#[trigger] trades[j]).ticket != ticket,
    ensures
        position_of_ticket(trades, ticket) == Some(i),
{
    assert(has_ticket(ticket)(trades[i]));
    assert forall|j: int| 0 <= j < i implies !#[trigger] has_ticket(ticket)(trades[j]) by {
        assert(trades[j].ticket != ticket);
    }
    lemma_first_index_is(trades, has_ticket(ticket), i);
}

/// The place of the first trade with the store identity `id`.
pub fn find_by_id(trades: &Vec<Trade>, id: i64) -> (r: Option<usize>)
    ensures
        match r {
            Some(i) => position_of_id(trades@, id) == Some(i as int),
            None => position_of_id(trades@, id) is None,
        },
{
    let mut i: usize = 0;
    while i < trades.len()
        invariant
            i <= trades.len(),
            forall|j: int| 0 <= j < i ==> !#[trigger] has_id(id)(trades@[j]),
        decreases trades.len() - i,
    {
        let found = match trades[i].id {
            Some(own) => own == id,
            None => false,
        };
        if found {
            proof {
                assert(has_id(id)(trades@[i as int]));
                lemma_first_index_is(trades@, has_id(id), i as int);
            }
            return Some(i);
        }
        i += 1;
    }
    proof {
        lemma_first_index(trades@, has_id(id));
    }
    None
}

/// The place of the first trade with the broker ticket `ticket`.
pub fn find_by_ticket(trades: &Vec<Trade>, ticket: i64) -> (r: Option<usize>)
    ensures
        match r {
            Some(i) => position_of_ticket(trades@, ticket) == Some(i as int),
            None => position_of_ticket(trades@, ticket) is None,
        },
{
    let mut i: usize = 0;
    while i < trades.len()
        invariant
            i <= trades.len(),
            forall|j: int| 0 <= j < i ==> !#[trigger] has_ticket(ticket)(trades@[j]),
        decreases trades.len() - i,
    {
        if trades[i].ticket == ticket {
            proof {
                assert(has_ticket(ticket)(trades@[i as int]));
                lemma_first_index_is(trades@, has_ticket(ticket), i as int);
            }
            return Some(i);
        }
        i += 1;
    }
    proof {
        lemma_first_index(trades@, has_ticket(ticket));
    }
    None
}

/// Finds the trade that a message means which names it by store identity and
/// by ticket.
pub fn resolve_trade(trades: &Vec<Trade>, server_id: i64, ticket: i64) -> (r: Option<usize>)
    ensures
        match r {
            Some(i) => resolve(trades@, server_id, ticket) == Some(i as int),
            None => resolve(trades@, server_id, ticket) is None,
        },
{
    match find_by_id(trades, server_id) {
        Some(i) => Some(i),
        None => find_by_ticket(trades, ticket),
    }
}

} // verus!
