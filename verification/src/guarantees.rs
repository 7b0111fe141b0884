use vstd::prelude::*;
use crate::db::lookup::{
    has_id, has_ticket, is_first, lemma_first_exists, lemma_first_index, lemma_first_index_is,
    lemma_first_index_push, lemma_first_index_same, lemma_position_of_id, position_of_id,
    position_of_ticket, resolve,
};
use crate::db::store::{
    due, due_pred, lemma_insert_keeps_wf, lemma_replace_keeps_wf, lemma_row_is_found,
    lemma_sync_keeps_wf, DatabaseView, RECENCY_WINDOW_SECS,
};
use crate::errors::ApiError;
use crate::handlers::trade::{closure_applied, closure_result, submit_result, submitted};
use crate::models::datetime::DateTimeWrapper;
use crate::models::trade::{TPSLUpdate, Trade, TradeClosure};

verus! {

/// Every row of `before` is a row of `after`, in the same place and with the
/// same identity, and closed in `after` if it was closed in `before`.
pub open spec fn keeps_closed(before: DatabaseView, after: DatabaseView) -> bool {
    &&& before.trades.len() <= after.trades.len()
    &&& forall|i: int|
        0 <= i < before.trades.len() ==> (#[trigger] after.trades[i]).id == before.trades[i].id && (
        before.trades[i].status is Closed ==> after.trades[i].status is Closed)
}

/// Every pair that `before` has in its journal `after` has too, and as closed
/// if `before` has it as closed.
pub open spec fn keeps_delivered(before: DatabaseView, after: DatabaseView) -> bool {
    forall|key: (i64, i64)| #[trigger]
        before.journal.dom().contains(key) ==> after.journal.dom().contains(key) && (
        before.journal[key].status is Closed ==> after.journal[key].status is Closed)
}

/// Reporting a trade keeps the store valid and every row in its place; it
/// leaves the journal and the closure log as they are.
pub proof fn submission_keeps_store_valid(v: DatabaseView, trade: Trade, now: DateTimeWrapper)
    requires
        v.wf(),
    ensures
        submitted(v, trade, now).wf(),
        keeps_closed(v, submitted(v, trade, now)),
        submitted(v, trade, now).journal == v.journal,
        submitted(v, trade, now).closures == v.closures,
{
    match position_of_ticket(v.trades, trade.ticket) {
        Some(i) => {
            lemma_first_index(v.trades, has_ticket(trade.ticket));
            assert(v.trades[i].is_row());
            lemma_row_is_found(v, i);
            let w = submitted(v, trade, now);
            if v.update_result(v.trades[i].id.unwrap(), trade) is Ok {
                lemma_replace_keeps_wf(v, w, i);
            }
        },
        None => {
            lemma_insert_keeps_wf(v, trade, now);
        },
    }
}

/// A trade reported twice under one ticket has one row, which carries what
/// was reported last: the second report makes no row, the row that the first
/// report made or wrote is the one that takes the second, and where the store
/// had no row with the ticket before, it has exactly one after.
pub proof fn resubmission_overwrites(
    v: DatabaseView,
    first: Trade,
    second: Trade,
    earlier: DateTimeWrapper,
    later: DateTimeWrapper,
)
    requires
        v.wf(),
        first.ticket == second.ticket,
        submit_result(v, first) is Ok,
        submit_result(submitted(v, first, earlier), second) is Ok,
    ensures
        ({
            let once = submitted(v, first, earlier);
            let twice = submitted(once, second, later);
            &&& twice.trades.len() == once.trades.len()
            &&& position_of_ticket(twice.trades, second.ticket) == position_of_ticket(
                once.trades,
                first.ticket,
            )
            &&& position_of_ticket(twice.trades, second.ticket) matches Some(i) && {
                &&& twice.trades[i] == once.trades[i].merged(second, later)
                &&& twice.trades[i].volume == second.volume
                &&& twice.trades[i].open_price == second.open_price
                &&& twice.trades[i].symbol == second.symbol
                &&& twice.trades[i].id == once.trades[i].id
                &&& position_of_ticket(v.trades, first.ticket) is None ==> forall|j: int|
                    0 <= j < twice.trades.len() && (#[trigger] twice.trades[j]).ticket
                        == second.ticket ==> j == i
            }
        }),
{
    let ticket = first.ticket;
    let once = submitted(v, first, earlier);
    submission_keeps_store_valid(v, first, earlier);
    lemma_first_index(v.trades, has_ticket(ticket));
    // The first report leaves a row with the ticket.
    match position_of_ticket(v.trades, ticket) {
        Some(i) => {
            assert(v.trades[i].is_row());
            lemma_row_is_found(v, i);
            assert(once.trades[i].ticket == ticket);
            assert(has_ticket(ticket)(once.trades[i]));
            lemma_first_exists(once.trades, has_ticket(ticket), i);
        },
        None => {
            let n = v.trades.len() as int;
            assert(once.trades[n].ticket == ticket);
            assert(has_ticket(ticket)(once.trades[n]));
            lemma_first_index_push(v.trades, once.trades[n], has_ticket(ticket));
        },
    }
    lemma_first_index(once.trades, has_ticket(ticket));
    let i = position_of_ticket(once.trades, ticket).unwrap();
    assert(once.trades[i].is_row());
    lemma_row_is_found(once, i);
    let twice = submitted(once, second, later);
    assert(twice.trades == once.trades.update(i, once.trades[i].merged(second, later)));
    assert forall|j: int| 0 <= j < twice.trades.len() implies has_ticket(ticket)(
        #[trigger] twice.trades[j],
    ) == has_ticket(ticket)(once.trades[j]) by {}
    lemma_first_index_same(twice.trades, once.trades, has_ticket(ticket));
    if position_of_ticket(v.trades, ticket) is None {
        assert forall|j: int|
            0 <= j < twice.trades.len() && (#[trigger] twice.trades[j]).ticket
                == ticket implies j == i by {
            assert(has_ticket(ticket)(once.trades[j]));
            if j < v.trades.len() {
                assert(once.trades[j] == v.trades[j]);
                assert(!has_ticket(ticket)(v.trades[j]));
            }
        }
    }
}

/// Once a trade is closed, no report of new risk parameters opens it again.
/// Such a report leaves the journal and the closure log as they are.
pub proof fn risk_update_never_reopens(v: DatabaseView, update: TPSLUpdate, now: DateTimeWrapper)
    requires
        v.wf(),
    ensures
        v.with_risk(update, now).wf(),
        keeps_closed(v, v.with_risk(update, now)),
        v.with_risk(update, now).journal == v.journal,
        v.with_risk(update, now).closures == v.closures,
{
    if let Some(i) = v.risk_target(update) {
        lemma_position_of_id(v.trades, update.server_id);
        assert(v.trades[i].is_row());
        lemma_replace_keeps_wf(v, v.with_risk(update, now), i);
    }
}

/// Once a trade is closed, no report of the trade opens it again, whatever
/// status the report gives.
pub proof fn resubmission_never_reopens(v: DatabaseView, trade: Trade, now: DateTimeWrapper)
    requires
        v.wf(),
    ensures
        keeps_closed(v, submitted(v, trade, now)),
{
    submission_keeps_store_valid(v, trade, now);
}

/// Closing a trade keeps the store valid and opens no trade; the trade it
/// means is closed after it, and the closure log is one line longer. A
/// closure that means no trade changes nothing. The journal stays as it is.
pub proof fn closure_closes(v: DatabaseView, closure: TradeClosure, now: DateTimeWrapper)
    requires
        v.wf(),
    ensures
        closure_applied(v, closure, now).wf(),
        keeps_closed(v, closure_applied(v, closure, now)),
        closure_applied(v, closure, now).journal == v.journal,
        match resolve(v.trades, closure.server_id, closure.ticket) {
            Some(i) => {
                &&& closure_applied(v, closure, now).trades[i] == v.trades[i].closed_by(closure, now)
                &&& closure_applied(v, closure, now).closures.len() == v.closures.len() + 1
                &&& closure_applied(v, closure, now).closures.drop_last() == v.closures
            },
            None => closure_applied(v, closure, now) == v,
        },
{
    lemma_first_index(v.trades, has_id(closure.server_id));
    lemma_first_index(v.trades, has_ticket(closure.ticket));
    if let Some(i) = resolve(v.trades, closure.server_id, closure.ticket) {
        assert(v.trades[i].is_row());
        lemma_row_is_found(v, i);
        lemma_replace_keeps_wf(v, closure_applied(v, closure, now), i);
        assert(closure_applied(v, closure, now).closures.drop_last() =~= v.closures);
    }
}

/// What the journal says a slave has got is never taken back: a
/// synchronisation keeps every pair, and keeps as closed what was delivered
/// closed. It touches no row and logs no closure.
pub proof fn sync_never_regresses(v: DatabaseView, slave: i64, master: i64, now: DateTimeWrapper)
    requires
        v.wf(),
    ensures
        v.synced(slave, master, now).wf(),
        v.synced(slave, master, now).trades == v.trades,
        v.synced(slave, master, now).closures == v.closures,
        keeps_delivered(v, v.synced(slave, master, now)),
{
    lemma_sync_keeps_wf(v, slave, master, now);
    let w = v.synced(slave, master, now);
    assert forall|key: (i64, i64)| #[trigger] v.journal.dom().contains(key) implies w.journal.dom().contains(
        key,
    ) && (v.journal[key].status is Closed ==> w.journal[key].status is Closed) by {
        assert(v.witnessed(key));
    }
}

/// A trade that was never delivered to a slave is due for it at every
/// synchronisation with the trade's master that falls within the recency
/// window of the trade's last touch.
pub proof fn undelivered_trade_is_due(v: DatabaseView, i: int, slave: i64, now: DateTimeWrapper)
    requires
        v.wf(),
        0 <= i < v.trades.len(),
        !v.journal.dom().contains((v.trades[i].id.unwrap(), slave)),
        v.trades[i].updated_at.unwrap().within(now, RECENCY_WINDOW_SECS),
    ensures
        due(v.trades[i], v.journal, slave, v.trades[i].master_account_id, now),
        v.due_trades(slave, v.trades[i].master_account_id, now).contains(v.trades[i]),
        v.delivers((v.trades[i].id.unwrap(), slave), slave, v.trades[i].master_account_id, now),
{
    assert(v.trades[i].is_row());
    lemma_row_is_found(v, i);
    let pred = due_pred(v.journal, slave, v.trades[i].master_account_id, now);
    assert(pred(v.trades[i]));
    v.trades.lemma_filter_contains(pred, i);
}

/// A trade stays undelivered to a slave until a synchronisation of that
/// slave with the trade's master has it due: a synchronisation writes the
/// journal for the pairs it delivers for and for no other, so none of
/// another slave and none of a trade of another master.
pub proof fn only_delivery_marks(
    v: DatabaseView,
    key: (i64, i64),
    slave: i64,
    master: i64,
    now: DateTimeWrapper,
)
    requires
        v.wf(),
        !v.journal.dom().contains(key),
    ensures
        v.synced(slave, master, now).journal.dom().contains(key) <==> v.delivers(
            key,
            slave,
            master,
            now,
        ),
        key.1 != slave ==> !v.synced(slave, master, now).journal.dom().contains(key),
        forall|i: int|
            0 <= i < v.trades.len() && (#[trigger] v.trades[i]).id == Some(key.0)
                && v.trades[i].master_account_id != master ==> !v.synced(
                slave,
                master,
                now,
            ).journal.dom().contains(key),
{
    assert forall|i: int|
        0 <= i < v.trades.len() && (#[trigger] v.trades[i]).id == Some(key.0)
            && v.trades[i].master_account_id != master implies !v.synced(
        slave,
        master,
        now,
    ).journal.dom().contains(key) by {
        lemma_row_is_found(v, i);
    }
}

/// After a synchronisation has delivered a trade, the trade is not due for
/// that slave again while nothing touches it, whenever the slave asks next.
/// This needs that the trade was not touched after the time of the
/// synchronisation.
pub proof fn delivered_trade_is_not_due_again(
    v: DatabaseView,
    i: int,
    slave: i64,
    master: i64,
    now: DateTimeWrapper,
    next: DateTimeWrapper,
)
    requires
        v.wf(),
        0 <= i < v.trades.len(),
        due(v.trades[i], v.journal, slave, master, now),
        !now.before(v.trades[i].updated_at.unwrap()),
    ensures
        !due(v.synced(slave, master, now).trades[i], v.synced(slave, master, now).journal, slave, master, next),
        !v.synced(slave, master, now).due_trades(slave, master, next).contains(v.trades[i]),
{
    assert(v.trades[i].is_row());
    lemma_row_is_found(v, i);
    let w = v.synced(slave, master, now);
    let key = (v.trades[i].id.unwrap(), slave);
    assert(v.delivers(key, slave, master, now));
    assert(w.journal.dom().contains(key));
    assert(w.journal[key] == v.delivered(key, now));
    let pred = due_pred(w.journal, slave, master, next);
    if w.trades.filter(pred).contains(v.trades[i]) {
        let k = choose|k: int| 0 <= k < w.trades.filter(pred).len() && w.trades.filter(pred)[k] == v.trades[i];
        w.trades.lemma_filter_pred(pred, k);
    }
}

/// After a trade was delivered open to a slave and is then closed, it is due
/// for that slave at a synchronisation with the trade's master that falls
/// within the recency window of the closing; and once that synchronisation
/// has delivered it, it is not due again.
pub proof fn closed_trade_is_due_once_more(
    v: DatabaseView,
    i: int,
    slave: i64,
    closure: TradeClosure,
    closed_at: DateTimeWrapper,
    now: DateTimeWrapper,
    next: DateTimeWrapper,
)
    requires
        v.wf(),
        0 <= i < v.trades.len(),
        resolve(v.trades, closure.server_id, closure.ticket) == Some(i),
        v.journal.dom().contains((v.trades[i].id.unwrap(), slave)),
        v.journal[(v.trades[i].id.unwrap(), slave)].status is Open,
        closed_at.within(now, RECENCY_WINDOW_SECS),
        !now.before(closed_at),
    ensures
        ({
            let master = v.trades[i].master_account_id;
            let closed = closure_applied(v, closure, closed_at);
            let synced = closed.synced(slave, master, now);
            &&& closed.trades[i] == v.trades[i].closed_by(closure, closed_at)
            &&& due(closed.trades[i], closed.journal, slave, master, now)
            &&& closed.due_trades(slave, master, now).contains(closed.trades[i])
            &&& synced.journal[(v.trades[i].id.unwrap(), slave)].status is Closed
            &&& !due(synced.trades[i], synced.journal, slave, master, next)
        }),
{
    let master = v.trades[i].master_account_id;
    let closed = closure_applied(v, closure, closed_at);
    closure_closes(v, closure, closed_at);
    assert(v.trades[i].is_row());
    lemma_row_is_found(v, i);
    let pred = due_pred(closed.journal, slave, master, now);
    assert(pred(closed.trades[i]));
    closed.trades.lemma_filter_contains(pred, i);
    delivered_trade_is_not_due_again(closed, i, slave, master, now, next);
    lemma_row_is_found(closed, i);
}

/// A closure that names a trade by a ticket alone, with a store identity that
/// no row has, closes the trade where exactly one row has that ticket.
pub proof fn ticket_alone_resolves(v: DatabaseView, closure: TradeClosure, i: int, now: DateTimeWrapper)
    requires
        v.wf(),
        forall|j: int| 0 <= j < v.trades.len() ==> (#[trigger] v.trades[j]).id != Some(closure.server_id),
        0 <= i < v.trades.len(),
        forall|j: int| 0 <= j < v.trades.len() ==> ((#[trigger] v.trades[j]).ticket == closure.ticket <==> j == i),
    ensures
        resolve(v.trades, closure.server_id, closure.ticket) == Some(i),
        closure_result(v, closure) == Ok::<i64, ApiError>(v.trades[i].id.unwrap()),
        closure_applied(v, closure, now).trades[i] == v.trades[i].closed_by(closure, now),
        closure_applied(v, closure, now).trades[i].status is Closed,
{
    lemma_first_index(v.trades, has_id(closure.server_id));
    if let Some(k) = position_of_id(v.trades, closure.server_id) {
        assert(has_id(closure.server_id)(v.trades[k]));
    }
    assert(v.trades[i].ticket == closure.ticket);
    assert(has_ticket(closure.ticket)(v.trades[i]));
    assert forall|j: int| 0 <= j < i implies !#[trigger] has_ticket(closure.ticket)(v.trades[j]) by {
        assert(v.trades[j].ticket != closure.ticket);
    }
    assert(is_first(v.trades, has_ticket(closure.ticket), i));
    lemma_first_index_is(v.trades, has_ticket(closure.ticket), i);
    closure_closes(v, closure, now);
}

} // verus!
