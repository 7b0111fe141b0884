use vstd::prelude::*;
use vstd::pervasive::unreached;
use crate::db;
use crate::db::lookup::{
    find_by_ticket, has_id, has_ticket, lemma_first_index, position_of_ticket, resolve,
    resolve_trade,
};
use crate::db::store::{lemma_row_is_found, Database, DatabaseView};
use crate::errors::ApiError;
use crate::models::datetime::DateTimeWrapper;
use crate::models::trade::{SlaveInfo, SubmitOutcome, TPSLUpdate, Trade, TradeClosure};

verus! {

/// What reporting `trade` answers: the first row with its ticket takes the
/// report; where there is none, a row is made.
pub open spec fn submit_result(v: DatabaseView, trade: Trade) -> Result<SubmitOutcome, ApiError> {
    match position_of_ticket(v.trades, trade.ticket) {
        Some(i) => match v.update_result(v.trades[i].id.unwrap(), trade) {
            Ok(_) => Ok(SubmitOutcome::Updated(v.trades[i].id.unwrap())),
            Err(e) => Err(e),
        },
        None => match v.insert_result() {
            Ok(id) => Ok(SubmitOutcome::Inserted(id)),
            Err(e) => Err(e),
        },
    }
}

/// The store after `trade` was reported at `now`.
pub open spec fn submitted(v: DatabaseView, trade: Trade, now: DateTimeWrapper) -> DatabaseView {
    match position_of_ticket(v.trades, trade.ticket) {
        Some(i) => v.updated(v.trades[i].id.unwrap(), trade, now),
        None => v.inserted(trade, now),
    }
}

/// What reporting the closure answers: the identity of the row it means, or
/// that it means none.
pub open spec fn closure_result(v: DatabaseView, closure: TradeClosure) -> Result<i64, ApiError> {
    match resolve(v.trades, closure.server_id, closure.ticket) {
        Some(i) => Ok(v.trades[i].id.unwrap()),
        None => Err(ApiError::NotFound),
    }
}

/// The store after the closure was reported at `now`.
pub open spec fn closure_applied(v: DatabaseView, closure: TradeClosure, now: DateTimeWrapper) -> DatabaseView {
    match resolve(v.trades, closure.server_id, closure.ticket) {
        Some(i) => v.closed(v.trades[i].id.unwrap(), closure, now),
        None => v,
    }
}

/// The identity of row `i`.
fn identity_at(store: &Database, i: usize) -> (id: i64)
    requires
        store.wf(),
        i < store.trades.len(),
    ensures
        store@.trades[i as int].id == Some(id),
{
    assert(store@.trades[i as int].is_row());
    match store.trades[i].id {
        Some(id) => id,
        None => unreached(),
    }
}

/// Hands the slave the trades it must mirror now, and records that it got
/// them.
pub fn get_new_trades_for_slave(store: &mut Database, slave_info: &SlaveInfo, now: DateTimeWrapper) -> (r:
    Vec<Trade>)
    requires
        old(store).wf(),
    ensures
        final(store).wf(),
        r@ == old(store)@.due_trades(slave_info.slave_account_id, slave_info.master_account_id, now),
        final(store)@ == old(store)@.synced(
            slave_info.slave_account_id,
            slave_info.master_account_id,
            now,
        ),
{
    db::get_new_trades_for_slave(
        store,
        slave_info.slave_account_id,
        slave_info.master_account_id,
        now,
    )
}

/// Takes the master's report that a trade has closed. The trade is looked
/// for by the store identity first and by the ticket where that misses.
pub fn close_trade(store: &mut Database, closure: &TradeClosure, now: DateTimeWrapper) -> (r: Result<
    i64,
    ApiError,
>)
    requires
        old(store).wf(),
    ensures
        final(store).wf(),
        r == closure_result(old(store)@, *closure),
        final(store)@ == closure_applied(old(store)@, *closure, now),
{
    match resolve_trade(&store.trades, closure.server_id, closure.ticket) {
        None => Err(ApiError::NotFound),
        Some(i) => {
            proof {
                lemma_first_index(store@.trades, has_id(closure.server_id));
                lemma_first_index(store@.trades, has_ticket(closure.ticket));
            }
            let id = identity_at(store, i);
            proof {
                lemma_row_is_found(store@, i as int);
            }
            match db::close_trade(store, id, closure, now) {
                Ok(()) => Ok(id),
                Err(e) => Err(e),
            }
        },
    }
}

/// Takes the master's report of new risk parameters.
pub fn update_tpsl(store: &mut Database, update: &TPSLUpdate, now: DateTimeWrapper) -> (r: Result<
    (),
    ApiError,
>)
    requires
        old(store).wf(),
    ensures
        final(store).wf(),
        r == old(store)@.risk_result(*update),
        final(store)@ == old(store)@.with_risk(*update, now),
{
    db::update_trade_tpsl(store, update, now)
}

/// Takes the master's report of a trade: the row with that ticket takes the
/// report; where there is none, a row is made.
pub fn add_or_update_trade(store: &mut Database, trade: &Trade, now: DateTimeWrapper) -> (r: Result<
    SubmitOutcome,
    ApiError,
>)
    requires
        old(store).wf(),
    ensures
        final(store).wf(),
        r == submit_result(old(store)@, *trade),
        final(store)@ == submitted(old(store)@, *trade, now),
{
    match find_by_ticket(&store.trades, trade.ticket) {
        Some(i) => {
            proof {
                lemma_first_index(store@.trades, has_ticket(trade.ticket));
            }
            let id = identity_at(store, i);
            match db::update_trade(store, id, trade, now) {
                Ok(()) => Ok(SubmitOutcome::Updated(id)),
                Err(e) => Err(e),
            }
        },
        None => match db::insert_master_trade(store, trade, now) {
            Ok(id) => Ok(SubmitOutcome::Inserted(id)),
            Err(e) => Err(e),
        },
    }
}

} // verus!
