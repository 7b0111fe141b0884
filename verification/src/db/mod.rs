use vstd::prelude::*;
use crate::db::journal::Delivery;
use crate::db::lookup::{
    find_by_id, find_by_ticket, lemma_position_of_id, position_of_id, position_of_ticket,
};
use crate::db::store::{
    due, due_after, due_pred, last_delivery, lemma_insert_keeps_wf, lemma_replace_keeps_wf,
    lemma_row_is_found, lemma_sync_keeps_wf, ClosureRecord, Database, DatabaseView,
    RECENCY_WINDOW_SECS,
};
use crate::errors::{ApiError, StorageFault};
use crate::models::datetime::DateTimeWrapper;
use crate::models::trade::{TPSLUpdate, Trade, TradeClosure, TradeStatus};

pub mod journal;
pub mod lookup;
pub mod store;

verus! {

/// Appends `trade` to the store as a new open row, made at `now`, and answers
/// the identity it was given.
pub fn insert_master_trade(db: &mut Database, trade: &Trade, now: DateTimeWrapper) -> (r: Result<
    i64,
    ApiError,
>)
    requires
        old(db).wf(),
    ensures
        final(db).wf(),
        r == old(db)@.insert_result(),
        final(db)@ == old(db)@.inserted(*trade, now),
{
    if db.last_id == i64::MAX {
        return Err(ApiError::DatabaseError(StorageFault::IdentitiesExhausted));
    }
    let id: i64 = db.last_id + 1;
    let row = trade.to_new_row(id, now);
    db.trades.push(row);
    db.last_id = id;
    proof {
        lemma_insert_keeps_wf(old(db)@, *trade, now);
    }
    Ok(id)
}

/// Writes the report `trade` over the row with identity `id`, at `now`.
pub fn update_trade(db: &mut Database, id: i64, trade: &Trade, now: DateTimeWrapper) -> (r: Result<
    (),
    ApiError,
>)
    requires
        old(db).wf(),
    ensures
        final(db).wf(),
        r == old(db)@.update_result(id, *trade),
        final(db)@ == old(db)@.updated(id, *trade, now),
{
    match find_by_id(&db.trades, id) {
        None => Err(ApiError::NotFound),
        Some(i) => {
            if trade.closes_without_facts() {
                return Err(ApiError::DatabaseError(StorageFault::ConstraintViolation));
            }
            proof {
                lemma_position_of_id(db.trades@, id);
            }
            let row = db.trades[i].to_merged(trade, now);
            db.trades.set(i, row);
            proof {
                lemma_replace_keeps_wf(old(db)@, db@, i as int);
            }
            Ok(())
        },
    }
}

/// Sets the risk parameters of the row that `update` names by identity and
/// master, at `now`.
pub fn update_trade_tpsl(db: &mut Database, update: &TPSLUpdate, now: DateTimeWrapper) -> (r: Result<
    (),
    ApiError,
>)
    requires
        old(db).wf(),
    ensures
        final(db).wf(),
        r == old(db)@.risk_result(*update),
        final(db)@ == old(db)@.with_risk(*update, now),
{
    match find_by_id(&db.trades, update.server_id) {
        None => Err(ApiError::NotFound),
        Some(i) => {
            if db.trades[i].master_account_id != update.master_account_id {
                return Err(ApiError::NotFound);
            }
            proof {
                lemma_position_of_id(db.trades@, update.server_id);
            }
            let row = db.trades[i].to_with_risk(update.take_profit, update.stop_loss, now);
            db.trades.set(i, row);
            proof {
                lemma_replace_keeps_wf(old(db)@, db@, i as int);
            }
            Ok(())
        },
    }
}

/// Closes the row with identity `trade_id` with the facts of `closure`, at
/// `now`, and logs the closure. A row that is closed already takes the new
/// facts.
pub fn close_trade(db: &mut Database, trade_id: i64, closure: &TradeClosure, now: DateTimeWrapper) -> (r:
    Result<(), ApiError>)
    requires
        old(db).wf(),
    ensures
        final(db).wf(),
        r == old(db)@.close_result(trade_id),
        final(db)@ == old(db)@.closed(trade_id, *closure, now),
{
    match find_by_id(&db.trades, trade_id) {
        None => Err(ApiError::NotFound),
        Some(i) => {
            proof {
                lemma_position_of_id(db.trades@, trade_id);
            }
            let row = db.trades[i].to_closed_by(closure, now);
            db.trades.set(i, row);
            db.closures.push(
                ClosureRecord {
                    trade_id,
                    close_price: closure.close_price,
                    close_time: closure.close_time,
                    profit: closure.profit,
                },
            );
            proof {
                lemma_replace_keeps_wf(old(db)@, db@, i as int);
            }
            Ok(())
        },
    }
}

/// The row with the store identity `server_id`.
pub fn get_trade_by_server_id(db: &Database, server_id: i64) -> (r: Option<Trade>)
    ensures
        r == match position_of_id(db@.trades, server_id) {
            Some(i) => Some(db@.trades[i]),
            None => None,
        },
{
    match find_by_id(&db.trades, server_id) {
        Some(i) => Some(db.trades[i].clone()),
        None => None,
    }
}

/// The first row with the broker ticket `ticket`.
pub fn get_trade_by_ticket(db: &Database, ticket: i64) -> (r: Option<Trade>)
    ensures
        r == match position_of_ticket(db@.trades, ticket) {
            Some(i) => Some(db@.trades[i]),
            None => None,
        },
{
    match find_by_ticket(&db.trades, ticket) {
        Some(i) => Some(db.trades[i].clone()),
        None => None,
    }
}

/// Decides whether `trade` must be sent at `now` to a slave that mirrors
/// `master` and to which `last` was last delivered of it.
pub fn is_due(trade: &Trade, last: Option<Delivery>, master: i64, now: DateTimeWrapper) -> (r: bool)
    ensures
        r == due_after(*trade, last, master, now),
{
    match trade.updated_at {
        None => false,
        Some(touched) => {
            if trade.master_account_id != master || !touched.is_within(&now, RECENCY_WINDOW_SECS) {
                false
            } else {
                match last {
                    None => true,
                    Some(sent) => {
                        let closed_since = match sent.status {
                            TradeStatus::Open => trade.is_closed(),
                            TradeStatus::Closed => false,
                        };
                        closed_since || sent.updated_at.is_before(&touched)
                    },
                }
            }
        },
    }
}

/// The journal of `v` once the first `n` rows were gone through in a
/// synchronisation.
spec fn journal_after(
    v: DatabaseView,
    n: int,
    slave: i64,
    master: i64,
    now: DateTimeWrapper,
) -> Map<(i64, i64), Delivery> {
    Map::new(
        |key: (i64, i64)|
            v.journal.dom().contains(key) || (v.delivers(key, slave, master, now) && position_of_id(
                v.trades,
                key.0,
            ).unwrap() < n),
        |key: (i64, i64)|
            if v.delivers(key, slave, master, now) && position_of_id(v.trades, key.0).unwrap() < n {
                v.delivered(key, now)
            } else {
                v.journal[key]
            },
    )
}

/// Going through row `i` changes the journal for the pair of that row and
/// the slave, if the row is due, and for no other pair.
proof fn lemma_journal_step(v: DatabaseView, i: int, slave: i64, master: i64, now: DateTimeWrapper)
    requires
        v.wf(),
        0 <= i < v.trades.len(),
    ensures
        last_delivery(journal_after(v, i, slave, master, now), (v.trades[i].id.unwrap(), slave))
            == last_delivery(v.journal, (v.trades[i].id.unwrap(), slave)),
        journal_after(v, i + 1, slave, master, now) == if due(
            v.trades[i],
            v.journal,
            slave,
            master,
            now,
        ) {
            journal_after(v, i, slave, master, now).insert(
                (v.trades[i].id.unwrap(), slave),
                Delivery { status: v.trades[i].status, updated_at: now },
            )
        } else {
            journal_after(v, i, slave, master, now)
        },
{
    let id = v.trades[i].id.unwrap();
    let own = (id, slave);
    assert(v.trades[i].is_row());
    lemma_row_is_found(v, i);
    let before = journal_after(v, i, slave, master, now);
    let after = journal_after(v, i + 1, slave, master, now);
    let wanted = if due(v.trades[i], v.journal, slave, master, now) {
        before.insert(own, Delivery { status: v.trades[i].status, updated_at: now })
    } else {
        before
    };
    assert forall|key: (i64, i64)| key != own implies (v.delivers(key, slave, master, now)
        && position_of_id(v.trades, key.0).unwrap() < i + 1) == (v.delivers(key, slave, master, now)
        && position_of_id(v.trades, key.0).unwrap() < i) by {
        lemma_position_of_id(v.trades, key.0);
    }
    assert(after =~= wanted);
}

/// Synchronises `slave` with `master` at `now`: answers the trades that are
/// due, in the order of the rows, and records for each in the journal that it
/// was delivered with the status it has.
pub fn get_new_trades_for_slave(
    db: &mut Database,
    slave_account_id: i64,
    master_account_id: i64,
    now: DateTimeWrapper,
) -> (r: Vec<Trade>)
    requires
        old(db).wf(),
    ensures
        final(db).wf(),
        r@ == old(db)@.due_trades(slave_account_id, master_account_id, now),
        final(db)@ == old(db)@.synced(slave_account_id, master_account_id, now),
{
    let ghost v = db@;
    let ghost pred = due_pred(v.journal, slave_account_id, master_account_id, now);
    let mut out: Vec<Trade> = Vec::new();
    let mut i: usize = 0;
    proof {
        assert(v.trades.take(0) =~= Seq::empty());
        assert(Seq::<Trade>::empty().filter(pred) =~= Seq::empty()) by {
            reveal(Seq::filter);
        }
        assert(db.journal@ =~= journal_after(v, 0, slave_account_id, master_account_id, now)) by {
            assert forall|key: (i64, i64)| v.delivers(key, slave_account_id, master_account_id, now)
                implies position_of_id(v.trades, key.0).unwrap() >= 0 by {
                lemma_position_of_id(v.trades, key.0);
            }
        }
    }
    while i < db.trades.len()
        invariant
            v.wf(),
            i <= db.trades.len(),
            db.trades@ == v.trades,
            db.closures@ == v.closures,
            db.last_id == v.last_id,
            db.journal.wf(),
            db.journal@ == journal_after(v, i as int, slave_account_id, master_account_id, now),
            pred == due_pred(v.journal, slave_account_id, master_account_id, now),
            out@ == v.trades.take(i as int).filter(pred),
        decreases db.trades.len() - i,
    {
        proof {
            assert(v.trades[i as int].is_row());
            lemma_journal_step(v, i as int, slave_account_id, master_account_id, now);
            assert(v.trades.take(i as int + 1) =~= v.trades.take(i as int).push(v.trades[i as int]));
            v.trades.take(i as int).lemma_filter_push(v.trades[i as int], pred);
        }
        if let Some(id) = db.trades[i].id {
            let last = db.journal.last_delivery(id, slave_account_id);
            if is_due(&db.trades[i], last, master_account_id, now) {
                let status = db.trades[i].status;
                out.push(db.trades[i].clone());
                db.journal.record_delivery(id, slave_account_id, status, now);
            }
        }
        i += 1;
    }
    proof {
        assert(v.trades.take(v.trades.len() as int) =~= v.trades);
        let wanted = v.synced(slave_account_id, master_account_id, now);
        assert(db.journal@ =~= wanted.journal) by {
            assert forall|key: (i64, i64)| v.delivers(key, slave_account_id, master_account_id, now)
                implies position_of_id(v.trades, key.0).unwrap() < v.trades.len() by {
                lemma_position_of_id(v.trades, key.0);
            }
        }
        lemma_sync_keeps_wf(v, slave_account_id, master_account_id, now);
    }
    out
}

} // verus!
