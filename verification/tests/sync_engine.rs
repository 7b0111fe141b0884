use trade_copier::db;
use trade_copier::db::journal::{Delivery, DeliveryJournal};
use trade_copier::db::store::{ClosureRecord, Database, RECENCY_WINDOW_SECS};
use trade_copier::errors::{ApiError, StorageFault};
use trade_copier::handlers::trade::{
    add_or_update_trade, close_trade, get_new_trades_for_slave, update_tpsl,
};
use trade_copier::models::datetime::DateTimeWrapper;
use trade_copier::models::trade::{
    F64Bits, SlaveInfo, SubmitOutcome, TPSLUpdate, Trade, TradeClosure, TradeStatus,
};

fn num(x: f64) -> F64Bits {
    F64Bits { bits: x.to_bits() }
}

fn at(secs: i64) -> DateTimeWrapper {
    DateTimeWrapper { secs, nanos: 0 }
}

fn report(master: i64, ticket: i64, volume: f64) -> Trade {
    Trade {
        id: None,
        master_account_id: master,
        ticket,
        master_ticket: 0,
        symbol: "EURUSD".to_string(),
        trade_type: "buy".to_string(),
        volume: num(volume),
        open_price: num(1.1000),
        open_time: at(1_000),
        close_price: None,
        close_time: None,
        profit: None,
        status: TradeStatus::Open,
        take_profit: None,
        stop_loss: None,
        expiration: None,
        created_at: None,
        updated_at: None,
    }
}

fn closure(server_id: i64, ticket: i64, price: f64, profit: f64, when: i64) -> TradeClosure {
    TradeClosure {
        master_account_id: 1,
        ticket,
        server_id,
        symbol: "EURUSD".to_string(),
        close_price: num(price),
        close_time: at(when),
        profit: num(profit),
    }
}

fn pair(slave: i64, master: i64) -> SlaveInfo {
    SlaveInfo { slave_account_id: slave, master_account_id: master }
}

#[test]
fn scenario_open_then_closed_then_quiet() {
    let mut store = Database::new();
    let outcome = add_or_update_trade(&mut store, &report(1, 555, 1.0), at(10_000));
    assert!(matches!(outcome, Ok(SubmitOutcome::Inserted(1))));

    let first = get_new_trades_for_slave(&mut store, &pair(9, 1), at(10_005));
    assert_eq!(first.len(), 1);
    assert_eq!(first[0].id, Some(1));
    assert_eq!(first[0].ticket, 555);
    assert_eq!(first[0].symbol, "EURUSD");
    assert_eq!(first[0].volume, num(1.0));
    assert_eq!(first[0].open_price, num(1.1000));
    assert_eq!(first[0].status, TradeStatus::Open);
    assert_eq!(store.journal.last_delivered_status(1, 9), Some(TradeStatus::Open));

    let closed = close_trade(&mut store, &closure(0, 555, 1.1050, 50.0, 10_010), at(10_010));
    assert!(matches!(closed, Ok(1)));

    let second = get_new_trades_for_slave(&mut store, &pair(9, 1), at(10_015));
    assert_eq!(second.len(), 1);
    assert_eq!(second[0].id, Some(1));
    assert_eq!(second[0].status, TradeStatus::Closed);
    assert_eq!(second[0].close_price, Some(num(1.1050)));
    assert_eq!(second[0].profit, Some(num(50.0)));
    assert_eq!(second[0].close_time, Some(at(10_010)));
    assert_eq!(store.journal.last_delivered_status(1, 9), Some(TradeStatus::Closed));

    let third = get_new_trades_for_slave(&mut store, &pair(9, 1), at(10_020));
    assert!(third.is_empty());
    assert!(store.is_valid());
}

#[test]
fn same_ticket_twice_keeps_one_row_with_latest_values() {
    let mut store = Database::new();
    let first = add_or_update_trade(&mut store, &report(1, 42, 1.0), at(100));
    assert!(matches!(first, Ok(SubmitOutcome::Inserted(1))));
    let mut again = report(1, 42, 2.5);
    again.symbol = "GBPUSD".to_string();
    again.take_profit = Some(num(1.3));
    let second = add_or_update_trade(&mut store, &again, at(130));
    assert!(matches!(second, Ok(SubmitOutcome::Updated(1))));

    assert_eq!(store.trades.len(), 1);
    let row = &store.trades[0];
    assert_eq!(row.id, Some(1));
    assert_eq!(row.volume, num(2.5));
    assert_eq!(row.symbol, "GBPUSD");
    assert_eq!(row.take_profit, Some(num(1.3)));
    assert_eq!(row.created_at, Some(at(100)));
    assert_eq!(row.updated_at, Some(at(130)));
    assert_eq!(store.last_id, 1);
}

#[test]
fn new_row_is_open_whatever_the_report_says() {
    let mut store = Database::new();
    let mut closed = report(1, 7, 1.0);
    closed.status = TradeStatus::Closed;
    closed.close_price = Some(num(1.2));
    closed.close_time = Some(at(90));
    closed.profit = Some(num(3.0));
    closed.id = Some(999);
    let outcome = add_or_update_trade(&mut store, &closed, at(100));
    assert!(matches!(outcome, Ok(SubmitOutcome::Inserted(1))));
    let row = &store.trades[0];
    assert_eq!(row.id, Some(1));
    assert_eq!(row.status, TradeStatus::Open);
    assert_eq!(row.close_price, None);
    assert_eq!(row.close_time, None);
    assert_eq!(row.profit, None);
    assert_eq!(row.created_at, Some(at(100)));
    assert_eq!(row.updated_at, Some(at(100)));
}

#[test]
fn closed_trade_is_not_reopened_by_report_or_risk_update() {
    let mut store = Database::new();
    add_or_update_trade(&mut store, &report(1, 42, 1.0), at(100)).unwrap();
    close_trade(&mut store, &closure(1, 42, 1.2, 7.0, 110), at(110)).unwrap();

    let risk = TPSLUpdate {
        master_account_id: 1,
        server_id: 1,
        take_profit: num(1.5),
        stop_loss: num(0.9),
    };
    assert!(update_tpsl(&mut store, &risk, at(120)).is_ok());
    assert_eq!(store.trades[0].status, TradeStatus::Closed);
    assert_eq!(store.trades[0].take_profit, Some(num(1.5)));
    assert_eq!(store.trades[0].stop_loss, Some(num(0.9)));
    assert_eq!(store.trades[0].updated_at, Some(at(120)));

    let outcome = add_or_update_trade(&mut store, &report(1, 42, 3.0), at(130));
    assert!(matches!(outcome, Ok(SubmitOutcome::Updated(1))));
    assert_eq!(store.trades[0].status, TradeStatus::Closed);
    assert_eq!(store.trades[0].close_price, Some(num(1.2)));
    assert_eq!(store.trades[0].close_time, Some(at(110)));
    assert_eq!(store.trades[0].profit, Some(num(7.0)));
    assert_eq!(store.trades[0].volume, num(3.0));
    assert!(store.is_valid());
}

#[test]
fn report_of_a_closed_trade_closes_the_open_row() {
    let mut store = Database::new();
    add_or_update_trade(&mut store, &report(1, 42, 1.0), at(100)).unwrap();
    let mut closed = report(1, 42, 1.0);
    closed.status = TradeStatus::Closed;
    closed.close_price = Some(num(1.2));
    closed.close_time = Some(at(105));
    closed.profit = Some(num(3.0));
    let outcome = add_or_update_trade(&mut store, &closed, at(110));
    assert!(matches!(outcome, Ok(SubmitOutcome::Updated(1))));
    assert_eq!(store.trades[0].status, TradeStatus::Closed);
    assert_eq!(store.trades[0].close_price, Some(num(1.2)));
    assert_eq!(store.trades[0].close_time, Some(at(105)));
    assert_eq!(store.trades[0].profit, Some(num(3.0)));
    assert!(store.closures.is_empty());
}

#[test]
fn report_closed_without_facts_is_a_constraint_violation() {
    let mut store = Database::new();
    add_or_update_trade(&mut store, &report(1, 42, 1.0), at(100)).unwrap();
    let mut bad = report(1, 42, 9.0);
    bad.status = TradeStatus::Closed;
    bad.close_price = Some(num(1.2));
    let outcome = add_or_update_trade(&mut store, &bad, at(110));
    assert!(matches!(
        outcome,
        Err(ApiError::DatabaseError(StorageFault::ConstraintViolation))
    ));
    assert_eq!(store.trades[0].volume, num(1.0));
    assert_eq!(store.trades[0].updated_at, Some(at(100)));
    assert_eq!(store.trades[0].status, TradeStatus::Open);
}

#[test]
fn identities_run_out_at_the_largest() {
    let mut store = Database::new();
    store.last_id = i64::MAX - 1;
    let a = db::insert_master_trade(&mut store, &report(1, 1, 1.0), at(5));
    assert!(matches!(a, Ok(i64::MAX)));
    let b = db::insert_master_trade(&mut store, &report(1, 2, 1.0), at(6));
    assert!(matches!(
        b,
        Err(ApiError::DatabaseError(StorageFault::IdentitiesExhausted))
    ));
    assert_eq!(store.trades.len(), 1);
    assert_eq!(store.last_id, i64::MAX);
}

#[test]
fn undelivered_trade_stays_due_until_the_window_ends() {
    let mut store = Database::new();
    add_or_update_trade(&mut store, &report(1, 42, 1.0), at(1_000)).unwrap();
    add_or_update_trade(&mut store, &report(2, 43, 1.0), at(1_000)).unwrap();

    // Another slave polling does not use the trade up for slave 9.
    let other = get_new_trades_for_slave(&mut store, &pair(8, 1), at(1_010));
    assert_eq!(other.len(), 1);
    // A poll for another master does not deliver it either.
    let wrong_master = get_new_trades_for_slave(&mut store, &pair(9, 3), at(1_020));
    assert!(wrong_master.is_empty());
    assert_eq!(store.journal.last_delivered_status(1, 9), None);

    let mut probe = Database::new();
    add_or_update_trade(&mut probe, &report(1, 42, 1.0), at(1_000)).unwrap();
    let late = get_new_trades_for_slave(&mut probe, &pair(9, 1), at(1_000 + RECENCY_WINDOW_SECS + 1));
    assert!(late.is_empty());
    assert_eq!(probe.journal.last_delivered_status(1, 9), None);

    let edge = get_new_trades_for_slave(&mut store, &pair(9, 1), at(1_000 + RECENCY_WINDOW_SECS));
    assert_eq!(edge.len(), 1);
    assert_eq!(edge[0].id, Some(1));
    assert_eq!(store.journal.last_delivered_status(1, 9), Some(TradeStatus::Open));
    assert_eq!(store.journal.last_delivered_status(2, 9), None);
}

#[test]
fn window_is_sixty_seconds_to_the_nanosecond() {
    assert_eq!(RECENCY_WINDOW_SECS, 60);
    let touched = DateTimeWrapper { secs: 500, nanos: 250 };
    assert!(touched.is_within(&DateTimeWrapper { secs: 560, nanos: 250 }, 60));
    assert!(!touched.is_within(&DateTimeWrapper { secs: 560, nanos: 251 }, 60));
    assert!(touched.is_within(&DateTimeWrapper { secs: 559, nanos: 999_999_999 }, 60));
    assert!(touched.is_within(&DateTimeWrapper { secs: 100, nanos: 0 }, 60));
    assert!(touched.is_within(&DateTimeWrapper { secs: i64::MIN, nanos: 0 }, 60));
    assert!(!DateTimeWrapper { secs: i64::MIN, nanos: 0 }
        .is_within(&DateTimeWrapper { secs: i64::MAX, nanos: 0 }, 60));
    assert!(DateTimeWrapper { secs: 1, nanos: 5 }.is_before(&DateTimeWrapper { secs: 1, nanos: 6 }));
    assert!(!DateTimeWrapper { secs: 1, nanos: 6 }.is_before(&DateTimeWrapper { secs: 1, nanos: 6 }));
    assert!(DateTimeWrapper { secs: 0, nanos: 9 }.is_before(&DateTimeWrapper { secs: 1, nanos: 0 }));
    assert!(!DateTimeWrapper { secs: 2, nanos: 0 }.is_before(&DateTimeWrapper { secs: 1, nanos: 9 }));
}

#[test]
fn delivered_open_trade_is_sent_once_and_once_more_when_closed() {
    let mut store = Database::new();
    add_or_update_trade(&mut store, &report(1, 42, 1.0), at(1_000)).unwrap();
    let a = get_new_trades_for_slave(&mut store, &pair(9, 1), at(1_001));
    assert_eq!(a.len(), 1);
    assert_eq!(a[0].status, TradeStatus::Open);
    let b = get_new_trades_for_slave(&mut store, &pair(9, 1), at(1_001));
    assert!(b.is_empty());
    close_trade(&mut store, &closure(1, 42, 1.3, 4.0, 1_002), at(1_002)).unwrap();
    let c = get_new_trades_for_slave(&mut store, &pair(9, 1), at(1_003));
    assert_eq!(c.len(), 1);
    assert_eq!(c[0].status, TradeStatus::Closed);
    let d = get_new_trades_for_slave(&mut store, &pair(9, 1), at(1_004));
    assert!(d.is_empty());
}

#[test]
fn closing_transition_is_due_even_when_stamps_tie() {
    let mut store = Database::new();
    add_or_update_trade(&mut store, &report(1, 42, 1.0), at(1_000)).unwrap();
    get_new_trades_for_slave(&mut store, &pair(9, 1), at(1_005));
    close_trade(&mut store, &closure(1, 42, 1.3, 4.0, 1_005), at(1_005)).unwrap();
    let again = get_new_trades_for_slave(&mut store, &pair(9, 1), at(1_005));
    assert_eq!(again.len(), 1);
    assert_eq!(again[0].status, TradeStatus::Closed);
}

#[test]
fn risk_change_after_delivery_is_sent_again() {
    let mut store = Database::new();
    add_or_update_trade(&mut store, &report(1, 42, 1.0), at(1_000)).unwrap();
    get_new_trades_for_slave(&mut store, &pair(9, 1), at(1_001));
    let risk = TPSLUpdate {
        master_account_id: 1,
        server_id: 1,
        take_profit: num(1.5),
        stop_loss: num(0.9),
    };
    update_tpsl(&mut store, &risk, at(1_002)).unwrap();
    let again = get_new_trades_for_slave(&mut store, &pair(9, 1), at(1_003));
    assert_eq!(again.len(), 1);
    assert_eq!(again[0].take_profit, Some(num(1.5)));
    assert_eq!(again[0].status, TradeStatus::Open);

    // A change stamped with the very time of the last delivery is not seen.
    let risk2 = TPSLUpdate {
        master_account_id: 1,
        server_id: 1,
        take_profit: num(1.6),
        stop_loss: num(0.9),
    };
    update_tpsl(&mut store, &risk2, at(1_003)).unwrap();
    let tie = get_new_trades_for_slave(&mut store, &pair(9, 1), at(1_004));
    assert!(tie.is_empty());
}

#[test]
fn trades_come_in_row_order_and_only_of_that_master() {
    let mut store = Database::new();
    add_or_update_trade(&mut store, &report(1, 10, 1.0), at(100)).unwrap();
    add_or_update_trade(&mut store, &report(2, 11, 1.0), at(101)).unwrap();
    add_or_update_trade(&mut store, &report(1, 12, 1.0), at(102)).unwrap();
    let got = db::get_new_trades_for_slave(&mut store, 9, 1, at(103));
    assert_eq!(got.len(), 2);
    assert_eq!(got[0].id, Some(1));
    assert_eq!(got[0].ticket, 10);
    assert_eq!(got[1].id, Some(3));
    assert_eq!(got[1].ticket, 12);
    assert_eq!(
        store.journal.last_delivery(3, 9),
        Some(Delivery { status: TradeStatus::Open, updated_at: at(103) })
    );
    assert_eq!(store.journal.last_delivery(2, 9), None);
    assert_eq!(store.journal.entries.len(), 2);
}

#[test]
fn closing_by_ticket_alone_succeeds() {
    let mut store = Database::new();
    add_or_update_trade(&mut store, &report(1, 10, 1.0), at(100)).unwrap();
    add_or_update_trade(&mut store, &report(1, 777, 1.0), at(101)).unwrap();
    let done = close_trade(&mut store, &closure(0, 777, 1.4, 2.0, 105), at(106));
    assert!(matches!(done, Ok(2)));
    assert_eq!(store.trades[0].status, TradeStatus::Open);
    assert_eq!(store.trades[1].status, TradeStatus::Closed);
    assert_eq!(store.trades[1].close_price, Some(num(1.4)));
    assert_eq!(store.trades[1].close_time, Some(at(105)));
    assert_eq!(store.trades[1].profit, Some(num(2.0)));
    assert_eq!(store.trades[1].updated_at, Some(at(106)));
    assert_eq!(
        store.closures,
        vec![ClosureRecord {
            trade_id: 2,
            close_price: num(1.4),
            close_time: at(105),
            profit: num(2.0),
        }]
    );
}

#[test]
fn store_identity_wins_over_ticket() {
    let mut store = Database::new();
    add_or_update_trade(&mut store, &report(1, 10, 1.0), at(100)).unwrap();
    add_or_update_trade(&mut store, &report(1, 20, 1.0), at(101)).unwrap();
    // Identity 1 and ticket 20 name different rows: the identity decides.
    let done = close_trade(&mut store, &closure(1, 20, 1.4, 2.0, 105), at(106));
    assert!(matches!(done, Ok(1)));
    assert_eq!(store.trades[0].status, TradeStatus::Closed);
    assert_eq!(store.trades[1].status, TradeStatus::Open);
}

#[test]
fn closure_that_names_nothing_is_not_found() {
    let mut store = Database::new();
    add_or_update_trade(&mut store, &report(1, 10, 1.0), at(100)).unwrap();
    let missing = close_trade(&mut store, &closure(5, 11, 1.4, 2.0, 105), at(106));
    assert!(matches!(missing, Err(ApiError::NotFound)));
    assert_eq!(store.trades[0].status, TradeStatus::Open);
    assert_eq!(store.trades[0].updated_at, Some(at(100)));
    assert!(store.closures.is_empty());
}

#[test]
fn closing_twice_keeps_the_last_facts_and_logs_both() {
    let mut store = Database::new();
    add_or_update_trade(&mut store, &report(1, 10, 1.0), at(100)).unwrap();
    close_trade(&mut store, &closure(1, 10, 1.4, 2.0, 105), at(106)).unwrap();
    let again = close_trade(&mut store, &closure(1, 10, 1.5, 3.0, 107), at(108));
    assert!(matches!(again, Ok(1)));
    assert_eq!(store.trades[0].status, TradeStatus::Closed);
    assert_eq!(store.trades[0].close_price, Some(num(1.5)));
    assert_eq!(store.trades[0].close_time, Some(at(107)));
    assert_eq!(store.trades[0].profit, Some(num(3.0)));
    assert_eq!(store.trades[0].updated_at, Some(at(108)));
    assert_eq!(store.closures.len(), 2);
    assert_eq!(store.closures[0].close_price, num(1.4));
    assert_eq!(store.closures[1].close_price, num(1.5));
}

#[test]
fn risk_update_needs_identity_and_master_to_match() {
    let mut store = Database::new();
    add_or_update_trade(&mut store, &report(1, 10, 1.0), at(100)).unwrap();
    let wrong_master = TPSLUpdate {
        master_account_id: 2,
        server_id: 1,
        take_profit: num(1.5),
        stop_loss: num(0.9),
    };
    assert!(matches!(
        update_tpsl(&mut store, &wrong_master, at(101)),
        Err(ApiError::NotFound)
    ));
    let wrong_id = TPSLUpdate {
        master_account_id: 1,
        server_id: 2,
        take_profit: num(1.5),
        stop_loss: num(0.9),
    };
    assert!(matches!(
        db::update_trade_tpsl(&mut store, &wrong_id, at(101)),
        Err(ApiError::NotFound)
    ));
    assert_eq!(store.trades[0].take_profit, None);
    assert_eq!(store.trades[0].updated_at, Some(at(100)));
}

#[test]
fn row_level_writes_answer_not_found_for_a_missing_identity() {
    let mut store = Database::new();
    add_or_update_trade(&mut store, &report(1, 10, 1.0), at(100)).unwrap();
    assert!(matches!(
        db::update_trade(&mut store, 4, &report(1, 10, 2.0), at(101)),
        Err(ApiError::NotFound)
    ));
    assert!(matches!(
        db::close_trade(&mut store, 4, &closure(4, 10, 1.0, 1.0, 101), at(101)),
        Err(ApiError::NotFound)
    ));
    assert!(db::update_trade(&mut store, 1, &report(3, 10, 2.0), at(102)).is_ok());
    assert_eq!(store.trades[0].master_account_id, 3);
    assert_eq!(store.trades[0].volume, num(2.0));
    assert_eq!(store.trades.len(), 1);
}

#[test]
fn lookups_find_the_row_and_the_first_of_equal_tickets() {
    let mut store = Database::new();
    db::insert_master_trade(&mut store, &report(1, 10, 1.0), at(100)).unwrap();
    db::insert_master_trade(&mut store, &report(1, 10, 2.0), at(101)).unwrap();
    db::insert_master_trade(&mut store, &report(1, 30, 3.0), at(102)).unwrap();
    let by_id = db::get_trade_by_server_id(&store, 2).unwrap();
    assert_eq!(by_id.volume, num(2.0));
    assert_eq!(by_id.id, Some(2));
    let by_ticket = db::get_trade_by_ticket(&store, 10).unwrap();
    assert_eq!(by_ticket.id, Some(1));
    assert_eq!(by_ticket.volume, num(1.0));
    assert!(db::get_trade_by_server_id(&store, 4).is_none());
    assert!(db::get_trade_by_ticket(&store, 11).is_none());
    assert_eq!(db::lookup::find_by_id(&store.trades, 3), Some(2));
    assert_eq!(db::lookup::find_by_ticket(&store.trades, 10), Some(0));
}

#[test]
fn due_decision_case_by_case() {
    let mut row = report(1, 10, 1.0);
    row.id = Some(1);
    row.created_at = Some(at(100));
    row.updated_at = Some(at(100));
    let open_at = |t: i64| Some(Delivery { status: TradeStatus::Open, updated_at: at(t) });
    let closed_at = |t: i64| Some(Delivery { status: TradeStatus::Closed, updated_at: at(t) });
    assert!(db::is_due(&row, None, 1, at(100)));
    assert!(!db::is_due(&row, None, 2, at(100)));
    assert!(!db::is_due(&row, None, 1, at(161)));
    assert!(db::is_due(&row, None, 1, at(160)));
    assert!(db::is_due(&row, open_at(99), 1, at(101)));
    assert!(!db::is_due(&row, open_at(100), 1, at(101)));
    assert!(!db::is_due(&row, closed_at(100), 1, at(101)));
    row.status = TradeStatus::Closed;
    assert!(db::is_due(&row, open_at(100), 1, at(101)));
    assert!(!db::is_due(&row, closed_at(100), 1, at(101)));
    assert!(db::is_due(&row, closed_at(99), 1, at(101)));
    assert!(!db::is_due(&row, open_at(100), 1, at(161)));
    row.updated_at = None;
    assert!(!db::is_due(&row, None, 1, at(100)));
}

#[test]
fn journal_keeps_one_row_per_pair() {
    let mut journal = DeliveryJournal::new();
    assert_eq!(journal.last_delivered_status(1, 9), None);
    journal.record_delivery(1, 9, TradeStatus::Open, at(5));
    journal.record_delivery(1, 8, TradeStatus::Open, at(6));
    journal.record_delivery(1, 9, TradeStatus::Closed, at(7));
    assert_eq!(journal.entries.len(), 2);
    assert_eq!(journal.find(1, 9), Some(0));
    assert_eq!(journal.find(1, 8), Some(1));
    assert_eq!(journal.find(2, 9), None);
    assert_eq!(journal.last_delivered_status(1, 9), Some(TradeStatus::Closed));
    assert_eq!(
        journal.last_delivery(1, 9),
        Some(Delivery { status: TradeStatus::Closed, updated_at: at(7) })
    );
    assert_eq!(journal.last_delivered_status(1, 8), Some(TradeStatus::Open));
    assert_eq!(journal.last_delivered_status(9, 1), None);
}

#[test]
fn validity_check_tells_broken_stores() {
    let mut store = Database::new();
    assert!(store.is_valid());
    add_or_update_trade(&mut store, &report(1, 10, 1.0), at(100)).unwrap();
    add_or_update_trade(&mut store, &report(1, 11, 1.0), at(100)).unwrap();
    get_new_trades_for_slave(&mut store, &pair(9, 1), at(101));
    assert!(store.is_valid());

    // A journal row of a trade that is not there.
    store.journal.record_delivery(7, 9, TradeStatus::Open, at(102));
    assert!(!store.is_valid());
    store.journal.entries.pop();
    assert!(store.is_valid());

    // Delivered as closed while the trade is open.
    store.journal.record_delivery(1, 9, TradeStatus::Closed, at(102));
    assert!(!store.is_valid());
    store.journal.record_delivery(1, 9, TradeStatus::Open, at(102));
    assert!(store.is_valid());

    // Two journal rows for one pair.
    let twin = store.journal.entries[0];
    store.journal.entries.push(twin);
    assert!(!store.is_valid());
    store.journal.entries.pop();

    // Identities out of order, above the largest, or missing.
    store.trades.swap(0, 1);
    assert!(!store.is_valid());
    store.trades.swap(0, 1);
    store.last_id = 1;
    assert!(!store.is_valid());
    store.last_id = 2;
    store.trades[1].id = None;
    assert!(!store.is_valid());
    store.trades[1].id = Some(2);

    // A row whose closure facts disagree with its status.
    store.trades[0].profit = Some(num(1.0));
    assert!(!store.is_valid());
    store.trades[0].profit = None;
    assert!(store.is_valid());
}
