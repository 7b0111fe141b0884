use vstd::prelude::*;
use vstd::pervasive::unreached;
use crate::db::journal::{entry_at, lemma_journal_row, Delivery, DeliveryJournal};
use crate::db::lookup::{
    find_by_id, has_id, lemma_first_index_push, lemma_first_index_same, lemma_id_is_at,
    lemma_position_of_id, position_of_id,
};
use crate::errors::{ApiError, StorageFault};
use crate::models::datetime::DateTimeWrapper;
use crate::models::trade::{F64Bits, TPSLUpdate, Trade, TradeClosure, TradeStatus};

verus! {

/// For how many seconds after it was last touched a trade is considered for
/// delivery.
pub const RECENCY_WINDOW_SECS: i64 = 60;

/// One line of the closure log: that a trade was closed, and with which facts.
#[derive(Clone, Copy, Debug, PartialEq, Eq, Structural)]
pub struct ClosureRecord {
    pub trade_id: i64,
    pub close_price: F64Bits,
    pub close_time: DateTimeWrapper,
    pub profit: F64Bits,
}

/// The store: every trade the masters have reported, in the order in which
/// they came; the delivery journal; the log of closures; and the largest
/// identity given out so far.
#[derive(Debug)]
pub struct Database {
    pub trades: Vec<Trade>,
    pub journal: DeliveryJournal,
    pub closures: Vec<ClosureRecord>,
    pub last_id: i64,
}

/// What the store holds, as mathematics.
pub struct DatabaseView {
    pub trades: Seq<Trade>,
    pub journal: Map<(i64, i64), Delivery>,
    pub closures: Seq<ClosureRecord>,
    pub last_id: i64,
}

impl View for Database {
    type V = DatabaseView;

    open spec fn view(&self) -> DatabaseView {
        DatabaseView {
            trades: self.trades@,
            journal: self.journal@,
            closures: self.closures@,
            last_id: self.last_id,
        }
    }
}

/// What the journal holds for the pair `key`, if anything.
pub open spec fn last_delivery(journal: Map<(i64, i64), Delivery>, key: (i64, i64)) -> Option<Delivery> {
    if journal.dom().contains(key) {
        Some(journal[key])
    } else {
        None
    }
}

/// Whether the row `t` must be sent at `now` to a slave that mirrors
/// `master` and to which `last` was last delivered of it: the trade belongs to
/// the master, it was touched within the recency window, and the slave never
/// got it, or got it open while it is closed by now, or got it before it was
/// last touched.
pub open spec fn due_after(t: Trade, last: Option<Delivery>, master: i64, now: DateTimeWrapper) -> bool {
    match t.updated_at {
        Some(touched) => {
            &&& t.master_account_id == master
            &&& touched.within(now, RECENCY_WINDOW_SECS)
            &&& match last {
                None => true,
                Some(sent) => (sent.status is Open && t.status is Closed) || sent.updated_at.before(
                    touched,
                ),
            }
        },
        None => false,
    }
}

/// Whether the row `t` must be sent to `slave`, which mirrors `master`, at
/// `now`, given the journal.
pub open spec fn due(
    t: Trade,
    journal: Map<(i64, i64), Delivery>,
    slave: i64,
    master: i64,
    now: DateTimeWrapper,
) -> bool {
    match t.id {
        Some(id) => due_after(t, last_delivery(journal, (id, slave)), master, now),
        None => false,
    }
}

/// Tells the trades that are due.
pub open spec fn due_pred(
    journal: Map<(i64, i64), Delivery>,
    slave: i64,
    master: i64,
    now: DateTimeWrapper,
) -> spec_fn(Trade) -> bool {
    |t: Trade| due(t, journal, slave, master, now)
}

impl DatabaseView {
    /// The store in which nothing has happened yet.
    pub open spec fn empty() -> DatabaseView {
        DatabaseView {
            trades: Seq::empty(),
            journal: Map::empty(),
            closures: Seq::empty(),
            last_id: 0,
        }
    }

    /// Every row is a valid row, and the identities are positive, were given
    /// out already, and grow along the rows.
    pub open spec fn rows_valid(self) -> bool {
        &&& 0 <= self.last_id
        &&& forall|i: int|
            0 <= i < self.trades.len() ==> (#[trigger] self.trades[i]).is_row() && 0
                < self.trades[i].id.unwrap() <= self.last_id
        &&& forall|i: int, j: int|
            0 <= i < j < self.trades.len() ==> (#[trigger] self.trades[i]).id.unwrap() < (
            #[trigger] self.trades[j]).id.unwrap()
    }

    /// The journal's word on the pair `key` is borne out by the rows: the
    /// trade is there, and it is closed if it was delivered closed.
    pub open spec fn witnessed(self, key: (i64, i64)) -> bool {
        match position_of_id(self.trades, key.0) {
            Some(i) => self.journal[key].status is Closed ==> self.trades[i].status is Closed,
            None => false,
        }
    }

    /// What holds of the store at all times.
    pub open spec fn wf(self) -> bool {
        &&& self.rows_valid()
        &&& forall|key: (i64, i64)| #[trigger] self.journal.dom().contains(key) ==> self.witnessed(key)
    }

    /// The store with `row` in place `i`.
    pub open spec fn with_row(self, i: int, row: Trade) -> DatabaseView {
        DatabaseView { trades: self.trades.update(i, row), ..self }
    }

    /// What inserting a trade answers: the identity of the new row, or the
    /// fault that none is left.
    pub open spec fn insert_result(self) -> Result<i64, ApiError> {
        if self.last_id < i64::MAX {
            Ok((self.last_id + 1) as i64)
        } else {
            Err(ApiError::DatabaseError(StorageFault::IdentitiesExhausted))
        }
    }

    /// The store after `trade` was inserted at `now`.
    pub open spec fn inserted(self, trade: Trade, now: DateTimeWrapper) -> DatabaseView {
        if self.last_id < i64::MAX {
            DatabaseView {
                trades: self.trades.push(trade.new_row((self.last_id + 1) as i64, now)),
                last_id: (self.last_id + 1) as i64,
                ..self
            }
        } else {
            self
        }
    }

    /// What writing `report` over the row with identity `id` answers.
    pub open spec fn update_result(self, id: i64, report: Trade) -> Result<(), ApiError> {
        if position_of_id(self.trades, id) is None {
            Err(ApiError::NotFound)
        } else if report.status is Closed && !report.has_closure_facts() {
            Err(ApiError::DatabaseError(StorageFault::ConstraintViolation))
        } else {
            Ok(())
        }
    }

    /// The store after `report` was written over the row with identity `id`
    /// at `now`.
    pub open spec fn updated(self, id: i64, report: Trade, now: DateTimeWrapper) -> DatabaseView {
        match position_of_id(self.trades, id) {
            Some(i) => if self.update_result(id, report) is Ok {
                self.with_row(i, self.trades[i].merged(report, now))
            } else {
                self
            },
            None => self,
        }
    }

    /// The row whose risk parameters `update` is about: the row with that
    /// identity, if it belongs to that master.
    pub open spec fn risk_target(self, update: TPSLUpdate) -> Option<int> {
        match position_of_id(self.trades, update.server_id) {
            Some(i) => if self.trades[i].master_account_id == update.master_account_id {
                Some(i)
            } else {
                None
            },
            None => None,
        }
    }

    /// What applying `update` answers.
    pub open spec fn risk_result(self, update: TPSLUpdate) -> Result<(), ApiError> {
        if self.risk_target(update) is Some {
            Ok(())
        } else {
            Err(ApiError::NotFound)
        }
    }

    /// The store after `update` was applied at `now`.
    pub open spec fn with_risk(self, update: TPSLUpdate, now: DateTimeWrapper) -> DatabaseView {
        match self.risk_target(update) {
            Some(i) => self.with_row(
                i,
                self.trades[i].with_risk(update.take_profit, update.stop_loss, now),
            ),
            None => self,
        }
    }

    /// What closing the row with identity `id` answers.
    pub open spec fn close_result(self, id: i64) -> Result<(), ApiError> {
        if position_of_id(self.trades, id) is Some {
            Ok(())
        } else {
            Err(ApiError::NotFound)
        }
    }

    /// The store after the row with identity `id` was closed with the facts
    /// of `closure` at `now`: the row is closed, and the closure is logged.
    pub open spec fn closed(self, id: i64, closure: TradeClosure, now: DateTimeWrapper) -> DatabaseView {
        match position_of_id(self.trades, id) {
            Some(i) => DatabaseView {
                trades: self.trades.update(i, self.trades[i].closed_by(closure, now)),
                closures: self.closures.push(
                    ClosureRecord {
                        trade_id: id,
                        close_price: closure.close_price,
                        close_time: closure.close_time,
                        profit: closure.profit,
                    },
                ),
                ..self
            },
            None => self,
        }
    }

    /// The trades that must be sent to `slave`, which mirrors `master`, at
    /// `now`, in the order of the rows.
    pub open spec fn due_trades(self, slave: i64, master: i64, now: DateTimeWrapper) -> Seq<Trade> {
        self.trades.filter(due_pred(self.journal, slave, master, now))
    }

    /// Whether a synchronisation of `slave` with `master` at `now` delivers
    /// for the pair `key`: the pair is of that slave and of a trade that is
    /// due.
    pub open spec fn delivers(self, key: (i64, i64), slave: i64, master: i64, now: DateTimeWrapper) -> bool {
        key.1 == slave && match position_of_id(self.trades, key.0) {
            Some(i) => due(self.trades[i], self.journal, slave, master, now),
            None => false,
        }
    }

    /// What the journal holds for the pair `key` once it was delivered for
    /// at `now`.
    pub open spec fn delivered(self, key: (i64, i64), now: DateTimeWrapper) -> Delivery {
        Delivery {
            status: self.trades[position_of_id(self.trades, key.0).unwrap()].status,
            updated_at: now,
        }
    }

    /// The store after `slave` was synchronised with `master` at `now`: for
    /// every trade that was due the journal holds the status that was sent,
    /// and `now`.
    pub open spec fn synced(self, slave: i64, master: i64, now: DateTimeWrapper) -> DatabaseView {
        DatabaseView {
            journal: Map::new(
                |key: (i64, i64)|
                    self.journal.dom().contains(key) || self.delivers(key, slave, master, now),
                |key: (i64, i64)|
                    if self.delivers(key, slave, master, now) {
                        self.delivered(key, now)
                    } else {
                        self.journal[key]
                    },
            ),
            ..self
        }
    }
}

impl Database {
    /// What holds of the store at all times.
    pub open spec fn wf(&self) -> bool {
        self.journal.wf() && self@.wf()
    }

    /// The store in which nothing has happened yet.
    pub fn new() -> (db: Database)
        ensures
            db.wf(),
            db@ == DatabaseView::empty(),
    {
        let db = Database {
            trades: Vec::new(),
            journal: DeliveryJournal::new(),
            closures: Vec::new(),
            last_id: 0,
        };
        assert(db@.trades =~= Seq::empty());
        assert(db@.closures =~= Seq::empty());
        db
    }

    /// Whether the rows are valid rows with identities that are positive,
    /// not above the largest given out, and growing.
    fn check_rows(&self) -> (r: bool)
        ensures
            r == self@.rows_valid(),
    {
        if self.last_id < 0 {
            return false;
        }
        let mut last: i64 = 0;
        let mut i: usize = 0;
        while i < self.trades.len()
            invariant
                i <= self.trades.len(),
                0 <= last <= self.last_id,
                i == 0 ==> last == 0,
                i > 0 ==> self.trades@[i - 1].id == Some(last),
                forall|j: int|
                    0 <= j < i ==> (#[trigger] self.trades@[j]).is_row() && 0
                        < self.trades@[j].id.unwrap() <= last,
                forall|j: int, k: int|
                    0 <= j < k < i ==> (#[trigger] self.trades@[j]).id.unwrap() < (
                    #[trigger] self.trades@[k]).id.unwrap(),
            decreases self.trades.len() - i,
        {
            if !self.trades[i].check_row() {
                return false;
            }
            let id = match self.trades[i].id {
                Some(id) => id,
                None => unreached(),
            };
            if id <= last || id > self.last_id {
                proof {
                    if self@.rows_valid() {
                        assert(self@.trades[i as int].is_row());
                        if i > 0 {
                            assert(self@.trades[i - 1].id.unwrap() < self@.trades[i as int].id.unwrap());
                        }
                    }
                }
                return false;
            }
            last = id;
            i += 1;
        }
        true
    }

    /// Whether the journal's rows bear one another and the trades out: no
    /// pair has two rows, and each row is of a trade that is there, and that
    /// is closed if the row says it was delivered closed.
    fn check_journal(&self) -> (r: bool)
        ensures
            r == (self.journal.wf() && forall|key: (i64, i64)| #[trigger]
                self@.journal.dom().contains(key) ==> self@.witnessed(key)),
    {
        let entries = &self.journal.entries;
        let mut a: usize = 0;
        while a < entries.len()
            invariant
                a <= entries.len(),
                entries == &self.journal.entries,
                forall|x: int, y: int|
                    0 <= x < y < entries.len() && x < a ==> (#[trigger] entries@[x]).key() != (
                    #[trigger] entries@[y]).key(),
            decreases entries.len() - a,
        {
            let mut b: usize = a + 1;
            while b < entries.len()
                invariant
                    a < b <= entries.len(),
                    entries == &self.journal.entries,
                    forall|y: int| a < y < b ==> entries@[a as int].key() != (#[trigger] entries@[y]).key(),
                decreases entries.len() - b,
            {
                if entries[a].master_trade_id == entries[b].master_trade_id
                    && entries[a].slave_account_id == entries[b].slave_account_id {
                    proof {
                        assert(entries@[a as int].key() == entries@[b as int].key());
                    }
                    return false;
                }
                b += 1;
            }
            a += 1;
        }
        assert(self.journal.wf());
        let mut e: usize = 0;
        while e < entries.len()
            invariant
                e <= entries.len(),
                entries == &self.journal.entries,
                self.journal.wf(),
                forall|x: int| 0 <= x < e ==> self@.witnessed((#[trigger] entries@[x]).key()),
            decreases entries.len() - e,
        {
            proof {
                lemma_journal_row(entries@, e as int);
            }
            match find_by_id(&self.trades, entries[e].master_trade_id) {
                None => {
                    proof {
                        assert(!self@.witnessed(entries@[e as int].key()));
                    }
                    return false;
                },
                Some(k) => {
                    let delivered_closed = match entries[e].status {
                        TradeStatus::Open => false,
                        TradeStatus::Closed => true,
                    };
                    if delivered_closed && !self.trades[k].is_closed() {
                        proof {
                            assert(!self@.witnessed(entries@[e as int].key()));
                        }
                        return false;
                    }
                },
            }
            e += 1;
        }
        proof {
            assert forall|key: (i64, i64)| #[trigger] self@.journal.dom().contains(key) implies self@.witnessed(
                key,
            ) by {
                let x = choose|x: int| entry_at(entries@, key, x);
                assert(self@.witnessed(entries@[x].key()));
            }
        }
        true
    }

    /// Whether the store is valid. A store that was put together from
    /// elsewhere is checked with this before anything is asked of it.
    pub fn is_valid(&self) -> (r: bool)
        ensures
            r == self.wf(),
    {
        self.check_rows() && self.check_journal()
    }
}

/// In a valid store every row is found by its identity.
pub proof fn lemma_row_is_found(v: DatabaseView, i: int)
    requires
        v.rows_valid(),
        0 <= i < v.trades.len(),
    ensures
        position_of_id(v.trades, v.trades[i].id.unwrap()) == Some(i),
{
    let id = v.trades[i].id.unwrap();
    assert(v.trades[i].is_row());
    assert forall|j: int| 0 <= j < i implies (#[trigger] v.trades[j]).id != Some(id) by {
        assert(v.trades[j].is_row());
        assert(v.trades[j].id.unwrap() < v.trades[i].id.unwrap());
    }
    lemma_id_is_at(v.trades, id, i);
}

/// Putting another row in the place of a row keeps the store valid where the
/// new row is a valid row with the same identity and does not reopen the
/// trade; every identity is then found where it was.
pub proof fn lemma_replace_keeps_wf(v: DatabaseView, w: DatabaseView, i: int)
    requires
        v.wf(),
        0 <= i < v.trades.len(),
        w.trades == v.trades.update(i, w.trades[i]),
        w.journal == v.journal,
        w.last_id == v.last_id,
        w.trades[i].is_row(),
        w.trades[i].id == v.trades[i].id,
        v.trades[i].status is Closed ==> w.trades[i].status is Closed,
    ensures
        w.wf(),
        forall|id: i64| position_of_id(w.trades, id) == position_of_id(v.trades, id),
{
    assert forall|id: i64| position_of_id(w.trades, id) == position_of_id(v.trades, id) by {
        assert forall|j: int| 0 <= j < w.trades.len() implies has_id(id)(#[trigger] w.trades[j])
            == has_id(id)(v.trades[j]) by {}
        lemma_first_index_same(w.trades, v.trades, has_id(id));
    }
    assert forall|j: int| 0 <= j < w.trades.len() implies (#[trigger] w.trades[j]).is_row() && 0
        < w.trades[j].id.unwrap() <= w.last_id by {
        assert(v.trades[j].is_row());
    }
    assert forall|j: int, k: int| 0 <= j < k < w.trades.len() implies (#[trigger] w.trades[j]).id.unwrap()
        < (#[trigger] w.trades[k]).id.unwrap() by {
        assert(v.trades[j].id.unwrap() < v.trades[k].id.unwrap());
    }
    assert forall|key: (i64, i64)| #[trigger] w.journal.dom().contains(key) implies w.witnessed(key) by {
        assert(v.witnessed(key));
        assert(position_of_id(w.trades, key.0) == position_of_id(v.trades, key.0));
    }
}

/// Inserting a trade keeps the store valid, and every identity that was
/// there is found where it was.
pub proof fn lemma_insert_keeps_wf(v: DatabaseView, trade: Trade, now: DateTimeWrapper)
    requires
        v.wf(),
    ensures
        v.inserted(trade, now).wf(),
        forall|id: i64|
            position_of_id(v.trades, id) is Some ==> position_of_id(v.inserted(trade, now).trades, id)
                == position_of_id(v.trades, id),
{
    let w = v.inserted(trade, now);
    if v.last_id < i64::MAX {
        let row = trade.new_row((v.last_id + 1) as i64, now);
        assert forall|id: i64| position_of_id(v.trades, id) is Some implies position_of_id(w.trades, id)
            == position_of_id(v.trades, id) by {
            lemma_first_index_push(v.trades, row, has_id(id));
        }
        assert forall|j: int| 0 <= j < w.trades.len() implies (#[trigger] w.trades[j]).is_row() && 0
            < w.trades[j].id.unwrap() <= w.last_id by {
            if j < v.trades.len() {
                assert(v.trades[j].is_row());
            }
        }
        assert forall|j: int, k: int| 0 <= j < k < w.trades.len() implies (#[trigger] w.trades[j]).id.unwrap()
            < (#[trigger] w.trades[k]).id.unwrap() by {
            assert(v.trades[j].is_row());
            if k < v.trades.len() {
                assert(v.trades[j].id.unwrap() < v.trades[k].id.unwrap());
            }
        }
        assert forall|key: (i64, i64)| #[trigger] w.journal.dom().contains(key) implies w.witnessed(key) by {
            assert(v.witnessed(key));
            let i = position_of_id(v.trades, key.0).unwrap();
            lemma_position_of_id(v.trades, key.0);
            assert(w.trades[i] == v.trades[i]);
        }
    }
}

/// Synchronising keeps the store valid.
pub proof fn lemma_sync_keeps_wf(v: DatabaseView, slave: i64, master: i64, now: DateTimeWrapper)
    requires
        v.wf(),
    ensures
        v.synced(slave, master, now).wf(),
{
    let w = v.synced(slave, master, now);
    assert forall|key: (i64, i64)| #[trigger] w.journal.dom().contains(key) implies w.witnessed(key) by {
        if v.delivers(key, slave, master, now) {
            lemma_position_of_id(v.trades, key.0);
        } else {
            assert(v.journal.dom().contains(key));
            assert(v.witnessed(key));
        }
    }
}

} // verus!
