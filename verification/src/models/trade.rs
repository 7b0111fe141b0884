use vstd::prelude::*;
use crate::models::datetime::DateTimeWrapper;

verus! {

/// A binary64 number carried by its bit pattern. The engine stores and relays
/// such numbers and never computes on them.
#[derive(Clone, Copy, Debug, PartialEq, Eq, Structural)]
pub struct F64Bits {
    pub bits: u64,
}

/// Where a trade stands in its life. A trade starts open and may become
/// closed; it never goes back.
#[derive(Clone, Copy, Debug, PartialEq, Eq, Structural)]
pub enum TradeStatus {
    Open,
    Closed,
}

impl TradeStatus {
    /// The text that stands for the status in messages and in the store.
    pub open spec fn text(self) -> Seq<char> {
        match self {
            TradeStatus::Open => "open"@,
            TradeStatus::Closed => "closed"@,
        }
    }

    /// The status that `text` stands for, if it stands for one.
    pub open spec fn of_text(text: Seq<char>) -> Option<TradeStatus> {
        if text == "open"@ {
            Some(TradeStatus::Open)
        } else if text == "closed"@ {
            Some(TradeStatus::Closed)
        } else {
            None
        }
    }

    pub fn as_str(&self) -> (r: &'static str)
        ensures
            r@ == self.text(),
    {
        match self {
            TradeStatus::Open => "open",
            TradeStatus::Closed => "closed",
        }
    }

    pub fn parse(text: &str) -> (r: Option<TradeStatus>)
        ensures
            r == Self::of_text(text@),
    {
        let given = text.to_owned();
        if given == "open".to_owned() {
            Some(TradeStatus::Open)
        } else if given == "closed".to_owned() {
            Some(TradeStatus::Closed)
        } else {
            None
        }
    }
}

/// One trade of a master account: as a message, what the master reports; as a
/// row of the store, what the store knows.
#[derive(Debug)]
pub struct Trade {
    pub id: Option<i64>,
    pub master_account_id: i64,
    pub ticket: i64,
    pub master_ticket: i64,
    pub symbol: String,
    pub trade_type: String,
    pub volume: F64Bits,
    pub open_price: F64Bits,
    pub open_time: DateTimeWrapper,
    pub close_price: Option<F64Bits>,
    pub close_time: Option<DateTimeWrapper>,
    pub profit: Option<F64Bits>,
    pub status: TradeStatus,
    pub take_profit: Option<F64Bits>,
    pub stop_loss: Option<F64Bits>,
    pub expiration: Option<DateTimeWrapper>,
    pub created_at: Option<DateTimeWrapper>,
    pub updated_at: Option<DateTimeWrapper>,
}

impl Trade {
    /// The closure facts are recorded: price, time and profit are all there.
    pub open spec fn has_closure_facts(self) -> bool {
        self.close_price is Some && self.close_time is Some && self.profit is Some
    }

    /// No closure fact is recorded.
    pub open spec fn has_no_closure_fact(self) -> bool {
        self.close_price is None && self.close_time is None && self.profit is None
    }

    /// The closure facts are there if and only if the trade is closed.
    pub open spec fn consistent(self) -> bool {
        match self.status {
            TradeStatus::Open => self.has_no_closure_fact(),
            TradeStatus::Closed => self.has_closure_facts(),
        }
    }

    /// What a row of the store must satisfy: it has its identity and both
    /// stamps, and its closure facts agree with its status.
    pub open spec fn is_row(self) -> bool {
        self.id is Some && self.created_at is Some && self.updated_at is Some && self.consistent()
    }

    /// Whether the trade could be a row of the store.
    pub fn check_row(&self) -> (r: bool)
        ensures
            r == self.is_row(),
    {
        let facts = self.close_price.is_some() && self.close_time.is_some() && self.profit.is_some();
        let none = self.close_price.is_none() && self.close_time.is_none() && self.profit.is_none();
        let consistent = match self.status {
            TradeStatus::Open => none,
            TradeStatus::Closed => facts,
        };
        self.id.is_some() && self.created_at.is_some() && self.updated_at.is_some() && consistent
    }

    pub fn is_closed(&self) -> (r: bool)
        ensures
            r == (self.status is Closed),
    {
        match self.status {
            TradeStatus::Open => false,
            TradeStatus::Closed => true,
        }
    }

    /// Whether a trade that says it is closed lacks one of the closure facts.
    pub fn closes_without_facts(&self) -> (r: bool)
        ensures
            r == (self.status is Closed && !self.has_closure_facts()),
    {
        self.is_closed() && (self.close_price.is_none() || self.close_time.is_none()
            || self.profit.is_none())
    }
}

impl Trade {
    /// The row that the store makes of a trade it has not seen before: the
    /// trade as reported, with the identity `id`, open and without closure
    /// facts, made and last touched at `now`.
    pub open spec fn new_row(self, id: i64, now: DateTimeWrapper) -> Trade {
        Trade {
            id: Some(id),
            close_price: None,
            close_time: None,
            profit: None,
            status: TradeStatus::Open,
            created_at: Some(now),
            updated_at: Some(now),
            ..self
        }
    }

    /// The row `self` after the master has reported the trade again as
    /// `report`: everything is taken from the report but the identity and the
    /// time the row was made. A closed row stays closed, and keeps its closure
    /// facts unless the report is of a closed trade too.
    pub open spec fn merged(self, report: Trade, now: DateTimeWrapper) -> Trade {
        Trade {
            id: self.id,
            close_price: if report.status is Closed { report.close_price } else { self.close_price },
            close_time: if report.status is Closed { report.close_time } else { self.close_time },
            profit: if report.status is Closed { report.profit } else { self.profit },
            status: if self.status is Closed { TradeStatus::Closed } else { report.status },
            created_at: self.created_at,
            updated_at: Some(now),
            ..report
        }
    }

    /// The row `self` with new risk parameters, touched at `now`.
    pub open spec fn with_risk(self, take_profit: F64Bits, stop_loss: F64Bits, now: DateTimeWrapper) -> Trade {
        Trade {
            take_profit: Some(take_profit),
            stop_loss: Some(stop_loss),
            updated_at: Some(now),
            ..self
        }
    }

    /// The row `self` closed with the facts of `closure`, touched at `now`.
    pub open spec fn closed_by(self, closure: TradeClosure, now: DateTimeWrapper) -> Trade {
        Trade {
            close_price: Some(closure.close_price),
            close_time: Some(closure.close_time),
            profit: Some(closure.profit),
            status: TradeStatus::Closed,
            updated_at: Some(now),
            ..self
        }
    }

    pub fn to_new_row(&self, id: i64, now: DateTimeWrapper) -> (r: Trade)
        ensures
            r == self.new_row(id, now),
    {
        let mut row = self.clone();
        row.id = Some(id);
        row.close_price = None;
        row.close_time = None;
        row.profit = None;
        row.status = TradeStatus::Open;
        row.created_at = Some(now);
        row.updated_at = Some(now);
        row
    }

    pub fn to_merged(&self, report: &Trade, now: DateTimeWrapper) -> (r: Trade)
        ensures
            r == self.merged(*report, now),
    {
        let mut row = report.clone();
        row.id = self.id;
        if !report.is_closed() {
            row.close_price = self.close_price;
            row.close_time = self.close_time;
            row.profit = self.profit;
        }
        if self.is_closed() {
            row.status = TradeStatus::Closed;
        }
        row.created_at = self.created_at;
        row.updated_at = Some(now);
        row
    }

    pub fn to_with_risk(&self, take_profit: F64Bits, stop_loss: F64Bits, now: DateTimeWrapper) -> (r: Trade)
        ensures
            r == self.with_risk(take_profit, stop_loss, now),
    {
        let mut row = self.clone();
        row.take_profit = Some(take_profit);
        row.stop_loss = Some(stop_loss);
        row.updated_at = Some(now);
        row
    }

    pub fn to_closed_by(&self, closure: &TradeClosure, now: DateTimeWrapper) -> (r: Trade)
        ensures
            r == self.closed_by(*closure, now),
    {
        let mut row = self.clone();
        row.close_price = Some(closure.close_price);
        row.close_time = Some(closure.close_time);
        row.profit = Some(closure.profit);
        row.status = TradeStatus::Closed;
        row.updated_at = Some(now);
        row
    }
}

impl Clone for Trade {
    fn clone(&self) -> (r: Trade)
        ensures
            r == *self,
    {
        Trade {
            id: self.id,
            master_account_id: self.master_account_id,
            ticket: self.ticket,
            master_ticket: self.master_ticket,
            symbol: self.symbol.clone(),
            trade_type: self.trade_type.clone(),
            volume: self.volume,
            open_price: self.open_price,
            open_time: self.open_time,
            close_price: self.close_price,
            close_time: self.close_time,
            profit: self.profit,
            status: self.status,
            take_profit: self.take_profit,
            stop_loss: self.stop_loss,
            expiration: self.expiration,
            created_at: self.created_at,
            updated_at: self.updated_at,
        }
    }
}

/// What became of a trade that a master reported: a new row was made for it,
/// or the row that was there took the report. Either way the row's identity.
#[derive(Clone, Copy, Debug, PartialEq, Eq, Structural)]
pub enum SubmitOutcome {
    Inserted(i64),
    Updated(i64),
}

/// The pair a slave polls for: itself and the master it mirrors.
#[derive(Clone, Copy, Debug, PartialEq, Eq, Structural)]
pub struct SlaveInfo {
    pub slave_account_id: i64,
    pub master_account_id: i64,
}

/// The master's report that a trade has closed. The trade is named twice: by
/// the store's identity and by the broker's ticket.
#[derive(Debug)]
pub struct TradeClosure {
    pub master_account_id: i64,
    pub ticket: i64,
    pub server_id: i64,
    pub symbol: String,
    pub close_price: F64Bits,
    pub close_time: DateTimeWrapper,
    pub profit: F64Bits,
}

/// The master's report of new risk parameters for one of its trades.
#[derive(Clone, Copy, Debug, PartialEq, Eq, Structural)]
pub struct TPSLUpdate {
    pub master_account_id: i64,
    pub server_id: i64,
    pub take_profit: F64Bits,
    pub stop_loss: F64Bits,
}

} // verus!
