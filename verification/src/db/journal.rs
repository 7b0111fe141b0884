use vstd::prelude::*;
use crate::models::datetime::DateTimeWrapper;
use crate::models::trade::TradeStatus;

verus! {

/// What was last delivered of a trade to a slave: the status the trade had
/// then, and when.
#[derive(Clone, Copy, Debug, PartialEq, Eq, Structural)]
pub struct Delivery {
    pub status: TradeStatus,
    pub updated_at: DateTimeWrapper,
}

/// One row of the journal: the last delivery of one trade to one slave.
#[derive(Clone, Copy, Debug, PartialEq, Eq, Structural)]
pub struct DeliveryEntry {
    pub master_trade_id: i64,
    pub slave_account_id: i64,
    pub status: TradeStatus,
    pub updated_at: DateTimeWrapper,
}

impl DeliveryEntry {
    /// The pair of trade and slave that the row is about.
    pub open spec fn key(self) -> (i64, i64) {
        (self.master_trade_id, self.slave_account_id)
    }

    /// What the row records of that pair.
    pub open spec fn delivery(self) -> Delivery {
        Delivery { status: self.status, updated_at: self.updated_at }
    }
}

/// Row `i` of `entries` is about the pair `key`.
pub open spec fn entry_at(entries: Seq<DeliveryEntry>, key: (i64, i64), i: int) -> bool {
    0 <= i < entries.len() && entries[i].key() == key
}

/// No two rows are about the same pair.
pub open spec fn distinct_pairs(entries: Seq<DeliveryEntry>) -> bool {
    forall|i: int, j: int|
        0 <= i < j < entries.len() ==> (#[trigger] entries[i]).key() != (#[trigger] entries[j]).key()
}

/// The journal that the rows make up: for each pair of trade and slave that
/// has a row, what that row records.
pub open spec fn journal_of(entries: Seq<DeliveryEntry>) -> Map<(i64, i64), Delivery> {
    Map::new(
        |key: (i64, i64)| exists|i: int| entry_at(entries, key, i),
        |key: (i64, i64)| entries[choose|i: int| entry_at(entries, key, i)].delivery(),
    )
}

/// Where no two rows share a pair, each row is what the journal holds for
/// its pair.
pub proof fn lemma_journal_row(entries: Seq<DeliveryEntry>, i: int)
    requires
        distinct_pairs(entries),
        0 <= i < entries.len(),
    ensures
        journal_of(entries).dom().contains(entries[i].key()),
        journal_of(entries)[entries[i].key()] == entries[i].delivery(),
{
    let key = entries[i].key();
    assert(entry_at(entries, key, i));
    let c = choose|c: int| entry_at(entries, key, c);
    if c < i {
        assert(entries[c].key() != entries[i].key());
    } else if i < c {
        assert(entries[i].key() != entries[c].key());
    }
}

/// The delivery journal: for each pair of trade and slave, what was last
/// delivered.
#[derive(Debug)]
pub struct DeliveryJournal {
    pub entries: Vec<DeliveryEntry>,
}

impl View for DeliveryJournal {
    type V = Map<(i64, i64), Delivery>;

    open spec fn view(&self) -> Map<(i64, i64), Delivery> {
        journal_of(self.entries@)
    }
}

impl DeliveryJournal {
    /// There is at most one row for each pair of trade and slave.
    pub open spec fn wf(&self) -> bool {
        distinct_pairs(self.entries@)
    }

    /// The journal in which nothing was delivered yet.
    pub fn new() -> (r: DeliveryJournal)
        ensures
            r.wf(),
            r@ == Map::<(i64, i64), Delivery>::empty(),
    {
        let r = DeliveryJournal { entries: Vec::new() };
        assert(r@ =~= Map::<(i64, i64), Delivery>::empty());
        r
    }

    /// The first row about the pair, if there is one.
    pub fn find(&self, trade_id: i64, slave_id: i64) -> (r: Option<usize>)
        ensures
            match r {
                Some(i) => entry_at(self.entries@, (trade_id, slave_id), i as int) && forall|j: int|
                    0 <= j < i ==> !entry_at(self.entries@, (trade_id, slave_id), j),
                None => !self@.dom().contains((trade_id, slave_id)),
            },
    {
        let mut i: usize = 0;
        while i < self.entries.len()
            invariant
                i <= self.entries.len(),
                forall|j: int| 0 <= j < i ==> !entry_at(self.entries@, (trade_id, slave_id), j),
            decreases self.entries.len() - i,
        {
            if self.entries[i].master_trade_id == trade_id && self.entries[i].slave_account_id
                == slave_id {
                return Some(i);
            }
            i += 1;
        }
        None
    }

    /// What was last delivered of the trade to the slave, if anything was.
    pub fn last_delivery(&self, trade_id: i64, slave_id: i64) -> (r: Option<Delivery>)
        requires
            self.wf(),
        ensures
            r == (if self@.dom().contains((trade_id, slave_id)) {
                Some(self@[(trade_id, slave_id)])
            } else {
                None
            }),
    {
        match self.find(trade_id, slave_id) {
            Some(i) => {
                proof {
                    lemma_journal_row(self.entries@, i as int);
                }
                let entry = &self.entries[i];
                Some(Delivery { status: entry.status, updated_at: entry.updated_at })
            },
            None => None,
        }
    }

    /// The status that the trade had when it was last delivered to the slave.
    pub fn last_delivered_status(&self, trade_id: i64, slave_id: i64) -> (r: Option<TradeStatus>)
        requires
            self.wf(),
        ensures
            r == (if self@.dom().contains((trade_id, slave_id)) {
                Some(self@[(trade_id, slave_id)].status)
            } else {
                None
            }),
    {
        match self.last_delivery(trade_id, slave_id) {
            Some(delivery) => Some(delivery.status),
            None => None,
        }
    }

    /// Records that the trade was delivered to the slave with `status` at
    /// `now`: the pair's row is written anew, or made where there was none.
    pub fn record_delivery(
        &mut self,
        trade_id: i64,
        slave_id: i64,
        status: TradeStatus,
        now: DateTimeWrapper,
    )
        requires
            old(self).wf(),
        ensures
            final(self).wf(),
            final(self)@ == old(self)@.insert(
                (trade_id, slave_id),
                Delivery { status, updated_at: now },
            ),
    {
        let entry = DeliveryEntry {
            master_trade_id: trade_id,
            slave_account_id: slave_id,
            status,
            updated_at: now,
        };
        let ghost before = self.entries@;
        let found = self.find(trade_id, slave_id);
        match found {
            Some(i) => {
                self.entries.set(i, entry);
            },
            None => {
                self.entries.push(entry);
            },
        }
        proof {
            let after = self.entries@;
            let key = (trade_id, slave_id);
            let place: int = match found {
                Some(i) => i as int,
                None => before.len() as int,
            };
            assert(after[place] == entry);
            assert(forall|j: int| 0 <= j < before.len() && j != place ==> after[j] == before[j]);
            assert forall|j: int| 0 <= j < before.len() && j != place implies (#[trigger] before[j]).key()
                != key by {
                if found is Some {
                    if j < place {
                        assert(before[j].key() != before[place].key());
                    } else {
                        assert(before[place].key() != before[j].key());
                    }
                } else {
                    assert(!entry_at(before, key, j));
                }
            }
            assert(distinct_pairs(after));
            let wanted = journal_of(before).insert(key, entry.delivery());
            assert forall|k: (i64, i64)| journal_of(after).dom().contains(k) <==> wanted.dom().contains(k) by {
                if journal_of(after).dom().contains(k) {
                    let j = choose|j: int| entry_at(after, k, j);
                    if j != place {
                        assert(entry_at(before, k, j));
                    }
                }
                if k != key && journal_of(before).dom().contains(k) {
                    let j = choose|j: int| entry_at(before, k, j);
                    assert(entry_at(after, k, j));
                }
                if k == key {
                    assert(entry_at(after, k, place));
                }
            }
            assert forall|k: (i64, i64)| wanted.dom().contains(k) implies journal_of(after)[k] == wanted[k] by {
                if k == key {
                    lemma_journal_row(after, place);
                } else {
                    let j = choose|j: int| entry_at(before, k, j);
                    lemma_journal_row(before, j);
                    assert(after[j] == before[j]);
                    lemma_journal_row(after, j);
                }
            }
            assert(journal_of(after) =~= wanted);
        }
    }
}

} // verus!
