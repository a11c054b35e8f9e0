//! The queue between the feed and the engine: rows leave it in the order in
//! which they entered.

use crate::model::{rows_of, Tx, TxRow};
use std::collections::VecDeque;
use vstd::prelude::*;

verus! {

/// Rows of the feed that wait to be applied, oldest first.
pub struct TxQueue {
    q: VecDeque<Tx>,
}

impl View for TxQueue {
    type V = Seq<TxRow>;

    /// The waiting rows, oldest first.
    closed spec fn view(&self) -> Seq<TxRow> {
        rows_of(self.q@)
    }
}

impl TxQueue {
    /// A queue without rows.
    pub fn new() -> (queue: Self)
        ensures
            queue@ == Seq::<TxRow>::empty(),
    {
        let queue = TxQueue { q: VecDeque::new() };
        assert(queue@ =~= Seq::<TxRow>::empty());
        queue
    }

    /// Puts `tx` behind every row that waits.
    pub fn push(&mut self, tx: Tx)
        ensures
            final(self)@ == old(self)@.push(tx@),
    {
        self.q.push_back(tx);
        assert(self@ =~= old(self)@.push(tx@));
    }

    /// Takes the oldest row out, or returns `None` and leaves the queue as it
    /// is when no row waits.
    pub fn pop(&mut self) -> (tx: Option<Tx>)
        ensures
            old(self)@.len() == 0 ==> tx is None && final(self)@ == old(self)@,
            old(self)@.len() > 0 ==> tx is Some && tx->0@ == old(self)@[0] && final(self)@
                == old(self)@.drop_first(),
    {
        let tx = self.q.pop_front();
        assert(old(self)@.len() > 0 ==> self@ =~= old(self)@.drop_first());
        tx
    }

    /// How many rows wait.
    pub fn len(&self) -> (n: usize)
        ensures
            n == self@.len(),
    {
        self.q.len()
    }
}

} // verus!
