//! Most-recent-first input history for prompt recall.

use vstd::prelude::*;
use std::collections::VecDeque;

verus! {

/// A session-scoped history of accepted inputs; the newest entry sits at
/// position zero, and nothing is ever evicted.
#[derive(Debug)]
pub struct HistoryDeque<T> {
    deque: VecDeque<T>,
}

impl<T> View for HistoryDeque<T> {
    type V = Seq<T>;

    closed spec fn view(&self) -> Seq<T> {
        self.deque@
    }
}

impl<T> HistoryDeque<T> {
    pub fn new() -> (h: Self)
        ensures
            h@.len() == 0,
    {
        HistoryDeque { deque: VecDeque::<T>::new() }
    }

    /// The entry `pos` steps back in time, if there is one.
    pub fn read(&self, pos: usize) -> (r: Option<&T>)
        ensures
            match r {
                Some(v) => pos < self@.len() && *v == self@[pos as int],
                None => pos >= self@.len(),
            },
    {
        if pos < self.deque.len() {
            Some(&self.deque[pos])
        } else {
            None
        }
    }

    /// Records a newly accepted input as the most recent entry.
    pub fn write(&mut self, val: T)
        ensures
            final(self)@ == seq![val] + old(self)@,
    {
        self.deque.push_front(val);
    }

    /// How many entries have been recorded.
    pub fn len(&self) -> (n: usize)
        ensures
            n == self@.len(),
    {
        self.deque.len()
    }
}

impl<T> Default for HistoryDeque<T> {
    /// An empty history.
    fn default() -> (h: Self)
        ensures
            h@.len() == 0,
    {
        Self::new()
    }
}

} // verus!
