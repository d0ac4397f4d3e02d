//! A history of committed states by block number, from which a rollback
//! restores the state committed before a given block.

use crate::drep_state::{DRepStorageConfig, State, StateView};
use crate::types::BlockInfo;
use vstd::prelude::*;

verus! {

/// States that a history can hold: they can be copied, and there is a blank one.
pub trait Snapshot: View + Sized {
    /// Whether the state is well formed.
    spec fn valid(&self) -> bool;

    /// The model of the blank state.
    spec fn blank() -> Self::V;

    /// A copy of the state.
    fn snapshot(&self) -> (r: Self)
        requires
            self.valid(),
        ensures
            r.valid(),
            r@ == self@,
    ;

    /// The blank state.
    fn fresh() -> (r: Self)
        ensures
            r.valid(),
            r@ == Self::blank(),
    ;
}

impl Snapshot for State {
    open spec fn valid(&self) -> bool {
        self.wf()
    }

    open spec fn blank() -> StateView {
        StateView {
            config: DRepStorageConfig {
                store_info: false,
                store_delegators: false,
                store_metadata: false,
                store_updates: false,
                store_votes: false,
            },
            dreps: Map::empty(),
            historical: None,
        }
    }

    fn snapshot(&self) -> (r: Self) {
        self.duplicate()
    }

    fn fresh() -> (r: Self) {
        State::default()
    }
}

/// The committed history with the entries of blocks numbered `n` or later
/// removed from its end.
pub open spec fn drop_from<V>(h: Seq<(u64, V)>, n: u64) -> Seq<(u64, V)>
    decreases h.len(),
{
    if h.len() > 0 && h.last().0 >= n {
        drop_from(h.drop_last(), n)
    } else {
        h
    }
}

/// The current state of a history: that of its last entry, or the blank one.
pub open spec fn current_of<S: Snapshot>(h: Seq<(u64, S::V)>) -> S::V {
    if h.len() == 0 {
        S::blank()
    } else {
        h.last().1
    }
}

/// States committed block by block.
pub struct StateHistory<S> {
    module: String,
    entries: Vec<(u64, S)>,
}

impl<S: Snapshot> StateHistory<S> {
    /// The committed entries, oldest first: block number and state model.
    pub closed spec fn model(&self) -> Seq<(u64, S::V)> {
        self.entries@.map_values(|e: (u64, S)| (e.0, e.1@))
    }

    /// The name of the module whose states the history holds.
    pub closed spec fn name(&self) -> Seq<char> {
        self.module@
    }

    /// Every committed state is well formed.
    pub closed spec fn wf(&self) -> bool {
        forall|i: int| 0 <= i < self.entries@.len() ==> (#[trigger] self.entries@[i]).1.valid()
    }

    pub fn new(module: &str) -> (r: Self)
        ensures
            r.wf(),
            r.model() == Seq::<(u64, S::V)>::empty(),
            r.name() == module@,
    {
        let r = StateHistory { module: module.to_owned(), entries: Vec::new() };
        assert(r.model() =~= Seq::<(u64, S::V)>::empty());
        r
    }

    /// The last committed state, if any.
    pub fn current(&self) -> (r: Option<&S>)
        requires
            self.wf(),
        ensures
            match r {
                Some(s) => self.model().len() > 0 && s@ == self.model().last().1 && s.valid(),
                None => self.model().len() == 0,
            },
    {
        let n = self.entries.len();
        if n == 0 {
            None
        } else {
            Some(&self.entries[n - 1].1)
        }
    }

    /// A copy of the last committed state, or the blank state.
    pub fn get_current_state(&self) -> (r: S)
        requires
            self.wf(),
        ensures
            r.valid(),
            r@ == current_of::<S>(self.model()),
    {
        match self.current() {
            Some(s) => s.snapshot(),
            None => S::fresh(),
        }
    }

    /// A copy of the last committed state, or the state that `init` makes.
    pub fn get_or_init_with<F: FnOnce() -> S>(&self, init: F) -> (r: S)
        requires
            self.wf(),
            self.model().len() == 0 ==> call_requires(init, ()),
        ensures
            self.model().len() > 0 ==> r.valid() && r@ == self.model().last().1,
            self.model().len() == 0 ==> call_ensures(init, (), r),
    {
        match self.current() {
            Some(s) => s.snapshot(),
            None => init(),
        }
    }

    /// Records `state` as the state after `block`.
    pub fn commit(&mut self, block: &BlockInfo, state: S)
        requires
            old(self).wf(),
            state.valid(),
        ensures
            final(self).wf(),
            final(self).model() == old(self).model().push((block.number, state@)),
            final(self).name() == old(self).name(),
    {
        let ghost st = state@;
        self.entries.push((block.number, state));
        assert(self.model() =~= old(self).model().push((block.number, st)));
    }

    /// Forgets the states of `block` and of the blocks after it, and returns a
    /// copy of the state committed before it (or the blank state).
    pub fn get_rolled_back_state(&mut self, block: &BlockInfo) -> (r: S)
        requires
            old(self).wf(),
        ensures
            final(self).wf(),
            final(self).model() == drop_from(old(self).model(), block.number),
            final(self).name() == old(self).name(),
            r.valid(),
            r@ == current_of::<S>(final(self).model()),
    {
        while self.entries.len() > 0 && self.entries[self.entries.len() - 1].0 >= block.number
            invariant
                self.wf(),
                self.name() == old(self).name(),
                drop_from(self.model(), block.number) == drop_from(old(self).model(), block.number),
            decreases self.entries@.len(),
        {
            let ghost m = self.model();
            let _ = self.entries.pop();
            assert(self.model() =~= m.drop_last());
        }
        self.get_current_state()
    }
}

} // verus!
