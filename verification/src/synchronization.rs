//! Buffering of the messages of blocks until every required kind of message of
//! a block has arrived; the lowest-numbered block that is ready is handed out first.

use crate::types::BlockInfo;
use std::collections::BTreeMap;
use std::sync::Arc;
use vstd::prelude::*;
use crate::ordered_keys::{lemma_entries_increasing, lemma_u64_keys_ordered};
use vstd::std_specs::btree::spec_btree_map_iter;
use vstd::std_specs::iter::IteratorSpec;

verus! {

/// The kinds of message aggregated per block.
#[derive(Debug, Clone, Copy, PartialEq, Eq, Hash, Structural)]
pub enum MessageType {
    Certs,
    Governance,
}

/// The messages of one block, at most one of each kind.
#[derive(Debug)]
pub struct AggregateBlock<M> {
    pub block_info: BlockInfo,
    pub certs: Option<Arc<M>>,
    pub governance: Option<Arc<M>>,
}

/// Whether a block holds a message of each required kind.
pub open spec fn block_ready<M>(b: AggregateBlock<M>, required: Seq<MessageType>) -> bool {
    forall|i: int| 0 <= i < required.len() ==> b.messages().contains_key(#[trigger] required[i])
}

impl<M> AggregateBlock<M> {
    /// The messages of the block, by kind.
    pub open spec fn messages(self) -> Map<MessageType, Arc<M>> {
        let m0 = match self.certs {
            Some(c) => Map::empty().insert(MessageType::Certs, c),
            None => Map::empty(),
        };
        match self.governance {
            Some(g) => m0.insert(MessageType::Governance, g),
            None => m0,
        }
    }

    /// The block with `msg` as its message of kind `kind`.
    pub open spec fn with_message(self, kind: MessageType, msg: Arc<M>) -> Self {
        match kind {
            MessageType::Certs => AggregateBlock {
                block_info: self.block_info,
                certs: Some(msg),
                governance: self.governance,
            },
            MessageType::Governance => AggregateBlock {
                block_info: self.block_info,
                certs: self.certs,
                governance: Some(msg),
            },
        }
    }

    /// A block with no message yet.
    pub open spec fn empty(block_info: BlockInfo) -> Self {
        AggregateBlock { block_info, certs: None, governance: None }
    }

    /// Adding a message sets it under its kind and keeps the block's info.
    pub proof fn lemma_with_message(self, kind: MessageType, msg: Arc<M>)
        ensures
            self.with_message(kind, msg).messages() == self.messages().insert(kind, msg),
            self.with_message(kind, msg).block_info == self.block_info,
            Self::empty(self.block_info).messages() == Map::<MessageType, Arc<M>>::empty(),
    {
        assert(self.with_message(kind, msg).messages() =~= self.messages().insert(kind, msg));
        assert(Self::empty(self.block_info).messages() =~= Map::<MessageType, Arc<M>>::empty());
    }

    pub fn new(block_info: BlockInfo) -> (r: Self)
        ensures
            r == Self::empty(block_info),
    {
        Self { block_info, certs: None, governance: None }
    }

    pub fn insert(&mut self, kind: MessageType, msg: Arc<M>)
        ensures
            *final(self) == old(self).with_message(kind, msg),
    {
        match kind {
            MessageType::Certs => {
                self.certs = Some(msg);
            },
            MessageType::Governance => {
                self.governance = Some(msg);
            },
        }
    }

    /// The message of kind `kind`, if the block has one.
    pub fn get(&self, kind: MessageType) -> (r: Option<&Arc<M>>)
        ensures
            match r {
                Some(m) => self.messages().contains_key(kind) && *m == self.messages()[kind],
                None => !self.messages().contains_key(kind),
            },
    {
        match kind {
            MessageType::Certs => match &self.certs {
                Some(c) => Some(c),
                None => None,
            },
            MessageType::Governance => match &self.governance {
                Some(g) => Some(g),
                None => None,
            },
        }
    }

    /// Whether the block holds a message of each kind in `required`.
    pub fn is_ready(&self, required: &[MessageType]) -> (r: bool)
        ensures
            r == block_ready(*self, required@),
    {
        let mut i: usize = 0;
        while i < required.len()
            invariant
                i <= required@.len(),
                forall|j: int|
                    0 <= j < i ==> self.messages().contains_key(#[trigger] required@[j]),
            decreases required@.len() - i,
        {
            if self.get(required[i]).is_none() {
                return false;
            }
            i = i + 1;
        }
        true
    }
}

/// Buffers blocks until all required messages of a block are available.
pub struct MessageSynchronizer<M> {
    pending: BTreeMap<u64, AggregateBlock<M>>,
    required: Vec<MessageType>,
}

impl<M> MessageSynchronizer<M> {
    /// The buffered blocks, by number.
    pub closed spec fn blocks(&self) -> Map<u64, AggregateBlock<M>> {
        self.pending@
    }

    /// The kinds of message every block must have.
    pub closed spec fn required(&self) -> Seq<MessageType> {
        self.required@
    }

    /// Each buffered block is filed under its own number.
    pub open spec fn wf(&self) -> bool {
        forall|n: u64| #[trigger] self.blocks().contains_key(n) ==> self.blocks()[n].block_info.number == n
    }

    pub fn new(required: Vec<MessageType>) -> (r: Self)
        ensures
            r.wf(),
            r.blocks() == Map::<u64, AggregateBlock<M>>::empty(),
            r.required() == required@,
    {
        Self { pending: BTreeMap::new(), required }
    }

    /// Files `msg` as the message of kind `kind` of the block described by
    /// `bi`, buffering the block if it was not buffered yet.
    pub fn insert(&mut self, bi: BlockInfo, kind: MessageType, msg: Arc<M>)
        requires
            old(self).wf(),
        ensures
            final(self).wf(),
            final(self).required() == old(self).required(),
            final(self).blocks() == old(self).blocks().insert(
                bi.number,
                if old(self).blocks().contains_key(bi.number) {
                    old(self).blocks()[bi.number].with_message(kind, msg)
                } else {
                    AggregateBlock::empty(bi).with_message(kind, msg)
                },
            ),
    {
        proof {
            lemma_u64_keys_ordered();
        }
        let n = bi.number;
        let mut b = match self.pending.remove(&n) {
            Some(b) => b,
            None => AggregateBlock::new(bi),
        };
        proof {
            if old(self).blocks().contains_key(n) {
                old(self).blocks()[n].lemma_with_message(kind, msg);
            } else {
                AggregateBlock::<M>::empty(bi).lemma_with_message(kind, msg);
            }
        }
        b.insert(kind, msg);
        self.pending.insert(n, b);
        assert(self.pending@ =~= old(self).blocks().insert(n, b));
    }

    /// The number of the lowest-numbered buffered block that holds every
    /// required message, if there is one.
    fn first_ready_number(&self) -> (r: Option<u64>)
        requires
            self.wf(),
        ensures
            match r {
                Some(n) => self.blocks().contains_key(n) && block_ready(
                    self.blocks()[n],
                    self.required(),
                ) && forall|j: u64|
                    #[trigger] self.blocks().contains_key(j) && j < n ==> !block_ready(
                        self.blocks()[j],
                        self.required(),
                    ),
                None => forall|j: u64|
                    #[trigger] self.blocks().contains_key(j) ==> !block_ready(
                        self.blocks()[j],
                        self.required(),
                    ),
            },
    {
        proof {
            lemma_u64_keys_ordered();
        }
        let it0 = self.pending.iter();
        let ghost s = it0.remaining();
        proof {
            lemma_entries_increasing(s);
        }
        for kv in it: it0
            invariant
                it.seq() == s,
                s == spec_btree_map_iter(&self.pending).remaining(),
                forall|i: int, j: int| 0 <= i < j < s.len() ==> *s[i].0 < *s[j].0,
                forall|i: int|
                    0 <= i < it.index() ==> !block_ready(*(#[trigger] s[i]).1, self.required@),
        {
            let (k, b) = kv;
            if b.is_ready(self.required.as_slice()) {
                proof {
                    let idx = it.index() as int;
                    assert(kv == s[idx]);
                    assert(self.pending@.contains_key(*s[idx].0));
                    assert forall|j: u64|
                        #[trigger] self.blocks().contains_key(j) && j < *k implies !block_ready(
                        self.blocks()[j],
                        self.required(),
                    ) by {
                        assert(s.contains((&j, &self.pending@[j])));
                        let p = choose|p: int| 0 <= p < s.len() && s[p] == (&j, &self.pending@[j]);
                        if p >= idx {
                            assert(*s[p].0 >= *s[idx].0);
                        }
                    }
                }
                return Some(*k);
            }
        }
        proof {
            assert forall|j: u64| #[trigger] self.blocks().contains_key(j) implies !block_ready(
                self.blocks()[j],
                self.required(),
            ) by {
                assert(s.contains((&j, &self.pending@[j])));
            }
        }
        None
    }

    /// Hands out the lowest-numbered buffered block that holds every required
    /// message, removing it from the buffer; hands out nothing where no
    /// buffered block is ready.
    pub fn take_ready(&mut self) -> (r: Option<AggregateBlock<M>>)
        requires
            old(self).wf(),
        ensures
            final(self).wf(),
            final(self).required() == old(self).required(),
            match r {
                Some(b) => {
                    let n = b.block_info.number;
                    &&& old(self).blocks().contains_key(n)
                    &&& old(self).blocks()[n] == b
                    &&& block_ready(b, old(self).required())
                    &&& forall|j: u64|
                        #[trigger] old(self).blocks().contains_key(j) && j < n ==> !block_ready(
                            old(self).blocks()[j],
                            old(self).required(),
                        )
                    &&& final(self).blocks() == old(self).blocks().remove(n)
                },
                None => (forall|j: u64|
                    #[trigger] old(self).blocks().contains_key(j) ==> !block_ready(
                        old(self).blocks()[j],
                        old(self).required(),
                    )) && final(self).blocks() == old(self).blocks(),
            },
    {
        proof {
            lemma_u64_keys_ordered();
        }
        match self.first_ready_number() {
            Some(n) => {
                let r = self.pending.remove(&n);
                assert(self.pending@ =~= old(self).blocks().remove(n));
                r
            },
            None => None,
        }
    }

    /// The numbers of the buffered blocks that still miss a required message,
    /// in increasing order.
    pub fn waiting_for(&self) -> (r: Vec<u64>)
        requires
            self.wf(),
        ensures
            forall|i: int, j: int| 0 <= i < j < r@.len() ==> r@[i] < r@[j],
            forall|n: u64|
                r@.contains(n) <==> (#[trigger] self.blocks().contains_key(n) && !block_ready(
                    self.blocks()[n],
                    self.required(),
                )),
    {
        proof {
            lemma_u64_keys_ordered();
        }
        let it0 = self.pending.iter();
        let ghost s = it0.remaining();
        proof {
            lemma_entries_increasing(s);
        }
        let mut r: Vec<u64> = Vec::new();
        for kv in it: it0
            invariant
                it.seq() == s,
                s == spec_btree_map_iter(&self.pending).remaining(),
                forall|i: int, j: int| 0 <= i < j < s.len() ==> *s[i].0 < *s[j].0,
                forall|i: int, j: int| 0 <= i < j < r@.len() ==> r@[i] < r@[j],
                it.index() < s.len() ==> forall|i: int|
                    0 <= i < r@.len() ==> #[trigger] r@[i] < *s[it.index() as int].0,
                forall|n: u64|
                    r@.contains(n) <==> exists|p: int|
                        0 <= p < it.index() && *(#[trigger] s[p]).0 == n && !block_ready(
                            *s[p].1,
                            self.required@,
                        ),
        {
            let (k, b) = kv;
            let ghost idx = it.index() as int;
            let ghost r0 = r@;
            proof {
                assert(kv == s[idx]);
            }
            if !b.is_ready(self.required.as_slice()) {
                r.push(*k);
                proof {
                    assert forall|i: int, j: int| 0 <= i < j < r@.len() implies r@[i] < r@[j] by {
                        if j == r0.len() {
                            assert(r@[i] == r0[i]);
                        } else {
                            assert(r@[i] == r0[i] && r@[j] == r0[j]);
                        }
                    }
                    if idx + 1 < s.len() {
                        assert forall|i: int| 0 <= i < r@.len() implies #[trigger] r@[i] < *s[idx
                            + 1].0 by {
                            if i < r0.len() {
                                assert(r@[i] == r0[i]);
                            }
                        }
                    }
                    assert forall|n: u64|
                        r@.contains(n) <==> exists|p: int|
                            0 <= p < idx + 1 && *(#[trigger] s[p]).0 == n && !block_ready(
                                *s[p].1,
                                self.required@,
                            ) by {
                        if r@.contains(n) {
                            let i = choose|i: int| 0 <= i < r@.len() && r@[i] == n;
                            if i < r0.len() {
                                assert(r0[i] == n);
                                assert(r0.contains(n));
                            } else {
                                assert(*s[idx].0 == n);
                            }
                        }
                        if exists|p: int|
                            0 <= p < idx + 1 && *(#[trigger] s[p]).0 == n && !block_ready(
                                *s[p].1,
                                self.required@,
                            ) {
                            let p = choose|p: int|
                                0 <= p < idx + 1 && *(#[trigger] s[p]).0 == n && !block_ready(
                                    *s[p].1,
                                    self.required@,
                                );
                            if p < idx {
                                assert(r0.contains(n));
                                let i = choose|i: int| 0 <= i < r0.len() && r0[i] == n;
                                assert(r@[i] == n);
                            } else {
                                assert(r@[r0.len() as int] == n);
                            }
                        }
                    }
                }
            } else {
                proof {
                    assert forall|n: u64|
                        r@.contains(n) <==> exists|p: int|
                            0 <= p < idx + 1 && *(#[trigger] s[p]).0 == n && !block_ready(
                                *s[p].1,
                                self.required@,
                            ) by {
                        if exists|p: int|
                            0 <= p < idx + 1 && *(#[trigger] s[p]).0 == n && !block_ready(
                                *s[p].1,
                                self.required@,
                            ) {
                            let p = choose|p: int|
                                0 <= p < idx + 1 && *(#[trigger] s[p]).0 == n && !block_ready(
                                    *s[p].1,
                                    self.required@,
                                );
                            assert(p != idx);
                        }
                    }
                }
            }
        }
        proof {
            assert forall|n: u64|
                r@.contains(n) <==> (#[trigger] self.blocks().contains_key(n) && !block_ready(
                    self.blocks()[n],
                    self.required(),
                )) by {
                if self.blocks().contains_key(n) {
                    assert(s.contains((&n, &self.pending@[n])));
                    let p = choose|p: int| 0 <= p < s.len() && s[p] == (&n, &self.pending@[n]);
                    assert(*s[p].0 == n);
                }
                if r@.contains(n) {
                    let p = choose|p: int|
                        0 <= p < s.len() && *(#[trigger] s[p]).0 == n && !block_ready(
                            *s[p].1,
                            self.required@,
                        );
                    assert(self.pending@.contains_key(*s[p].0));
                }
            }
        }
        r
    }
}

} // verus!
