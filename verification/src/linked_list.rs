//! The transaction log: a singly linked chain of payload nodes with a head
//! handle, a tail handle, and a length counter.
//!
//! Both the chain (through the previous node's `next` link) and the tail
//! handle must be able to reach the last node, and `append` must rewrite that
//! node's `next` link through the tail handle. The nodes therefore live in an
//! arena, and every link — `head`, `tail`, and each node's `next` — is a
//! stable index into it. Rewiring a link is a write through an index, and
//! popping a node empties its arena slot, so that exactly the chain owns the
//! live nodes: no reference to a popped node survives anywhere.

use vstd::prelude::*;

verus! {

/// One entry of the log: a payload and the arena index of its successor, or
/// `None` if it is the last entry of the chain.
struct Node {
    value: String,
    next: Option<usize>,
}

impl Node {
    /// A fresh, not yet linked node holding `value`.
    fn new(value: String) -> (node: Node)
        ensures
            node.value == value,
            node.next is None,
    {
        Node { value, next: None }
    }
}

/// An append-only, pop-from-front log of strings.
///
/// Abstractly the log is the sequence of its payloads, first (head) to last
/// (tail): that sequence is the log's view. `length` is the number of entries
/// and may be read at any time; the other fields are the arena of nodes, the
/// index of the first and of the last entry, and the ghost sequence of arena
/// indices that makes the chain's shape available to proofs.
pub struct TransactionLog {
    slots: Vec<Option<Node>>,
    head: Option<usize>,
    tail: Option<usize>,
    pub length: u64,
    chain: Ghost<Seq<usize>>,
}

impl View for TransactionLog {
    type V = Seq<Seq<char>>;

    closed spec fn view(&self) -> Seq<Seq<char>> {
        Seq::new(
            self.chain@.len(),
            |k: int| self.slots@[self.chain@[k] as int]->Some_0.value@,
        )
    }
}

impl TransactionLog {
    /// The value of the public `length` counter, for use in contracts.
    pub closed spec fn spec_length(self) -> u64 {
        self.length
    }

    /// Structural soundness of the log:
    /// - `length` counts the entries of the chain;
    /// - the chain's indices address distinct, occupied arena slots;
    /// - following `next` links from the head visits exactly the chain and
    ///   reaches the tail in `length - 1` steps, and the tail node has no
    ///   successor;
    /// - `head` and `tail` are both absent exactly when the log is empty;
    /// - every arena slot off the chain is empty: a popped node has no
    ///   remaining owner anywhere.
    pub closed spec fn well_formed(self) -> bool {
        let ch = self.chain@;
        let slots = self.slots@;
        &&& self.length == ch.len()
        &&& (forall|k: int| 0 <= k < ch.len() ==> #[trigger] ch[k] < slots.len())
        &&& (forall|k: int| 0 <= k < ch.len() ==> slots[#[trigger] ch[k] as int] is Some)
        &&& (forall|j: int, k: int|
            0 <= j < k < ch.len() ==> #[trigger] ch[j] != #[trigger] ch[k])
        &&& (forall|k: int|
            0 <= k < ch.len() - 1 ==> slots[#[trigger] ch[k] as int]->Some_0.next == Some(
                ch[k + 1],
            ))
        &&& (forall|i: usize| i < slots.len() && !ch.contains(i) ==> slots[i as int] is None)
        &&& if ch.len() == 0 {
            self.head is None && self.tail is None
        } else {
            &&& self.head == Some(ch[0])
            &&& self.tail == Some(ch[ch.len() - 1])
            &&& slots[ch[ch.len() - 1] as int]->Some_0.next is None
        }
    }

    /// A fresh, empty log: no entries, no head, no tail, length zero.
    pub fn new_empty() -> (log: TransactionLog)
        ensures
            log.well_formed(),
            log@ == Seq::<Seq<char>>::empty(),
            log.spec_length() == 0,
    {
        let log = TransactionLog {
            slots: Vec::new(),
            head: None,
            tail: None,
            length: 0,
            chain: Ghost(Seq::empty()),
        };
        proof {
            assert(log@ =~= Seq::<Seq<char>>::empty());
        }
        log
    }

    /// Append `value` (the empty string permitted) at the tail of the log.
    ///
    /// Allocates one new node holding `value` with no successor. If the log is
    /// empty, the new node becomes both head and tail; otherwise the current
    /// tail node's `next` link is rewired, through the tail index, to the new
    /// node, and the tail handle moves to it. The view grows by `value` at the
    /// back and `length` by one; the operation always succeeds, the counter's
    /// machine width being the one bound.
    pub fn append(&mut self, value: String)
        requires
            old(self).well_formed(),
            old(self).spec_length() < u64::MAX,
        ensures
            final(self).well_formed(),
            final(self)@ == old(self)@.push(value@),
            final(self).spec_length() == old(self).spec_length() + 1,
            final(self).spec_length() == final(self)@.len(),
    {
        let ghost ch = old(self).chain@;
        let idx = self.slots.len();
        let node = Node::new(value);
        self.slots.push(Some(node));
        match self.tail {
            Some(t) => {
                // The previous tail is reachable both through the chain and
                // through the tail index; the rewrite goes through the index.
                let slot = &mut self.slots[t];
                let mut prev = slot.take().unwrap();
                prev.next = Some(idx);
                *slot = Some(prev);
            },
            None => {
                self.head = Some(idx);
            },
        }
        self.tail = Some(idx);
        self.length = self.length + 1;
        self.chain = Ghost(ch.push(idx));
        proof {
            let ch2 = self.chain@;
            assert forall|i: usize|
                i < self.slots@.len() && !ch2.contains(i) implies self.slots@[i as int]
                    is None by {
                if i < idx {
                    if ch.contains(i) {
                        let k = choose|k: int| 0 <= k < ch.len() && ch[k] == i;
                        assert(ch2[k] == i);
                    }
                } else {
                    assert(ch2[ch.len() as int] == idx);
                }
            }
            assert(self@ =~= old(self)@.push(value@));
        }
    }

    /// Remove and return the payload at the head of the log.
    ///
    /// On an empty log this is an expected, non-fatal condition: the result is
    /// `None` and the log — its `length` included — is unchanged. Otherwise
    /// the head node is detached: its arena slot is emptied, so no reference
    /// to it survives anywhere; its successor (if any) becomes the new head,
    /// or head and tail both become absent when it was the only node; `length`
    /// drops by one; and its payload, the first value of the view, is
    /// returned.
    ///
    /// Extracting the payload of a node that some other handle still reaches
    /// would be an unrecoverable bookkeeping fault; here well-formedness
    /// proves that the head's slot is occupied and is the node's one owner, so
    /// that fault cannot arise at all.
    pub fn pop(&mut self) -> (popped: Option<String>)
        requires
            old(self).well_formed(),
        ensures
            final(self).well_formed(),
            final(self).spec_length() == final(self)@.len(),
            match popped {
                Option::None => {
                    &&& old(self)@.len() == 0
                    &&& old(self).spec_length() == 0
                    &&& *final(self) == *old(self)
                },
                Option::Some(value) => {
                    &&& old(self)@.len() > 0
                    &&& value@ == old(self)@[0]
                    &&& final(self)@ == old(self)@.subrange(1, old(self)@.len() as int)
                    &&& final(self).spec_length() + 1 == old(self).spec_length()
                },
            },
    {
        let ghost ch = old(self).chain@;
        match self.head {
            None => None,
            Some(h) => {
                // Detach the head node: emptying its slot consumes the one
                // remaining owner, so the payload can be moved out.
                let slot = &mut self.slots[h];
                let node = slot.take().unwrap();
                match node.next {
                    Some(successor) => {
                        self.head = Some(successor);
                    },
                    None => {
                        // The only node is gone: the tail handle to it must
                        // be dropped as well.
                        self.head = None;
                        self.tail = None;
                    },
                }
                self.length = self.length - 1;
                self.chain = Ghost(ch.subrange(1, ch.len() as int));
                proof {
                    let ch2 = self.chain@;
                    assert forall|i: usize|
                        i < self.slots@.len() && !ch2.contains(i) implies self.slots@[i as int]
                            is None by {
                        if i != h && ch.contains(i) {
                            let k = choose|k: int| 0 <= k < ch.len() && ch[k] == i;
                            assert(ch[0] == h);
                            assert(ch2[k - 1] == i);
                        }
                    }
                    assert(self@ =~= old(self)@.subrange(1, old(self)@.len() as int));
                }
                Some(node.value)
            },
        }
    }
}

} // verus!
