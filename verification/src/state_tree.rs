//! The copy-on-write mapping from actor address to actor state.
//!
//! The tree is a sequence of records with pairwise-distinct addresses; its
//! mathematical model is the [`lookup`] function over that sequence. A
//! snapshot captures the whole model and a restore brings it back exactly,
//! which makes rollback of a failed call a single swap.

use vstd::prelude::*;

use crate::codec::{copy_range, push_bytes, push_u64, u64_be};

verus! {

/// One actor's on-chain record.
#[derive(Debug, PartialEq, Eq)]
pub struct ActorState {
    /// Identifier of the code this actor runs, resolved through the registry.
    pub code: u64,
    /// Content identifier of the actor's private state.
    pub head: Vec<u8>,
    /// The actor's balance.
    pub balance: u128,
    /// The actor's next expected message sequence number.
    pub sequence: u64,
}

/// The mathematical value of an [`ActorState`].
pub struct SpecActorState {
    pub code: u64,
    pub head: Seq<u8>,
    pub balance: u128,
    pub sequence: u64,
}

impl View for ActorState {
    type V = SpecActorState;

    open spec fn view(&self) -> SpecActorState {
        SpecActorState {
            code: self.code,
            head: self.head@,
            balance: self.balance,
            sequence: self.sequence,
        }
    }
}

/// One address-to-state binding of the tree.
#[derive(Debug, PartialEq, Eq)]
pub struct ActorEntry {
    /// The actor's address.
    pub addr: u64,
    /// The actor's record.
    pub state: ActorState,
}

/// The mathematical value of an [`ActorEntry`].
pub struct SpecActorEntry {
    pub addr: u64,
    pub state: SpecActorState,
}

impl View for ActorEntry {
    type V = SpecActorEntry;

    open spec fn view(&self) -> SpecActorEntry {
        SpecActorEntry { addr: self.addr, state: self.state@ }
    }
}

/// The state an address is bound to, if any: the tree's model.
pub open spec fn lookup(s: Seq<SpecActorEntry>, addr: u64) -> Option<SpecActorState>
    decreases s.len(),
{
    if s.len() == 0 {
        None
    } else if s[0].addr == addr {
        Some(s[0].state)
    } else {
        lookup(s.drop_first(), addr)
    }
}

/// Entries before position `i` that do not bind `addr` do not affect lookup.
proof fn lemma_lookup_from(s: Seq<SpecActorEntry>, addr: u64, i: int)
    requires
        0 <= i <= s.len(),
        forall|j: int| 0 <= j < i ==> s[j].addr != addr,
    ensures
        lookup(s, addr) == lookup(s.subrange(i, s.len() as int), addr),
    decreases i,
{
    if i == 0 {
        assert(s.subrange(0, s.len() as int) =~= s);
    } else {
        assert forall|j: int| 0 <= j < i - 1 implies s.drop_first()[j].addr != addr by {
            assert(s.drop_first()[j] == s[j + 1]);
        }
        lemma_lookup_from(s.drop_first(), addr, i - 1);
        assert(s.drop_first().subrange(i - 1, s.drop_first().len() as int)
            =~= s.subrange(i, s.len() as int));
    }
}

/// A lookup that finds nothing means no entry binds the address.
proof fn lemma_lookup_none_absent(s: Seq<SpecActorEntry>, addr: u64)
    requires
        lookup(s, addr) is None,
    ensures
        forall|j: int| 0 <= j < s.len() ==> s[j].addr != addr,
    decreases s.len(),
{
    if s.len() > 0 {
        lemma_lookup_none_absent(s.drop_first(), addr);
        assert forall|j: int| 0 <= j < s.len() implies s[j].addr != addr by {
            if j > 0 {
                assert(s.drop_first()[j - 1] == s[j]);
            }
        }
    }
}

/// Replacing the first entry that binds an address rebinds exactly that
/// address and nothing else.
proof fn lemma_lookup_update(s: Seq<SpecActorEntry>, i: int, e: SpecActorEntry, b: u64)
    requires
        0 <= i < s.len(),
        e.addr == s[i].addr,
        forall|j: int| 0 <= j < i ==> s[j].addr != e.addr,
    ensures
        lookup(s.update(i, e), b) == if b == e.addr {
            Some(e.state)
        } else {
            lookup(s, b)
        },
    decreases i,
{
    let s2 = s.update(i, e);
    if i == 0 {
        if b != e.addr {
            assert(s2.drop_first() =~= s.drop_first());
        }
    } else {
        assert(s2[0] == s[0]);
        if b == s[0].addr {
        } else {
            assert(s2.drop_first() =~= s.drop_first().update(i - 1, e));
            lemma_lookup_update(s.drop_first(), i - 1, e, b);
        }
    }
}

/// Appending an entry for an absent address binds exactly that address and
/// nothing else.
proof fn lemma_lookup_push(s: Seq<SpecActorEntry>, e: SpecActorEntry, b: u64)
    requires
        lookup(s, e.addr) is None,
    ensures
        lookup(s.push(e), b) == if b == e.addr {
            Some(e.state)
        } else {
            lookup(s, b)
        },
    decreases s.len(),
{
    let s2 = s.push(e);
    if s.len() == 0 {
        assert(s2.drop_first() =~= Seq::<SpecActorEntry>::empty());
        assert(lookup(s2.drop_first(), b) is None);
    } else {
        assert(s[0].addr != e.addr);
        assert(s2[0] == s[0]);
        assert(s2.drop_first() =~= s.drop_first().push(e));
        lemma_lookup_push(s.drop_first(), e, b);
        if b == s[0].addr {
            assert(lookup(s2, b) == Some(s[0].state));
            assert(lookup(s, b) == Some(s[0].state));
        } else {
            assert(lookup(s2, b) == lookup(s.drop_first().push(e), b));
            assert(lookup(s, b) == lookup(s.drop_first(), b));
        }
    }
}

/// The canonical byte form of one entry.
pub open spec fn entry_bytes(e: SpecActorEntry) -> Seq<u8> {
    u64_be(e.addr) + u64_be(e.state.code) + u64_be(e.state.head.len() as u64) + e.state.head
        + u64_be((e.state.balance >> 64) as u64) + u64_be(e.state.balance as u64)
        + u64_be(e.state.sequence)
}

/// The deterministic content identifier of a tree: the concatenation of its
/// entries' canonical byte forms, in tree order.
pub open spec fn root_of(s: Seq<SpecActorEntry>) -> Seq<u8>
    decreases s.len(),
{
    if s.len() == 0 {
        Seq::empty()
    } else {
        root_of(s.drop_last()) + entry_bytes(s.last())
    }
}

/// The content-addressed mapping from actor address to actor state.
#[derive(Debug, PartialEq, Eq)]
pub struct StateTree {
    /// The address-to-state bindings; addresses are pairwise distinct.
    pub entries: Vec<ActorEntry>,
}

impl View for StateTree {
    type V = Seq<SpecActorEntry>;

    open spec fn view(&self) -> Seq<SpecActorEntry> {
        self.entries@.map_values(|e: ActorEntry| e@)
    }
}

impl StateTree {
    /// Addresses are pairwise distinct and every head admits a length prefix.
    pub open spec fn wf(self) -> bool {
        &&& forall|i: int, j: int|
            0 <= i < j < self@.len() ==> self@[i].addr != self@[j].addr
        &&& forall|i: int|
            0 <= i < self@.len() ==> self@[i].state.head.len() <= 0xffff_ffff_ffff_ffffu64
    }

    /// The empty tree: no actor exists.
    pub fn new() -> (r: StateTree)
        ensures
            r.wf(),
            r@.len() == 0,
            forall|b: u64| lookup(r@, b) is None,
    {
        StateTree { entries: Vec::new() }
    }

    /// Position of the entry binding `addr`, if any.
    fn find_index(&self, addr: u64) -> (r: Option<usize>)
        ensures
            r matches Some(i) ==> i < self@.len() && self@[i as int].addr == addr
                && (forall|j: int| 0 <= j < i ==> self@[j].addr != addr),
            r is None ==> lookup(self@, addr) is None,
    {
        let mut i: usize = 0;
        let n = self.entries.len();
        while i < n
            invariant
                n == self@.len(),
                i <= n,
                forall|j: int| 0 <= j < i ==> self@[j].addr != addr,
            decreases n - i,
        {
            if self.entries[i].addr == addr {
                return Some(i);
            }
            i = i + 1;
        }
        proof {
            lemma_lookup_from(self@, addr, self@.len() as int);
            assert(self@.subrange(self@.len() as int, self@.len() as int)
                =~= Seq::<SpecActorEntry>::empty());
        }
        None
    }

    /// The state bound to `addr`, if any.
    pub fn get_actor(&self, addr: u64) -> (r: Option<&ActorState>)
        ensures
            r matches Some(a) ==> lookup(self@, addr) == Some(a@),
            r is None ==> lookup(self@, addr) is None,
    {
        match self.find_index(addr) {
            Some(i) => {
                proof {
                    lemma_lookup_from(self@, addr, i as int);
                    assert(self@.subrange(i as int, self@.len() as int)[0] == self@[i as int]);
                }
                Some(&self.entries[i].state)
            },
            None => None,
        }
    }

    /// Binds `addr` to `st`, replacing any previous binding; every other
    /// address keeps its state.
    pub fn set_actor(&mut self, addr: u64, st: ActorState)
        requires
            old(self).wf(),
        ensures
            final(self).wf(),
            forall|b: u64|
                lookup(final(self)@, b) == if b == addr {
                    Some(st@)
                } else {
                    lookup(old(self)@, b)
                },
    {
        let head_len: usize = st.head.len();
        proof {
            assert(st@.head.len() <= 0xffff_ffff_ffff_ffffu64);
        }
        match self.find_index(addr) {
            Some(i) => {
                self.entries[i] = ActorEntry { addr, state: st };
                proof {
                    let olds = old(self)@;
                    let e = SpecActorEntry { addr, state: st@ };
                    assert(self@ =~= olds.update(i as int, e));
                    assert forall|b: u64|
                        lookup(self@, b) == if b == addr {
                            Some(st@)
                        } else {
                            lookup(olds, b)
                        } by {
                        lemma_lookup_update(olds, i as int, e, b);
                    }
                }
            },
            None => {
                self.entries.push(ActorEntry { addr, state: st });
                proof {
                    let olds = old(self)@;
                    let e = SpecActorEntry { addr, state: st@ };
                    assert(self@ =~= olds.push(e));
                    lemma_lookup_none_absent(olds, addr);
                    assert forall|b: u64|
                        lookup(self@, b) == if b == addr {
                            Some(st@)
                        } else {
                            lookup(olds, b)
                        } by {
                        lemma_lookup_push(olds, e, b);
                    }
                }
            },
        }
    }

    /// Adds `amount` to the balance bound at `addr`; fails, changing
    /// nothing, exactly when the new balance would not be representable.
    pub fn credit(&mut self, addr: u64, amount: u128) -> (r: Result<(), ()>)
        requires
            old(self).wf(),
            lookup(old(self)@, addr) is Some,
        ensures
            final(self).wf(),
            r is Ok <==> lookup(old(self)@, addr)->0.balance + amount <= u128::MAX,
            r is Ok ==> forall|b: u64|
                lookup(final(self)@, b) == if b == addr {
                    Some(SpecActorState {
                        balance: (lookup(old(self)@, addr)->0.balance + amount) as u128,
                        ..lookup(old(self)@, addr)->0
                    })
                } else {
                    lookup(old(self)@, b)
                },
            r is Err ==> final(self)@ == old(self)@,
    {
        match self.find_index(addr) {
            Some(i) => {
                proof {
                    lemma_lookup_from(self@, addr, i as int);
                    assert(self@.subrange(i as int, self@.len() as int)[0] == self@[i as int]);
                }
                let bal = self.entries[i].state.balance;
                if amount > u128::MAX - bal {
                    return Err(());
                }
                self.entries[i].state.balance = bal + amount;
                proof {
                    let olds = old(self)@;
                    let e = SpecActorEntry {
                        addr,
                        state: SpecActorState { balance: (bal + amount) as u128, ..olds[i as int].state },
                    };
                    assert(self@ =~= olds.update(i as int, e));
                    assert forall|b: u64|
                        lookup(self@, b) == if b == addr {
                            Some(e.state)
                        } else {
                            lookup(olds, b)
                        } by {
                        lemma_lookup_update(olds, i as int, e, b);
                    }
                }
                Ok(())
            },
            None => {
                proof {
                    assert(false);
                }
                Err(())
            },
        }
    }

    /// Subtracts `amount` from the balance bound at `addr`; fails, changing
    /// nothing, exactly when the balance cannot cover it.
    pub fn debit(&mut self, addr: u64, amount: u128) -> (r: Result<(), ()>)
        requires
            old(self).wf(),
            lookup(old(self)@, addr) is Some,
        ensures
            final(self).wf(),
            r is Ok <==> amount <= lookup(old(self)@, addr)->0.balance,
            r is Ok ==> forall|b: u64|
                lookup(final(self)@, b) == if b == addr {
                    Some(SpecActorState {
                        balance: (lookup(old(self)@, addr)->0.balance - amount) as u128,
                        ..lookup(old(self)@, addr)->0
                    })
                } else {
                    lookup(old(self)@, b)
                },
            r is Err ==> final(self)@ == old(self)@,
    {
        match self.find_index(addr) {
            Some(i) => {
                proof {
                    lemma_lookup_from(self@, addr, i as int);
                    assert(self@.subrange(i as int, self@.len() as int)[0] == self@[i as int]);
                }
                let bal = self.entries[i].state.balance;
                if amount > bal {
                    return Err(());
                }
                self.entries[i].state.balance = bal - amount;
                proof {
                    let olds = old(self)@;
                    let e = SpecActorEntry {
                        addr,
                        state: SpecActorState { balance: (bal - amount) as u128, ..olds[i as int].state },
                    };
                    assert(self@ =~= olds.update(i as int, e));
                    assert forall|b: u64|
                        lookup(self@, b) == if b == addr {
                            Some(e.state)
                        } else {
                            lookup(olds, b)
                        } by {
                        lemma_lookup_update(olds, i as int, e, b);
                    }
                }
                Ok(())
            },
            None => {
                proof {
                    assert(false);
                }
                Err(())
            },
        }
    }

    /// Sets the sequence number of the actor bound at `addr`.
    pub fn set_sequence(&mut self, addr: u64, sequence: u64)
        requires
            old(self).wf(),
            lookup(old(self)@, addr) is Some,
        ensures
            final(self).wf(),
            forall|b: u64|
                lookup(final(self)@, b) == if b == addr {
                    Some(SpecActorState { sequence, ..lookup(old(self)@, addr)->0 })
                } else {
                    lookup(old(self)@, b)
                },
    {
        match self.find_index(addr) {
            Some(i) => {
                proof {
                    lemma_lookup_from(self@, addr, i as int);
                    assert(self@.subrange(i as int, self@.len() as int)[0] == self@[i as int]);
                }
                self.entries[i].state.sequence = sequence;
                proof {
                    let olds = old(self)@;
                    let e = SpecActorEntry {
                        addr,
                        state: SpecActorState { sequence, ..olds[i as int].state },
                    };
                    assert(self@ =~= olds.update(i as int, e));
                    assert forall|b: u64|
                        lookup(self@, b) == if b == addr {
                            Some(e.state)
                        } else {
                            lookup(olds, b)
                        } by {
                        lemma_lookup_update(olds, i as int, e, b);
                    }
                }
            },
            None => {
                proof {
                    assert(false);
                }
            },
        }
    }

    /// Sets the private-state root of the actor bound at `addr`.
    pub fn set_head(&mut self, addr: u64, head: Vec<u8>)
        requires
            old(self).wf(),
            lookup(old(self)@, addr) is Some,
        ensures
            final(self).wf(),
            forall|b: u64|
                lookup(final(self)@, b) == if b == addr {
                    Some(SpecActorState { head: head@, ..lookup(old(self)@, addr)->0 })
                } else {
                    lookup(old(self)@, b)
                },
    {
        let head_len: usize = head.len();
        proof {
            assert(head@.len() <= 0xffff_ffff_ffff_ffffu64);
        }
        match self.find_index(addr) {
            Some(i) => {
                proof {
                    lemma_lookup_from(self@, addr, i as int);
                    assert(self@.subrange(i as int, self@.len() as int)[0] == self@[i as int]);
                }
                let ghost headv = head@;
                self.entries[i].state.head = head;
                proof {
                    let olds = old(self)@;
                    let e = SpecActorEntry {
                        addr,
                        state: SpecActorState { head: headv, ..olds[i as int].state },
                    };
                    assert(self@ =~= olds.update(i as int, e));
                    assert forall|b: u64|
                        lookup(self@, b) == if b == addr {
                            Some(e.state)
                        } else {
                            lookup(olds, b)
                        } by {
                        lemma_lookup_update(olds, i as int, e, b);
                    }
                }
            },
            None => {
                proof {
                    assert(false);
                }
            },
        }
    }

    /// An independent copy with the same model: the checkpoint a call can
    /// roll back to.
    pub fn snapshot(&self) -> (r: StateTree)
        ensures
            r@ == self@,
    {
        let mut out: Vec<ActorEntry> = Vec::new();
        let n = self.entries.len();
        let mut i: usize = 0;
        while i < n
            invariant
                n == self@.len(),
                i <= n,
                out@.len() == i,
                forall|k: int| 0 <= k < i ==> out@[k]@ == self@[k],
            decreases n - i,
        {
            let e = &self.entries[i];
            let head = copy_range(&e.state.head, 0, e.state.head.len());
            proof {
                assert(e.state.head@.subrange(0, e.state.head@.len() as int) =~= e.state.head@);
            }
            let copied = ActorEntry {
                addr: e.addr,
                state: ActorState {
                    code: e.state.code,
                    head,
                    balance: e.state.balance,
                    sequence: e.state.sequence,
                },
            };
            proof {
                assert(copied@ == self@[i as int]);
            }
            out.push(copied);
            i = i + 1;
        }
        let r = StateTree { entries: out };
        proof {
            assert(r@ =~= self@);
        }
        r
    }

    /// Discards this tree's bindings and brings back exactly the model of
    /// `saved`.
    pub fn restore(&mut self, saved: StateTree)
        ensures
            final(self)@ == saved@,
    {
        self.entries = saved.entries;
    }

    /// The deterministic content identifier of this tree.
    pub fn flush(&self) -> (r: Vec<u8>)
        requires
            self.wf(),
        ensures
            r@ == root_of(self@),
    {
        let mut out: Vec<u8> = Vec::new();
        let n = self.entries.len();
        let mut i: usize = 0;
        while i < n
            invariant
                self.wf(),
                n == self@.len(),
                i <= n,
                out@ == root_of(self@.subrange(0, i as int)),
            decreases n - i,
        {
            let e = &self.entries[i];
            push_u64(&mut out, e.addr);
            push_u64(&mut out, e.state.code);
            push_u64(&mut out, e.state.head.len() as u64);
            push_bytes(&mut out, &e.state.head);
            push_u64(&mut out, (e.state.balance >> 64) as u64);
            push_u64(&mut out, e.state.balance as u64);
            push_u64(&mut out, e.state.sequence);
            proof {
                let pre = self@.subrange(0, i as int);
                let cur = self@.subrange(0, i + 1 as int);
                assert(cur.drop_last() =~= pre);
                assert(cur.last() == self@[i as int]);
                assert(out@ == root_of(pre) + entry_bytes(self@[i as int]));
            }
            i = i + 1;
        }
        proof {
            assert(self@.subrange(0, n as int) =~= self@);
        }
        out
    }
}

} // verus!
