//! The immutable actor registry: a table mapping a code identifier to an
//! actor-kind capability and a singleton flag, built once at startup and
//! shared read-only thereafter.
//!
//! A code identifier stands for the content hash naming the behaviour an
//! actor runs; the engine compares identifiers by value only.

use vstd::prelude::*;

verus! {

/// Code identifier of the system actor.
pub const SYSTEM_ACTOR_CODE_ID: u64 = 1;
/// Code identifier of the init actor.
pub const INIT_ACTOR_CODE_ID: u64 = 2;
/// Code identifier of the cron actor.
pub const CRON_ACTOR_CODE_ID: u64 = 3;
/// Code identifier of the account actor.
pub const ACCOUNT_ACTOR_CODE_ID: u64 = 4;
/// Code identifier of the storage-power actor.
pub const POWER_ACTOR_CODE_ID: u64 = 5;
/// Code identifier of the storage-miner actor.
pub const MINER_ACTOR_CODE_ID: u64 = 6;
/// Code identifier of the storage-market actor.
pub const MARKET_ACTOR_CODE_ID: u64 = 7;
/// Code identifier of the payment-channel actor.
pub const PAYCH_ACTOR_CODE_ID: u64 = 8;
/// Code identifier of the multisig actor.
pub const MULTISIG_ACTOR_CODE_ID: u64 = 9;
/// Code identifier of the reward actor.
pub const REWARD_ACTOR_CODE_ID: u64 = 10;
/// Code identifier of the verified-registry actor.
pub const VERIFREG_ACTOR_CODE_ID: u64 = 11;
/// Code identifier of the chaos actor, a scripted test actor.
pub const CHAOS_ACTOR_CODE_ID: u64 = 12;

/// Whether a code identifier belongs to a builtin actor.
pub open spec fn spec_is_builtin(code: u64) -> bool {
    ||| code == SYSTEM_ACTOR_CODE_ID
    ||| code == INIT_ACTOR_CODE_ID
    ||| code == CRON_ACTOR_CODE_ID
    ||| code == ACCOUNT_ACTOR_CODE_ID
    ||| code == POWER_ACTOR_CODE_ID
    ||| code == MINER_ACTOR_CODE_ID
    ||| code == MARKET_ACTOR_CODE_ID
    ||| code == PAYCH_ACTOR_CODE_ID
    ||| code == MULTISIG_ACTOR_CODE_ID
    ||| code == REWARD_ACTOR_CODE_ID
    ||| code == VERIFREG_ACTOR_CODE_ID
}

/// Whether a code identifier belongs to a singleton actor, one that cannot
/// be constructed by a user.
pub open spec fn spec_is_singleton(code: u64) -> bool {
    ||| code == SYSTEM_ACTOR_CODE_ID
    ||| code == INIT_ACTOR_CODE_ID
    ||| code == REWARD_ACTOR_CODE_ID
    ||| code == CRON_ACTOR_CODE_ID
    ||| code == POWER_ACTOR_CODE_ID
    ||| code == MARKET_ACTOR_CODE_ID
    ||| code == VERIFREG_ACTOR_CODE_ID
}

/// Returns true if the code identifier belongs to a builtin actor.
pub fn is_builtin_actor(code: u64) -> (r: bool)
    ensures
        r == spec_is_builtin(code),
{
    code == SYSTEM_ACTOR_CODE_ID || code == INIT_ACTOR_CODE_ID || code == CRON_ACTOR_CODE_ID
        || code == ACCOUNT_ACTOR_CODE_ID || code == POWER_ACTOR_CODE_ID
        || code == MINER_ACTOR_CODE_ID || code == MARKET_ACTOR_CODE_ID
        || code == PAYCH_ACTOR_CODE_ID || code == MULTISIG_ACTOR_CODE_ID
        || code == REWARD_ACTOR_CODE_ID || code == VERIFREG_ACTOR_CODE_ID
}

/// Returns true if the code identifier belongs to a singleton actor. That
/// is, an actor that cannot be constructed by a user.
pub fn is_singleton_actor(code: u64) -> (r: bool)
    ensures
        r == spec_is_singleton(code),
{
    code == SYSTEM_ACTOR_CODE_ID || code == INIT_ACTOR_CODE_ID || code == REWARD_ACTOR_CODE_ID
        || code == CRON_ACTOR_CODE_ID || code == POWER_ACTOR_CODE_ID
        || code == MARKET_ACTOR_CODE_ID || code == VERIFREG_ACTOR_CODE_ID
}

/// One instruction of a scripted actor's stored program.
#[derive(Clone, Copy, Debug, PartialEq, Eq, Structural)]
pub enum ScriptOp {
    /// Charge the given amount of gas.
    ChargeGas { amount: u64 },
    /// Perform a nested send from this actor.
    Send { to: u64, method: u64, value: u128, read_only: bool },
    /// Overwrite this actor's private-state root with the given word.
    SetState { word: u64 },
    /// Abort this call with the given exit code (coerced to be nonzero).
    Abort { code: u32 },
}

/// The invocable capability a code identifier resolves to.
#[derive(Debug, PartialEq, Eq)]
pub enum ActorKind {
    /// An account: holds funds; every method invocation trivially succeeds.
    Account,
    /// A scripted actor: invoking it runs its stored program against the
    /// kernel's syscall surface.
    Scripted(Vec<ScriptOp>),
}

/// The mathematical value of an [`ActorKind`].
pub enum SpecActorKind {
    Account,
    Scripted(Seq<ScriptOp>),
}

impl View for ActorKind {
    type V = SpecActorKind;

    open spec fn view(&self) -> SpecActorKind {
        match self {
            ActorKind::Account => SpecActorKind::Account,
            ActorKind::Scripted(p) => SpecActorKind::Scripted(p@),
        }
    }
}

/// One registry binding.
#[derive(Debug, PartialEq, Eq)]
pub struct RegistryEntry {
    /// The code identifier.
    pub code: u64,
    /// The capability it resolves to.
    pub kind: ActorKind,
    /// Whether external attempts to instantiate this kind must be rejected.
    pub singleton: bool,
}

/// The mathematical value of a [`RegistryEntry`].
pub struct SpecRegistryEntry {
    pub code: u64,
    pub kind: SpecActorKind,
    pub singleton: bool,
}

impl View for RegistryEntry {
    type V = SpecRegistryEntry;

    open spec fn view(&self) -> SpecRegistryEntry {
        SpecRegistryEntry { code: self.code, kind: self.kind@, singleton: self.singleton }
    }
}

/// The binding a code identifier resolves to, if any: the registry's model.
pub open spec fn reg_lookup(s: Seq<SpecRegistryEntry>, code: u64) -> Option<SpecRegistryEntry>
    decreases s.len(),
{
    if s.len() == 0 {
        None
    } else if s[0].code == code {
        Some(s[0])
    } else {
        reg_lookup(s.drop_first(), code)
    }
}

/// Entries before position `i` that do not bind `code` do not affect lookup.
proof fn lemma_reg_lookup_from(s: Seq<SpecRegistryEntry>, code: u64, i: int)
    requires
        0 <= i <= s.len(),
        forall|j: int| 0 <= j < i ==> s[j].code != code,
    ensures
        reg_lookup(s, code) == reg_lookup(s.subrange(i, s.len() as int), code),
    decreases i,
{
    if i == 0 {
        assert(s.subrange(0, s.len() as int) =~= s);
    } else {
        assert forall|j: int| 0 <= j < i - 1 implies s.drop_first()[j].code != code by {
            assert(s.drop_first()[j] == s[j + 1]);
        }
        lemma_reg_lookup_from(s.drop_first(), code, i - 1);
        assert(s.drop_first().subrange(i - 1, s.drop_first().len() as int)
            =~= s.subrange(i, s.len() as int));
    }
}

/// A lookup that finds nothing means no entry binds the code.
proof fn lemma_reg_lookup_none_absent(s: Seq<SpecRegistryEntry>, code: u64)
    requires
        reg_lookup(s, code) is None,
    ensures
        forall|j: int| 0 <= j < s.len() ==> s[j].code != code,
    decreases s.len(),
{
    if s.len() > 0 {
        lemma_reg_lookup_none_absent(s.drop_first(), code);
        assert forall|j: int| 0 <= j < s.len() implies s[j].code != code by {
            if j > 0 {
                assert(s.drop_first()[j - 1] == s[j]);
            }
        }
    }
}

/// Appending an entry for an absent code binds exactly that code.
proof fn lemma_reg_lookup_push(s: Seq<SpecRegistryEntry>, e: SpecRegistryEntry, b: u64)
    requires
        reg_lookup(s, e.code) is None,
    ensures
        reg_lookup(s.push(e), b) == if b == e.code {
            Some(e)
        } else {
            reg_lookup(s, b)
        },
    decreases s.len(),
{
    let s2 = s.push(e);
    if s.len() == 0 {
        assert(s2.drop_first() =~= Seq::<SpecRegistryEntry>::empty());
        assert(reg_lookup(s2.drop_first(), b) is None);
    } else {
        assert(s[0].code != e.code);
        assert(s2[0] == s[0]);
        assert(s2.drop_first() =~= s.drop_first().push(e));
        lemma_reg_lookup_push(s.drop_first(), e, b);
        if b == s[0].code {
            assert(reg_lookup(s2, b) == Some(s[0]));
            assert(reg_lookup(s, b) == Some(s[0]));
        } else {
            assert(reg_lookup(s2, b) == reg_lookup(s.drop_first().push(e), b));
            assert(reg_lookup(s, b) == reg_lookup(s.drop_first(), b));
        }
    }
}

/// The registry: immutable after startup registration, then shared
/// read-only by every execution.
#[derive(Debug, PartialEq, Eq)]
pub struct Registry {
    /// The bindings; code identifiers are pairwise distinct.
    pub entries: Vec<RegistryEntry>,
}

impl View for Registry {
    type V = Seq<SpecRegistryEntry>;

    open spec fn view(&self) -> Seq<SpecRegistryEntry> {
        self.entries@.map_values(|e: RegistryEntry| e@)
    }
}

impl Registry {
    /// Code identifiers are pairwise distinct.
    pub open spec fn wf(self) -> bool {
        forall|i: int, j: int| 0 <= i < j < self@.len() ==> self@[i].code != self@[j].code
    }

    /// An empty registry.
    pub fn new() -> (r: Registry)
        ensures
            r.wf(),
            forall|c: u64| reg_lookup(r@, c) is None,
    {
        Registry { entries: Vec::new() }
    }

    /// Position of the entry binding `code`, if any.
    fn find_code(&self, code: u64) -> (r: Option<usize>)
        ensures
            r matches Some(i) ==> i < self@.len() && self@[i as int].code == code
                && (forall|j: int| 0 <= j < i ==> self@[j].code != code),
            r is None ==> reg_lookup(self@, code) is None,
    {
        let mut i: usize = 0;
        let n = self.entries.len();
        while i < n
            invariant
                n == self@.len(),
                i <= n,
                forall|j: int| 0 <= j < i ==> self@[j].code != code,
            decreases n - i,
        {
            if self.entries[i].code == code {
                return Some(i);
            }
            i = i + 1;
        }
        proof {
            lemma_reg_lookup_from(self@, code, self@.len() as int);
            assert(self@.subrange(self@.len() as int, self@.len() as int)
                =~= Seq::<SpecRegistryEntry>::empty());
        }
        None
    }

    /// Registers a binding at startup. Fails, changing nothing, exactly when
    /// the code identifier is already bound.
    pub fn register(&mut self, code: u64, kind: ActorKind, singleton: bool) -> (r: Result<(), ()>)
        requires
            old(self).wf(),
        ensures
            final(self).wf(),
            r is Ok <==> reg_lookup(old(self)@, code) is None,
            r is Ok ==> forall|c: u64|
                reg_lookup(final(self)@, c) == if c == code {
                    Some(SpecRegistryEntry { code, kind: kind@, singleton })
                } else {
                    reg_lookup(old(self)@, c)
                },
            r is Err ==> final(self)@ == old(self)@,
    {
        match self.find_code(code) {
            Some(i) => {
                proof {
                    lemma_reg_lookup_from(self@, code, i as int);
                    assert(self@.subrange(i as int, self@.len() as int)[0] == self@[i as int]);
                }
                Err(())
            },
            None => {
                let ghost kindv = kind@;
                self.entries.push(RegistryEntry { code, kind, singleton });
                proof {
                    let olds = old(self)@;
                    let e = SpecRegistryEntry { code, kind: kindv, singleton };
                    assert(self@ =~= olds.push(e));
                    lemma_reg_lookup_none_absent(olds, code);
                    assert forall|c: u64|
                        reg_lookup(self@, c) == if c == code {
                            Some(e)
                        } else {
                            reg_lookup(olds, c)
                        } by {
                        lemma_reg_lookup_push(olds, e, c);
                    }
                }
                Ok(())
            },
        }
    }

    /// Resolves a code identifier to its capability; `None` stands for the
    /// permanent, non-retryable unknown-code failure.
    pub fn resolve(&self, code: u64) -> (r: Option<&ActorKind>)
        ensures
            r matches Some(k) ==> reg_lookup(self@, code) matches Some(e) && e.kind == k@,
            r is None <==> reg_lookup(self@, code) is None,
    {
        match self.find_code(code) {
            Some(i) => {
                proof {
                    lemma_reg_lookup_from(self@, code, i as int);
                    assert(self@.subrange(i as int, self@.len() as int)[0] == self@[i as int]);
                }
                Some(&self.entries[i].kind)
            },
            None => None,
        }
    }

    /// Whether the code identifier is bound as a singleton kind; consulted
    /// to reject external instantiation of singleton actors.
    pub fn is_singleton(&self, code: u64) -> (r: bool)
        ensures
            r == (reg_lookup(self@, code) matches Some(e) && e.singleton),
    {
        match self.find_code(code) {
            Some(i) => {
                proof {
                    lemma_reg_lookup_from(self@, code, i as int);
                    assert(self@.subrange(i as int, self@.len() as int)[0] == self@[i as int]);
                }
                self.entries[i].singleton
            },
            None => false,
        }
    }
}

} // verus!
