//! The handler registry: a mapping from a key to the one handler that owns
//! that key. The registry exclusively owns each registered handler; a later
//! registration under the same key replaces (and drops) the earlier owner,
//! and removal hands ownership back out.

use vstd::prelude::*;

use crate::events::EventHandler;

verus! {

/// There is an entry with key `key` among `s`.
spec fn has_key<H>(s: Seq<(i32, H)>, key: i32) -> bool {
    exists|i: int| 0 <= i < s.len() && (#[trigger] s[i]).0 == key
}

/// The handler stored under `key` in `s` (meaningful when the keys of `s` are
/// unique and one of them is `key`).
spec fn entry_at<H>(s: Seq<(i32, H)>, key: i32) -> H {
    s[choose|i: int| 0 <= i < s.len() && (#[trigger] s[i]).0 == key].1
}

/// No two entries of `s` share a key.
spec fn unique_keys<H>(s: Seq<(i32, H)>) -> bool {
    forall|i: int, j: int| 0 <= i < j < s.len() ==> (#[trigger] s[i]).0 != (#[trigger] s[j]).0
}

/// The mapping that a sequence of keyed entries represents.
spec fn entries_as_map<H>(s: Seq<(i32, H)>) -> Map<i32, H> {
    Map::new(|k: i32| has_key(s, k), |k: i32| entry_at(s, k))
}

proof fn lemma_entry_at_index<H>(s: Seq<(i32, H)>, i: int)
    requires
        unique_keys(s),
        0 <= i < s.len(),
    ensures
        has_key(s, s[i].0),
        entry_at(s, s[i].0) == s[i].1,
{
    let key = s[i].0;
    let j = choose|j: int| 0 <= j < s.len() && (#[trigger] s[j]).0 == key;
    assert(j == i);
}

proof fn lemma_map_push<H>(s: Seq<(i32, H)>, key: i32, h: H)
    requires
        unique_keys(s),
        !has_key(s, key),
    ensures
        unique_keys(s.push((key, h))),
        entries_as_map(s.push((key, h))) == entries_as_map(s).insert(key, h),
{
    let t = s.push((key, h));
    assert forall|i: int, j: int| 0 <= i < j < t.len() implies (#[trigger] t[i]).0
        != (#[trigger] t[j]).0 by {
        if j == s.len() {
            assert(t[i] == s[i]);
        }
    }
    assert forall|k: i32| #[trigger]
        has_key(t, k) == entries_as_map(s).insert(key, h).contains_key(k) by {
        if k == key {
            assert(t[s.len() as int].0 == key);
        } else {
            if has_key(t, k) {
                let i = choose|i: int| 0 <= i < t.len() && (#[trigger] t[i]).0 == k;
                assert(s[i] == t[i]);
            }
            if has_key(s, k) {
                let i = choose|i: int| 0 <= i < s.len() && (#[trigger] s[i]).0 == k;
                assert(t[i] == s[i]);
            }
        }
    }
    assert forall|k: i32| has_key(t, k) implies #[trigger] entry_at(t, k) == entries_as_map(
        s,
    ).insert(key, h)[k] by {
        let i = choose|i: int| 0 <= i < t.len() && (#[trigger] t[i]).0 == k;
        if k == key {
            if i < s.len() {
                assert(s[i] == t[i]);
            }
            assert(i == s.len());
            assert(entry_at(t, k) == h);
        } else {
            assert(i < s.len());
            assert(s[i] == t[i]);
            lemma_entry_at_index(s, i);
        }
    }
    assert(entries_as_map(t) =~= entries_as_map(s).insert(key, h));
}

proof fn lemma_map_remove<H>(s: Seq<(i32, H)>, i: int)
    requires
        unique_keys(s),
        0 <= i < s.len(),
    ensures
        unique_keys(s.remove(i)),
        !has_key(s.remove(i), s[i].0),
        entries_as_map(s.remove(i)) == entries_as_map(s).remove(s[i].0),
{
    let t = s.remove(i);
    let key = s[i].0;
    assert forall|p: int, q: int| 0 <= p < q < t.len() implies (#[trigger] t[p]).0
        != (#[trigger] t[q]).0 by {
        let sp: int = if p < i {
            p
        } else {
            p + 1
        };
        let sq: int = if q < i {
            q
        } else {
            q + 1
        };
        assert(t[p] == s[sp]);
        assert(t[q] == s[sq]);
    }
    assert forall|j: int| 0 <= j < t.len() implies (#[trigger] t[j]).0 != key by {
        let sj: int = if j < i {
            j
        } else {
            j + 1
        };
        assert(t[j] == s[sj]);
    }
    assert forall|k: i32| #[trigger]
        has_key(t, k) == entries_as_map(s).remove(key).contains_key(k) by {
        if k != key {
            if has_key(t, k) {
                let j = choose|j: int| 0 <= j < t.len() && (#[trigger] t[j]).0 == k;
                let sj: int = if j < i {
                    j
                } else {
                    j + 1
                };
                assert(s[sj] == t[j]);
            }
            if has_key(s, k) {
                let j = choose|j: int| 0 <= j < s.len() && (#[trigger] s[j]).0 == k;
                assert(j != i);
                let tj: int = if j < i {
                    j
                } else {
                    j - 1
                };
                assert(t[tj] == s[j]);
            }
        }
    }
    assert forall|k: i32| has_key(t, k) implies #[trigger] entry_at(t, k) == entries_as_map(
        s,
    ).remove(key)[k] by {
        let j = choose|j: int| 0 <= j < t.len() && (#[trigger] t[j]).0 == k;
        let sj: int = if j < i {
            j
        } else {
            j + 1
        };
        assert(t[j] == s[sj]);
        lemma_entry_at_index(s, sj);
        let j2 = choose|j2: int| 0 <= j2 < s.len() && (#[trigger] s[j2]).0 == k;
        assert(j2 == sj);
    }
    assert(entries_as_map(t) =~= entries_as_map(s).remove(key));
}

/// The registry. Its view (`@`) is the mapping it represents: a finite map
/// from each registered key to the handler that owns it.
pub struct Registry<H> {
    entries: Vec<(i32, H)>,
}

impl<H: EventHandler> View for Registry<H> {
    type V = Map<i32, H>;

    closed spec fn view(&self) -> Map<i32, H> {
        entries_as_map(self.entries@)
    }
}

impl<H: EventHandler> Registry<H> {
    /// Well-formed: keys are unique, and each handler is stored under its own
    /// key.
    pub closed spec fn wf(&self) -> bool {
        &&& unique_keys(self.entries@)
        &&& forall|i: int|
            0 <= i < self.entries@.len() ==> (#[trigger] self.entries@[i]).1.key_spec()
                == self.entries@[i].0
    }

    /// An empty registry: no key has an owner.
    pub fn new() -> (r: Self)
        ensures
            r.wf(),
            r@ == Map::<i32, H>::empty(),
    {
        let r = Registry { entries: Vec::new() };
        proof {
            assert(r@ =~= Map::<i32, H>::empty());
        }
        r
    }

    fn find_index(&self, key: i32) -> (r: Option<usize>)
        ensures
            match r {
                Some(i) => i < self.entries@.len() && self.entries@[i as int].0 == key,
                None => !has_key(self.entries@, key),
            },
    {
        let mut i: usize = 0;
        while i < self.entries.len()
            invariant
                i <= self.entries@.len(),
                forall|j: int| 0 <= j < i ==> (#[trigger] self.entries@[j]).0 != key,
            decreases self.entries@.len() - i,
        {
            if self.entries[i].0 == key {
                return Some(i);
            }
            i = i + 1;
        }
        None
    }

    /// Registers `handler` under its own key, replacing and dropping any
    /// handler previously registered there.
    pub fn register(&mut self, handler: H)
        requires
            old(self).wf(),
        ensures
            final(self).wf(),
            final(self)@ == old(self)@.insert(handler.key_spec(), handler),
    {
        let key = handler.handler();
        let ghost s0 = self.entries@;
        match self.find_index(key) {
            Some(i) => {
                self.entries.remove(i);
                proof {
                    lemma_map_remove(s0, i as int);
                    lemma_map_push(s0.remove(i as int), key, handler);
                }
                self.entries.push((key, handler));
                proof {
                    assert(self@ =~= old(self)@.insert(key, handler));
                }
            },
            None => {
                proof {
                    lemma_map_push(s0, key, handler);
                }
                self.entries.push((key, handler));
            },
        }
    }

    /// Removes the handler registered under `key` and returns ownership of
    /// it, or returns `None` when no handler owns that key (not an error).
    pub fn remove(&mut self, key: i32) -> (r: Option<H>)
        requires
            old(self).wf(),
        ensures
            final(self).wf(),
            final(self)@ == old(self)@.remove(key),
            r == if old(self)@.contains_key(key) {
                Some(old(self)@[key])
            } else {
                None::<H>
            },
            r is Some ==> r.unwrap().key_spec() == key,
    {
        match self.find_index(key) {
            Some(i) => {
                proof {
                    lemma_map_remove(self.entries@, i as int);
                    lemma_entry_at_index(self.entries@, i as int);
                }
                let entry = self.entries.remove(i);
                Some(entry.1)
            },
            None => {
                proof {
                    assert(self@ =~= self@.remove(key));
                }
                None
            },
        }
    }

    /// Looks up the handler registered under `key`. Absence is not an error:
    /// it means no interested party.
    pub fn lookup(&self, key: i32) -> (r: Option<&H>)
        requires
            self.wf(),
        ensures
            match r {
                Some(h) => self@.contains_key(key) && *h == self@[key],
                None => !self@.contains_key(key),
            },
    {
        match self.find_index(key) {
            Some(i) => {
                proof {
                    lemma_entry_at_index(self.entries@, i as int);
                }
                Some(&self.entries[i].1)
            },
            None => None,
        }
    }

}

/// One registry operation, for stating laws about whole histories of
/// registrations and removals.
pub enum RegistryOp<H> {
    /// Register this handler under its own key.
    Register(H),
    /// Remove whatever handler owns this key.
    Remove(i32),
}

/// The key an operation touches.
pub open spec fn op_key<H: EventHandler>(op: RegistryOp<H>) -> i32 {
    match op {
        RegistryOp::Register(h) => h.key_spec(),
        RegistryOp::Remove(k) => k,
    }
}

/// The mapping left behind by one operation.
pub open spec fn apply_op<H: EventHandler>(m: Map<i32, H>, op: RegistryOp<H>) -> Map<i32, H> {
    match op {
        RegistryOp::Register(h) => m.insert(h.key_spec(), h),
        RegistryOp::Remove(k) => m.remove(k),
    }
}

/// The mapping left behind by a sequence of operations, applied in order.
pub open spec fn apply_ops<H: EventHandler>(m: Map<i32, H>, ops: Seq<RegistryOp<H>>) -> Map<
    i32,
    H,
>
    decreases ops.len(),
{
    if ops.len() == 0 {
        m
    } else {
        apply_ops(apply_op(m, ops[0]), ops.drop_first())
    }
}

proof fn lemma_untouched_key_persists<H: EventHandler>(
    m: Map<i32, H>,
    key: i32,
    ops: Seq<RegistryOp<H>>,
)
    requires
        m.contains_key(key),
        forall|i: int| 0 <= i < ops.len() ==> op_key(#[trigger] ops[i]) != key,
    ensures
        apply_ops(m, ops).contains_key(key),
        apply_ops(m, ops)[key] == m[key],
    decreases ops.len(),
{
    if ops.len() > 0 {
        let m1 = apply_op(m, ops[0]);
        let rest = ops.drop_first();
        assert forall|i: int| 0 <= i < rest.len() implies op_key(#[trigger] rest[i]) != key by {
            assert(rest[i] == ops[i + 1]);
        }
        lemma_untouched_key_persists(m1, key, rest);
    }
}

/// Law: after a handler is registered under its key, every later sequence of
/// registrations and removals that touches only other keys leaves exactly
/// that handler reachable under that key.
pub proof fn lemma_registered_handler_persists<H: EventHandler>(
    m: Map<i32, H>,
    h: H,
    ops: Seq<RegistryOp<H>>,
)
    requires
        forall|i: int| 0 <= i < ops.len() ==> op_key(#[trigger] ops[i]) != h.key_spec(),
    ensures
        apply_ops(m.insert(h.key_spec(), h), ops).contains_key(h.key_spec()),
        apply_ops(m.insert(h.key_spec(), h), ops)[h.key_spec()] == h,
{
    lemma_untouched_key_persists(m.insert(h.key_spec(), h), h.key_spec(), ops);
}

/// Law: a handler registered under its key is the one that lookup at that key
/// finds, and it stays found there until that key is overwritten by another
/// registration or removed; registrations and removals of other keys do not
/// disturb it.
pub proof fn lemma_registered_handler_is_found<H: EventHandler>(
    m: Map<i32, H>,
    h: H,
    other: H,
    k2: i32,
)
    ensures
        m.insert(h.key_spec(), h).contains_key(h.key_spec()),
        m.insert(h.key_spec(), h)[h.key_spec()] == h,
        k2 != h.key_spec() ==> m.insert(h.key_spec(), h).insert(k2, other).contains_key(
            h.key_spec(),
        ) && m.insert(h.key_spec(), h).insert(k2, other)[h.key_spec()] == h,
        k2 != h.key_spec() ==> m.insert(h.key_spec(), h).remove(k2).contains_key(h.key_spec())
            && m.insert(h.key_spec(), h).remove(k2)[h.key_spec()] == h,
{
}

/// Law: registering two handlers that share a key leaves exactly the mapping
/// that registering the second alone would leave; only the second is
/// reachable under that key, so the first is no longer dispatchable there.
pub proof fn lemma_reregistration_replaces<H: EventHandler>(m: Map<i32, H>, first: H, second: H)
    requires
        first.key_spec() == second.key_spec(),
    ensures
        m.insert(first.key_spec(), first).insert(second.key_spec(), second) == m.insert(
            second.key_spec(),
            second,
        ),
        m.insert(first.key_spec(), first).insert(second.key_spec(), second)[first.key_spec()]
            == second,
{
    assert(m.insert(first.key_spec(), first).insert(second.key_spec(), second) =~= m.insert(
        second.key_spec(),
        second,
    ));
}

/// Law: once a key is removed, lookup at that key finds nothing, until a
/// handler is registered under that key again, after which lookup finds the
/// new handler.
pub proof fn lemma_removed_key_is_not_found<H: EventHandler>(m: Map<i32, H>, k: i32, h: H)
    requires
        h.key_spec() == k,
    ensures
        !m.remove(k).contains_key(k),
        m.remove(k).insert(h.key_spec(), h).contains_key(k),
        m.remove(k).insert(h.key_spec(), h)[k] == h,
{
}

} // verus!

