//! The identity interning table.
//!
//! Composite identities (closures, opaque types, callables, type parameters)
//! get a compact handle the first time they are seen. The table only grows:
//! a handle, once given out, names the same identity for good.
use vstd::prelude::*;
use crate::ids::InternKey;

verus! {

/// An append-only, duplicate-free registry of identities. The handle of an
/// identity is its position.
pub struct InternTable {
    keys: Vec<InternKey>,
}

impl InternTable {
    /// The identities in the order of their handles.
    pub closed spec fn view(&self) -> Seq<InternKey> {
        self.keys@
    }

    /// No identity has two handles.
    pub open spec fn wf(&self) -> bool {
        self@.no_duplicates()
    }

    /// An empty table.
    pub fn new() -> (r: InternTable)
        ensures
            r@ == Seq::<InternKey>::empty(),
            r.wf(),
    {
        InternTable { keys: Vec::new() }
    }

    /// The number of handles given out.
    pub fn len(&self) -> (r: usize)
        ensures
            r == self@.len(),
    {
        self.keys.len()
    }

    /// The handle of `key`, if it has one: the first position that holds
    /// the key.
    pub fn handle_of(&self, key: InternKey) -> (r: Option<usize>)
        ensures
            match r {
                Some(h) => h < self@.len() && self@[h as int] == key && forall|j: int|
                    0 <= j < h ==> self@[j] != key,
                None => !self@.contains(key),
            },
    {
        let mut i: usize = 0;
        while i < self.keys.len()
            invariant
                i <= self.keys.len(),
                forall|j: int| 0 <= j < i ==> self.keys@[j] != key,
            decreases self.keys.len() - i,
        {
            if self.keys[i] == key {
                return Some(i);
            }
            i += 1;
        }
        None
    }

    /// The handle of `key`; the key is registered first if it is new.
    pub fn intern(&mut self, key: InternKey) -> (r: usize)
        requires
            old(self).wf(),
        ensures
            final(self).wf(),
            r < final(self)@.len(),
            final(self)@[r as int] == key,
            final(self)@.contains(key),
            extends(final(self)@, old(self)@),
            final(self)@ == (if old(self)@.contains(key) {
                old(self)@
            } else {
                old(self)@.push(key)
            }),
    {
        match self.handle_of(key) {
            Some(h) => h,
            None => {
                let h = self.keys.len();
                self.keys.push(key);
                h
            },
        }
    }

    /// The handle of a key that the table contains.
    pub(crate) fn handle(&self, key: InternKey) -> (r: usize)
        requires
            self.wf(),
            self@.contains(key),
        ensures
            r == handle_in(self@, key),
            r < self@.len(),
            self@[r as int] == key,
    {
        let n = self.keys.len();
        match self.handle_of(key) {
            Some(h) => {
                proof {
                    assert(self@.len() == n);
                    lemma_handle_of_position(self@, h as int);
                }
                h
            },
            None => 0,
        }
    }

    /// The identity that `handle` names, if the table gave it out.
    pub fn lookup(&self, handle: usize) -> (r: Option<InternKey>)
        ensures
            r == (if handle < self@.len() {
                Some(self@[handle as int])
            } else {
                None
            }),
    {
        if handle < self.keys.len() {
            Some(self.keys[handle])
        } else {
            None
        }
    }
}

/// The handle that `table` gives to `key`: its position. Meaningful only for
/// a key the table contains.
pub open spec fn handle_in(table: Seq<InternKey>, key: InternKey) -> usize {
    table.index_of(key) as usize
}

/// `table` grew into `later` without disturbing any handle.
pub open spec fn extends(later: Seq<InternKey>, table: Seq<InternKey>) -> bool {
    table.is_prefix_of(later)
}

/// What a table contains it still contains after it grew.
pub proof fn lemma_extends_contains(table: Seq<InternKey>, later: Seq<InternKey>, key: InternKey)
    requires
        extends(later, table),
        table.contains(key),
    ensures
        later.contains(key),
{
    let i = choose|i: int| 0 <= i < table.len() && table[i] == key;
    assert(later[i] == key);
}

/// Growth composes.
pub proof fn lemma_extends_trans(a: Seq<InternKey>, b: Seq<InternKey>, c: Seq<InternKey>)
    requires
        extends(b, a),
        extends(c, b),
    ensures
        extends(c, a),
{
    assert forall|i: int| 0 <= i < a.len() implies a[i] == c[i] by {
        assert(a[i] == b[i]);
    }
}

/// In a duplicate-free table the handle of the key at position `i` is `i`.
pub proof fn lemma_handle_of_position(table: Seq<InternKey>, i: int)
    requires
        table.no_duplicates(),
        0 <= i < table.len(),
        table.len() <= usize::MAX,
    ensures
        handle_in(table, table[i]) == i,
{
    let j = table.index_of(table[i]);
    table.index_of_first_ensures(table[i]);
    assert(table.contains(table[i]));
}

/// Handles survive growth.
pub proof fn lemma_handle_stable(table: Seq<InternKey>, later: Seq<InternKey>, key: InternKey)
    requires
        later.no_duplicates(),
        extends(later, table),
        table.contains(key),
        later.len() <= usize::MAX,
    ensures
        later.contains(key),
        handle_in(later, key) == handle_in(table, key),
{
    let i = table.index_of(key);
    assert(0 <= i < table.len() && table[i] == key);
    assert(later[i] == key);
    lemma_handle_of_position(later, i);
    assert(table.no_duplicates()) by {
        assert forall|a: int, b: int| 0 <= a < table.len() && 0 <= b < table.len() && a != b implies table[a] != table[b] by {
            assert(later[a] == table[a] && later[b] == table[b]);
        }
    }
    lemma_handle_of_position(table, i);
}

} // verus!
