//! The lookup tables of the assembler: labels and procedures by name.
//!
//! A table is built once, by insertion, and then only read. Inserting a name
//! again overwrites what it was bound to.

use vstd::prelude::*;

use crate::instruction::Pointer;
use crate::text::same_text;

verus! {

/// The map that a list of bindings stands for. A later binding of a name
/// overrides the earlier ones.
pub open spec fn bindings<V>(entries: Seq<(String, V)>) -> Map<Seq<char>, V>
    decreases entries.len(),
{
    if entries.len() == 0 {
        Map::empty()
    } else {
        bindings(entries.drop_last()).insert(entries.last().0@, entries.last().1)
    }
}

/// A table from names to values. Its view is the map it stands for.
pub struct NameTable<V> {
    entries: Vec<(String, V)>,
}

impl<V> View for NameTable<V> {
    type V = Map<Seq<char>, V>;

    closed spec fn view(&self) -> Map<Seq<char>, V> {
        bindings(self.entries@)
    }
}

impl<V: Copy> NameTable<V> {
    /// A table without entries.
    pub fn new() -> (table: Self)
        ensures
            table@ == Map::<Seq<char>, V>::empty(),
    {
        NameTable { entries: Vec::new() }
    }

    /// Binds `name` to `value`, whatever it was bound to before.
    pub fn insert(&mut self, name: &str, value: V)
        ensures
            final(self)@ == old(self)@.insert(name@, value),
    {
        self.entries.push((name.to_owned(), value));
        assert(self.entries@.drop_last() =~= old(self).entries@);
    }

    /// What `name` is bound to, if it is bound.
    pub fn get(&self, name: &str) -> (value: Option<V>)
        ensures
            value == if self@.contains_key(name@) {
                Some(self@[name@])
            } else {
                None
            },
    {
        let mut i: usize = self.entries.len();
        assert(self.entries@.take(i as int) =~= self.entries@);
        while i > 0
            invariant
                i <= self.entries@.len(),
                self@.contains_key(name@) == bindings(self.entries@.take(i as int)).contains_key(
                    name@,
                ),
                self@.contains_key(name@) ==> self@[name@] == bindings(
                    self.entries@.take(i as int),
                )[name@],
            decreases i,
        {
            i = i - 1;
            assert(self.entries@.take(i + 1).drop_last() =~= self.entries@.take(i as int));
            if same_text(self.entries[i].0.as_str(), name) {
                return Some(self.entries[i].1);
            }
        }
        None
    }
}

/// Jump targets by label name.
pub type Labels = NameTable<Pointer>;

/// Procedures by name. A procedure is bound to a pair: the index of its
/// declaration, and the index one past the line that ends it. The first is
/// always the smaller one.
pub struct Procedures {
    spans: NameTable<(Pointer, Pointer)>,
}

impl View for Procedures {
    type V = Map<Seq<char>, (Pointer, Pointer)>;

    closed spec fn view(&self) -> Map<Seq<char>, (Pointer, Pointer)> {
        self.spans@
    }
}

/// Every procedure of the map ends behind its declaration.
pub open spec fn spans_ordered(procedures: Map<Seq<char>, (Pointer, Pointer)>) -> bool {
    forall|name: Seq<char>| #[trigger]
        procedures.contains_key(name) ==> procedures[name].0 < procedures[name].1
}

impl Procedures {
    /// The table holds only what `new` and `insert` let in.
    pub closed spec fn wf(&self) -> bool {
        spans_ordered(self.spans@)
    }

    /// In a well-formed table every procedure ends behind its declaration.
    pub proof fn wf_orders_spans(&self)
        requires
            self.wf(),
        ensures
            spans_ordered(self@),
    {
    }

    /// A table without entries.
    pub fn new() -> (table: Procedures)
        ensures
            table.wf(),
            table@ == Map::<Seq<char>, (Pointer, Pointer)>::empty(),
    {
        Procedures { spans: NameTable::new() }
    }

    /// Binds `name` to the procedure declared at `start` whose end is
    /// followed by `after_end`, whatever the name was bound to before.
    pub fn insert(&mut self, name: &str, start: Pointer, after_end: Pointer)
        requires
            old(self).wf(),
            start < after_end,
        ensures
            final(self).wf(),
            final(self)@ == old(self)@.insert(name@, (start, after_end)),
    {
        self.spans.insert(name, (start, after_end));
    }

    /// The pair that `name` is bound to, if it is bound.
    pub fn get(&self, name: &str) -> (span: Option<(Pointer, Pointer)>)
        ensures
            span == if self@.contains_key(name@) {
                Some(self@[name@])
            } else {
                None
            },
    {
        self.spans.get(name)
    }
}

} // verus!
