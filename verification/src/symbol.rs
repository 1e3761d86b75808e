//! The symbol table: the name-keyed collection of compiled declarations the
//! parser produces and the code-generation engine walks in name order.

use vstd::prelude::*;

use crate::ast::{ItemModel, LNMsgType};
use crate::text::{lemma_lex_lt_trans, lemma_lex_lt_trichotomy, lex_lt, str_eq, str_lex_lt};

verus! {

/// One named declaration.
pub type TableModel = Seq<(Seq<char>, ItemModel)>;

/// Whether the entries stand in strictly increasing name order; this makes
/// every name unique.
pub open spec fn st_sorted(t: TableModel) -> bool {
    forall|i: int, j: int| 0 <= i < j < t.len() ==> lex_lt(#[trigger] t[i].0, #[trigger] t[j].0)
}

/// The entry declared under `name`, if any.
pub open spec fn st_get(t: TableModel, name: Seq<char>) -> Option<ItemModel>
    decreases t.len(),
{
    if t.len() == 0 {
        None
    } else if t[0].0 == name {
        Some(t[0].1)
    } else {
        st_get(t.drop_first(), name)
    }
}

/// Whether the table holds an entry named `name`.
pub open spec fn st_contains(t: TableModel, name: Seq<char>) -> bool {
    st_get(t, name) is Some
}

/// The position at or after `i` where `name` belongs: the first entry whose
/// name does not come before `name`.
pub open spec fn st_find(t: TableModel, name: Seq<char>, i: int) -> int
    decreases t.len() - i,
{
    if i < 0 || i >= t.len() {
        i
    } else if lex_lt(t[i].0, name) {
        st_find(t, name, i + 1)
    } else {
        i
    }
}

/// Whether a fresh entry may take the place of an existing one of the same
/// name: only a TLV record may extend the stream an earlier record opened.
pub open spec fn st_may_replace(older: ItemModel, newer: ItemModel) -> bool {
    older is Tlv && newer is Tlv
}

/// Inserting `(name, item)` in name order. `None` is a name clash: the name
/// is already declared and does not continue a TLV stream.
pub open spec fn st_insert(t: TableModel, name: Seq<char>, item: ItemModel) -> Option<TableModel> {
    let i = st_find(t, name, 0);
    if i < t.len() && t[i].0 == name {
        if st_may_replace(t[i].1, item) {
            Some(t.update(i, (name, item)))
        } else {
            None
        }
    } else {
        Some(t.insert(i, (name, item)))
    }
}

/// Every entry before `st_find` comes before `name`; the entry at `st_find`,
/// if any, does not.
proof fn lemma_st_find(t: TableModel, name: Seq<char>, i: int)
    requires
        0 <= i <= t.len(),
    ensures
        i <= st_find(t, name, i) <= t.len(),
        forall|j: int| i <= j < st_find(t, name, i) ==> lex_lt(#[trigger] t[j].0, name),
        st_find(t, name, i) < t.len() ==> !lex_lt(t[st_find(t, name, i)].0, name),
    decreases t.len() - i,
{
    if i < t.len() && lex_lt(t[i].0, name) {
        lemma_st_find(t, name, i + 1);
    }
}

/// Insertion keeps the entries sorted, keeps every other entry, and makes
/// `name` resolve to `item`.
pub proof fn lemma_st_insert_sorted(t: TableModel, name: Seq<char>, item: ItemModel)
    requires
        st_sorted(t),
        st_insert(t, name, item) is Some,
    ensures
        st_sorted(st_insert(t, name, item)->Some_0),
{
    lemma_st_find(t, name, 0);
    let i = st_find(t, name, 0);
    let r = st_insert(t, name, item)->Some_0;
    if i < t.len() && t[i].0 == name {
        assert forall|p: int, q: int| 0 <= p < q < r.len() implies lex_lt(r[p].0, r[q].0) by {
            assert(r[p].0 == t[p].0);
            assert(r[q].0 == t[q].0);
        }
    } else {
        if i < t.len() {
            lemma_lex_lt_trichotomy(t[i].0, name);
        }
        assert forall|p: int, q: int| 0 <= p < q < r.len() implies lex_lt(r[p].0, r[q].0) by {
            if p < i && q == i {
                assert(r[q].0 == name);
            } else if p == i {
                assert(r[p].0 == name);
                assert(r[q].0 == t[q - 1].0);
                assert(lex_lt(name, t[i].0));
                if q - 1 > i {
                    lemma_lex_lt_trans(name, t[i].0, t[q - 1].0);
                }
            } else if p < i && q > i {
                assert(r[p].0 == t[p].0);
                assert(r[q].0 == t[q - 1].0);
                if q - 1 == p {
                    assert(false);
                }
            } else if p > i {
                assert(r[p].0 == t[p - 1].0);
                assert(r[q].0 == t[q - 1].0);
            }
        }
    }
}

/// One named declaration as the table stores it.
#[derive(PartialEq, Debug)]
struct TableEntry {
    name: String,
    item: LNMsgType,
}

/// Whether every TLV record of the table stands under its own stream name,
/// as the parser declares them.
pub open spec fn tlv_keyed(tbl: TableModel) -> bool {
    forall|k: int|
        0 <= k < tbl.len() && (#[trigger] tbl[k]).1 is Tlv ==> tbl[k].1->Tlv_0.stream == tbl[k].0
}

/// Insertion keeps the table TLV-keyed, provided a TLV record only ever
/// stands under its own stream name.
pub proof fn lemma_st_insert_tlv_keyed(t: TableModel, name: Seq<char>, item: ItemModel)
    requires
        tlv_keyed(t),
        st_insert(t, name, item) is Some,
        item is Tlv ==> item->Tlv_0.stream == name,
    ensures
        tlv_keyed(st_insert(t, name, item)->Some_0),
{
    let i = st_find(t, name, 0);
    lemma_st_find(t, name, 0);
    let r = st_insert(t, name, item)->Some_0;
    if i < t.len() && t[i].0 == name {
        assert forall|k: int| 0 <= k < r.len() && (#[trigger] r[k]).1 is Tlv implies r[k].1->Tlv_0.stream
            == r[k].0 by {
            if k != i {
                assert(r[k] == t[k]);
            }
        }
    } else {
        assert forall|k: int| 0 <= k < r.len() && (#[trigger] r[k]).1 is Tlv implies r[k].1->Tlv_0.stream
            == r[k].0 by {
            if k < i {
                assert(r[k] == t[k]);
            } else if k > i {
                assert(r[k] == t[k - 1]);
            }
        }
    }
}

/// The symbol table: declarations keyed by name, kept in strictly increasing
/// name order.
#[derive(PartialEq, Debug)]
pub struct SymbolTable {
    entries: Vec<TableEntry>,
}

impl View for SymbolTable {
    type V = TableModel;

    closed spec fn view(&self) -> TableModel {
        Seq::new(self.entries@.len(), |i: int| (self.entries@[i].name@, self.entries@[i].item@))
    }
}

impl SymbolTable {
    /// The table's entries stand in strictly increasing name order.
    pub open spec fn wf(&self) -> bool {
        st_sorted(self@)
    }

    /// Builds an empty table.
    pub fn new() -> (r: SymbolTable)
        ensures
            r@ == Seq::<(Seq<char>, ItemModel)>::empty(),
            r.wf(),
    {
        let r = SymbolTable { entries: Vec::new() };
        proof {
            assert(r@ =~= Seq::<(Seq<char>, ItemModel)>::empty());
        }
        r
    }

    /// How many declarations the table holds.
    pub fn len(&self) -> (r: usize)
        ensures
            r == self@.len(),
    {
        self.entries.len()
    }

    /// Whether the table holds no declaration.
    pub fn is_empty(&self) -> (r: bool)
        ensures
            r == (self@.len() == 0),
    {
        self.entries.len() == 0
    }

    /// The name of the `i`-th declaration in name order.
    pub fn name_at(&self, i: usize) -> (r: &String)
        requires
            i < self@.len(),
        ensures
            r@ == self@[i as int].0,
    {
        &self.entries[i].name
    }

    /// The `i`-th declaration in name order.
    pub fn item_at(&self, i: usize) -> (r: &LNMsgType)
        requires
            i < self@.len(),
        ensures
            r@ == self@[i as int].1,
    {
        &self.entries[i].item
    }

    /// Removes every declaration.
    pub fn clear(&mut self)
        ensures
            final(self)@ == Seq::<(Seq<char>, ItemModel)>::empty(),
            final(self).wf(),
    {
        self.entries.clear();
        proof {
            assert(self@ =~= Seq::<(Seq<char>, ItemModel)>::empty());
        }
    }

    /// The declaration under `name`, if any.
    pub fn get(&self, name: &str) -> (r: Option<&LNMsgType>)
        ensures
            (r is Some) == st_contains(self@, name@),
            r is Some ==> r->Some_0@ == st_get(self@, name@)->Some_0,
    {
        let ghost t = self@;
        let mut i: usize = 0;
        proof {
            assert(t.skip(0) =~= t);
        }
        while i < self.entries.len()
            invariant
                i <= t.len(),
                t == self@,
                st_get(t, name@) == st_get(t.skip(i as int), name@),
            decreases t.len() - i,
        {
            proof {
                assert(t.skip(i as int).drop_first() =~= t.skip(i as int + 1));
                assert(t.skip(i as int)[0] == t[i as int]);
            }
            if str_eq(self.entries[i].name.as_str(), name) {
                return Some(&self.entries[i].item);
            }
            i += 1;
        }
        proof {
            assert(t.skip(i as int) =~= Seq::<(Seq<char>, ItemModel)>::empty());
        }
        None
    }

    /// Whether `name` is declared.
    pub fn contains_key(&self, name: &str) -> (r: bool)
        ensures
            r == st_contains(self@, name@),
    {
        self.get(name).is_some()
    }

    /// Declares `item` under `name`, keeping name order. Fails exactly on a
    /// name clash: the name is taken, and not by a TLV record that `item`,
    /// itself a TLV record, would extend.
    pub fn insert(&mut self, name: String, item: LNMsgType) -> (r: Result<(), ()>)
        requires
            old(self).wf(),
        ensures
            final(self).wf(),
            match st_insert(old(self)@, name@, item@) {
                Some(t) => r is Ok && final(self)@ == t,
                None => r is Err && final(self)@ == old(self)@,
            },
    {
        let ghost t = self@;
        let ghost nv = name@;
        let ghost iv = item@;
        proof {
            lemma_st_find(t, nv, 0);
        }
        let mut i: usize = 0;
        while i < self.entries.len() && str_lex_lt(self.entries[i].name.as_str(), name.as_str())
            invariant
                i <= t.len(),
                t == self@,
                nv == name@,
                st_find(t, nv, 0) == st_find(t, nv, i as int),
            decreases t.len() - i,
        {
            i += 1;
        }
        proof {
            assert(st_find(t, nv, i as int) == i as int);
            assert(st_find(t, nv, 0) == i as int);
        }
        if i < self.entries.len() && str_eq(self.entries[i].name.as_str(), name.as_str()) {
            let replaceable = match (&self.entries[i].item, &item) {
                (LNMsgType::Tlv(_), LNMsgType::Tlv(_)) => true,
                _ => false,
            };
            if replaceable {
                self.entries.remove(i);
                self.entries.insert(i, TableEntry { name, item });
                proof {
                    assert(self@ =~= t.update(i as int, (nv, iv)));
                    lemma_st_insert_sorted(t, nv, iv);
                }
                Ok(())
            } else {
                proof {
                    assert(self@ =~= t);
                }
                Err(())
            }
        } else {
            self.entries.insert(i, TableEntry { name, item });
            proof {
                assert(self@ =~= t.insert(i as int, (nv, iv)));
                lemma_st_insert_sorted(t, nv, iv);
            }
            Ok(())
        }
    }
}

} // verus!
