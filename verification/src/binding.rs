//! The binding table: which snippet a digit key inserts.

use crate::paragraph::{Paragraph, ParagraphView};
use std::collections::HashMap;
use vstd::prelude::*;

verus! {

broadcast use vstd::std_specs::hash::group_hash_axioms;

/// One line of the configured bindings.
pub struct Binding {
    pub key: u8,
    pub paragraph: Paragraph,
}

/// Lookup from key to snippet. Filled once, never changed afterwards.
pub struct BindingTable(HashMap<u8, Paragraph>);

/// The table that a list of bindings gives: of two bindings with one key the
/// later stands.
pub open spec fn table_of(bindings: Seq<Binding>) -> Map<u8, ParagraphView>
    decreases bindings.len(),
{
    if bindings.len() == 0 {
        Map::empty()
    } else {
        table_of(bindings.drop_last()).insert(bindings.last().key, bindings.last().paragraph@)
    }
}

impl View for BindingTable {
    type V = Map<u8, ParagraphView>;

    closed spec fn view(&self) -> Map<u8, ParagraphView> {
        self.0@.map_values(|p: Paragraph| p@)
    }
}

impl Default for BindingTable {
    fn default() -> (r: Self)
        ensures
            r@ == Map::<u8, ParagraphView>::empty(),
    {
        let r = BindingTable(HashMap::new());
        assert(r@ =~= Map::<u8, ParagraphView>::empty());
        r
    }
}

impl BindingTable {
    /// The table of a list of bindings.
    pub fn from_bindings(bindings: &Vec<Binding>) -> (r: Self)
        ensures
            r@ == table_of(bindings@),
    {
        let mut table: HashMap<u8, Paragraph> = HashMap::new();
        let mut i: usize = 0;
        assert(table@.map_values(|p: Paragraph| p@) =~= table_of(bindings@.take(0)));
        while i < bindings.len()
            invariant
                i <= bindings.len(),
                table@.map_values(|p: Paragraph| p@) == table_of(bindings@.take(i as int)),
            decreases bindings.len() - i,
        {
            let ghost before = table@;
            let snippet = bindings[i].paragraph.clone();
            table.insert(bindings[i].key, snippet);
            proof {
                assert(bindings@.take(i + 1).drop_last() == bindings@.take(i as int));
                assert(table@.map_values(|p: Paragraph| p@) =~= before.map_values(
                    |p: Paragraph| p@,
                ).insert(bindings@[i as int].key, bindings@[i as int].paragraph@));
            }
            i += 1;
        }
        assert(bindings@.take(bindings.len() as int) == bindings@);
        BindingTable(table)
    }

    /// The snippet bound to `key`, if there is one.
    pub fn get(&self, key: u8) -> (r: Option<&Paragraph>)
        ensures
            r is Some == self@.dom().contains(key),
            r matches Some(p) ==> p@ == self@[key],
    {
        self.0.get(&key)
    }
}

} // verus!
