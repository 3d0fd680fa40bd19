use vstd::prelude::*;

use crate::types::Item;

verus! {

/// The first entry of `s` named `name`, if any. With unique names this is the
/// entry keyed by `name`.
pub open spec fn lookup_item(s: Seq<Item>, name: Seq<char>) -> Option<Item>
    decreases s.len(),
{
    if s.len() == 0 {
        None
    } else if s[0].name@ == name {
        Some(s[0])
    } else {
        lookup_item(s.drop_first(), name)
    }
}

/// No two entries of `s` share a name.
pub open spec fn unique_names(s: Seq<Item>) -> bool {
    forall|i: int, j: int| 0 <= i < j < s.len() ==> s[i].name@ != s[j].name@
}

/// When the first entry named `name` stands at index `i`, that entry is what
/// lookup finds.
pub proof fn lemma_lookup_at_index(s: Seq<Item>, name: Seq<char>, i: int)
    requires
        0 <= i < s.len(),
        s[i].name@ == name,
        forall|j: int| 0 <= j < i ==> s[j].name@ != name,
    ensures
        lookup_item(s, name) == Some(s[i]),
    decreases i,
{
    if i > 0 {
        assert forall|j: int| 0 <= j < i - 1 implies s.drop_first()[j].name@ != name by {
            assert(s.drop_first()[j] == s[j + 1]);
        }
        lemma_lookup_at_index(s.drop_first(), name, i - 1);
    }
}

/// Without a matching entry, lookup finds nothing.
pub proof fn lemma_lookup_no_match(s: Seq<Item>, name: Seq<char>)
    requires
        forall|j: int| 0 <= j < s.len() ==> s[j].name@ != name,
    ensures
        lookup_item(s, name) is None,
    decreases s.len(),
{
    if s.len() > 0 {
        assert forall|j: int| 0 <= j < s.drop_first().len() implies s.drop_first()[j].name@
            != name by {
            assert(s.drop_first()[j] == s[j + 1]);
        }
        lemma_lookup_no_match(s.drop_first(), name);
    }
}

/// Overwriting the first entry named like `item` changes exactly that key's
/// lookup and no other.
proof fn lemma_lookup_update(s: Seq<Item>, i: int, item: Item, n: Seq<char>)
    requires
        0 <= i < s.len(),
        s[i].name@ == item.name@,
        forall|j: int| 0 <= j < i ==> s[j].name@ != item.name@,
    ensures
        lookup_item(s.update(i, item), n) == (if n == item.name@ {
            Some(item)
        } else {
            lookup_item(s, n)
        }),
    decreases i,
{
    if i == 0 {
        assert(s.update(0, item).drop_first() =~= s.drop_first());
    } else {
        assert(s.update(i, item).drop_first() =~= s.drop_first().update(i - 1, item));
        assert forall|j: int| 0 <= j < i - 1 implies s.drop_first()[j].name@ != item.name@ by {
            assert(s.drop_first()[j] == s[j + 1]);
        }
        lemma_lookup_update(s.drop_first(), i - 1, item, n);
    }
}

/// Appending an entry under a fresh name changes exactly that key's lookup
/// and no other.
proof fn lemma_lookup_push(s: Seq<Item>, item: Item, n: Seq<char>)
    requires
        forall|j: int| 0 <= j < s.len() ==> s[j].name@ != item.name@,
    ensures
        lookup_item(s.push(item), n) == (if n == item.name@ {
            Some(item)
        } else {
            lookup_item(s, n)
        }),
    decreases s.len(),
{
    if s.len() == 0 {
        assert(s.push(item).drop_first() =~= Seq::<Item>::empty());
    } else {
        assert(s.push(item).drop_first() =~= s.drop_first().push(item));
        assert forall|j: int| 0 <= j < s.drop_first().len() implies s.drop_first()[j].name@
            != item.name@ by {
            assert(s.drop_first()[j] == s[j + 1]);
        }
        lemma_lookup_push(s.drop_first(), item, n);
    }
}

/// The shared menu: reference data mapping item names to item definitions,
/// mutated only through upsert and bulk clear.
pub struct MenuCatalog {
    items: Vec<Item>,
}

impl View for MenuCatalog {
    type V = Seq<Item>;

    closed spec fn view(&self) -> Seq<Item> {
        self.items@
    }
}

impl MenuCatalog {
    /// The catalog keeps one entry per name.
    pub open spec fn wf(&self) -> bool {
        unique_names(self@)
    }

    /// The entry keyed by `name`, if any.
    pub open spec fn spec_lookup(&self, name: Seq<char>) -> Option<Item> {
        lookup_item(self@, name)
    }

    /// An empty catalog.
    pub fn new() -> (r: MenuCatalog)
        ensures
            r@ == Seq::<Item>::empty(),
            r.wf(),
            forall|n: Seq<char>| #[trigger] r.spec_lookup(n) is None,
    {
        MenuCatalog { items: Vec::new() }
    }

    /// Inserts or overwrites the entry keyed by `item.name`.
    pub fn upsert(&mut self, item: Item)
        requires
            old(self).wf(),
        ensures
            final(self).wf(),
            forall|n: Seq<char>| #[trigger] final(self).spec_lookup(n) == (if n == item.name@ {
                Some(item)
            } else {
                old(self).spec_lookup(n)
            }),
    {
        let ghost pre = self.items@;
        let idx = crate::types::find_by_name(&self.items, &item.name);
        match idx {
            Some(i) => {
                proof {
                    assert forall|n: Seq<char>|
                        lookup_item(pre.update(i as int, item), n) == (if n == item.name@ {
                            Some(item)
                        } else {
                            lookup_item(pre, n)
                        }) by {
                        lemma_lookup_update(pre, i as int, item, n);
                    }
                    assert forall|a: int, b: int|
                        0 <= a < b < pre.update(i as int, item).len() implies pre.update(
                        i as int,
                        item,
                    )[a].name@ != pre.update(i as int, item)[b].name@ by {
                        assert(pre[a].name@ != pre[b].name@);
                    }
                }
                self.items.set(i, item);
            },
            None => {
                proof {
                    assert forall|n: Seq<char>|
                        lookup_item(pre.push(item), n) == (if n == item.name@ {
                            Some(item)
                        } else {
                            lookup_item(pre, n)
                        }) by {
                        lemma_lookup_push(pre, item, n);
                    }
                }
                self.items.push(item);
            },
        }
    }

    /// Removes every entry: lookups for any previously present name now fail.
    pub fn clear(&mut self)
        ensures
            final(self)@ == Seq::<Item>::empty(),
            final(self).wf(),
            forall|n: Seq<char>| #[trigger] final(self).spec_lookup(n) is None,
    {
        self.items.clear();
    }

    /// Looks `name` up and hands back a copy of the entry, if present.
    pub fn get(&self, name: &String) -> (r: Option<Item>)
        ensures
            r == self.spec_lookup(name@),
    {
        let idx = crate::types::find_by_name(&self.items, name);
        match idx {
            Some(i) => {
                proof {
                    lemma_lookup_at_index(self.items@, name@, i as int);
                }
                Some(self.items[i].clone())
            },
            None => {
                proof {
                    lemma_lookup_no_match(self.items@, name@);
                }
                None
            },
        }
    }

    /// An immutable copy of the full mapping, for read access.
    pub fn snapshot(&self) -> (r: Vec<Item>)
        ensures
            r@ == self@,
    {
        crate::types::clone_items(&self.items)
    }
}

} // verus!
