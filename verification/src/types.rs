use vstd::prelude::*;

verus! {

/// A named, priced catalog entry. Plain data: the catalog keys entries by
/// `name`, and orders hold independent snapshots of the entries added to them.
pub struct Item {
    /// Unique key within the catalog.
    pub name: String,
    pub description: String,
    /// Price in the smallest currency unit, so totals stay exact.
    pub price: u64,
    /// Optional grouping tag.
    pub category: Option<String>,
}

impl Clone for Item {
    fn clone(&self) -> (r: Self)
        ensures
            r == *self,
    {
        Item {
            name: self.name.clone(),
            description: self.description.clone(),
            price: self.price,
            category: match &self.category {
                Some(c) => Some(c.clone()),
                None => None,
            },
        }
    }
}

/// Index of the first entry of `items` named `name`, if any.
pub fn find_by_name(items: &Vec<Item>, name: &String) -> (r: Option<usize>)
    ensures
        match r {
            Some(i) => i < items@.len() && items@[i as int].name@ == name@ && (forall|j: int|
                0 <= j < i ==> items@[j].name@ != name@),
            None => forall|j: int| 0 <= j < items@.len() ==> items@[j].name@ != name@,
        },
{
    let mut j: usize = 0;
    while j < items.len()
        invariant
            j <= items@.len(),
            forall|t: int| 0 <= t < j ==> items@[t].name@ != name@,
        decreases items@.len() - j,
    {
        if items[j].name == *name {
            return Some(j);
        }
        j = j + 1;
    }
    None
}

/// Copies a vector of item snapshots, element by element.
pub fn clone_items(v: &Vec<Item>) -> (r: Vec<Item>)
    ensures
        r@ == v@,
{
    let mut r: Vec<Item> = Vec::new();
    let mut i: usize = 0;
    proof {
        assert(r@ =~= v@.subrange(0, 0));
    }
    while i < v.len()
        invariant
            i <= v@.len(),
            r@ == v@.subrange(0, i as int),
        decreases v@.len() - i,
    {
        r.push(v[i].clone());
        proof {
            assert(v@.subrange(0, i + 1) =~= v@.subrange(0, i as int).push(v@[i as int]));
        }
        i = i + 1;
    }
    proof {
        assert(v@.subrange(0, v@.len() as int) =~= v@);
    }
    r
}

/// How a store operation can fail.
///
/// `NotFound` and `ItemNotFound`/`EmptyName` are recoverable and leave the
/// state untouched. `TotalOverflow` reports that a requested addition would
/// push an order's running total past what a `u64` can hold; it too leaves the
/// state untouched. `InvariantViolation` reports an internal consistency
/// failure (a freshly drawn id colliding with one already issued); callers
/// should treat the store as unusable rather than retry.
#[derive(Clone, Copy, Debug, PartialEq, Eq, Structural)]
pub enum StoreError {
    /// The call id is not present in the registry.
    NotFound,
    /// The requested item name is absent from the menu catalog.
    ItemNotFound,
    /// An item with an empty name was offered to the catalog.
    EmptyName,
    /// The addition would not fit in the order's running total.
    TotalOverflow,
    /// An internal consistency check failed.
    InvariantViolation,
}

} // verus!
