use vstd::prelude::*;

use crate::types::Item;
use vstd::arithmetic::mul::lemma_mul_inequality;

verus! {

/// The sum of the prices of the items in `s`.
pub open spec fn sum_prices(s: Seq<Item>) -> int
    decreases s.len(),
{
    if s.len() == 0 {
        0
    } else {
        sum_prices(s.drop_last()) + s.last().price
    }
}

pub proof fn lemma_sum_prices_nonneg(s: Seq<Item>)
    ensures
        0 <= sum_prices(s),
    decreases s.len(),
{
    if s.len() > 0 {
        lemma_sum_prices_nonneg(s.drop_last());
    }
}

/// Removing the entry at `i` lowers the sum by exactly that entry's price.
pub proof fn lemma_sum_prices_remove(s: Seq<Item>, i: int)
    requires
        0 <= i < s.len(),
    ensures
        sum_prices(s.remove(i)) == sum_prices(s) - s[i].price,
    decreases s.len(),
{
    if i == s.len() - 1 {
        assert(s.remove(i) =~= s.drop_last());
    } else {
        assert(s.remove(i).drop_last() =~= s.drop_last().remove(i));
        lemma_sum_prices_remove(s.drop_last(), i);
    }
}

/// Whether some entry of `s` bears the name `name`.
pub open spec fn has_match(s: Seq<Item>, name: Seq<char>) -> bool {
    exists|i: int| 0 <= i < s.len() && s[i].name@ == name
}

/// `s` with its first entry named `name` removed; `s` itself if there is none.
pub open spec fn remove_first_matching(s: Seq<Item>, name: Seq<char>) -> Seq<Item>
    decreases s.len(),
{
    if s.len() == 0 {
        s
    } else if s[0].name@ == name {
        s.drop_first()
    } else {
        seq![s[0]] + remove_first_matching(s.drop_first(), name)
    }
}

/// `s` after removing, `q` times over, its first entry named `name`.
pub open spec fn remove_up_to(s: Seq<Item>, name: Seq<char>, q: nat) -> Seq<Item>
    decreases q,
{
    if q == 0 {
        s
    } else {
        remove_up_to(remove_first_matching(s, name), name, (q - 1) as nat)
    }
}

/// When the first entry named `name` stands at index `i`, removing it is
/// removing the entry at `i`.
pub proof fn lemma_remove_first_at_index(s: Seq<Item>, name: Seq<char>, i: int)
    requires
        0 <= i < s.len(),
        s[i].name@ == name,
        forall|j: int| 0 <= j < i ==> s[j].name@ != name,
    ensures
        remove_first_matching(s, name) == s.remove(i),
    decreases i,
{
    if i == 0 {
        assert(s.drop_first() =~= s.remove(0));
    } else {
        assert forall|j: int| 0 <= j < i - 1 implies s.drop_first()[j].name@ != name by {
            assert(s.drop_first()[j] == s[j + 1]);
        }
        lemma_remove_first_at_index(s.drop_first(), name, i - 1);
        assert(seq![s[0]] + s.drop_first().remove(i - 1) =~= s.remove(i));
    }
}

/// Without a matching entry, removal leaves `s` as it is.
pub proof fn lemma_remove_first_no_match(s: Seq<Item>, name: Seq<char>)
    requires
        forall|j: int| 0 <= j < s.len() ==> s[j].name@ != name,
    ensures
        remove_first_matching(s, name) == s,
    decreases s.len(),
{
    if s.len() > 0 {
        assert forall|j: int| 0 <= j < s.drop_first().len() implies s.drop_first()[j].name@
            != name by {
            assert(s.drop_first()[j] == s[j + 1]);
        }
        lemma_remove_first_no_match(s.drop_first(), name);
        assert(seq![s[0]] + s.drop_first() =~= s);
    }
}

/// One removal drops exactly one entry when a match exists, and none otherwise.
pub proof fn lemma_remove_first_len(s: Seq<Item>, name: Seq<char>)
    ensures
        has_match(s, name) ==> remove_first_matching(s, name).len() == s.len() - 1,
        !has_match(s, name) ==> remove_first_matching(s, name) == s,
    decreases s.len(),
{
    if s.len() == 0 {
    } else if s[0].name@ == name {
    } else {
        lemma_remove_first_len(s.drop_first(), name);
        if has_match(s, name) {
            let i = choose|i: int| 0 <= i < s.len() && s[i].name@ == name;
            assert(s.drop_first()[i - 1].name@ == name);
            assert(has_match(s.drop_first(), name));
        } else {
            assert forall|j: int| 0 <= j < s.drop_first().len() implies s.drop_first()[j].name@
                != name by {
                assert(s.drop_first()[j] == s[j + 1]);
            }
            assert(!has_match(s.drop_first(), name));
            assert(seq![s[0]] + s.drop_first() =~= s);
        }
    }
}

/// Removing up to `q` entries takes away at most `q` of them, and never adds.
pub proof fn lemma_remove_up_to_len(s: Seq<Item>, name: Seq<char>, q: nat)
    ensures
        s.len() - q <= remove_up_to(s, name, q).len() <= s.len(),
    decreases q,
{
    if q > 0 {
        lemma_remove_first_len(s, name);
        lemma_remove_up_to_len(remove_first_matching(s, name), name, (q - 1) as nat);
    }
}

/// Peeling one more removal off the end: removing `k + 1` times is removing
/// `k` times and then once more.
pub proof fn lemma_remove_up_to_step(s: Seq<Item>, name: Seq<char>, k: nat)
    ensures
        remove_up_to(s, name, k + 1) == remove_first_matching(remove_up_to(s, name, k), name),
    decreases k,
{
    let rf = remove_first_matching(s, name);
    if k == 0 {
        assert(remove_up_to(s, name, 1) == remove_up_to(rf, name, 0));
    } else {
        lemma_remove_up_to_step(rf, name, (k - 1) as nat);
        assert(remove_up_to(s, name, k + 1) == remove_up_to(rf, name, k));
        assert(remove_up_to(s, name, k) == remove_up_to(rf, name, (k - 1) as nat));
    }
}

/// The mathematical value of an order: its item snapshots in insertion order
/// and its stored running total.
pub struct OrderView {
    pub items: Seq<Item>,
    pub total: int,
}

impl OrderView {
    /// The one invariant of an order: the stored running total equals the sum
    /// of the prices of the items currently present.
    pub open spec fn wf(&self) -> bool {
        self.total == sum_prices(self.items)
    }
}

/// The ordered collection of purchased item snapshots attached to a call,
/// with a running total kept in step with the items on every mutation.
pub struct Order {
    items: Vec<Item>,
    total_cost: u64,
}

impl View for Order {
    type V = OrderView;

    closed spec fn view(&self) -> OrderView {
        OrderView { items: self.items@, total: self.total_cost as int }
    }
}

impl Order {
    /// An empty order with a zero total.
    pub fn new() -> (r: Order)
        ensures
            r@.items == Seq::<Item>::empty(),
            r@.total == 0,
            r@.wf(),
    {
        Order { items: Vec::new(), total_cost: 0 }
    }

    /// Read access to the item snapshots.
    pub fn items(&self) -> (r: &Vec<Item>)
        ensures
            r@ == self@.items,
    {
        &self.items
    }

    /// The running total of the order.
    pub fn total_cost(&self) -> (r: u64)
        ensures
            r == self@.total,
    {
        self.total_cost
    }

    /// Appends one item snapshot, growing the total by its price in the same
    /// step.
    pub fn add_item(&mut self, item: Item)
        requires
            old(self)@.wf(),
            old(self)@.total + item.price <= u64::MAX,
        ensures
            final(self)@.items == old(self)@.items.push(item),
            final(self)@.total == old(self)@.total + item.price,
            final(self)@.wf(),
    {
        proof {
            assert(old(self)@.items.push(item).drop_last() =~= old(self)@.items);
        }
        self.total_cost = self.total_cost + item.price;
        self.items.push(item);
    }

    /// Appends `quantity` independent copies of `item`, growing the total by
    /// `price * quantity` in the same step.
    pub fn add_items(&mut self, item: &Item, quantity: usize)
        requires
            old(self)@.wf(),
            1 <= quantity,
            old(self)@.total + item.price * quantity <= u64::MAX,
        ensures
            final(self)@.items == old(self)@.items + Seq::new(quantity as nat, |i: int| *item),
            final(self)@.total == old(self)@.total + item.price * quantity,
            final(self)@.wf(),
    {
        let ghost orig_items = self@.items;
        let ghost orig_total = self@.total;
        proof {
            assert(orig_items + Seq::new(0nat, |i: int| *item) =~= orig_items);
        }
        let mut k: usize = 0;
        while k < quantity
            invariant
                self@.wf(),
                k <= quantity,
                self@.items == orig_items + Seq::new(k as nat, |i: int| *item),
                self@.total == orig_total + item.price * k,
                orig_total + item.price * quantity <= u64::MAX,
            decreases quantity - k,
        {
            proof {
                lemma_mul_inequality(k as int + 1, quantity as int, item.price as int);
                assert((k + 1) * item.price == item.price * (k + 1)) by (nonlinear_arith);
                assert(item.price * (k + 1) == item.price * k + item.price) by (nonlinear_arith);
                assert(quantity * item.price == item.price * quantity) by (nonlinear_arith);
                assert(self@.total + item.price <= u64::MAX);
            }
            self.add_item(item.clone());
            proof {
                assert(orig_items + Seq::new((k + 1) as nat, |i: int| *item) =~= (orig_items
                    + Seq::new(k as nat, |i: int| *item)).push(*item));
            }
            k = k + 1;
        }
        proof {
            assert(self@.items =~= old(self)@.items + Seq::new(quantity as nat, |i: int| *item));
        }
    }

    /// Removes, up to `quantity` times over, the first entry whose name
    /// matches, lowering the total by each removed entry's price. Requesting
    /// more removals than there are matching entries is not an error: it
    /// removes as many as exist, possibly none.
    pub fn remove_items(&mut self, name: &String, quantity: usize)
        requires
            old(self)@.wf(),
            1 <= quantity,
        ensures
            final(self)@.items == remove_up_to(old(self)@.items, name@, quantity as nat),
            final(self)@.wf(),
    {
        let ghost orig_items = self@.items;
        let mut k: usize = 0;
        while k < quantity
            invariant
                self@.wf(),
                k <= quantity,
                self@.items == remove_up_to(orig_items, name@, k as nat),
            decreases quantity - k,
        {
            let idx = crate::types::find_by_name(&self.items, name);
            match idx {
                Some(i) => {
                    proof {
                        lemma_remove_first_at_index(self@.items, name@, i as int);
                        lemma_sum_prices_remove(self@.items, i as int);
                        lemma_sum_prices_nonneg(self@.items.remove(i as int));
                    }
                    let removed = self.items.remove(i);
                    self.total_cost = self.total_cost - removed.price;
                },
                None => {
                    proof {
                        lemma_remove_first_no_match(self@.items, name@);
                    }
                },
            }
            proof {
                lemma_remove_up_to_step(orig_items, name@, k as nat);
            }
            k = k + 1;
        }
    }
}

impl Clone for Order {
    fn clone(&self) -> (r: Self)
        ensures
            r@ == self@,
    {
        Order { items: crate::types::clone_items(&self.items), total_cost: self.total_cost }
    }
}

} // verus!
