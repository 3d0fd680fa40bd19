use vstd::prelude::*;

use crate::catalog::MenuCatalog;
use crate::order::{remove_up_to, Order, OrderView};
use crate::registry::{Call, CallRegistry, CallView};
use crate::types::{Item, StoreError};

verus! {

/// The item snapshots of an order that may be absent: an absent order holds
/// none.
pub open spec fn order_items(o: Option<OrderView>) -> Seq<Item> {
    match o {
        Some(ov) => ov.items,
        None => Seq::empty(),
    }
}

/// The running total of an order that may be absent: an absent order counts
/// as zero.
pub open spec fn order_total(o: Option<OrderView>) -> int {
    match o {
        Some(ov) => ov.total,
        None => 0,
    }
}

/// The value of an optional order handed out by the store.
pub open spec fn opt_order_view(o: Option<Order>) -> Option<OrderView> {
    match o {
        Some(x) => Some(x@),
        None => None,
    }
}

/// Relies on uuid::Uuid::new_v4 for a random 128-bit call identifier.
/// Nothing is assumed of the value drawn.
#[verifier::external_body]
fn fresh_call_id() -> u128 {
    uuid::Uuid::new_v4().as_u128()
}

/// The shared state: the menu catalog and the call registry behind one owner.
/// Every multi-step use case (lookup plus mutation) is one method, executed
/// against the state with no partial effects observable: on any error the
/// state is exactly what it was.
pub struct StateStore {
    menu: MenuCatalog,
    calls: CallRegistry,
}

impl StateStore {
    /// Both components are well formed.
    pub closed spec fn wf(&self) -> bool {
        self.menu.wf() && self.calls.wf()
    }

    /// The full menu, in insertion order.
    pub closed spec fn spec_menu(&self) -> Seq<Item> {
        self.menu@
    }

    /// The menu entry keyed by `name`, if any.
    pub closed spec fn spec_find_item(&self, name: Seq<char>) -> Option<Item> {
        self.menu.spec_lookup(name)
    }

    /// The call keyed by `id`, if any.
    pub closed spec fn spec_find_call(&self, id: u128) -> Option<CallView> {
        self.calls.spec_lookup(id)
    }

    /// The order attached to call `id`: `None` when the call itself is
    /// unknown, `Some(None)` when the call exists but holds no order.
    pub open spec fn spec_get_order(&self, id: u128) -> Option<Option<OrderView>> {
        match self.spec_find_call(id) {
            Some(c) => Some(c.order),
            None => None,
        }
    }

    /// The per-name view of the menu is exactly lookup in the full snapshot
    /// that `get_menu` hands out, and in a well formed store the snapshot
    /// holds one entry per name.
    pub proof fn lemma_menu_is_snapshot_lookup(&self, name: Seq<char>)
        ensures
            self.spec_find_item(name) == crate::catalog::lookup_item(self.spec_menu(), name),
            self.wf() ==> crate::catalog::unique_names(self.spec_menu()),
    {
    }

    /// What creating a call leaves behind: on success the returned id was
    /// free before the call and now maps to a call with no order, and nothing
    /// else changed; on the (astronomically unlikely) id collision the store
    /// is untouched.
    pub open spec fn create_call_post(
        pre: StateStore,
        post: StateStore,
        r: Result<u128, StoreError>,
    ) -> bool {
        match r {
            Ok(id) => {
                &&& pre.spec_find_call(id) is None
                &&& post.spec_find_call(id) == Some((CallView { id, order: None }))
                &&& forall|x: u128|
                    x != id ==> #[trigger] post.spec_find_call(x) == pre.spec_find_call(x)
                &&& forall|n: Seq<char>| #[trigger] post.spec_find_item(n) == pre.spec_find_item(n)
            },
            Err(e) => e == StoreError::InvariantViolation && post == pre,
        }
    }

    /// What adding an item to the menu leaves behind: an empty name is
    /// rejected untouched; otherwise exactly the entry under the item's name
    /// is inserted or overwritten.
    pub open spec fn add_menu_item_post(
        pre: StateStore,
        post: StateStore,
        item: Item,
        r: Result<(), StoreError>,
    ) -> bool {
        if item.name@.len() == 0 {
            r == Err::<(), StoreError>(StoreError::EmptyName) && post == pre
        } else {
            &&& r == Ok::<(), StoreError>(())
            &&& forall|n: Seq<char>|
                #[trigger] post.spec_find_item(n) == (if n == item.name@ {
                    Some(item)
                } else {
                    pre.spec_find_item(n)
                })
            &&& forall|x: u128| #[trigger] post.spec_find_call(x) == pre.spec_find_call(x)
        }
    }

    /// What clearing the menu leaves behind: every lookup now fails and the
    /// calls are untouched.
    pub open spec fn clear_menu_post(pre: StateStore, post: StateStore) -> bool {
        &&& forall|n: Seq<char>| #[trigger] post.spec_find_item(n) is None
        &&& forall|x: u128| #[trigger] post.spec_find_call(x) == pre.spec_find_call(x)
    }

    /// What adding items to an order leaves behind, for every combination of
    /// inputs: the three failures leave the store exactly as it was, and
    /// success appends `quantity` copies of the catalog entry to the order
    /// (created if absent), growing the total by `price * quantity`.
    pub open spec fn add_items_post(
        pre: StateStore,
        post: StateStore,
        id: u128,
        name: Seq<char>,
        quantity: usize,
        r: Result<Order, StoreError>,
    ) -> bool {
        match pre.spec_find_call(id) {
            None => r == Err::<Order, StoreError>(StoreError::NotFound) && post == pre,
            Some(c) => match pre.spec_find_item(name) {
                None => r == Err::<Order, StoreError>(StoreError::ItemNotFound) && post == pre,
                Some(it) => {
                    if order_total(c.order) + it.price * quantity > u64::MAX {
                        r == Err::<Order, StoreError>(StoreError::TotalOverflow) && post == pre
                    } else {
                        &&& r matches Ok(o) && o@.items == order_items(c.order) + Seq::new(
                            quantity as nat,
                            |k: int| it,
                        ) && o@.total == order_total(c.order) + it.price * quantity && o@.wf()
                            && post.spec_find_call(id) == Some(
                            (CallView { id, order: Some(o@) }),
                        )
                        &&& forall|x: u128|
                            x != id ==> #[trigger] post.spec_find_call(x) == pre.spec_find_call(x)
                        &&& forall|n2: Seq<char>|
                            #[trigger] post.spec_find_item(n2) == pre.spec_find_item(n2)
                    }
                },
            },
        }
    }

    /// What removing items from an order leaves behind: an unknown call is an
    /// error, a call without an order is a successful no-op, and otherwise up
    /// to `quantity` first-matching occurrences of the name are removed.
    pub open spec fn remove_items_post(
        pre: StateStore,
        post: StateStore,
        id: u128,
        name: Seq<char>,
        quantity: usize,
        r: Result<Option<Order>, StoreError>,
    ) -> bool {
        match pre.spec_find_call(id) {
            None => r == Err::<Option<Order>, StoreError>(StoreError::NotFound) && post == pre,
            Some(c) => match c.order {
                None => r == Ok::<Option<Order>, StoreError>(None) && post == pre,
                Some(ov) => {
                    &&& r matches Ok(ro) && ro matches Some(o) && o@.items == remove_up_to(
                        ov.items,
                        name,
                        quantity as nat,
                    ) && o@.wf() && post.spec_find_call(id) == Some(
                        (CallView { id, order: Some(o@) }),
                    )
                    &&& forall|x: u128|
                        x != id ==> #[trigger] post.spec_find_call(x) == pre.spec_find_call(x)
                    &&& forall|n2: Seq<char>|
                        #[trigger] post.spec_find_item(n2) == pre.spec_find_item(n2)
                },
            },
        }
    }

    /// What clearing an order leaves behind: the call's order is absent, and
    /// nothing else changed; an unknown call is a recoverable error.
    pub open spec fn clear_order_post(
        pre: StateStore,
        post: StateStore,
        id: u128,
        r: Result<(), StoreError>,
    ) -> bool {
        match pre.spec_find_call(id) {
            None => r == Err::<(), StoreError>(StoreError::NotFound) && post == pre,
            Some(c) => {
                &&& r == Ok::<(), StoreError>(())
                &&& post.spec_find_call(id) == Some((CallView { id, order: None }))
                &&& forall|x: u128|
                    x != id ==> #[trigger] post.spec_find_call(x) == pre.spec_find_call(x)
                &&& forall|n: Seq<char>| #[trigger] post.spec_find_item(n) == pre.spec_find_item(n)
            },
        }
    }

    /// An empty store: no menu entries, no calls.
    pub fn new() -> (r: StateStore)
        ensures
            r.wf(),
            forall|x: u128| #[trigger] r.spec_find_call(x) is None,
            forall|n: Seq<char>| #[trigger] r.spec_find_item(n) is None,
    {
        StateStore { menu: MenuCatalog::new(), calls: CallRegistry::new() }
    }

    /// A copy of the full menu.
    pub fn get_menu(&self) -> (r: Vec<Item>)
        ensures
            r@ == self.spec_menu(),
    {
        self.menu.snapshot()
    }

    /// Inserts or overwrites a menu entry; re-adding a name overwrites it.
    /// The one validation is that the name must not be empty.
    pub fn add_item_to_menu(&mut self, item: Item) -> (r: Result<(), StoreError>)
        requires
            old(self).wf(),
        ensures
            final(self).wf(),
            Self::add_menu_item_post(*old(self), *final(self), item, r),
    {
        if item.name.as_str().is_empty() {
            return Err(StoreError::EmptyName);
        }
        self.menu.upsert(item);
        Ok(())
    }

    /// Removes every menu entry; any previously valid name now fails to
    /// resolve.
    pub fn clear_menu(&mut self)
        requires
            old(self).wf(),
        ensures
            final(self).wf(),
            Self::clear_menu_post(*old(self), *final(self)),
    {
        self.menu.clear();
    }

    /// Creates a call with a freshly drawn random id and no order, and
    /// returns the id. Nothing is assumed of the draw: a collision with an
    /// already issued id is reported as an internal failure, untouched.
    pub fn create_call(&mut self) -> (r: Result<u128, StoreError>)
        requires
            old(self).wf(),
        ensures
            final(self).wf(),
            Self::create_call_post(*old(self), *final(self), r),
    {
        let id = fresh_call_id();
        match self.calls.create_with_id(id) {
            Ok(()) => Ok(id),
            Err(e) => Err(e),
        }
    }

    /// Hands back a copy of the call keyed by `id`.
    pub fn get_call(&self, id: u128) -> (r: Result<Call, StoreError>)
        requires
            self.wf(),
        ensures
            match self.spec_find_call(id) {
                Some(cv) => r matches Ok(c) && c@ == cv,
                None => r == Err::<Call, StoreError>(StoreError::NotFound),
            },
    {
        match self.calls.get(id) {
            Some(c) => Ok(c),
            None => Err(StoreError::NotFound),
        }
    }

    /// Hands back a copy of the order of the call keyed by `id`; a call
    /// without an order yields the absent marker, not an error.
    pub fn get_order(&self, id: u128) -> (r: Result<Option<Order>, StoreError>)
        requires
            self.wf(),
        ensures
            match self.spec_get_order(id) {
                Some(ov) => r matches Ok(o) && opt_order_view(o) == ov,
                None => r == Err::<Option<Order>, StoreError>(StoreError::NotFound),
            },
    {
        match self.calls.get(id) {
            Some(c) => Ok(c.order),
            None => Err(StoreError::NotFound),
        }
    }

    /// Adds `quantity` copies of the named menu item to the call's order,
    /// creating the order if it was absent, in one atomic step. An unknown
    /// call, an item absent from the menu, or a total that would no longer
    /// fit leaves the store exactly as it was.
    pub fn add_items_to_order(&mut self, id: u128, item_name: &String, quantity: usize) -> (r:
        Result<Order, StoreError>)
        requires
            old(self).wf(),
            1 <= quantity,
        ensures
            final(self).wf(),
            Self::add_items_post(*old(self), *final(self), id, item_name@, quantity, r),
    {
        let call = match self.calls.get(id) {
            None => {
                return Err(StoreError::NotFound);
            },
            Some(c) => c,
        };
        proof {
            self.calls.lemma_found_wf(id);
        }
        let item = match self.menu.get(item_name) {
            None => {
                return Err(StoreError::ItemNotFound);
            },
            Some(it) => it,
        };
        proof {
            let cv = old(self).spec_find_call(id).unwrap();
            match cv.order {
                Some(ov) => crate::order::lemma_sum_prices_nonneg(ov.items),
                None => (),
            }
            assert(quantity as u64 == quantity as int);
        }
        let added = match item.price.checked_mul(quantity as u64) {
            None => {
                return Err(StoreError::TotalOverflow);
            },
            Some(p) => p,
        };
        let mut order = match call.order {
            None => Order::new(),
            Some(o) => o,
        };
        if order.total_cost() > u64::MAX - added {
            return Err(StoreError::TotalOverflow);
        }
        order.add_items(&item, quantity);
        let result = order.clone();
        match self.calls.set_order(id, Some(order)) {
            Ok(()) => Ok(result),
            Err(_) => {
                // cannot be reached: the call was found above, and nothing
                // in between removes it
                proof {
                    assert(false);
                }
                Err(StoreError::NotFound)
            },
        }
    }

    /// Removes up to `quantity` occurrences of the named item from the
    /// call's order, earliest first. Fewer matches than requested, or a call
    /// without an order, is not an error.
    pub fn remove_item_from_order(&mut self, id: u128, item_name: &String, quantity: usize) -> (r:
        Result<Option<Order>, StoreError>)
        requires
            old(self).wf(),
            1 <= quantity,
        ensures
            final(self).wf(),
            Self::remove_items_post(*old(self), *final(self), id, item_name@, quantity, r),
    {
        let call = match self.calls.get(id) {
            None => {
                return Err(StoreError::NotFound);
            },
            Some(c) => c,
        };
        proof {
            self.calls.lemma_found_wf(id);
        }
        let mut order = match call.order {
            None => {
                return Ok(None);
            },
            Some(o) => o,
        };
        order.remove_items(item_name, quantity);
        let result = order.clone();
        match self.calls.set_order(id, Some(order)) {
            Ok(()) => Ok(Some(result)),
            Err(_) => {
                // cannot be reached: the call was found above, and nothing
                // in between removes it
                proof {
                    assert(false);
                }
                Err(StoreError::NotFound)
            },
        }
    }

    /// Sets the call's order to absent, whatever it held. An unknown call is
    /// a recoverable error, not a fault.
    pub fn clear_order(&mut self, id: u128) -> (r: Result<(), StoreError>)
        requires
            old(self).wf(),
        ensures
            final(self).wf(),
            Self::clear_order_post(*old(self), *final(self), id, r),
    {
        self.calls.set_order(id, None)
    }
}

} // verus!
