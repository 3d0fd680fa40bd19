use vstd::prelude::*;

use crate::order::{lemma_remove_up_to_len, sum_prices, Order, OrderView};
use crate::registry::CallView;
use crate::store::{order_items, order_total, StateStore};
use crate::types::StoreError;

verus! {

/// After any successful addition of items to a call, the stored running
/// total equals the sum of the prices of the items then present.
pub proof fn lemma_total_is_sum_after_add(
    pre: StateStore,
    post: StateStore,
    id: u128,
    name: Seq<char>,
    quantity: usize,
    r: Result<Order, StoreError>,
)
    requires
        StateStore::add_items_post(pre, post, id, name, quantity, r),
        r is Ok,
    ensures
        post.spec_get_order(id) matches Some(o) && order_total(o) == sum_prices(order_items(o)),
{
}

/// After any successful removal of items from a call that holds an order,
/// the stored running total equals the sum of the prices of the items then
/// present.
pub proof fn lemma_total_is_sum_after_remove(
    pre: StateStore,
    post: StateStore,
    id: u128,
    name: Seq<char>,
    quantity: usize,
    r: Result<Option<Order>, StoreError>,
)
    requires
        StateStore::remove_items_post(pre, post, id, name, quantity, r),
        pre.spec_get_order(id) matches Some(o) && o is Some,
    ensures
        post.spec_get_order(id) matches Some(o) && order_total(o) == sum_prices(order_items(o)),
{
}

/// A successful CreateCall hands back an id that was not in the registry
/// before the call, however many calls came before it; and since no
/// operation ever removes a call, an id absent from the registry is one that
/// was never issued.
pub proof fn lemma_create_call_returns_fresh_id(
    pre: StateStore,
    post: StateStore,
    r: Result<u128, StoreError>,
)
    requires
        StateStore::create_call_post(pre, post, r),
    ensures
        r matches Ok(id) ==> pre.spec_find_call(id) is None && post.spec_find_call(id) == Some(
            (CallView { id, order: None }),
        ),
{
}

/// Asking to add an item name that the menu does not hold reports failure
/// and leaves the store — the call's order included — exactly as it was.
pub proof fn lemma_add_unknown_item_changes_nothing(
    pre: StateStore,
    post: StateStore,
    id: u128,
    name: Seq<char>,
    quantity: usize,
    r: Result<Order, StoreError>,
)
    requires
        StateStore::add_items_post(pre, post, id, name, quantity, r),
        pre.spec_find_call(id) is Some,
        pre.spec_find_item(name) is None,
    ensures
        r == Err::<Order, StoreError>(StoreError::ItemNotFound),
        post == pre,
{
}

/// Removing items never errors when the call exists — however few matching
/// entries there are, including none — and takes away at most the requested
/// quantity.
pub proof fn lemma_remove_takes_at_most_requested(
    pre: StateStore,
    post: StateStore,
    id: u128,
    name: Seq<char>,
    quantity: usize,
    r: Result<Option<Order>, StoreError>,
)
    requires
        StateStore::remove_items_post(pre, post, id, name, quantity, r),
        pre.spec_find_call(id) is Some,
    ensures
        r is Ok,
        order_items(post.spec_get_order(id).unwrap()).len() <= order_items(
            pre.spec_get_order(id).unwrap(),
        ).len(),
        order_items(pre.spec_get_order(id).unwrap()).len() - quantity <= order_items(
            post.spec_get_order(id).unwrap(),
        ).len(),
{
    let c = pre.spec_find_call(id).unwrap();
    match c.order {
        None => {
        },
        Some(ov) => {
            lemma_remove_up_to_len(ov.items, name, quantity as nat);
        },
    }
}

/// Clearing a call's order and then reading the order back yields the absent
/// order: not an error, and not an empty order either.
pub proof fn lemma_clear_then_get_order_absent(
    pre: StateStore,
    post: StateStore,
    id: u128,
    r: Result<(), StoreError>,
)
    requires
        StateStore::clear_order_post(pre, post, id, r),
        r is Ok,
    ensures
        post.spec_get_order(id) == Some(None::<OrderView>),
{
}

/// After the menu is cleared, adding to an order any item name that was
/// valid before the clear — any name at all — now fails with ItemNotFound
/// and leaves the store unchanged. The call itself must exist: an unknown
/// call is reported as NotFound instead.
pub proof fn lemma_clear_menu_then_add_fails(
    pre: StateStore,
    mid: StateStore,
    post: StateStore,
    id: u128,
    name: Seq<char>,
    quantity: usize,
    r: Result<Order, StoreError>,
)
    requires
        pre.spec_find_item(name) is Some,
        StateStore::clear_menu_post(pre, mid),
        mid.spec_find_call(id) is Some,
        StateStore::add_items_post(mid, post, id, name, quantity, r),
    ensures
        r == Err::<Order, StoreError>(StoreError::ItemNotFound),
        post == mid,
{
}

} // verus!
