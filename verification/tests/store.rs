use bepis_lite::store::StateStore;
use bepis_lite::types::{Item, StoreError};

fn item(name: &str, price: u64) -> Item {
    Item {
        name: name.to_string(),
        description: format!("{name} description"),
        price,
        category: None,
    }
}

#[test]
fn menu_starts_empty() {
    let store = StateStore::new();
    assert_eq!(store.get_menu().len(), 0);
}

#[test]
fn menu_upsert_inserts_and_overwrites() {
    let mut store = StateStore::new();
    assert_eq!(store.add_item_to_menu(item("Coffee", 250)), Ok(()));
    assert_eq!(store.add_item_to_menu(item("Tea", 180)), Ok(()));
    assert_eq!(store.add_item_to_menu(item("Coffee", 300)), Ok(()));
    let menu = store.get_menu();
    assert_eq!(menu.len(), 2);
    let coffee = menu.iter().find(|i| i.name == "Coffee").unwrap();
    assert_eq!(coffee.price, 300);
    let tea = menu.iter().find(|i| i.name == "Tea").unwrap();
    assert_eq!(tea.price, 180);
}

#[test]
fn menu_keeps_description_and_category() {
    let mut store = StateStore::new();
    let mut fancy = item("Mocha", 420);
    fancy.category = Some("hot drinks".to_string());
    assert_eq!(store.add_item_to_menu(fancy), Ok(()));
    let menu = store.get_menu();
    assert_eq!(menu[0].description, "Mocha description");
    assert_eq!(menu[0].category.as_deref(), Some("hot drinks"));
}

#[test]
fn empty_item_name_is_rejected() {
    let mut store = StateStore::new();
    assert_eq!(store.add_item_to_menu(item("", 100)), Err(StoreError::EmptyName));
    assert_eq!(store.get_menu().len(), 0);
}

#[test]
fn clear_menu_empties_the_catalog() {
    let mut store = StateStore::new();
    store.add_item_to_menu(item("Coffee", 250)).unwrap();
    store.add_item_to_menu(item("Tea", 180)).unwrap();
    store.clear_menu();
    assert_eq!(store.get_menu().len(), 0);
}

#[test]
fn create_call_starts_without_order() {
    let mut store = StateStore::new();
    let id = store.create_call().unwrap();
    let call = store.get_call(id).unwrap();
    assert_eq!(call.id, id);
    assert!(call.order.is_none());
    assert!(store.get_order(id).unwrap().is_none());
}

#[test]
fn unknown_call_is_not_found() {
    let mut store = StateStore::new();
    store.add_item_to_menu(item("Coffee", 250)).unwrap();
    assert!(matches!(store.get_call(7), Err(StoreError::NotFound)));
    assert!(matches!(store.get_order(7), Err(StoreError::NotFound)));
    assert!(matches!(
        store.add_items_to_order(7, &"Coffee".to_string(), 1),
        Err(StoreError::NotFound)
    ));
    assert!(matches!(
        store.remove_item_from_order(7, &"Coffee".to_string(), 1),
        Err(StoreError::NotFound)
    ));
    assert!(matches!(store.clear_order(7), Err(StoreError::NotFound)));
}

#[test]
fn coffee_scenario_runs_end_to_end() {
    let mut store = StateStore::new();
    store.add_item_to_menu(item("Coffee", 250)).unwrap();
    let id = store.create_call().unwrap();

    let order = store.add_items_to_order(id, &"Coffee".to_string(), 2).unwrap();
    assert_eq!(order.items().len(), 2);
    assert!(order.items().iter().all(|i| i.name == "Coffee"));
    assert_eq!(order.total_cost(), 500);

    let order = store
        .remove_item_from_order(id, &"Coffee".to_string(), 1)
        .unwrap()
        .unwrap();
    assert_eq!(order.items().len(), 1);
    assert_eq!(order.total_cost(), 250);

    assert_eq!(store.clear_order(id), Ok(()));
    let after = store.get_order(id).unwrap();
    assert!(after.is_none());
}

#[test]
fn adding_unknown_item_leaves_order_unchanged() {
    let mut store = StateStore::new();
    store.add_item_to_menu(item("Coffee", 250)).unwrap();
    let id = store.create_call().unwrap();
    store.add_items_to_order(id, &"Coffee".to_string(), 1).unwrap();

    let before = store.get_order(id).unwrap().unwrap();
    let r = store.add_items_to_order(id, &"Cake".to_string(), 3);
    assert!(matches!(r, Err(StoreError::ItemNotFound)));
    let after = store.get_order(id).unwrap().unwrap();

    assert_eq!(after.total_cost(), before.total_cost());
    assert_eq!(after.items().len(), before.items().len());
    for (a, b) in after.items().iter().zip(before.items().iter()) {
        assert_eq!(a.name, b.name);
        assert_eq!(a.price, b.price);
    }
}

#[test]
fn removing_more_than_present_is_not_an_error() {
    let mut store = StateStore::new();
    store.add_item_to_menu(item("Coffee", 250)).unwrap();
    let id = store.create_call().unwrap();
    store.add_items_to_order(id, &"Coffee".to_string(), 2).unwrap();

    let order = store
        .remove_item_from_order(id, &"Coffee".to_string(), 5)
        .unwrap()
        .unwrap();
    assert_eq!(order.items().len(), 0);
    assert_eq!(order.total_cost(), 0);

    let order = store
        .remove_item_from_order(id, &"Tea".to_string(), 1)
        .unwrap()
        .unwrap();
    assert_eq!(order.items().len(), 0);
}

#[test]
fn removing_from_call_without_order_is_a_no_op() {
    let mut store = StateStore::new();
    let id = store.create_call().unwrap();
    let r = store.remove_item_from_order(id, &"Coffee".to_string(), 1).unwrap();
    assert!(r.is_none());
    assert!(store.get_order(id).unwrap().is_none());
}

#[test]
fn emptied_order_stays_present_until_cleared() {
    let mut store = StateStore::new();
    store.add_item_to_menu(item("Coffee", 250)).unwrap();
    let id = store.create_call().unwrap();
    store.add_items_to_order(id, &"Coffee".to_string(), 1).unwrap();
    store.remove_item_from_order(id, &"Coffee".to_string(), 1).unwrap();

    let order = store.get_order(id).unwrap();
    assert!(order.is_some(), "an emptied order must stay present");
    assert_eq!(order.unwrap().items().len(), 0);

    store.clear_order(id).unwrap();
    assert!(store.get_order(id).unwrap().is_none());
}

#[test]
fn removal_takes_the_earliest_matching_snapshot() {
    let mut store = StateStore::new();
    store.add_item_to_menu(item("Coffee", 100)).unwrap();
    let id = store.create_call().unwrap();
    store.add_items_to_order(id, &"Coffee".to_string(), 1).unwrap();
    store.add_item_to_menu(item("Coffee", 300)).unwrap();
    store.add_items_to_order(id, &"Coffee".to_string(), 1).unwrap();

    let order = store.get_order(id).unwrap().unwrap();
    assert_eq!(order.total_cost(), 400);

    let order = store
        .remove_item_from_order(id, &"Coffee".to_string(), 1)
        .unwrap()
        .unwrap();
    assert_eq!(order.items().len(), 1);
    assert_eq!(order.items()[0].price, 300);
    assert_eq!(order.total_cost(), 300);
}

#[test]
fn overflowing_total_is_rejected_without_mutation() {
    let mut store = StateStore::new();
    store.add_item_to_menu(item("Gold", u64::MAX)).unwrap();
    store.add_item_to_menu(item("Coffee", 250)).unwrap();
    let id = store.create_call().unwrap();

    assert!(matches!(
        store.add_items_to_order(id, &"Gold".to_string(), 2),
        Err(StoreError::TotalOverflow)
    ));
    assert!(store.get_order(id).unwrap().is_none());

    store.add_items_to_order(id, &"Gold".to_string(), 1).unwrap();
    let r = store.add_items_to_order(id, &"Coffee".to_string(), 1);
    assert!(matches!(r, Err(StoreError::TotalOverflow)));
    let order = store.get_order(id).unwrap().unwrap();
    assert_eq!(order.items().len(), 1);
    assert_eq!(order.total_cost(), u64::MAX);
}

#[test]
fn clearing_menu_invalidates_previously_valid_items() {
    let mut store = StateStore::new();
    store.add_item_to_menu(item("Coffee", 250)).unwrap();
    let id = store.create_call().unwrap();
    store.add_items_to_order(id, &"Coffee".to_string(), 1).unwrap();

    store.clear_menu();
    let r = store.add_items_to_order(id, &"Coffee".to_string(), 1);
    assert!(matches!(r, Err(StoreError::ItemNotFound)));

    let order = store.get_order(id).unwrap().unwrap();
    assert_eq!(order.items().len(), 1, "the failed add must not touch the order");
}

#[test]
fn create_call_issues_fresh_ids() {
    let mut store = StateStore::new();
    let mut ids = Vec::new();
    for _ in 0..64 {
        let id = store.create_call().unwrap();
        assert!(!ids.contains(&id), "an id was issued twice");
        ids.push(id);
    }
    for id in ids {
        assert_eq!(store.get_call(id).unwrap().id, id);
    }
}

#[test]
fn total_equals_sum_of_prices_after_every_mutation() {
    let mut store = StateStore::new();
    store.add_item_to_menu(item("Coffee", 250)).unwrap();
    store.add_item_to_menu(item("Tea", 180)).unwrap();
    store.add_item_to_menu(item("Cake", 420)).unwrap();
    let id = store.create_call().unwrap();

    let check = |store: &StateStore, id: u128| {
        let order = store.get_order(id).unwrap().unwrap();
        let sum: u64 = order.items().iter().map(|i| i.price).sum();
        assert_eq!(order.total_cost(), sum);
    };

    store.add_items_to_order(id, &"Coffee".to_string(), 2).unwrap();
    check(&store, id);
    store.add_items_to_order(id, &"Tea".to_string(), 3).unwrap();
    check(&store, id);
    store.add_items_to_order(id, &"Cake".to_string(), 1).unwrap();
    check(&store, id);
    store.remove_item_from_order(id, &"Tea".to_string(), 2).unwrap();
    check(&store, id);
    store.remove_item_from_order(id, &"Coffee".to_string(), 9).unwrap();
    check(&store, id);
    store.remove_item_from_order(id, &"Bread".to_string(), 1).unwrap();
    check(&store, id);

    let order = store.get_order(id).unwrap().unwrap();
    assert_eq!(order.total_cost(), 180 + 420);
}
