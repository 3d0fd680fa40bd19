use bepis_lite::catalog::MenuCatalog;
use bepis_lite::order::Order;
use bepis_lite::registry::CallRegistry;
use bepis_lite::types::{Item, StoreError};

fn item(name: &str, price: u64) -> Item {
    Item {
        name: name.to_string(),
        description: String::new(),
        price,
        category: None,
    }
}

#[test]
fn order_tracks_total_incrementally() {
    let mut order = Order::new();
    assert_eq!(order.total_cost(), 0);
    assert_eq!(order.items().len(), 0);

    order.add_item(item("Coffee", 250));
    order.add_item(item("Tea", 180));
    assert_eq!(order.total_cost(), 430);
    assert_eq!(order.items().len(), 2);
    assert_eq!(order.items()[0].name, "Coffee");
    assert_eq!(order.items()[1].name, "Tea");

    order.remove_items(&"Coffee".to_string(), 1);
    assert_eq!(order.total_cost(), 180);
    assert_eq!(order.items().len(), 1);
}

#[test]
fn order_add_items_appends_quantity_copies() {
    let mut order = Order::new();
    order.add_items(&item("Coffee", 250), 3);
    assert_eq!(order.items().len(), 3);
    assert_eq!(order.total_cost(), 750);
    assert!(order.items().iter().all(|i| i.name == "Coffee" && i.price == 250));
}

#[test]
fn order_remove_takes_earliest_matches_first() {
    let mut order = Order::new();
    order.add_item(item("Coffee", 100));
    order.add_item(item("Tea", 180));
    order.add_item(item("Coffee", 300));

    order.remove_items(&"Coffee".to_string(), 1);
    assert_eq!(order.items().len(), 2);
    assert_eq!(order.items()[0].name, "Tea");
    assert_eq!(order.items()[1].price, 300);
    assert_eq!(order.total_cost(), 480);

    order.remove_items(&"Coffee".to_string(), 7);
    assert_eq!(order.items().len(), 1);
    assert_eq!(order.total_cost(), 180);
}

#[test]
fn catalog_upsert_overwrites_and_clear_empties() {
    let mut catalog = MenuCatalog::new();
    assert!(catalog.get(&"Coffee".to_string()).is_none());

    catalog.upsert(item("Coffee", 250));
    let found = catalog.get(&"Coffee".to_string()).unwrap();
    assert_eq!(found.price, 250);

    catalog.upsert(item("Coffee", 300));
    let found = catalog.get(&"Coffee".to_string()).unwrap();
    assert_eq!(found.price, 300);
    assert_eq!(catalog.snapshot().len(), 1);

    catalog.clear();
    assert!(catalog.get(&"Coffee".to_string()).is_none());
    assert_eq!(catalog.snapshot().len(), 0);
}

#[test]
fn registry_rejects_a_duplicate_id() {
    let mut registry = CallRegistry::new();
    assert_eq!(registry.create_with_id(42), Ok(()));
    assert_eq!(registry.create_with_id(42), Err(StoreError::InvariantViolation));
    let call = registry.get(42).unwrap();
    assert_eq!(call.id, 42);
    assert!(call.order.is_none());
}

#[test]
fn registry_set_order_requires_a_known_call() {
    let mut registry = CallRegistry::new();
    assert_eq!(registry.set_order(7, None), Err(StoreError::NotFound));

    registry.create_with_id(7).unwrap();
    let mut order = Order::new();
    order.add_item(item("Coffee", 250));
    assert_eq!(registry.set_order(7, Some(order)), Ok(()));
    let stored = registry.get(7).unwrap().order.unwrap();
    assert_eq!(stored.total_cost(), 250);

    assert_eq!(registry.set_order(7, None), Ok(()));
    assert!(registry.get(7).unwrap().order.is_none());
}
