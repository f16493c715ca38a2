use hashmato::models::{ApiError, CreateOrder, CreateOrderItem, OrderStatus, TokenStatus};
use hashmato::status::parse_status;
use hashmato::store::Store;

/// A store holding one available menu row (id 1).
fn store_with_menu() -> Store {
    let mut s = Store::new();
    let id = s
        .add_menu_item("latte".to_string(), 450, true, None, 5)
        .unwrap();
    assert_eq!(id, 1);
    s
}

fn one_line_order(menu_item_id: i32, quantity: i32) -> CreateOrder {
    CreateOrder {
        source: "pos".to_string(),
        items: vec![CreateOrderItem {
            menu_item_id,
            quantity,
        }],
    }
}

#[test]
fn create_order_creates_waiting_token_and_items() {
    let mut s = store_with_menu();
    let req = CreateOrder {
        source: "pos".to_string(),
        items: vec![
            CreateOrderItem {
                menu_item_id: 1,
                quantity: 2,
            },
            CreateOrderItem {
                menu_item_id: 1,
                quantity: 1,
            },
        ],
    };
    let id = s.create_order(req, 10).unwrap();
    assert_eq!(id, 1);
    let queue = s.list_queue();
    assert_eq!(queue.len(), 1);
    assert_eq!(queue[0].order_id, 1);
    assert_eq!(queue[0].token_number, 1);
    assert_eq!(queue[0].status, TokenStatus::Waiting);
    let detail = s.get_order_detailed(1).unwrap();
    assert_eq!(detail.items.len(), 2);
    assert_eq!(detail.order.status, OrderStatus::Pending);
    assert_eq!(detail.order.created_at, 10);
    assert_eq!(detail.order.updated_at, 10);
}

#[test]
fn create_order_empty_items_rejected_without_writes() {
    let mut s = store_with_menu();
    let req = CreateOrder {
        source: "pos".to_string(),
        items: vec![],
    };
    let err = s.create_order(req, 10).unwrap_err();
    assert_eq!(err, ApiError::EmptyItems);
    assert_eq!(err.http_status(), 400);
    assert!(s.list_orders().is_empty());
    assert!(s.list_queue().is_empty());
    assert!(s.get_order_detailed(1).is_none());
}

#[test]
fn create_order_non_positive_quantity_rejected() {
    let mut s = store_with_menu();
    let err = s.create_order(one_line_order(1, 0), 10).unwrap_err();
    assert_eq!(err, ApiError::NonPositiveQuantity);
    assert!(s.list_orders().is_empty());
    assert!(s.list_queue().is_empty());
}

#[test]
fn create_order_unknown_menu_item_rejected() {
    let mut s = store_with_menu();
    let err = s.create_order(one_line_order(9, 1), 10).unwrap_err();
    assert_eq!(err, ApiError::UnknownMenuItem);
    assert!(s.list_orders().is_empty());
    assert!(s.list_queue().is_empty());
}

#[test]
fn create_order_unavailable_menu_item_rejected() {
    let mut s = store_with_menu();
    let off = s
        .add_menu_item("retired".to_string(), 100, false, None, 5)
        .unwrap();
    let err = s.create_order(one_line_order(off, 1), 10).unwrap_err();
    assert_eq!(err, ApiError::UnknownMenuItem);
}

#[test]
fn create_order_exhausted_identifiers_is_storage_error() {
    let mut s = store_with_menu();
    s.next_order_id = i32::MAX;
    let err = s.create_order(one_line_order(1, 1), 10).unwrap_err();
    assert_eq!(err, ApiError::Storage);
    assert_eq!(err.http_status(), 500);
    assert!(s.list_orders().is_empty());
}

#[test]
fn set_status_ready_keeps_token_marked_ready() {
    let mut s = store_with_menu();
    s.create_order(one_line_order(1, 1), 10).unwrap();
    let st = s.set_status(1, "ready", 20).unwrap();
    assert_eq!(st, OrderStatus::Ready);
    let queue = s.list_queue();
    assert_eq!(queue.len(), 1);
    assert_eq!(queue[0].order_id, 1);
    assert_eq!(queue[0].status, TokenStatus::Ready);
    let orders = s.list_orders();
    assert_eq!(orders[0].status, OrderStatus::Ready);
    assert_eq!(orders[0].updated_at, 20);
    assert_eq!(orders[0].created_at, 10);
}

#[test]
fn set_status_completed_removes_token_keeps_order() {
    let mut s = store_with_menu();
    s.create_order(one_line_order(1, 1), 10).unwrap();
    s.set_status(1, "completed", 20).unwrap();
    assert!(s.list_queue().is_empty());
    let orders = s.list_orders();
    assert_eq!(orders.len(), 1);
    assert_eq!(orders[0].status, OrderStatus::Completed);
}

#[test]
fn set_status_preparing_leaves_token_untouched() {
    let mut s = store_with_menu();
    s.create_order(one_line_order(1, 1), 10).unwrap();
    s.set_status(1, "preparing", 20).unwrap();
    let queue = s.list_queue();
    assert_eq!(queue.len(), 1);
    assert_eq!(queue[0].status, TokenStatus::Waiting);
    assert_eq!(s.list_orders()[0].status, OrderStatus::Preparing);
}

#[test]
fn set_status_only_touches_the_named_order() {
    let mut s = store_with_menu();
    s.create_order(one_line_order(1, 1), 10).unwrap();
    s.create_order(one_line_order(1, 2), 11).unwrap();
    s.set_status(2, "ready", 20).unwrap();
    let queue = s.list_queue();
    assert_eq!(queue.len(), 2);
    assert_eq!(queue[0].order_id, 1);
    assert_eq!(queue[0].status, TokenStatus::Waiting);
    assert_eq!(queue[1].order_id, 2);
    assert_eq!(queue[1].status, TokenStatus::Ready);
}

#[test]
fn set_status_unknown_value_rejected_without_mutation() {
    let mut s = store_with_menu();
    s.create_order(one_line_order(1, 1), 10).unwrap();
    let err = s.set_status(1, "burnt", 20).unwrap_err();
    assert_eq!(err, ApiError::InvalidStatus);
    assert_eq!(err.http_status(), 400);
    let orders = s.list_orders();
    assert_eq!(orders[0].status, OrderStatus::Pending);
    assert_eq!(orders[0].updated_at, 10);
    assert_eq!(s.list_queue()[0].status, TokenStatus::Waiting);
}

#[test]
fn set_status_missing_order_is_not_found() {
    let mut s = store_with_menu();
    s.create_order(one_line_order(1, 1), 10).unwrap();
    let err = s.set_status(7, "ready", 20).unwrap_err();
    assert_eq!(err, ApiError::OrderNotFound);
    assert_eq!(err.http_status(), 404);
    assert_eq!(s.list_orders()[0].status, OrderStatus::Pending);
    assert_eq!(s.list_queue()[0].status, TokenStatus::Waiting);
}

#[test]
fn parse_status_trims_and_folds_case() {
    assert_eq!(parse_status("  READY \t"), Some(OrderStatus::Ready));
    assert_eq!(parse_status("Pending"), Some(OrderStatus::Pending));
    assert_eq!(parse_status("preparing"), Some(OrderStatus::Preparing));
    assert_eq!(parse_status("completed\n"), Some(OrderStatus::Completed));
    assert_eq!(parse_status("prep"), None);
    assert_eq!(parse_status(""), None);
    assert_eq!(parse_status("   "), None);
    assert_eq!(parse_status("ready?"), None);
}

#[test]
fn parse_status_trims_all_unicode_whitespace() {
    assert_eq!(parse_status("ready\u{000B}"), Some(OrderStatus::Ready));
    assert_eq!(parse_status("\u{00A0}READY\u{2028}"), Some(OrderStatus::Ready));
    assert_eq!(
        parse_status("\u{2009}completed\u{3000}"),
        Some(OrderStatus::Completed)
    );
    assert_eq!(parse_status("\u{1680}\u{205F}pending"), Some(OrderStatus::Pending));
    assert_eq!(parse_status("re\u{00A0}ady"), None);
}

#[test]
fn set_status_never_regresses_updated_timestamp() {
    let mut s = store_with_menu();
    s.create_order(one_line_order(1, 1), 100).unwrap();
    s.set_status(1, "preparing", 50).unwrap();
    let orders = s.list_orders();
    assert_eq!(orders[0].status, OrderStatus::Preparing);
    assert_eq!(orders[0].updated_at, 100);
    s.set_status(1, "ready", 150).unwrap();
    assert_eq!(s.list_orders()[0].updated_at, 150);
}

#[test]
fn status_names_round_trip_through_parsing() {
    for st in [
        OrderStatus::Pending,
        OrderStatus::Preparing,
        OrderStatus::Ready,
        OrderStatus::Completed,
    ] {
        assert_eq!(parse_status(st.name()), Some(st));
    }
}

#[test]
fn detailed_lookup_round_trip() {
    let mut s = Store::new();
    s.add_menu_item("espresso".to_string(), 300, true, None, 1)
        .unwrap();
    s.add_menu_item("flat white".to_string(), 420, true, None, 2)
        .unwrap();
    s.add_menu_item(
        "croissant".to_string(),
        280,
        true,
        Some("/img/croissant.png".to_string()),
        3,
    )
    .unwrap();
    let req = CreateOrder {
        source: "kiosk".to_string(),
        items: vec![
            CreateOrderItem {
                menu_item_id: 1,
                quantity: 2,
            },
            CreateOrderItem {
                menu_item_id: 3,
                quantity: 1,
            },
        ],
    };
    let id = s.create_order(req, 10).unwrap();
    let detail = s.get_order_detailed(id).unwrap();
    assert_eq!(detail.order.id, id);
    assert_eq!(detail.order.source, "kiosk");
    assert_eq!(detail.items.len(), 2);
    assert_eq!(detail.items[0].menu_item_id, 1);
    assert_eq!(detail.items[0].quantity, 2);
    assert_eq!(detail.items[0].menu_name, "espresso");
    assert_eq!(detail.items[0].menu_price_cents, 300);
    assert_eq!(detail.items[0].menu_image, None);
    assert_eq!(detail.items[1].menu_item_id, 3);
    assert_eq!(detail.items[1].quantity, 1);
    assert_eq!(detail.items[1].menu_name, "croissant");
    assert_eq!(detail.items[1].menu_price_cents, 280);
    assert_eq!(
        detail.items[1].menu_image,
        Some("/img/croissant.png".to_string())
    );
    assert!(s.get_order_detailed(id + 1).is_none());
}

#[test]
fn list_orders_newest_first() {
    let mut s = store_with_menu();
    s.create_order(one_line_order(1, 1), 10).unwrap();
    s.create_order(one_line_order(1, 2), 11).unwrap();
    let orders = s.list_orders();
    assert_eq!(orders.len(), 2);
    assert_eq!(orders[0].id, 2);
    assert_eq!(orders[1].id, 1);
}

#[test]
fn list_orders_detailed_joins_every_order() {
    let mut s = store_with_menu();
    s.create_order(one_line_order(1, 1), 10).unwrap();
    s.create_order(one_line_order(1, 3), 11).unwrap();
    let all = s.list_orders_detailed();
    assert_eq!(all.len(), 2);
    assert_eq!(all[0].order.id, 2);
    assert_eq!(all[0].items.len(), 1);
    assert_eq!(all[0].items[0].quantity, 3);
    assert_eq!(all[1].order.id, 1);
    assert_eq!(all[1].items[0].quantity, 1);
}

#[test]
fn list_menu_shows_only_available_rows() {
    let mut s = Store::new();
    s.add_menu_item("on".to_string(), 100, true, None, 1).unwrap();
    s.add_menu_item("off".to_string(), 200, false, None, 2).unwrap();
    let visible = s.list_menu();
    assert_eq!(visible.len(), 1);
    assert_eq!(visible[0].name, "on");
    let all = s.list_menu_rows();
    assert_eq!(all.len(), 2);
}

#[test]
fn queue_lifecycle_scenario() {
    let mut s = store_with_menu();
    let id = s.create_order(one_line_order(1, 1), 10).unwrap();
    assert_eq!(s.list_orders()[0].status, OrderStatus::Pending);

    s.set_status(id, "ready", 20).unwrap();
    let queue = s.list_queue();
    assert_eq!(queue.len(), 1);
    assert_eq!(queue[0].order_id, id);
    assert_eq!(queue[0].status, TokenStatus::Ready);

    s.set_status(id, "completed", 30).unwrap();
    assert!(s.list_queue().iter().all(|t| t.order_id != id));
    assert!(s.list_queue().is_empty());
    let orders = s.list_orders();
    assert_eq!(orders.len(), 1);
    assert_eq!(orders[0].id, id);
    assert_eq!(orders[0].status, OrderStatus::Completed);
}
