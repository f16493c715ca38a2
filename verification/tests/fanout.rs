use hashmato::api;
use hashmato::models::{ApiError, CreateOrder, CreateOrderItem, OrderStatus, SinceQuery, TokenStatus, UpdateOrderStatus};
use hashmato::registry::{socket_reaction, Registry, WsAction, WsFrame};
use hashmato::store::Store;

fn store_with_menu() -> Store {
    let mut s = Store::new();
    s.add_menu_item("latte".to_string(), 450, true, None, 5)
        .unwrap();
    s
}

fn set_to(status: &str) -> UpdateOrderStatus {
    UpdateOrderStatus {
        status: status.to_string(),
    }
}

fn one_line_order(quantity: i32) -> CreateOrder {
    CreateOrder {
        source: "pos".to_string(),
        items: vec![CreateOrderItem {
            menu_item_id: 1,
            quantity,
        }],
    }
}

#[test]
fn broadcast_after_mutations_matches_direct_read() {
    let mut s = store_with_menu();
    let mut reg = Registry::new();
    let viewer = reg.subscribe() as usize;

    api::create_order(&mut s, &mut reg, one_line_order(1), 10).unwrap();
    assert_eq!(reg.subscribers[viewer].inbox.len(), 1);
    assert_eq!(reg.subscribers[viewer].inbox[0], s.list_queue());
    assert_eq!(reg.subscribers[viewer].inbox[0][0].status, TokenStatus::Waiting);

    api::update_order_status(&mut s, &mut reg, 1, set_to("ready"), 20).unwrap();
    assert_eq!(reg.subscribers[viewer].inbox.len(), 2);
    assert_eq!(reg.subscribers[viewer].inbox[1], s.list_queue());
    assert_eq!(reg.subscribers[viewer].inbox[1][0].status, TokenStatus::Ready);

    api::update_order_status(&mut s, &mut reg, 1, set_to("completed"), 30).unwrap();
    assert_eq!(reg.subscribers[viewer].inbox.len(), 3);
    assert!(reg.subscribers[viewer].inbox[2].is_empty());
    assert!(s.list_queue().is_empty());
}

#[test]
fn failed_mutations_publish_nothing() {
    let mut s = store_with_menu();
    let mut reg = Registry::new();
    let viewer = reg.subscribe() as usize;

    let err = api::create_order(
        &mut s,
        &mut reg,
        CreateOrder {
            source: "pos".to_string(),
            items: vec![],
        },
        10,
    )
    .unwrap_err();
    assert_eq!(err, ApiError::EmptyItems);
    assert!(reg.subscribers[viewer].inbox.is_empty());

    api::create_order(&mut s, &mut reg, one_line_order(1), 10).unwrap();
    let err = api::update_order_status(&mut s, &mut reg, 1, set_to("burnt"), 20).unwrap_err();
    assert_eq!(err, ApiError::InvalidStatus);
    let err = api::update_order_status(&mut s, &mut reg, 9, set_to("ready"), 20).unwrap_err();
    assert_eq!(err, ApiError::OrderNotFound);
    assert_eq!(reg.subscribers[viewer].inbox.len(), 1);
}

#[test]
fn late_subscriber_gets_no_backfill() {
    let mut s = store_with_menu();
    let mut reg = Registry::new();
    api::create_order(&mut s, &mut reg, one_line_order(1), 10).unwrap();

    let late = reg.subscribe();
    let idx = reg
        .subscribers
        .iter()
        .position(|sub| sub.id == late)
        .unwrap();
    assert!(reg.subscribers[idx].inbox.is_empty());

    api::broadcast_queue(&s, &mut reg);
    assert_eq!(reg.subscribers[idx].inbox.len(), 1);
    assert_eq!(reg.subscribers[idx].inbox[0], s.list_queue());
}

#[test]
fn disconnected_subscriber_receives_nothing_more() {
    let mut s = store_with_menu();
    let mut reg = Registry::new();
    let first = reg.subscribe();
    let second = reg.subscribe();
    assert_ne!(first, second);

    api::broadcast_queue(&s, &mut reg);
    assert_eq!(reg.subscribers.len(), 2);

    reg.disconnect(first);
    assert_eq!(reg.subscribers.len(), 1);
    assert_eq!(reg.subscribers[0].id, second);
    assert_eq!(reg.subscribers[0].inbox.len(), 1);

    api::broadcast_queue(&s, &mut reg);
    assert_eq!(reg.subscribers[0].inbox.len(), 2);

    reg.disconnect(first);
    assert_eq!(reg.subscribers.len(), 1);
}

#[test]
fn manual_broadcast_sends_current_snapshot() {
    let mut s = store_with_menu();
    let mut reg = Registry::new();
    let viewer = reg.subscribe() as usize;
    s.create_order(one_line_order(2), 10).unwrap();

    api::broadcast_queue(&s, &mut reg);
    assert_eq!(reg.subscribers[viewer].inbox.len(), 1);
    assert_eq!(reg.subscribers[viewer].inbox[0], s.list_queue());
}

#[test]
fn sync_orders_filters_by_rfc3339_bound() {
    let mut s = store_with_menu();
    s.create_order(one_line_order(1), 500).unwrap();
    s.create_order(one_line_order(2), 2_000).unwrap();

    let all = api::sync_orders(&s, SinceQuery { since: None }).unwrap();
    assert_eq!(all.len(), 2);
    assert_eq!(all[0].id, 2);

    // 1970-01-01T00:00:01Z is exactly 1000 ms after the epoch.
    let after = api::sync_orders(
        &s,
        SinceQuery {
            since: Some("1970-01-01T00:00:01Z".to_string()),
        },
    )
    .unwrap();
    assert_eq!(after.len(), 1);
    assert_eq!(after[0].id, 2);
    assert_eq!(after[0].updated_at, 2_000);

    let later = api::sync_orders(
        &s,
        SinceQuery {
            since: Some("1970-01-01T00:00:02Z".to_string()),
        },
    )
    .unwrap();
    assert!(later.is_empty());

    let err = api::sync_orders(
        &s,
        SinceQuery {
            since: Some("yesterday".to_string()),
        },
    )
    .unwrap_err();
    assert_eq!(err, ApiError::BadTimestamp);
    assert_eq!(err.http_status(), 400);
}

#[test]
fn sync_orders_sorts_by_updated_timestamp_descending() {
    let mut s = store_with_menu();
    s.create_order(one_line_order(1), 500).unwrap();
    s.create_order(one_line_order(1), 2_000).unwrap();
    // Re-stamp the older order: it is now the most recently updated.
    s.set_status(1, "preparing", 3_000).unwrap();

    let all = api::sync_orders(&s, SinceQuery { since: None }).unwrap();
    assert_eq!(all.len(), 2);
    assert_eq!(all[0].id, 1);
    assert_eq!(all[0].updated_at, 3_000);
    assert_eq!(all[1].id, 2);
    assert_eq!(all[1].updated_at, 2_000);

    // The bounded read keeps the same ordering.
    let after = api::sync_orders(
        &s,
        SinceQuery {
            since: Some("1970-01-01T00:00:01Z".to_string()),
        },
    )
    .unwrap();
    assert_eq!(after.len(), 2);
    assert_eq!(after[0].id, 1);
    assert_eq!(after[1].id, 2);
}

#[test]
fn sync_orders_honours_offsets() {
    let mut s = store_with_menu();
    s.create_order(one_line_order(1), 999).unwrap();
    s.create_order(one_line_order(1), 1_001).unwrap();
    // One second after the epoch, written with a +02:00 offset.
    let after = api::sync_orders(
        &s,
        SinceQuery {
            since: Some("1970-01-01T02:00:01+02:00".to_string()),
        },
    )
    .unwrap();
    assert_eq!(after.len(), 1);
    assert_eq!(after[0].updated_at, 1_001);
}

#[test]
fn sync_menu_filters_by_rfc3339_bound() {
    let mut s = Store::new();
    s.add_menu_item("old".to_string(), 100, true, None, 500)
        .unwrap();
    s.add_menu_item("new".to_string(), 200, true, None, 2_000)
        .unwrap();

    let all = api::sync_menu(&s, SinceQuery { since: None }).unwrap();
    assert_eq!(all.len(), 2);

    let after = api::sync_menu(
        &s,
        SinceQuery {
            since: Some("1970-01-01T00:00:01Z".to_string()),
        },
    )
    .unwrap();
    assert_eq!(after.len(), 1);
    assert_eq!(after[0].name, "new");

    let err = api::sync_menu(
        &s,
        SinceQuery {
            since: Some("not a date".to_string()),
        },
    )
    .unwrap_err();
    assert_eq!(err, ApiError::BadTimestamp);
}

#[test]
fn socket_reaction_echoes_text() {
    let action = socket_reaction(WsFrame::Text("hello".to_string()));
    match action {
        WsAction::Reply(WsFrame::Text(s)) => assert_eq!(s, "echo: hello"),
        _ => panic!("text frame must be echoed"),
    }
}

#[test]
fn socket_reaction_answers_ping_with_pong() {
    let action = socket_reaction(WsFrame::Ping(vec![1, 2, 3]));
    match action {
        WsAction::Reply(WsFrame::Pong(d)) => assert_eq!(d, vec![1, 2, 3]),
        _ => panic!("ping must be answered with pong"),
    }
}

#[test]
fn socket_reaction_closes_and_ignores() {
    assert!(matches!(
        socket_reaction(WsFrame::Close),
        WsAction::Disconnect
    ));
    assert!(matches!(
        socket_reaction(WsFrame::Binary(vec![0])),
        WsAction::Ignore
    ));
    assert!(matches!(
        socket_reaction(WsFrame::Pong(vec![])),
        WsAction::Ignore
    ));
}

#[test]
fn error_status_codes_cover_the_taxonomy() {
    assert_eq!(ApiError::EmptyItems.http_status(), 400);
    assert_eq!(ApiError::NonPositiveQuantity.http_status(), 400);
    assert_eq!(ApiError::UnknownMenuItem.http_status(), 400);
    assert_eq!(ApiError::InvalidStatus.http_status(), 400);
    assert_eq!(ApiError::BadTimestamp.http_status(), 400);
    assert_eq!(ApiError::OrderNotFound.http_status(), 404);
    assert_eq!(ApiError::Storage.http_status(), 500);
}

#[test]
fn status_names_are_canonical() {
    assert_eq!(OrderStatus::Pending.name(), "pending");
    assert_eq!(OrderStatus::Preparing.name(), "preparing");
    assert_eq!(OrderStatus::Ready.name(), "ready");
    assert_eq!(OrderStatus::Completed.name(), "completed");
}
