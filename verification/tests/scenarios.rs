use order_service::db::{create_order, delete_order, get_order, list_orders, update_status, OrderStore};
use order_service::errors::ApiError;
use order_service::order_dtos::{CreateOrderDto, UpdateStatusDto};

fn create_dto(customer: &str, items: &[&str]) -> CreateOrderDto {
    CreateOrderDto {
        customer: customer.to_string(),
        items: items.iter().map(|i| i.to_string()).collect(),
    }
}

#[test]
fn create_then_get_returns_equal_order() {
    let mut db = OrderStore::new();
    let created = create_order(&mut db, create_dto("Alice", &["A", "B"])).unwrap();

    let got = get_order(&db, created.id).unwrap();
    assert_eq!(got.id, created.id);
    assert_eq!(got.customer, "Alice");
    assert_eq!(got.items, vec!["A".to_string(), "B".to_string()]);
    assert_eq!(got.status, "pending");
}

#[test]
fn absent_id_gives_not_found_everywhere() {
    let mut db = OrderStore::new();
    create_order(&mut db, create_dto("Alice", &["A"])).unwrap();

    let absent: u128 = 7;
    assert!(matches!(get_order(&db, absent), Err(ApiError::NotFound)));
    let upd = UpdateStatusDto {
        status: "shipped".to_string(),
    };
    assert!(matches!(update_status(&mut db, absent, upd), Err(ApiError::NotFound)));
    assert!(matches!(delete_order(&mut db, absent), Err(ApiError::NotFound)));
}

#[test]
fn every_valid_status_is_set_and_returned() {
    let mut db = OrderStore::new();
    let created = create_order(&mut db, create_dto("Alice", &["A"])).unwrap();

    for status in &["pending", "shipped", "delivered", "cancelled"] {
        let dto = UpdateStatusDto {
            status: status.to_string(),
        };
        let updated = update_status(&mut db, created.id, dto).unwrap();
        assert_eq!(updated.status, status.to_string());
        assert_eq!(updated.customer, "Alice");
        let got = get_order(&db, created.id).unwrap();
        assert_eq!(got.status, status.to_string());
    }
}

#[test]
fn list_returns_exactly_the_created_ids() {
    let mut db = OrderStore::new();
    assert_eq!(list_orders(&db).len(), 0);

    let mut created_ids = vec![
        create_order(&mut db, create_dto("Alice", &["A"])).unwrap().id,
        create_order(&mut db, create_dto("Bob", &["B"])).unwrap().id,
        create_order(&mut db, create_dto("Carol", &["C"])).unwrap().id,
    ];

    let listed = list_orders(&db);
    assert_eq!(listed.len(), 3);

    let mut listed_ids: Vec<u128> = listed.iter().map(|o| o.id).collect();
    created_ids.sort();
    listed_ids.sort();
    assert_eq!(listed_ids, created_ids);
}

#[test]
fn rejected_create_leaves_store_unchanged() {
    let mut db = OrderStore::new();
    create_order(&mut db, create_dto("Alice", &["A"])).unwrap();
    let before = list_orders(&db).len();

    let result = create_order(&mut db, create_dto("", &["A"]));
    assert!(result.is_err());

    assert_eq!(list_orders(&db).len(), before);
}

#[test]
fn rejected_update_leaves_order_unchanged() {
    let mut db = OrderStore::new();
    let created = create_order(&mut db, create_dto("Alice", &["A"])).unwrap();

    let bad = UpdateStatusDto {
        status: "queued".to_string(),
    };
    let result = update_status(&mut db, created.id, bad);
    assert!(result.is_err());

    let got = get_order(&db, created.id).unwrap();
    assert_eq!(got.status, "pending");
    assert_eq!(got.customer, "Alice");
}

#[test]
fn create_happy_path() {
    let mut db = OrderStore::new();
    let body = create_order(&mut db, create_dto("Alice", &["A", "B"])).unwrap();
    assert_eq!(body.customer, "Alice");
    assert_eq!(body.items, vec!["A".to_string(), "B".to_string()]);
    assert_eq!(body.status, "pending");
    assert!(get_order(&db, body.id).is_ok());
}

#[test]
fn create_empty_customer_reports_validation() {
    let mut db = OrderStore::new();
    let err = create_order(&mut db, create_dto("", &["A"])).unwrap_err();
    assert_eq!(err.status_code(), 400);
    assert_eq!(err.message(), "Validation failed");
    match err {
        ApiError::Validation(details) => {
            assert_eq!(details.len(), 1);
            assert_eq!(details[0].field, "customer");
            assert_eq!(details[0].messages, vec!["customer name must not be empty".to_string()]);
        }
        other => panic!("expected a validation error, got {:?}", other),
    }
}

#[test]
fn create_empty_items_reports_validation() {
    let mut db = OrderStore::new();
    let err = create_order(&mut db, create_dto("Bob", &[])).unwrap_err();
    assert_eq!(err.status_code(), 400);
    match err {
        ApiError::Validation(details) => {
            assert_eq!(details.len(), 1);
            assert_eq!(details[0].field, "items");
            assert_eq!(details[0].messages, vec!["at least one item required".to_string()]);
        }
        other => panic!("expected a validation error, got {:?}", other),
    }
}

#[test]
fn create_empty_customer_and_items_reports_both() {
    let mut db = OrderStore::new();
    let err = create_order(&mut db, create_dto("", &[])).unwrap_err();
    match err {
        ApiError::Validation(details) => {
            assert_eq!(details.len(), 2);
            assert_eq!(details[0].field, "customer");
            assert_eq!(details[1].field, "items");
        }
        other => panic!("expected a validation error, got {:?}", other),
    }
}

#[test]
fn get_unknown_order() {
    let db = OrderStore::new();
    let id = uuid::Uuid::parse_str("00000000-0000-0000-0000-000000000000")
        .unwrap()
        .as_u128();
    let err = get_order(&db, id).unwrap_err();
    assert_eq!(err.status_code(), 404);
    assert_eq!(err.message(), "Order not found");
    assert!(matches!(err, ApiError::NotFound));
}

#[test]
fn update_to_invalid_status() {
    let mut db = OrderStore::new();
    let created = create_order(&mut db, create_dto("Alice", &["A"])).unwrap();

    let bad = UpdateStatusDto {
        status: "queued".to_string(),
    };
    let err = update_status(&mut db, created.id, bad).unwrap_err();
    assert_eq!(err.status_code(), 400);
    match err {
        ApiError::Validation(details) => {
            assert_eq!(details.len(), 1);
            assert_eq!(details[0].field, "status");
            assert_eq!(details[0].messages, vec!["invalid status".to_string()]);
        }
        other => panic!("expected a validation error, got {:?}", other),
    }

    let got = get_order(&db, created.id).unwrap();
    assert_eq!(got.status, "pending");
}

#[test]
fn validation_takes_precedence_over_existence() {
    let mut db = OrderStore::new();
    let bad = UpdateStatusDto {
        status: "queued".to_string(),
    };
    let err = update_status(&mut db, 42, bad).unwrap_err();
    assert!(matches!(err, ApiError::Validation(_)));
}

#[test]
fn update_then_delete() {
    let mut db = OrderStore::new();
    let created = create_order(&mut db, create_dto("Alice", &["A"])).unwrap();

    let dto = UpdateStatusDto {
        status: "shipped".to_string(),
    };
    let updated = update_status(&mut db, created.id, dto).unwrap();
    assert_eq!(updated.status, "shipped");

    assert!(delete_order(&mut db, created.id).is_ok());
    assert!(matches!(get_order(&db, created.id), Err(ApiError::NotFound)));
}

#[test]
fn bad_request_message_names_the_cause() {
    let err = ApiError::BadRequest("invalid id".to_string());
    assert_eq!(err.status_code(), 400);
    assert_eq!(err.message(), "Invalid input: invalid id");
}

#[test]
fn create_with_chosen_id_then_collision() {
    let mut db = OrderStore::new();
    let created =
        order_service::db::create_order_with_id(&mut db, 42, create_dto("Alice", &["A"])).unwrap();
    assert_eq!(created.id, 42);
    assert_eq!(created.status, "pending");

    let second =
        order_service::db::create_order_with_id(&mut db, 42, create_dto("Bob", &["B"]));
    assert!(matches!(second, Err(ApiError::Internal)));
    assert_eq!(list_orders(&db).len(), 1);
    assert_eq!(get_order(&db, 42).unwrap().customer, "Alice");
}
