use order_service::models::{check_status, Order};
use order_service::order_dtos::{CreateOrderDto, OrderResponseDto, UpdateStatusDto};

#[test]
fn test_order_creation() {
    let id = uuid::Uuid::new_v4().as_u128();
    let order = Order {
        id,
        customer: "John Doe".to_string(),
        items: vec!["Item 1".to_string(), "Item 2".to_string()],
        status: "pending".to_string(),
    };

    assert_eq!(order.customer, "John Doe");
    assert_eq!(order.items.len(), 2);
    assert_eq!(order.status, "pending");
}

#[test]
fn test_create_order_dto_validation() {
    let valid_dto = CreateOrderDto {
        customer: "John Doe".to_string(),
        items: vec!["Item 1".to_string(), "Item 2".to_string()],
    };
    assert!(valid_dto.validate().is_ok());

    let invalid_dto = CreateOrderDto {
        customer: "".to_string(),
        items: vec!["Item 1".to_string()],
    };
    assert!(invalid_dto.validate().is_err());

    let invalid_dto = CreateOrderDto {
        customer: "John Doe".to_string(),
        items: vec![],
    };
    assert!(invalid_dto.validate().is_err());
}

#[test]
fn test_update_status_dto_validation() {
    for status in &["pending", "shipped", "delivered", "cancelled"] {
        let dto = UpdateStatusDto {
            status: status.to_string(),
        };
        assert!(dto.validate().is_ok(), "Status '{}' should be valid", status);
    }

    let invalid_dto = UpdateStatusDto {
        status: "invalid_status".to_string(),
    };
    assert!(invalid_dto.validate().is_err());
}

#[test]
fn test_order_response_dto_from_order() {
    let order = Order {
        id: uuid::Uuid::new_v4().as_u128(),
        customer: "Test Customer".to_string(),
        items: vec!["Item 1".to_string(), "Item 2".to_string()],
        status: "pending".to_string(),
    };

    let response_dto = OrderResponseDto::from(order.clone());

    assert_eq!(response_dto.id, order.id);
    assert_eq!(response_dto.customer, order.customer);
    assert_eq!(response_dto.items, order.items);
    assert_eq!(response_dto.status, order.status);
}

#[test]
fn test_status_regex() {
    assert!(check_status("pending"));
    assert!(check_status("shipped"));
    assert!(check_status("delivered"));
    assert!(check_status("cancelled"));

    assert!(!check_status("invalid"));
    assert!(!check_status("PENDING"));
    assert!(!check_status(""));
    assert!(!check_status("pending "));
}
