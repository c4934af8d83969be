use order_service::order::{Order, OrderDTO, OrderItem, OrderStatus};
use order_service::repository::OrderRepository;
use order_service::row::{
    assemble, check_affected, existing_key, header_found, new_key, HeaderRow, StoreError,
};
use order_service::service::OrderService;

fn item(product_id: i32, quantity: i32, unit_price: i64) -> OrderItem {
    OrderItem {
        order_id: 0,
        product_id,
        quantity,
        unit_price,
        total_price: quantity as i64 * unit_price,
    }
}

fn order(customer_id: i32, status: OrderStatus, address: &str, price: i64, items: Vec<OrderItem>) -> Order {
    Order::new(
        OrderDTO {
            order_id: 0,
            customer_id,
            order_status: status,
            address: address.to_string(),
            price,
        },
        items,
    )
}

#[test]
fn create_then_find_scenario() {
    let mut service = OrderService::new();
    let id = service
        .create_order(order(123, OrderStatus::Completed, "123 Main St", 1000, vec![item(456, 2, 500)]))
        .unwrap();
    assert!(id > 0);

    let found = service.get_order(id).unwrap();
    assert_eq!(found.dto.order_id as i64, id);
    assert_eq!(found.dto.customer_id, 123);
    assert_eq!(found.dto.order_status, OrderStatus::Completed);
    assert_eq!(found.dto.address, "123 Main St");
    assert_eq!(found.dto.price, 1000);
    assert_eq!(found.items.len(), 1);
    let stored = found.items[0];
    assert_eq!(stored.order_id as i64, id);
    assert_eq!(stored.product_id, 456);
    assert_eq!(stored.quantity, 2);
    assert_eq!(stored.unit_price, 500);
    assert_eq!(stored.total_price, 1000);
}

#[test]
fn create_keeps_items_apart() {
    let mut repo = OrderRepository::new();
    let a = repo.save(order(1, OrderStatus::Accepted, "A", 10, vec![item(1, 1, 5), item(2, 1, 5)])).unwrap();
    let b = repo.save(order(2, OrderStatus::Processing, "B", 20, vec![item(3, 4, 5)])).unwrap();
    assert_eq!((a, b), (1, 2));

    let fa = repo.find_by_id(a).unwrap();
    let fb = repo.find_by_id(b).unwrap();
    assert_eq!(fa.items.iter().map(|i| i.product_id).collect::<Vec<_>>(), vec![1, 2]);
    assert_eq!(fb.items.iter().map(|i| i.product_id).collect::<Vec<_>>(), vec![3]);
    assert!(fa.items.iter().all(|i| i.order_id == 1));
    assert!(fb.items.iter().all(|i| i.order_id == 2));
}

#[test]
fn find_unknown_id_is_not_found() {
    let mut repo = OrderRepository::new();
    assert!(matches!(repo.find_by_id(0), Err(StoreError::NotFound)));
    assert!(matches!(repo.find_by_id(1), Err(StoreError::NotFound)));
    repo.save(Order::default()).unwrap();
    assert!(matches!(repo.find_by_id(0), Err(StoreError::NotFound)));
    assert!(matches!(repo.find_by_id(2), Err(StoreError::NotFound)));
    assert!(matches!(repo.find_by_id(-1), Err(StoreError::NotFound)));
}

#[test]
fn update_unknown_id_writes_nothing() {
    let mut repo = OrderRepository::new();
    let id = repo.save(order(7, OrderStatus::Accepted, "Old", 5, vec![item(9, 1, 5)])).unwrap();
    let result = repo.update(id + 1, order(8, OrderStatus::Cancelled, "New", 6, vec![item(1, 1, 1)]));
    assert!(matches!(result, Err(StoreError::NotFound)));

    let all = repo.get_all_orders();
    assert_eq!(all.len(), 1);
    assert_eq!(all[0].dto.customer_id, 7);
    assert_eq!(all[0].dto.address, "Old");
    assert_eq!(all[0].items.len(), 1);
    assert_eq!(all[0].items[0].product_id, 9);
    assert!(repo.get_order_items_by_id(id + 1).is_empty());
}

#[test]
fn update_replaces_header_and_items() {
    let mut repo = OrderRepository::new();
    let id = repo
        .save(order(7, OrderStatus::Processing, "Old", 5, vec![item(1, 1, 5), item(2, 1, 5)]))
        .unwrap();
    let other = repo.save(order(9, OrderStatus::Accepted, "Other", 1, vec![item(5, 1, 1)])).unwrap();

    repo.update(id, order(8, OrderStatus::InProgress, "New", 99, vec![item(3, 3, 3)])).unwrap();

    let found = repo.find_by_id(id).unwrap();
    assert_eq!(found.dto.order_id as i64, id);
    assert_eq!(found.dto.customer_id, 8);
    assert_eq!(found.dto.order_status, OrderStatus::InProgress);
    assert_eq!(found.dto.address, "New");
    assert_eq!(found.dto.price, 99);
    assert_eq!(found.items.len(), 1);
    assert_eq!(found.items[0].product_id, 3);
    assert_eq!(found.items[0].total_price, 9);

    let untouched = repo.find_by_id(other).unwrap();
    assert_eq!(untouched.dto.address, "Other");
    assert_eq!(untouched.items.len(), 1);
}

#[test]
fn delete_removes_header_and_items() {
    let mut repo = OrderRepository::new();
    let id = repo.save(order(1, OrderStatus::Accepted, "X", 3, vec![item(1, 1, 1), item(2, 1, 1)])).unwrap();
    let kept = repo.save(order(1, OrderStatus::Accepted, "Y", 3, vec![item(3, 1, 1)])).unwrap();

    assert!(repo.delete(id).is_ok());
    assert!(matches!(repo.find_by_id(id), Err(StoreError::NotFound)));
    assert!(repo.get_order_items_by_id(id).is_empty());
    assert_eq!(repo.get_order_items_by_id(kept).len(), 1);
    assert!(matches!(repo.delete(id), Err(StoreError::NotFound)));
}

#[test]
fn delete_unknown_id_is_not_found() {
    let mut repo = OrderRepository::new();
    assert!(matches!(repo.delete(0), Err(StoreError::NotFound)));
    assert!(matches!(repo.delete(5), Err(StoreError::NotFound)));
}

#[test]
fn identifiers_are_not_reused() {
    let mut repo = OrderRepository::new();
    let a = repo.save(Order::default()).unwrap();
    repo.delete(a).unwrap();
    let b = repo.save(Order::default()).unwrap();
    assert_eq!((a, b), (1, 2));
}

#[test]
fn list_all_scenario() {
    let mut service = OrderService::new();
    let n = 4;
    for k in 0..n {
        let items = (0..k).map(|p| item(p, 1, 10)).collect();
        service.create_order(order(k, OrderStatus::Accepted, "Somewhere", 10, items)).unwrap();
    }
    let all = service.get_order_list();
    assert_eq!(all.len(), n as usize);
    for (k, o) in all.iter().enumerate() {
        assert_eq!(o.dto.order_id as usize, k + 1);
        assert_eq!(o.dto.customer_id as usize, k);
        assert_eq!(o.items.len(), k);
        assert!(o.items.iter().all(|i| i.order_id as usize == k + 1));
    }
}

#[test]
fn find_all_by_customer_keeps_creation_order() {
    let mut repo = OrderRepository::new();
    repo.save(order(5, OrderStatus::Accepted, "a", 1, vec![item(1, 1, 1)])).unwrap();
    repo.save(order(6, OrderStatus::Accepted, "b", 2, vec![])).unwrap();
    repo.save(order(5, OrderStatus::Completed, "c", 3, vec![item(2, 1, 1), item(3, 1, 1)])).unwrap();

    let mine = repo.find_all_by_customer_id(5);
    assert_eq!(mine.len(), 2);
    assert_eq!(mine[0].dto.address, "a");
    assert_eq!(mine[0].items.len(), 1);
    assert_eq!(mine[1].dto.address, "c");
    assert_eq!(mine[1].items.len(), 2);
    assert!(repo.find_all_by_customer_id(7).is_empty());
}

#[test]
fn status_codes_round_trip() {
    let all = [
        OrderStatus::Processing,
        OrderStatus::Accepted,
        OrderStatus::Assembly,
        OrderStatus::InProgress,
        OrderStatus::Completed,
        OrderStatus::Cancelled,
    ];
    for (k, s) in all.iter().enumerate() {
        assert_eq!(s.code(), k as i32);
        assert_eq!(OrderStatus::from(s.code()), *s);
    }
}

#[test]
fn unknown_status_codes_read_as_cancelled() {
    assert_eq!(OrderStatus::from(6), OrderStatus::Cancelled);
    assert_eq!(OrderStatus::from(-1), OrderStatus::Cancelled);
    assert_eq!(OrderStatus::from(i32::MAX), OrderStatus::Cancelled);
    assert_eq!(OrderStatus::default(), OrderStatus::Processing);
}

#[test]
fn header_row_round_trip() {
    let dto = OrderDTO {
        order_id: 0,
        customer_id: 3,
        order_status: OrderStatus::InProgress,
        address: "Road 1".to_string(),
        price: 77,
    };
    let row = HeaderRow::from_dto(&dto, 12);
    assert_eq!(row.order_id, 12);
    assert_eq!(row.order_status, 3);
    let back = row.to_dto();
    assert_eq!(back.order_id, 12);
    assert_eq!(back.customer_id, 3);
    assert_eq!(back.order_status, OrderStatus::InProgress);
    assert_eq!(back.address, "Road 1");
    assert_eq!(back.price, 77);
}

#[test]
fn stored_row_with_unknown_code_reads_as_cancelled() {
    let row = HeaderRow { order_id: 1, customer_id: 1, order_status: 42, address: String::new(), price: 0 };
    assert_eq!(row.to_dto().order_status, OrderStatus::Cancelled);
}

#[test]
fn affected_rows_decide_not_found() {
    assert!(matches!(check_affected(0), Err(StoreError::NotFound)));
    assert!(check_affected(1).is_ok());
    assert!(check_affected(3).is_ok());
}

#[test]
fn missing_header_row_is_not_found() {
    assert!(matches!(header_found(None), Err(StoreError::NotFound)));
    let row = HeaderRow { order_id: 4, customer_id: 1, order_status: 0, address: String::new(), price: 0 };
    assert_eq!(header_found(Some(row)).unwrap().order_id, 4);
}

#[test]
fn assemble_puts_row_and_items_together() {
    let row = HeaderRow { order_id: 4, customer_id: 2, order_status: 1, address: "Q".to_string(), price: 9 };
    let o = assemble(&row, vec![item(1, 2, 3).stamp(4)]);
    assert_eq!(o.dto.order_id, 4);
    assert_eq!(o.dto.order_status, OrderStatus::Accepted);
    assert_eq!(o.items[0].order_id, 4);
    assert_eq!(o.items[0].total_price, 6);
}

#[test]
fn stamp_sets_owner_only() {
    let it = item(8, 2, 4).stamp(31);
    assert_eq!(it.order_id, 31);
    assert_eq!((it.product_id, it.quantity, it.unit_price, it.total_price), (8, 2, 4, 8));
}

#[test]
fn error_messages() {
    assert_eq!(StoreError::NotFound.message(), "order not found");
    assert_eq!(StoreError::Storage("disk full".to_string()).message(), "disk full");
}

#[test]
fn keys_of_identifiers() {
    assert_eq!(new_key(7).unwrap(), 7);
    assert_eq!(new_key(i32::MAX as i64).unwrap(), i32::MAX);
    assert!(matches!(new_key(i32::MAX as i64 + 1), Err(StoreError::Storage(_))));
    assert_eq!(existing_key(42).unwrap(), 42);
    assert!(matches!(existing_key(i64::MAX), Err(StoreError::NotFound)));
    assert!(matches!(existing_key(i32::MIN as i64 - 1), Err(StoreError::NotFound)));
}

#[test]
fn items_of_unknown_order_are_empty() {
    let mut repo = OrderRepository::new();
    assert!(repo.get_order_items_by_id(0).is_empty());
    let id = repo.save(order(1, OrderStatus::Accepted, "Z", 1, vec![item(1, 1, 1)])).unwrap();
    assert_eq!(repo.get_order_items_by_id(id).len(), 1);
    assert!(repo.get_order_items_by_id(0).is_empty());
    assert!(repo.get_order_items_by_id(id + 1).is_empty());
}
