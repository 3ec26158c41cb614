use gastos::models::{
    Amount, Category, CategoryInput, CategoryUpdate, Double, ExchangeRate, Transaction, TransactionInput,
};
use gastos::store::{Store, StoreError};
use gastos::text::text_less_exec;

fn amount(x: f64) -> Amount {
    Amount { value: Double { bits: x.to_bits() }, cents: (x * 100.0).round() as i64 }
}

fn seeded_store() -> Store {
    let mut s = Store::new();
    s.seed_if_empty().unwrap();
    s
}

fn category_input(name: &str) -> CategoryInput {
    CategoryInput {
        name: name.to_string(),
        kind: "expense".to_string(),
        icon: "Dog".to_string(),
        color: "#123abc".to_string(),
    }
}

fn transaction_input(category_id: i64, date: &str) -> TransactionInput {
    TransactionInput {
        description: "Compra".to_string(),
        amount: amount(19.99),
        amount_in_ars: amount(19.99),
        currency: "ARS".to_string(),
        exchange_rate: None,
        category_id,
        date: date.to_string(),
        kind: "expense".to_string(),
    }
}

#[test]
fn new_store_seeds_fourteen_defaults() {
    let s = seeded_store();
    let cats = s.list_categories();
    assert_eq!(cats.len(), 14);
    assert_eq!(cats.iter().filter(|c| c.kind == "expense").count(), 9);
    assert_eq!(cats.iter().filter(|c| c.kind == "income").count(), 5);
    assert!(cats.iter().all(|c| c.is_default));
    assert_eq!(cats[0].id, 1);
    assert_eq!(cats[0].name, "Alimentación");
    assert_eq!(cats[0].icon, "Utensils");
    assert_eq!(cats[0].color, "#f87171");
    assert_eq!(cats[13].id, 14);
    assert_eq!(cats[13].name, "Otros Ingresos");
    assert_eq!(cats[13].kind, "income");
    assert_eq!(cats[13].icon, "Plus");
    assert_eq!(cats[13].color, "#94a3b8");
}

#[test]
fn seeding_twice_keeps_fourteen() {
    let mut s = seeded_store();
    s.seed_if_empty().unwrap();
    assert_eq!(s.list_categories().len(), 14);
}

#[test]
fn reopening_persisted_records_does_not_seed_again() {
    let s = seeded_store();
    let cats = s.list_categories();
    let mut reopened = Store::from_records(cats, Vec::new(), 15, 1).unwrap();
    reopened.seed_if_empty().unwrap();
    assert_eq!(reopened.list_categories().len(), 14);
}

#[test]
fn added_category_is_listed_as_not_default() {
    let mut s = seeded_store();
    let c = s.add_category(category_input("Mascotas")).unwrap();
    assert_eq!(c.id, 15);
    assert!(!c.is_default);
    let cats = s.list_categories();
    let found = cats.iter().find(|x| x.id == 15).unwrap();
    assert_eq!(found.name, "Mascotas");
    assert_eq!(found.kind, "expense");
    assert_eq!(found.icon, "Dog");
    assert_eq!(found.color, "#123abc");
    assert!(!found.is_default);
}

#[test]
fn invalid_category_is_refused() {
    let mut s = seeded_store();
    let mut input = category_input("Mascotas");
    input.color = "blue".to_string();
    match s.add_category(input) {
        Err(StoreError::Invalid(m)) => assert_eq!(m, "Color inválido: 'blue'. Debe ser formato #rrggbb"),
        other => panic!("unexpected {:?}", other),
    }
    assert_eq!(s.list_categories().len(), 14);
}

#[test]
fn update_category_keeps_default_flag() {
    let mut s = seeded_store();
    let update = CategoryUpdate {
        name: "Comida".to_string(),
        kind: "expense".to_string(),
        icon: "Pizza".to_string(),
        color: "#000000".to_string(),
    };
    let c = s.update_category(1, update).unwrap();
    assert_eq!(c.id, 1);
    assert_eq!(c.name, "Comida");
    assert_eq!(c.icon, "Pizza");
    assert!(c.is_default);
    assert_eq!(s.list_categories()[0].name, "Comida");
}

#[test]
fn update_missing_category_is_not_found() {
    let mut s = seeded_store();
    let update = CategoryUpdate {
        name: "Comida".to_string(),
        kind: "expense".to_string(),
        icon: "Pizza".to_string(),
        color: "#000000".to_string(),
    };
    assert!(matches!(s.update_category(99, update), Err(StoreError::CategoryNotFound(99))));
}

#[test]
fn delete_unreferenced_category_succeeds() {
    let mut s = seeded_store();
    assert!(s.delete_category(3).is_ok());
    let cats = s.list_categories();
    assert_eq!(cats.len(), 13);
    assert!(cats.iter().all(|c| c.id != 3));
}

#[test]
fn delete_referenced_category_conflicts_and_keeps_it() {
    let mut s = seeded_store();
    s.add_transaction(transaction_input(3, "2024-01-01"), "2024-01-01T10:00:00+00:00".to_string()).unwrap();
    assert!(matches!(s.delete_category(3), Err(StoreError::CategoryInUse(1))));
    assert_eq!(s.list_categories().len(), 14);
    assert!(s.list_categories().iter().any(|c| c.id == 3));
}

#[test]
fn delete_missing_category_is_not_found() {
    let mut s = seeded_store();
    assert!(matches!(s.delete_category(42), Err(StoreError::CategoryNotFound(42))));
}

#[test]
fn transaction_with_unknown_category_inserts_nothing() {
    let mut s = seeded_store();
    let r = s.add_transaction(transaction_input(99, "2024-01-01"), "now".to_string());
    assert!(matches!(r, Err(StoreError::UnknownCategory(99))));
    assert!(s.list_transactions().is_empty());
}

#[test]
fn amount_in_cents_reads_back_exactly() {
    let mut s = seeded_store();
    let t = s.add_transaction(transaction_input(1, "2024-01-01"), "t0".to_string()).unwrap();
    assert_eq!(t.amount, 1999);
    let listed = s.list_transactions();
    assert_eq!(listed[0].amount, 1999);
    assert_eq!(listed[0].amount_in_ars, 1999);
    assert_eq!(listed[0].amount as f64 / 100.0, 19.99);
}

#[test]
fn added_transaction_carries_its_fields() {
    let mut s = seeded_store();
    let mut input = transaction_input(10, "2024-03-05");
    input.currency = "USD".to_string();
    input.exchange_rate = Some(ExchangeRate { bits: 1000.0f64.to_bits() });
    input.kind = "income".to_string();
    let t: Transaction = s.add_transaction(input, "2024-03-05T12:00:00+00:00".to_string()).unwrap();
    assert_eq!(t.id, 1);
    assert_eq!(t.currency, "USD");
    assert_eq!(t.exchange_rate, Some(ExchangeRate { bits: 1000.0f64.to_bits() }));
    assert_eq!(t.category_id, 10);
    assert_eq!(t.kind, "income");
    assert_eq!(t.created_at, "2024-03-05T12:00:00+00:00");
    assert_eq!(t.updated_at, t.created_at);
}

#[test]
fn transactions_listed_latest_date_then_highest_id() {
    let mut s = seeded_store();
    s.add_transaction(transaction_input(1, "2024-01-01"), "a".to_string()).unwrap();
    s.add_transaction(transaction_input(1, "2024-01-02"), "b".to_string()).unwrap();
    s.add_transaction(transaction_input(1, "2024-01-02"), "c".to_string()).unwrap();
    let ids: Vec<i64> = s.list_transactions().iter().map(|t| t.id).collect();
    assert_eq!(ids, vec![3, 2, 1]);
}

#[test]
fn listing_orders_dates_as_text() {
    let mut s = seeded_store();
    s.add_transaction(transaction_input(1, "2024-02-01"), "a".to_string()).unwrap();
    s.add_transaction(transaction_input(1, "2023-12-31"), "b".to_string()).unwrap();
    s.add_transaction(transaction_input(1, "2024-02-01T09:00"), "c".to_string()).unwrap();
    s.add_transaction(transaction_input(1, "2024-01-15"), "d".to_string()).unwrap();
    let ids: Vec<i64> = s.list_transactions().iter().map(|t| t.id).collect();
    assert_eq!(ids, vec![3, 1, 4, 2]);
}

#[test]
fn text_order_is_by_code_point_with_prefix_first() {
    assert!(text_less_exec("2024-01-01", "2024-01-02"));
    assert!(!text_less_exec("2024-01-02", "2024-01-01"));
    assert!(text_less_exec("2024", "2024-01"));
    assert!(!text_less_exec("abc", "abc"));
    assert!(text_less_exec("Z", "a"));
}

#[test]
fn update_transaction_keeps_created_at() {
    let mut s = seeded_store();
    let t = s.add_transaction(transaction_input(1, "2024-01-01"), "2024-01-01T00:00:00+00:00".to_string()).unwrap();
    let mut input = transaction_input(2, "2024-01-03");
    input.amount = amount(5.0);
    let u = s
        .update_transaction(t.id, input, "2024-01-04T00:00:00+00:00".to_string())
        .unwrap();
    assert_eq!(u.created_at, "2024-01-01T00:00:00+00:00");
    assert_eq!(u.updated_at, "2024-01-04T00:00:00+00:00");
    assert_eq!(u.amount, 500);
    let listed = s.list_transactions();
    assert_eq!(listed.len(), 1);
    assert_eq!(listed[0].created_at, "2024-01-01T00:00:00+00:00");
    assert_eq!(listed[0].category_id, 2);
    assert_eq!(listed[0].date, "2024-01-03");
}

#[test]
fn update_missing_transaction_is_not_found() {
    let mut s = seeded_store();
    let r = s.update_transaction(7, transaction_input(1, "2024-01-01"), "now".to_string());
    assert!(matches!(r, Err(StoreError::TransactionNotFound(7))));
}

#[test]
fn update_transaction_checks_category_first() {
    let mut s = seeded_store();
    let r = s.update_transaction(7, transaction_input(70, "2024-01-01"), "now".to_string());
    assert!(matches!(r, Err(StoreError::UnknownCategory(70))));
}

#[test]
fn stamped_operations_use_the_clock() {
    let mut s = seeded_store();
    let t = s.add_transaction_now(transaction_input(1, "2024-01-01")).unwrap();
    assert!(!t.created_at.is_empty());
    assert_eq!(t.created_at, t.updated_at);
    let u = s.update_transaction_now(t.id, transaction_input(1, "2024-01-02")).unwrap();
    assert_eq!(u.created_at, t.created_at);
    assert!(u.updated_at >= t.updated_at);
}

#[test]
fn delete_transaction_removes_it() {
    let mut s = seeded_store();
    let t = s.add_transaction(transaction_input(1, "2024-01-01"), "x".to_string()).unwrap();
    assert!(s.delete_transaction(t.id).is_ok());
    assert!(s.list_transactions().is_empty());
    assert!(matches!(s.delete_transaction(t.id), Err(StoreError::TransactionNotFound(1))));
    assert!(s.delete_category(1).is_ok());
}

#[test]
fn invalid_transaction_is_refused_before_lookup() {
    let mut s = seeded_store();
    let mut input = transaction_input(99, "2024-01-01");
    input.currency = "USD".to_string();
    match s.add_transaction(input, "now".to_string()) {
        Err(StoreError::Invalid(m)) => {
            assert_eq!(m, "La cotización es obligatoria para transacciones en USD")
        }
        other => panic!("unexpected {:?}", other),
    }
}

#[test]
fn from_records_checks_the_invariant() {
    let cat = |id: i64| Category {
        id,
        name: "A".to_string(),
        kind: "income".to_string(),
        icon: "A".to_string(),
        color: "#000000".to_string(),
        is_default: false,
    };
    assert!(Store::from_records(vec![cat(1), cat(2)], Vec::new(), 3, 1).is_some());
    assert!(Store::from_records(vec![cat(2), cat(1)], Vec::new(), 3, 1).is_none());
    assert!(Store::from_records(vec![cat(1), cat(3)], Vec::new(), 3, 1).is_none());
    let tx = Transaction {
        id: 1,
        description: "d".to_string(),
        amount: 1,
        amount_in_ars: 1,
        currency: "ARS".to_string(),
        exchange_rate: None,
        category_id: 5,
        date: "2024-01-01".to_string(),
        kind: "expense".to_string(),
        created_at: "c".to_string(),
        updated_at: "u".to_string(),
    };
    assert!(Store::from_records(vec![cat(1)], vec![tx], 2, 2).is_none());
}

#[test]
fn ids_run_out_at_the_largest_value() {
    let mut s = Store::from_records(Vec::new(), Vec::new(), i64::MAX, 1).unwrap();
    assert!(matches!(s.seed_if_empty(), Err(StoreError::IdsExhausted)));
    assert!(matches!(s.add_category(category_input("X")), Err(StoreError::IdsExhausted)));
    assert!(s.list_categories().is_empty());
}
