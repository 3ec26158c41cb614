use gastos::models::{Amount, CategoryInput, CategoryUpdate, Double, ExchangeRate, TransactionInput};
use gastos::validation::{validate_color, validate_icon, validate_name, validate_type};

fn amount(x: f64) -> Amount {
    Amount { value: Double { bits: x.to_bits() }, cents: (x * 100.0).round() as i64 }
}

fn valid_transaction() -> TransactionInput {
    TransactionInput {
        description: "Supermercado".to_string(),
        amount: amount(19.99),
        amount_in_ars: amount(19.99),
        currency: "ARS".to_string(),
        exchange_rate: None,
        category_id: 1,
        date: "2024-01-01".to_string(),
        kind: "expense".to_string(),
    }
}

fn rate(x: f64) -> Option<ExchangeRate> {
    Some(ExchangeRate { bits: x.to_bits() })
}

#[test]
fn name_blank_after_trimming_is_empty() {
    assert_eq!(validate_name("   "), Err("El nombre no puede estar vacío".to_string()));
    assert_eq!(validate_name(""), Err("El nombre no puede estar vacío".to_string()));
}

#[test]
fn name_length_limit_counts_trimmed_characters() {
    let hundred = "a".repeat(100);
    assert_eq!(validate_name(&hundred), Ok(()));
    assert_eq!(validate_name(&format!("  {}  ", hundred)), Ok(()));
    let long = "a".repeat(101);
    assert_eq!(validate_name(&long), Err("El nombre no puede superar 100 caracteres".to_string()));
    assert_eq!(validate_name(&"é".repeat(100)), Ok(()));
}

#[test]
fn kind_must_be_income_or_expense() {
    assert_eq!(validate_type("income"), Ok(()));
    assert_eq!(validate_type("expense"), Ok(()));
    assert_eq!(
        validate_type("Income"),
        Err("Tipo inválido: 'Income'. Debe ser 'income' o 'expense'".to_string())
    );
    assert_eq!(
        validate_type(""),
        Err("Tipo inválido: ''. Debe ser 'income' o 'expense'".to_string())
    );
}

#[test]
fn icon_rules() {
    assert_eq!(validate_icon(" Utensils "), Ok(()));
    assert_eq!(validate_icon("Gamepad2"), Ok(()));
    assert_eq!(validate_icon("  "), Err("El ícono no puede estar vacío".to_string()));
    assert_eq!(
        validate_icon(&"A".repeat(51)),
        Err("El nombre del ícono no puede superar 50 caracteres".to_string())
    );
    assert_eq!(validate_icon(&"A".repeat(50)), Ok(()));
    assert_eq!(
        validate_icon("Shopping-Bag"),
        Err("El nombre del ícono solo puede contener letras y números".to_string())
    );
}

#[test]
fn color_short_or_named_fails_on_format() {
    assert_eq!(
        validate_color("#ABC"),
        Err("Color inválido: '#ABC'. Debe ser formato #rrggbb".to_string())
    );
    assert_eq!(
        validate_color("blue"),
        Err("Color inválido: 'blue'. Debe ser formato #rrggbb".to_string())
    );
    assert_eq!(
        validate_color("1234567"),
        Err("Color inválido: '1234567'. Debe ser formato #rrggbb".to_string())
    );
}

#[test]
fn color_mixed_case_hex_passes() {
    assert_eq!(validate_color("#1a2B3c"), Ok(()));
    assert_eq!(validate_color("  #f87171 "), Ok(()));
}

#[test]
fn color_with_non_hex_digit_fails_on_digits() {
    assert_eq!(
        validate_color(" #12345g "),
        Err("Color inválido: '#12345g'. Debe contener solo dígitos hexadecimales".to_string())
    );
}

#[test]
fn category_input_reports_first_failure() {
    let input = CategoryInput {
        name: "".to_string(),
        kind: "bad".to_string(),
        icon: "".to_string(),
        color: "".to_string(),
    };
    assert_eq!(input.validate(), Err("El nombre no puede estar vacío".to_string()));
    let input = CategoryInput {
        name: "Casa".to_string(),
        kind: "expense".to_string(),
        icon: "Home".to_string(),
        color: "blue".to_string(),
    };
    assert_eq!(input.validate(), Err("Color inválido: 'blue'. Debe ser formato #rrggbb".to_string()));
    let update = CategoryUpdate {
        name: "Casa".to_string(),
        kind: "other".to_string(),
        icon: "Home".to_string(),
        color: "#000000".to_string(),
    };
    assert_eq!(
        update.validate(),
        Err("Tipo inválido: 'other'. Debe ser 'income' o 'expense'".to_string())
    );
    let update = CategoryUpdate {
        name: "Casa".to_string(),
        kind: "income".to_string(),
        icon: "Home".to_string(),
        color: "#000000".to_string(),
    };
    assert_eq!(update.validate(), Ok(()));
}

#[test]
fn category_checks_icon_and_colour_before_kind() {
    let input = CategoryInput {
        name: "Casa".to_string(),
        kind: "bad".to_string(),
        icon: " ".to_string(),
        color: "blue".to_string(),
    };
    assert_eq!(input.validate(), Err("El ícono no puede estar vacío".to_string()));
    let input = CategoryInput {
        name: "Casa".to_string(),
        kind: "bad".to_string(),
        icon: "Home".to_string(),
        color: "blue".to_string(),
    };
    assert_eq!(input.validate(), Err("Color inválido: 'blue'. Debe ser formato #rrggbb".to_string()));
}

#[test]
fn transaction_valid_input_passes() {
    assert_eq!(valid_transaction().validate(), Ok(()));
}

#[test]
fn transaction_description_rules() {
    let mut t = valid_transaction();
    t.description = "  ".to_string();
    assert_eq!(t.validate(), Err("La descripción no puede estar vacía".to_string()));
    t.description = "x".repeat(256);
    assert_eq!(t.validate(), Err("La descripción no puede superar 255 caracteres".to_string()));
    t.description = "x".repeat(255);
    assert_eq!(t.validate(), Ok(()));
}

#[test]
fn transaction_amount_rules() {
    let mut t = valid_transaction();
    t.amount = amount(0.0);
    assert_eq!(t.validate(), Err("El monto debe ser mayor a 0".to_string()));
    t.amount = amount(-0.05);
    assert_eq!(t.validate(), Err("El monto debe ser mayor a 0".to_string()));
    t.amount = amount(f64::NEG_INFINITY);
    assert_eq!(t.validate(), Err("El monto debe ser mayor a 0".to_string()));
    t.amount = amount(f64::NAN);
    assert_eq!(t.validate(), Err("El monto no es un número válido".to_string()));
    t.amount = amount(f64::INFINITY);
    assert_eq!(t.validate(), Err("El monto no es un número válido".to_string()));
    t.amount = amount(0.001);
    assert_eq!(t.validate(), Ok(()));
    let mut t = valid_transaction();
    t.amount_in_ars = amount(0.0);
    assert_eq!(t.validate(), Err("El monto en ARS debe ser mayor a 0".to_string()));
    t.amount_in_ars = amount(f64::NAN);
    assert_eq!(t.validate(), Err("El monto en ARS no es un número válido".to_string()));
}

#[test]
fn transaction_currency_must_be_ars_or_usd() {
    let mut t = valid_transaction();
    t.currency = "EUR".to_string();
    assert_eq!(t.validate(), Err("Moneda inválida: 'EUR'. Debe ser ARS o USD".to_string()));
}

#[test]
fn usd_without_rate_fails_and_ars_takes_any_rate() {
    let mut t = valid_transaction();
    t.currency = "USD".to_string();
    t.exchange_rate = None;
    assert_eq!(
        t.validate(),
        Err("La cotización es obligatoria para transacciones en USD".to_string())
    );
    t.exchange_rate = rate(1050.5);
    assert_eq!(t.validate(), Ok(()));
    let mut t = valid_transaction();
    for r in [None, rate(0.0), rate(-3.0), rate(f64::NAN), rate(f64::INFINITY), rate(2.5)] {
        t.exchange_rate = r;
        assert_eq!(t.validate(), Ok(()));
    }
}

#[test]
fn usd_rate_must_be_positive_and_finite() {
    let mut t = valid_transaction();
    t.currency = "USD".to_string();
    for r in [0.0, -0.0, -1.0, f64::NEG_INFINITY] {
        t.exchange_rate = rate(r);
        assert_eq!(t.validate(), Err("La cotización debe ser mayor a 0".to_string()));
    }
    for r in [f64::NAN, f64::INFINITY] {
        t.exchange_rate = rate(r);
        assert_eq!(t.validate(), Err("La cotización no es un número válido".to_string()));
    }
    t.exchange_rate = rate(f64::MIN_POSITIVE);
    assert_eq!(t.validate(), Ok(()));
}

#[test]
fn exchange_rate_bit_classification() {
    let r = ExchangeRate { bits: 0.0f64.to_bits() };
    assert!(r.is_at_most_zero() && r.is_finite());
    let r = ExchangeRate { bits: (-0.0f64).to_bits() };
    assert!(r.is_at_most_zero());
    let r = ExchangeRate { bits: f64::NAN.to_bits() };
    assert!(!r.is_at_most_zero() && !r.is_finite());
    let r = ExchangeRate { bits: f64::NEG_INFINITY.to_bits() };
    assert!(r.is_at_most_zero() && !r.is_finite());
    let r = ExchangeRate { bits: 1.0f64.to_bits() };
    assert!(!r.is_at_most_zero() && r.is_finite());
}

#[test]
fn transaction_kind_date_and_category_rules() {
    let mut t = valid_transaction();
    t.kind = "gasto".to_string();
    assert_eq!(t.validate(), Err("Tipo inválido: 'gasto'. Debe ser 'income' o 'expense'".to_string()));
    let mut t = valid_transaction();
    t.date = " ".to_string();
    assert_eq!(t.validate(), Err("La fecha no puede estar vacía".to_string()));
    let mut t = valid_transaction();
    t.category_id = 0;
    assert_eq!(t.validate(), Err("Debe seleccionar una categoría válida".to_string()));
    t.category_id = -4;
    assert_eq!(t.validate(), Err("Debe seleccionar una categoría válida".to_string()));
}

#[test]
fn transaction_reports_first_failure_in_order() {
    let mut t = valid_transaction();
    t.kind = "gasto".to_string();
    t.description = "".to_string();
    t.amount = amount(f64::NAN);
    t.currency = "EUR".to_string();
    t.date = "".to_string();
    assert_eq!(t.validate(), Err("Tipo inválido: 'gasto'. Debe ser 'income' o 'expense'".to_string()));
    t.kind = "income".to_string();
    assert_eq!(t.validate(), Err("La descripción no puede estar vacía".to_string()));
    t.description = "ok".to_string();
    assert_eq!(t.validate(), Err("El monto no es un número válido".to_string()));
    t.amount = amount(0.01);
    assert_eq!(t.validate(), Err("Moneda inválida: 'EUR'. Debe ser ARS o USD".to_string()));
    t.currency = "USD".to_string();
    assert_eq!(
        t.validate(),
        Err("La cotización es obligatoria para transacciones en USD".to_string())
    );
    t.exchange_rate = rate(900.0);
    assert_eq!(t.validate(), Err("La fecha no puede estar vacía".to_string()));
}
