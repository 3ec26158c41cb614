use vstd::prelude::*;
use vstd::string::StrSliceExecFns;
use vstd::string::StringExecFns;
use crate::models::{
    at_most_zero_bits, finite_bits, Amount, CategoryInput, ExchangeRate, CategoryUpdate, TransactionInput,
};
use crate::text::{all_from, is_ascii_alnum, is_hex_digit, same_text, trim, trimmed};

verus! {

/// Longest accepted category name, in characters.
pub const MAX_NAME_LEN: usize = 100;

/// Longest accepted icon name, in characters.
pub const MAX_ICON_LEN: usize = 50;

/// Longest accepted transaction description, in characters.
pub const MAX_DESCRIPTION_LEN: usize = 255;

/// Length of a colour written `#rrggbb`.
pub const HEX_COLOR_LEN: usize = 7;

/// The first error of a chain of checks.
pub open spec fn first_error(a: Option<Seq<char>>, b: Option<Seq<char>>) -> Option<Seq<char>> {
    if a is Some {
        a
    } else {
        b
    }
}

/// `r` reports exactly the error `e`, or success when there is none.
pub open spec fn reports(e: Option<Seq<char>>, r: Result<(), String>) -> bool {
    match e {
        None => r is Ok,
        Some(m) => r is Err && r->Err_0@ == m,
    }
}

pub open spec fn name_error(name: Seq<char>) -> Option<Seq<char>> {
    let t = trimmed(name);
    if t.len() == 0 {
        Some("El nombre no puede estar vacío"@)
    } else if t.len() > MAX_NAME_LEN {
        Some("El nombre no puede superar 100 caracteres"@)
    } else {
        None
    }
}

pub open spec fn is_kind(t: Seq<char>) -> bool {
    t == "income"@ || t == "expense"@
}

pub open spec fn kind_error(t: Seq<char>) -> Option<Seq<char>> {
    if is_kind(t) {
        None
    } else {
        Some("Tipo inválido: '"@ + t + "'. Debe ser 'income' o 'expense'"@)
    }
}

pub open spec fn icon_error(icon: Seq<char>) -> Option<Seq<char>> {
    let t = trimmed(icon);
    if t.len() == 0 {
        Some("El ícono no puede estar vacío"@)
    } else if t.len() > MAX_ICON_LEN {
        Some("El nombre del ícono no puede superar 50 caracteres"@)
    } else if !(forall|k: int| 0 <= k < t.len() ==> is_ascii_alnum(#[trigger] t[k])) {
        Some("El nombre del ícono solo puede contener letras y números"@)
    } else {
        None
    }
}

pub open spec fn color_error(color: Seq<char>) -> Option<Seq<char>> {
    let t = trimmed(color);
    if t.len() != HEX_COLOR_LEN || t[0] != '#' {
        Some("Color inválido: '"@ + t + "'. Debe ser formato #rrggbb"@)
    } else if !(forall|k: int| 1 <= k < t.len() ==> is_hex_digit(#[trigger] t[k])) {
        Some("Color inválido: '"@ + t + "'. Debe contener solo dígitos hexadecimales"@)
    } else {
        None
    }
}

/// The first error among the fields of a category, checked in the order
/// name, icon, colour, kind.
pub open spec fn category_error(
    name: Seq<char>,
    kind: Seq<char>,
    icon: Seq<char>,
    color: Seq<char>,
) -> Option<Seq<char>> {
    first_error(
        name_error(name),
        first_error(icon_error(icon), first_error(color_error(color), kind_error(kind))),
    )
}

/// A name must hold at least one and at most `MAX_NAME_LEN` characters once trimmed.
pub fn validate_name(name: &str) -> (r: Result<(), String>)
    ensures
        reports(name_error(name@), r),
{
    let t = trim(name);
    let n = t.unicode_len();
    if n == 0 {
        return Err(String::from_str("El nombre no puede estar vacío"));
    }
    if n > MAX_NAME_LEN {
        return Err(String::from_str("El nombre no puede superar 100 caracteres"));
    }
    Ok(())
}

/// Whether the text is one of the two kinds, `income` or `expense`.
pub fn is_valid_kind(t: &str) -> (r: bool)
    ensures
        r == is_kind(t@),
{
    same_text(t, "income") || same_text(t, "expense")
}

/// A kind must be exactly `income` or `expense`.
pub fn validate_type(t: &str) -> (r: Result<(), String>)
    ensures
        reports(kind_error(t@), r),
{
    if !is_valid_kind(t) {
        let mut m = String::from_str("Tipo inválido: '");
        m.append(t);
        m.append("'. Debe ser 'income' o 'expense'");
        return Err(m);
    }
    Ok(())
}

/// An icon name, once trimmed, holds one to `MAX_ICON_LEN` ASCII letters and digits.
pub fn validate_icon(icon: &str) -> (r: Result<(), String>)
    ensures
        reports(icon_error(icon@), r),
{
    let t = trim(icon);
    let n = t.unicode_len();
    if n == 0 {
        return Err(String::from_str("El ícono no puede estar vacío"));
    }
    if n > MAX_ICON_LEN {
        return Err(String::from_str("El nombre del ícono no puede superar 50 caracteres"));
    }
    if !all_from(t, 0, false) {
        return Err(String::from_str("El nombre del ícono solo puede contener letras y números"));
    }
    Ok(())
}

/// A colour, once trimmed, is `#` followed by six hexadecimal digits.
pub fn validate_color(color: &str) -> (r: Result<(), String>)
    ensures
        reports(color_error(color@), r),
{
    let t = trim(color);
    let n = t.unicode_len();
    if n != HEX_COLOR_LEN || t.get_char(0) != '#' {
        let mut m = String::from_str("Color inválido: '");
        m.append(t);
        m.append("'. Debe ser formato #rrggbb");
        return Err(m);
    }
    if !all_from(t, 1, true) {
        let mut m = String::from_str("Color inválido: '");
        m.append(t);
        m.append("'. Debe contener solo dígitos hexadecimales");
        return Err(m);
    }
    Ok(())
}

fn validate_category_fields(name: &str, kind: &str, icon: &str, color: &str) -> (r: Result<
    (),
    String,
>)
    ensures
        reports(category_error(name@, kind@, icon@, color@), r),
{
    validate_name(name)?;
    validate_icon(icon)?;
    validate_color(color)?;
    validate_type(kind)?;
    Ok(())
}

impl CategoryInput {
    /// Checks name, icon, colour and kind in that order; the first failure is reported.
    pub fn validate(&self) -> (r: Result<(), String>)
        ensures
            reports(category_error(self.name@, self.kind@, self.icon@, self.color@), r),
    {
        validate_category_fields(self.name.as_str(), self.kind.as_str(), self.icon.as_str(), self.color.as_str())
    }
}

impl CategoryUpdate {
    /// Checks name, icon, colour and kind in that order; the first failure is reported.
    pub fn validate(&self) -> (r: Result<(), String>)
        ensures
            reports(category_error(self.name@, self.kind@, self.icon@, self.color@), r),
    {
        validate_category_fields(self.name.as_str(), self.kind.as_str(), self.icon.as_str(), self.color.as_str())
    }
}

pub open spec fn description_error(d: Seq<char>) -> Option<Seq<char>> {
    let t = trimmed(d);
    if t.len() == 0 {
        Some("La descripción no puede estar vacía"@)
    } else if t.len() > MAX_DESCRIPTION_LEN {
        Some("La descripción no puede superar 255 caracteres"@)
    } else {
        None
    }
}

/// An amount must be greater than zero, then finite; NaN passes the first
/// test and fails the second.
pub open spec fn amount_error(a: Amount) -> Option<Seq<char>> {
    if at_most_zero_bits(a.value.bits) {
        Some("El monto debe ser mayor a 0"@)
    } else if !finite_bits(a.value.bits) {
        Some("El monto no es un número válido"@)
    } else {
        None
    }
}

pub open spec fn amount_in_ars_error(a: Amount) -> Option<Seq<char>> {
    if at_most_zero_bits(a.value.bits) {
        Some("El monto en ARS debe ser mayor a 0"@)
    } else if !finite_bits(a.value.bits) {
        Some("El monto en ARS no es un número válido"@)
    } else {
        None
    }
}

pub open spec fn is_currency(c: Seq<char>) -> bool {
    c == "ARS"@ || c == "USD"@
}

pub open spec fn currency_error(c: Seq<char>) -> Option<Seq<char>> {
    if is_currency(c) {
        None
    } else {
        Some("Moneda inválida: '"@ + c + "'. Debe ser ARS o USD"@)
    }
}

/// A rate is demanded, positive and finite for USD only.
pub open spec fn rate_error(c: Seq<char>, rate: Option<ExchangeRate>) -> Option<Seq<char>> {
    if c != "USD"@ {
        None
    } else {
        match rate {
            Some(x) => if at_most_zero_bits(x.bits) {
                Some("La cotización debe ser mayor a 0"@)
            } else if !finite_bits(x.bits) {
                Some("La cotización no es un número válido"@)
            } else {
                None
            },
            None => Some("La cotización es obligatoria para transacciones en USD"@),
        }
    }
}

pub open spec fn date_error(d: Seq<char>) -> Option<Seq<char>> {
    if trimmed(d).len() == 0 {
        Some("La fecha no puede estar vacía"@)
    } else {
        None
    }
}

pub open spec fn category_id_error(id: i64) -> Option<Seq<char>> {
    if id <= 0 {
        Some("Debe seleccionar una categoría válida"@)
    } else {
        None
    }
}

/// The first error among the fields of a transaction, checked in the order
/// kind, description, amount, amount in ARS, currency, exchange rate, date,
/// category.
pub open spec fn transaction_error(t: TransactionInput) -> Option<Seq<char>> {
    first_error(kind_error(t.kind@),
    first_error(description_error(t.description@),
    first_error(amount_error(t.amount),
    first_error(amount_in_ars_error(t.amount_in_ars),
    first_error(currency_error(t.currency@),
    first_error(rate_error(t.currency@, t.exchange_rate),
    first_error(date_error(t.date@), category_id_error(t.category_id))))))))
}

fn validate_description(d: &str) -> (r: Result<(), String>)
    ensures
        reports(description_error(d@), r),
{
    let t = trim(d);
    let n = t.unicode_len();
    if n == 0 {
        return Err(String::from_str("La descripción no puede estar vacía"));
    }
    if n > MAX_DESCRIPTION_LEN {
        return Err(String::from_str("La descripción no puede superar 255 caracteres"));
    }
    Ok(())
}

fn validate_rate(currency: &str, rate: Option<ExchangeRate>) -> (r: Result<(), String>)
    ensures
        reports(rate_error(currency@, rate), r),
{
    if same_text(currency, "USD") {
        match rate {
            Some(x) => {
                if x.is_at_most_zero() {
                    return Err(String::from_str("La cotización debe ser mayor a 0"));
                }
                if !x.is_finite() {
                    return Err(String::from_str("La cotización no es un número válido"));
                }
            },
            None => {
                return Err(String::from_str("La cotización es obligatoria para transacciones en USD"));
            },
        }
    }
    Ok(())
}

impl TransactionInput {
    /// Checks the fields in a fixed order (kind, description, amount, amount
    /// in ARS, currency, exchange rate, date, category); the first failure is
    /// reported.
    pub fn validate(&self) -> (r: Result<(), String>)
        ensures
            reports(transaction_error(*self), r),
    {
        validate_type(self.kind.as_str())?;
        validate_description(self.description.as_str())?;
        if self.amount.value.is_at_most_zero() {
            return Err(String::from_str("El monto debe ser mayor a 0"));
        }
        if !self.amount.value.is_finite() {
            return Err(String::from_str("El monto no es un número válido"));
        }
        if self.amount_in_ars.value.is_at_most_zero() {
            return Err(String::from_str("El monto en ARS debe ser mayor a 0"));
        }
        if !self.amount_in_ars.value.is_finite() {
            return Err(String::from_str("El monto en ARS no es un número válido"));
        }
        let currency = self.currency.as_str();
        if !(same_text(currency, "ARS") || same_text(currency, "USD")) {
            let mut m = String::from_str("Moneda inválida: '");
            m.append(currency);
            m.append("'. Debe ser ARS o USD");
            return Err(m);
        }
        validate_rate(currency, self.exchange_rate)?;
        if trim(self.date.as_str()).unicode_len() == 0 {
            return Err(String::from_str("La fecha no puede estar vacía"));
        }
        if self.category_id <= 0 {
            return Err(String::from_str("Debe seleccionar una categoría válida"));
        }
        Ok(())
    }
}

} // verus!
