use vstd::prelude::*;

verus! {

/// A category of income or expense, as stored.
#[derive(Debug)]
pub struct Category {
    pub id: i64,
    pub name: String,
    pub kind: String,
    pub icon: String,
    pub color: String,
    pub is_default: bool,
}

/// What a category holds, as plain values.
pub ghost struct CategoryView {
    pub id: i64,
    pub name: Seq<char>,
    pub kind: Seq<char>,
    pub icon: Seq<char>,
    pub color: Seq<char>,
    pub is_default: bool,
}

impl View for Category {
    type V = CategoryView;

    open spec fn view(&self) -> CategoryView {
        CategoryView {
            id: self.id,
            name: self.name@,
            kind: self.kind@,
            icon: self.icon@,
            color: self.color@,
            is_default: self.is_default,
        }
    }
}

impl Category {
    /// A copy of the category.
    pub fn duplicate(&self) -> (r: Category)
        ensures
            r@ == self@,
    {
        Category {
            id: self.id,
            name: self.name.clone(),
            kind: self.kind.clone(),
            icon: self.icon.clone(),
            color: self.color.clone(),
            is_default: self.is_default,
        }
    }
}

/// The fields of a category to create; the store gives it its id.
#[derive(Debug)]
pub struct CategoryInput {
    pub name: String,
    pub kind: String,
    pub icon: String,
    pub color: String,
}

/// The new fields of an existing category.
#[derive(Debug)]
pub struct CategoryUpdate {
    pub name: String,
    pub kind: String,
    pub icon: String,
    pub color: String,
}

/// A floating-point number as given by the caller, held as the bit pattern
/// of an IEEE-754 double.
#[derive(Clone, Copy, Debug, PartialEq, Eq, Structural)]
pub struct Double {
    pub bits: u64,
}

/// An exchange rate, stored as given.
pub type ExchangeRate = Double;

/// An amount in major units as given by the caller (`value`), beside that
/// value in minor units rounded to the nearest integer (`cents`), which is
/// what the store keeps.
#[derive(Clone, Copy, Debug, PartialEq, Eq, Structural)]
pub struct Amount {
    pub value: Double,
    pub cents: i64,
}

pub open spec fn exponent_of(bits: u64) -> u64 {
    (bits >> 52u64) & 0x7ffu64
}

pub open spec fn mantissa_of(bits: u64) -> u64 {
    bits & 0xf_ffff_ffff_ffffu64
}

pub open spec fn is_nan_bits(bits: u64) -> bool {
    exponent_of(bits) == 0x7ffu64 && mantissa_of(bits) != 0
}

/// The double is a number no greater than zero (negative, or either zero).
pub open spec fn at_most_zero_bits(bits: u64) -> bool {
    !is_nan_bits(bits) && ((bits >> 63u64) == 1u64 || bits == 0)
}

/// The double is neither infinite nor NaN.
pub open spec fn finite_bits(bits: u64) -> bool {
    exponent_of(bits) != 0x7ffu64
}

impl Double {
    /// Whether `rate <= 0.0` holds of the double.
    pub fn is_at_most_zero(&self) -> (r: bool)
        ensures
            r == at_most_zero_bits(self.bits),
    {
        let nan = (self.bits >> 52u64) & 0x7ffu64 == 0x7ffu64 && self.bits & 0xf_ffff_ffff_ffffu64 != 0;
        !nan && ((self.bits >> 63u64) == 1u64 || self.bits == 0)
    }

    /// Whether the double is finite.
    pub fn is_finite(&self) -> (r: bool)
        ensures
            r == finite_bits(self.bits),
    {
        (self.bits >> 52u64) & 0x7ffu64 != 0x7ffu64
    }
}

/// A transaction as stored: amounts in minor units (cents).
#[derive(Debug)]
pub struct Transaction {
    pub id: i64,
    pub description: String,
    pub amount: i64,
    pub amount_in_ars: i64,
    pub currency: String,
    pub exchange_rate: Option<ExchangeRate>,
    pub category_id: i64,
    pub date: String,
    pub kind: String,
    pub created_at: String,
    pub updated_at: String,
}

/// What a transaction holds, as plain values.
pub ghost struct TransactionView {
    pub id: i64,
    pub description: Seq<char>,
    pub amount: i64,
    pub amount_in_ars: i64,
    pub currency: Seq<char>,
    pub exchange_rate: Option<ExchangeRate>,
    pub category_id: i64,
    pub date: Seq<char>,
    pub kind: Seq<char>,
    pub created_at: Seq<char>,
    pub updated_at: Seq<char>,
}

impl View for Transaction {
    type V = TransactionView;

    open spec fn view(&self) -> TransactionView {
        TransactionView {
            id: self.id,
            description: self.description@,
            amount: self.amount,
            amount_in_ars: self.amount_in_ars,
            currency: self.currency@,
            exchange_rate: self.exchange_rate,
            category_id: self.category_id,
            date: self.date@,
            kind: self.kind@,
            created_at: self.created_at@,
            updated_at: self.updated_at@,
        }
    }
}

impl Transaction {
    /// A copy of the transaction.
    pub fn duplicate(&self) -> (r: Transaction)
        ensures
            r@ == self@,
    {
        Transaction {
            id: self.id,
            description: self.description.clone(),
            amount: self.amount,
            amount_in_ars: self.amount_in_ars,
            currency: self.currency.clone(),
            exchange_rate: self.exchange_rate,
            category_id: self.category_id,
            date: self.date.clone(),
            kind: self.kind.clone(),
            created_at: self.created_at.clone(),
            updated_at: self.updated_at.clone(),
        }
    }
}

/// The fields of a transaction to create or to write over an existing one.
#[derive(Debug)]
pub struct TransactionInput {
    pub description: String,
    pub amount: Amount,
    pub amount_in_ars: Amount,
    pub currency: String,
    pub exchange_rate: Option<ExchangeRate>,
    pub category_id: i64,
    pub date: String,
    pub kind: String,
}

/// An update carries the same fields as a new transaction.
pub type TransactionUpdate = TransactionInput;

} // verus!
