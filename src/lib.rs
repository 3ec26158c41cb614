//! A personal finance tracker's core: validation of categories and
//! transactions, and a store that keeps them with referential integrity,
//! amounts in cents, and a fixed listing order.

use vstd::prelude::*;

pub mod laws;
pub mod models;
pub mod store;
pub mod text;
pub mod validation;
