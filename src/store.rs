use vstd::prelude::*;
use crate::models::{
    Category, CategoryInput, CategoryUpdate, CategoryView, Transaction, TransactionInput, TransactionUpdate,
    TransactionView,
};
use crate::text::{lemma_text_less_transitive, text_less, text_less_exec};
use crate::validation::{category_error, transaction_error};

verus! {

/// Relies on std's `SystemTime::now` for the clock, chrono's
/// `From<SystemTime> for DateTime<Utc>` (which also accepts times before
/// 1970), and `DateTime::to_rfc3339` to render it: the current UTC time as
/// RFC 3339 text. Nothing is assumed of its value.
#[verifier::external_body]
fn utc_now_rfc3339() -> (r: String) {
    chrono::DateTime::<chrono::Utc>::from(std::time::SystemTime::now()).to_rfc3339()
}

/// Why an operation on the store failed.
#[derive(Debug)]
pub enum StoreError {
    /// The input broke a validation rule; the message says which.
    Invalid(String),
    /// No category has this id.
    CategoryNotFound(i64),
    /// No transaction has this id.
    TransactionNotFound(i64),
    /// The category is referenced by this many transactions.
    CategoryInUse(usize),
    /// A transaction names a category id that does not exist.
    UnknownCategory(i64),
    /// No id is left to give a new record.
    IdsExhausted,
}

/// The store's contents as plain values.
pub ghost struct StoreView {
    pub categories: Seq<CategoryView>,
    pub transactions: Seq<TransactionView>,
    pub next_category_id: i64,
    pub next_transaction_id: i64,
}

/// The categories and transactions of the finance tracker, each sequence in
/// ascending order of id.
pub struct Store {
    categories: Vec<Category>,
    transactions: Vec<Transaction>,
    next_category_id: i64,
    next_transaction_id: i64,
}

/// Category ids strictly ascend along the sequence.
pub open spec fn category_ids_ordered(c: Seq<CategoryView>) -> bool {
    forall|i: int, j: int| 0 <= i < j < c.len() ==> #[trigger] c[i].id < #[trigger] c[j].id
}

/// Transaction ids strictly ascend along the sequence.
pub open spec fn transaction_ids_ordered(t: Seq<TransactionView>) -> bool {
    forall|i: int, j: int| 0 <= i < j < t.len() ==> #[trigger] t[i].id < #[trigger] t[j].id
}

/// Some category has this id.
pub open spec fn has_category(c: Seq<CategoryView>, id: i64) -> bool {
    exists|k: int| 0 <= k < c.len() && #[trigger] c[k].id == id
}

/// Some transaction has this id.
pub open spec fn has_transaction(t: Seq<TransactionView>, id: i64) -> bool {
    exists|k: int| 0 <= k < t.len() && #[trigger] t[k].id == id
}

impl StoreView {
    /// Ids are positive, ascending, below the next id to give, and every
    /// transaction names an existing category.
    pub open spec fn wf(self) -> bool {
        &&& 1 <= self.next_category_id
        &&& 1 <= self.next_transaction_id
        &&& category_ids_ordered(self.categories)
        &&& transaction_ids_ordered(self.transactions)
        &&& forall|i: int| 0 <= i < self.categories.len()
            ==> 0 < #[trigger] self.categories[i].id < self.next_category_id
        &&& forall|i: int| 0 <= i < self.transactions.len()
            ==> 0 < #[trigger] self.transactions[i].id < self.next_transaction_id
        &&& forall|i: int| 0 <= i < self.transactions.len()
            ==> has_category(self.categories, #[trigger] self.transactions[i].category_id)
    }
}

/// A category built from its fields.
pub open spec fn new_category(id: i64, name: Seq<char>, kind: Seq<char>, icon: Seq<char>, color: Seq<char>, is_default: bool) -> CategoryView {
    CategoryView { id, name, kind, icon, color, is_default }
}

/// How many transactions name the category `id`.
pub open spec fn count_refs(t: Seq<TransactionView>, id: i64) -> nat
    decreases t.len(),
{
    if t.len() == 0 {
        0
    } else {
        count_refs(t.drop_last(), id) + if t.last().category_id == id { 1nat } else { 0nat }
    }
}

/// No transaction names a category that nothing counts.
pub proof fn lemma_no_refs(t: Seq<TransactionView>, id: i64)
    requires
        count_refs(t, id) == 0,
    ensures
        forall|i: int| 0 <= i < t.len() ==> #[trigger] t[i].category_id != id,
    decreases t.len(),
{
    if t.len() > 0 {
        lemma_no_refs(t.drop_last(), id);
        assert forall|i: int| 0 <= i < t.len() implies #[trigger] t[i].category_id != id by {
            if i < t.len() - 1 {
                assert(t[i] == t.drop_last()[i]);
            }
        }
    }
}

/// A category whose fields an update wrote over.
pub open spec fn updated_category(old: CategoryView, u: CategoryUpdate) -> CategoryView {
    CategoryView { name: u.name@, kind: u.kind@, icon: u.icon@, color: u.color@, ..old }
}

/// The record that a valid input becomes under the given id and timestamps.
pub open spec fn stored_transaction(
    id: i64,
    t: TransactionInput,
    created_at: Seq<char>,
    updated_at: Seq<char>,
) -> TransactionView {
    TransactionView {
        id,
        description: t.description@,
        amount: t.amount.cents,
        amount_in_ars: t.amount_in_ars.cents,
        currency: t.currency@,
        exchange_rate: t.exchange_rate,
        category_id: t.category_id,
        date: t.date@,
        kind: t.kind@,
        created_at,
        updated_at,
    }
}

/// `x` is listed before `y`: a later date first, and on the same date the
/// higher id first.
pub open spec fn listed_before(x: TransactionView, y: TransactionView) -> bool {
    text_less(y.date, x.date) || (x.date == y.date && x.id > y.id)
}

/// Each transaction of `s` is listed before every one that follows it.
pub open spec fn most_recent_first(s: Seq<TransactionView>) -> bool {
    forall|i: int, j: int| 0 <= i < j < s.len() ==> listed_before(#[trigger] s[i], #[trigger] s[j])
}

pub proof fn lemma_listed_before_transitive(x: TransactionView, y: TransactionView, z: TransactionView)
    requires
        listed_before(x, y),
        listed_before(y, z),
    ensures
        listed_before(x, z),
{
    if text_less(y.date, x.date) && text_less(z.date, y.date) {
        lemma_text_less_transitive(z.date, y.date, x.date);
    }
}

fn comes_before(x: &Transaction, y: &Transaction) -> (r: bool)
    ensures
        r == listed_before(x@, y@),
        !r && x.id != y.id ==> listed_before(y@, x@),
{
    let xd = x.date.as_str();
    let yd = y.date.as_str();
    if text_less_exec(yd, xd) {
        true
    } else if text_less_exec(xd, yd) {
        proof {
            crate::text::lemma_text_less_irreflexive(x.date@);
        }
        false
    } else {
        x.id > y.id
    }
}

/// What `add_category` does: a validation error leaves the store as it was;
/// otherwise the category is appended under the next id, `is_default` false.
pub open spec fn category_added(before: StoreView, input: CategoryInput, r: Result<Category, StoreError>, after: StoreView) -> bool {
    match category_error(input.name@, input.kind@, input.icon@, input.color@) {
        Some(m) => r matches Err(StoreError::Invalid(e)) && e@ == m && after == before,
        None => if before.next_category_id == i64::MAX {
            r matches Err(StoreError::IdsExhausted) && after == before
        } else {
            r matches Ok(c) && c@ == new_category(before.next_category_id,
                input.name@, input.kind@, input.icon@, input.color@, false)
            && after == (StoreView {
                categories: before.categories.push(c@),
                next_category_id: (before.next_category_id + 1) as i64,
                ..before
            })
        },
    }
}

/// What `update_category` does: after validation, the category `id` gets the
/// new fields in its place, or the call fails with `CategoryNotFound`.
pub open spec fn category_updated(before: StoreView, id: i64, updates: CategoryUpdate, r: Result<Category, StoreError>, after: StoreView) -> bool {
    match category_error(updates.name@, updates.kind@, updates.icon@, updates.color@) {
        Some(m) => r matches Err(StoreError::Invalid(e)) && e@ == m && after == before,
        None => if !has_category(before.categories, id) {
            r matches Err(StoreError::CategoryNotFound(x)) && x == id && after == before
        } else {
            r matches Ok(c) && forall|k: int| 0 <= k < before.categories.len()
                && #[trigger] before.categories[k].id == id ==> {
                &&& c@ == updated_category(before.categories[k], updates)
                &&& after == (StoreView {
                    categories: before.categories.update(k, c@),
                    ..before
                })
            }
        },
    }
}

/// What `delete_category` does: a category that transactions name is kept
/// (`CategoryInUse`); otherwise it is removed, or `CategoryNotFound`.
pub open spec fn category_deleted(before: StoreView, id: i64, r: Result<(), StoreError>, after: StoreView) -> bool {
    if count_refs(before.transactions, id) > 0 {
        r matches Err(StoreError::CategoryInUse(n)) && n == count_refs(before.transactions, id)
        && after == before
    } else if !has_category(before.categories, id) {
        r matches Err(StoreError::CategoryNotFound(x)) && x == id && after == before
    } else {
        r is Ok && forall|k: int| 0 <= k < before.categories.len()
            && #[trigger] before.categories[k].id == id ==> after == (StoreView {
                categories: before.categories.remove(k),
                ..before
            })
    }
}

/// What `add_transaction` does: after validation and the check that the
/// category exists, the transaction is appended under the next id, stamped `now`.
pub open spec fn transaction_added(before: StoreView, input: TransactionInput, now: Seq<char>, r: Result<Transaction, StoreError>, after: StoreView) -> bool {
    match transaction_error(input) {
        Some(m) => r matches Err(StoreError::Invalid(e)) && e@ == m && after == before,
        None => if !has_category(before.categories, input.category_id) {
            r matches Err(StoreError::UnknownCategory(x)) && x == input.category_id
            && after == before
        } else if before.next_transaction_id == i64::MAX {
            r matches Err(StoreError::IdsExhausted) && after == before
        } else {
            r matches Ok(t) && t@ == stored_transaction(before.next_transaction_id, input, now, now)
            && after == (StoreView {
                transactions: before.transactions.push(t@),
                next_transaction_id: (before.next_transaction_id + 1) as i64,
                ..before
            })
        },
    }
}

/// What `update_transaction` does: after validation and the category check,
/// the transaction `id` is replaced, keeping its creation time, stamped `now`.
pub open spec fn transaction_updated(before: StoreView, id: i64, input: TransactionInput, now: Seq<char>, r: Result<Transaction, StoreError>, after: StoreView) -> bool {
    match transaction_error(input) {
        Some(m) => r matches Err(StoreError::Invalid(e)) && e@ == m && after == before,
        None => if !has_category(before.categories, input.category_id) {
            r matches Err(StoreError::UnknownCategory(x)) && x == input.category_id
            && after == before
        } else if !has_transaction(before.transactions, id) {
            r matches Err(StoreError::TransactionNotFound(x)) && x == id && after == before
        } else {
            r matches Ok(t) && forall|k: int| 0 <= k < before.transactions.len()
                && #[trigger] before.transactions[k].id == id ==> {
                &&& t@ == stored_transaction(id, input, before.transactions[k].created_at, now)
                &&& after == (StoreView {
                    transactions: before.transactions.update(k, t@),
                    ..before
                })
            }
        },
    }
}

/// What `delete_transaction` does: the transaction `id` is removed, or the
/// call fails with `TransactionNotFound`.
pub open spec fn transaction_deleted(before: StoreView, id: i64, r: Result<(), StoreError>, after: StoreView) -> bool {
    if !has_transaction(before.transactions, id) {
        r matches Err(StoreError::TransactionNotFound(x)) && x == id && after == before
    } else {
        r is Ok && forall|k: int| 0 <= k < before.transactions.len()
            && #[trigger] before.transactions[k].id == id ==> after == (StoreView {
                transactions: before.transactions.remove(k),
                ..before
            })
    }
}

/// The fourteen categories that a new store starts with, numbered from `first`.
pub open spec fn default_categories(first: i64) -> Seq<CategoryView> {
    seq![
        new_category(first, "Alimentación"@, "expense"@, "Utensils"@, "#f87171"@, true),
        new_category((first + 1) as i64, "Transporte"@, "expense"@, "Car"@, "#fb923c"@, true),
        new_category((first + 2) as i64, "Vivienda"@, "expense"@, "Home"@, "#facc15"@, true),
        new_category((first + 3) as i64, "Servicios"@, "expense"@, "Zap"@, "#a3e635"@, true),
        new_category((first + 4) as i64, "Entretenimiento"@, "expense"@, "Gamepad2"@, "#22d3ee"@, true),
        new_category((first + 5) as i64, "Salud"@, "expense"@, "Heart"@, "#f472b6"@, true),
        new_category((first + 6) as i64, "Educación"@, "expense"@, "GraduationCap"@, "#818cf8"@, true),
        new_category((first + 7) as i64, "Compras"@, "expense"@, "ShoppingBag"@, "#2dd4bf"@, true),
        new_category((first + 8) as i64, "Otros"@, "expense"@, "MoreHorizontal"@, "#9ca3af"@, true),
        new_category((first + 9) as i64, "Salario"@, "income"@, "Briefcase"@, "#4ade80"@, true),
        new_category((first + 10) as i64, "Freelance"@, "income"@, "Laptop"@, "#34d399"@, true),
        new_category((first + 11) as i64, "Inversiones"@, "income"@, "TrendingUp"@, "#60a5fa"@, true),
        new_category((first + 12) as i64, "Regalo"@, "income"@, "Gift"@, "#c084fc"@, true),
        new_category((first + 13) as i64, "Otros Ingresos"@, "income"@, "Plus"@, "#94a3b8"@, true),
    ]
}

/// Number of default categories.
pub const DEFAULT_CATEGORY_COUNT: i64 = 14;

/// What seeding leaves: the default categories in a store without
/// categories (when their ids fit), any other store unchanged.
pub open spec fn seeded(before: StoreView) -> StoreView {
    if before.categories.len() == 0 && before.next_category_id <= i64::MAX - DEFAULT_CATEGORY_COUNT {
        StoreView {
            categories: default_categories(before.next_category_id),
            next_category_id: (before.next_category_id + DEFAULT_CATEGORY_COUNT) as i64,
            ..before
        }
    } else {
        before
    }
}

/// The plain values of a sequence of categories.
pub open spec fn category_views(s: Seq<Category>) -> Seq<CategoryView> {
    s.map_values(|c: Category| c@)
}

/// The plain values of a sequence of transactions.
pub open spec fn transaction_views(s: Seq<Transaction>) -> Seq<TransactionView> {
    s.map_values(|t: Transaction| t@)
}

impl View for Store {
    type V = StoreView;

    closed spec fn view(&self) -> StoreView {
        StoreView {
            categories: category_views(self.categories@),
            transactions: transaction_views(self.transactions@),
            next_category_id: self.next_category_id,
            next_transaction_id: self.next_transaction_id,
        }
    }
}

impl Store {
    /// An empty store.
    pub fn new() -> (r: Store)
        ensures
            r@.wf(),
            r@.categories.len() == 0,
            r@.transactions.len() == 0,
            r@.next_category_id == 1,
            r@.next_transaction_id == 1,
    {
        let r = Store {
            categories: Vec::new(),
            transactions: Vec::new(),
            next_category_id: 1,
            next_transaction_id: 1,
        };
        assert(r@.categories =~= Seq::empty());
        assert(r@.transactions =~= Seq::empty());
        r
    }

    /// All categories, in ascending order of id.
    pub fn list_categories(&self) -> (r: Vec<Category>)
        requires
            self@.wf(),
        ensures
            category_views(r@) == self@.categories,
            category_ids_ordered(self@.categories),
    {
        let mut r: Vec<Category> = Vec::new();
        let mut i: usize = 0;
        while i < self.categories.len()
            invariant
                i <= self.categories@.len(),
                r@.len() == i,
                forall|j: int| 0 <= j < i ==> #[trigger] r@[j]@ == self.categories@[j]@,
            decreases self.categories@.len() - i,
        {
            r.push(self.categories[i].duplicate());
            i = i + 1;
        }
        assert(category_views(r@) =~= self@.categories);
        r
    }

    /// Adds a category made by the user (`is_default` false) under the next id.
    pub fn add_category(&mut self, input: CategoryInput) -> (r: Result<Category, StoreError>)
        requires
            old(self)@.wf(),
        ensures
            final(self)@.wf(),
            category_added(old(self)@, input, r, final(self)@),
    {
        if let Err(e) = input.validate() {
            return Err(StoreError::Invalid(e));
        }
        if self.next_category_id == i64::MAX {
            return Err(StoreError::IdsExhausted);
        }
        let c = Category {
            id: self.next_category_id,
            name: input.name,
            kind: input.kind,
            icon: input.icon,
            color: input.color,
            is_default: false,
        };
        let ghost old_view = self@;
        let out = c.duplicate();
        self.categories.push(c);
        self.next_category_id = self.next_category_id + 1;
        assert(self@.categories =~= old_view.categories.push(out@));
        assert forall|i: int| 0 <= i < self@.transactions.len() implies
            has_category(self@.categories, #[trigger] self@.transactions[i].category_id) by {
            let k = choose|k: int| 0 <= k < old_view.categories.len() && #[trigger] old_view.categories[k].id == self@.transactions[i].category_id;
            assert(self@.categories[k] == old_view.categories[k]);
        }
        Ok(out)
    }

    fn category_position(&self, id: i64) -> (r: Option<usize>)
        ensures
            match r {
                Some(k) => k < self@.categories.len() && self@.categories[k as int].id == id,
                None => !has_category(self@.categories, id),
            },
    {
        let mut i: usize = 0;
        while i < self.categories.len()
            invariant
                i <= self.categories@.len(),
                forall|j: int| 0 <= j < i ==> #[trigger] self.categories@[j].id != id,
            decreases self.categories@.len() - i,
        {
            if self.categories[i].id == id {
                return Some(i);
            }
            i = i + 1;
        }
        assert forall|k: int| 0 <= k < self@.categories.len() implies #[trigger] self@.categories[k].id != id by {
            assert(self@.categories[k] == self.categories@[k]@);
        }
        None
    }

    /// Number of transactions that name the category `id`.
    pub fn count_transactions_of(&self, id: i64) -> (r: usize)
        requires
            self@.wf(),
        ensures
            r == count_refs(self@.transactions, id),
    {
        let mut n: usize = 0;
        let mut i: usize = 0;
        while i < self.transactions.len()
            invariant
                i <= self.transactions@.len(),
                n == count_refs(self@.transactions.subrange(0, i as int), id),
                n <= i,
            decreases self.transactions@.len() - i,
        {
            let ghost before = self@.transactions.subrange(0, i as int);
            if self.transactions[i].category_id == id {
                n = n + 1;
            }
            i = i + 1;
            assert(self@.transactions.subrange(0, i as int).drop_last() =~= before);
        }
        assert(self@.transactions.subrange(0, i as int) =~= self@.transactions);
        n
    }

    /// Writes name, kind, icon and colour of the category `id`, keeping its
    /// id and `is_default`, and returns the category as it now stands.
    pub fn update_category(&mut self, id: i64, updates: CategoryUpdate) -> (r: Result<Category, StoreError>)
        requires
            old(self)@.wf(),
        ensures
            final(self)@.wf(),
            category_updated(old(self)@, id, updates, r, final(self)@),
    {
        if let Err(e) = updates.validate() {
            return Err(StoreError::Invalid(e));
        }
        let pos = self.category_position(id);
        let k = match pos {
            Some(k) => k,
            None => {
                return Err(StoreError::CategoryNotFound(id));
            },
        };
        let ghost old_view = self@;
        let ghost spec_updates = updates;
        let is_default = self.categories[k].is_default;
        let c = Category {
            id,
            name: updates.name,
            kind: updates.kind,
            icon: updates.icon,
            color: updates.color,
            is_default,
        };
        let out = c.duplicate();
        self.categories.set(k, c);
        assert(self@.categories =~= old_view.categories.update(k as int, out@));
        assert forall|i: int| 0 <= i < self@.transactions.len() implies
            has_category(self@.categories, #[trigger] self@.transactions[i].category_id) by {
            let j = choose|j: int| 0 <= j < old_view.categories.len() && #[trigger] old_view.categories[j].id == self@.transactions[i].category_id;
            assert(self@.categories[j].id == old_view.categories[j].id);
        }
        assert forall|j: int| 0 <= j < old_view.categories.len() && #[trigger] old_view.categories[j].id == id implies j == k by {
            if j < k {
                assert(old_view.categories[j].id < old_view.categories[k as int].id);
            } else if j > k {
                assert(old_view.categories[k as int].id < old_view.categories[j].id);
            }
        }
        Ok(out)
    }

    /// Deletes the category `id`, unless a transaction names it.
    pub fn delete_category(&mut self, id: i64) -> (r: Result<(), StoreError>)
        requires
            old(self)@.wf(),
        ensures
            final(self)@.wf(),
            category_deleted(old(self)@, id, r, final(self)@),
    {
        let n = self.count_transactions_of(id);
        if n > 0 {
            return Err(StoreError::CategoryInUse(n));
        }
        let pos = self.category_position(id);
        let k = match pos {
            Some(k) => k,
            None => {
                return Err(StoreError::CategoryNotFound(id));
            },
        };
        let ghost old_view = self@;
        proof {
            lemma_no_refs(old_view.transactions, id);
        }
        self.categories.remove(k);
        assert(self@.categories =~= old_view.categories.remove(k as int));
        assert forall|i: int| 0 <= i < self@.transactions.len() implies
            has_category(self@.categories, #[trigger] self@.transactions[i].category_id) by {
            let cid = self@.transactions[i].category_id;
            let j = choose|j: int| 0 <= j < old_view.categories.len() && #[trigger] old_view.categories[j].id == cid;
            assert(j != k);
            if j < k {
                assert(self@.categories[j] == old_view.categories[j]);
            } else {
                assert(self@.categories[j - 1] == old_view.categories[j]);
            }
        }
        assert forall|j: int| 0 <= j < old_view.categories.len() && #[trigger] old_view.categories[j].id == id implies j == k by {
            if j < k {
                assert(old_view.categories[j].id < old_view.categories[k as int].id);
            } else if j > k {
                assert(old_view.categories[k as int].id < old_view.categories[j].id);
            }
        }
        Ok(())
    }

    fn transaction_position(&self, id: i64) -> (r: Option<usize>)
        requires
            self@.wf(),
        ensures
            match r {
                Some(k) => k < self@.transactions.len() && self@.transactions[k as int].id == id,
                None => !has_transaction(self@.transactions, id),
            },
    {
        let mut i: usize = 0;
        while i < self.transactions.len()
            invariant
                i <= self.transactions@.len(),
                forall|j: int| 0 <= j < i ==> #[trigger] self.transactions@[j].id != id,
            decreases self.transactions@.len() - i,
        {
            if self.transactions[i].id == id {
                return Some(i);
            }
            i = i + 1;
        }
        assert forall|k: int| 0 <= k < self@.transactions.len() implies #[trigger] self@.transactions[k].id != id by {
            assert(self@.transactions[k] == self.transactions@[k]@);
        }
        None
    }

    /// Records a new transaction under the next id, stamped `now` as both
    /// creation and update time.
    pub fn add_transaction(&mut self, input: TransactionInput, now: String) -> (r: Result<Transaction, StoreError>)
        requires
            old(self)@.wf(),
        ensures
            final(self)@.wf(),
            transaction_added(old(self)@, input, now@, r, final(self)@),
    {
        if let Err(e) = input.validate() {
            return Err(StoreError::Invalid(e));
        }
        if self.category_position(input.category_id).is_none() {
            return Err(StoreError::UnknownCategory(input.category_id));
        }
        if self.next_transaction_id == i64::MAX {
            return Err(StoreError::IdsExhausted);
        }
        let ghost old_view = self@;
        let t = Transaction {
            id: self.next_transaction_id,
            description: input.description,
            amount: input.amount.cents,
            amount_in_ars: input.amount_in_ars.cents,
            currency: input.currency,
            exchange_rate: input.exchange_rate,
            category_id: input.category_id,
            date: input.date,
            kind: input.kind,
            created_at: now.clone(),
            updated_at: now,
        };
        let out = t.duplicate();
        self.transactions.push(t);
        self.next_transaction_id = self.next_transaction_id + 1;
        assert(self@.transactions =~= old_view.transactions.push(out@));
        assert(self@.categories =~= old_view.categories);
        Ok(out)
    }

    /// Writes the fields of `input` over the transaction `id`, keeping its
    /// creation time and stamping `now` as its update time.
    pub fn update_transaction(&mut self, id: i64, input: TransactionUpdate, now: String) -> (r: Result<Transaction, StoreError>)
        requires
            old(self)@.wf(),
        ensures
            final(self)@.wf(),
            transaction_updated(old(self)@, id, input, now@, r, final(self)@),
    {
        if let Err(e) = input.validate() {
            return Err(StoreError::Invalid(e));
        }
        if self.category_position(input.category_id).is_none() {
            return Err(StoreError::UnknownCategory(input.category_id));
        }
        let k = match self.transaction_position(id) {
            Some(k) => k,
            None => {
                return Err(StoreError::TransactionNotFound(id));
            },
        };
        let ghost old_view = self@;
        let created_at = self.transactions[k].created_at.clone();
        let t = Transaction {
            id,
            description: input.description,
            amount: input.amount.cents,
            amount_in_ars: input.amount_in_ars.cents,
            currency: input.currency,
            exchange_rate: input.exchange_rate,
            category_id: input.category_id,
            date: input.date,
            kind: input.kind,
            created_at,
            updated_at: now,
        };
        let out = t.duplicate();
        self.transactions.set(k, t);
        assert(self@.transactions =~= old_view.transactions.update(k as int, out@));
        assert(self@.categories =~= old_view.categories);
        assert forall|j: int| 0 <= j < old_view.transactions.len() && #[trigger] old_view.transactions[j].id == id implies j == k by {
            if j < k {
                assert(old_view.transactions[j].id < old_view.transactions[k as int].id);
            } else if j > k {
                assert(old_view.transactions[k as int].id < old_view.transactions[j].id);
            }
        }
        Ok(out)
    }

    /// Deletes the transaction `id`.
    pub fn delete_transaction(&mut self, id: i64) -> (r: Result<(), StoreError>)
        requires
            old(self)@.wf(),
        ensures
            final(self)@.wf(),
            transaction_deleted(old(self)@, id, r, final(self)@),
    {
        let k = match self.transaction_position(id) {
            Some(k) => k,
            None => {
                return Err(StoreError::TransactionNotFound(id));
            },
        };
        let ghost old_view = self@;
        self.transactions.remove(k);
        assert(self@.transactions =~= old_view.transactions.remove(k as int));
        assert(self@.categories =~= old_view.categories);
        assert forall|i: int| 0 <= i < self@.transactions.len() implies
            has_category(self@.categories, #[trigger] self@.transactions[i].category_id) by {
            if i < k {
                assert(self@.transactions[i] == old_view.transactions[i]);
            } else {
                assert(self@.transactions[i] == old_view.transactions[i + 1]);
            }
        }
        assert forall|j: int| 0 <= j < old_view.transactions.len() && #[trigger] old_view.transactions[j].id == id implies j == k by {
            if j < k {
                assert(old_view.transactions[j].id < old_view.transactions[k as int].id);
            } else if j > k {
                assert(old_view.transactions[k as int].id < old_view.transactions[j].id);
            }
        }
        Ok(())
    }

    /// All transactions, the latest date first and, on one date, the
    /// highest id first.
    pub fn list_transactions(&self) -> (r: Vec<Transaction>)
        requires
            self@.wf(),
        ensures
            most_recent_first(transaction_views(r@)),
            transaction_views(r@).to_multiset() == self@.transactions.to_multiset(),
    {
        let ghost all = self@.transactions;
        let n = self.transactions.len();
        let mut r: Vec<Transaction> = Vec::new();
        let ghost mut rv: Seq<TransactionView> = Seq::empty();
        let mut i: usize = 0;
        assert(all.subrange(0, 0) =~= rv);
        while i < n
            invariant
                n == all.len(),
                all == self@.transactions,
                self@.wf(),
                i <= n,
                r@.len() == rv.len(),
                forall|j: int| 0 <= j < rv.len() ==> #[trigger] r@[j]@ == rv[j],
                most_recent_first(rv),
                rv.to_multiset() == all.subrange(0, i as int).to_multiset(),
                forall|j: int, m: int| 0 <= j < rv.len() && i <= m < n ==> #[trigger] rv[j].id < #[trigger] all[m].id,
            decreases n - i,
        {
            let t = self.transactions[i].duplicate();
            assert(t@ == all[i as int]);
            assert forall|j: int| 0 <= j < rv.len() implies #[trigger] rv[j].id < t.id by {
                assert(rv[j].id < all[i as int].id);
            }
            let mut k: usize = 0;
            let mut placed = false;
            while !placed && k < r.len()
                invariant
                    r@.len() == rv.len(),
                    forall|j: int| 0 <= j < rv.len() ==> #[trigger] r@[j]@ == rv[j],
                    k <= rv.len(),
                    forall|j: int| 0 <= j < k ==> listed_before(#[trigger] rv[j], t@),
                    forall|j: int| 0 <= j < rv.len() ==> #[trigger] rv[j].id < t.id,
                    placed ==> k < rv.len() && listed_before(t@, rv[k as int]),
                decreases rv.len() - k + if placed { 0int } else { 1int },
            {
                if comes_before(&t, &r[k]) {
                    placed = true;
                } else {
                    k = k + 1;
                }
            }
            proof {
                if k < rv.len() {
                    assert forall|j: int| k <= j < rv.len() implies listed_before(t@, #[trigger] rv[j]) by {
                        if j > k {
                            lemma_listed_before_transitive(t@, rv[k as int], rv[j]);
                        }
                    }
                }
            }
            let ghost tv = t@;
            r.insert(k, t);
            proof {
                let old_rv = rv;
                rv = rv.insert(k as int, tv);
                assert forall|a: int, b: int| 0 <= a < b < rv.len() implies listed_before(#[trigger] rv[a], #[trigger] rv[b]) by {
                    if b < k {
                    } else if a < k && b == k {
                    } else if a < k {
                        assert(rv[b] == old_rv[b - 1]);
                    } else if a == k {
                        assert(rv[b] == old_rv[b - 1]);
                    } else {
                        assert(rv[a] == old_rv[a - 1]);
                        assert(rv[b] == old_rv[b - 1]);
                    }
                }
                assert(all.subrange(0, i + 1) =~= all.subrange(0, i as int).push(tv));
                vstd::seq_lib::to_multiset_insert(old_rv, k as int, tv);
                vstd::seq_lib::to_multiset_build(all.subrange(0, i as int), tv);
                assert forall|j: int, m: int| 0 <= j < rv.len() && i + 1 <= m < n implies #[trigger] rv[j].id < #[trigger] all[m].id by {
                    assert(all[i as int].id < all[m].id);
                    if j < k {
                        assert(rv[j] == old_rv[j]);
                    } else if j > k {
                        assert(rv[j] == old_rv[j - 1]);
                    }
                }
            }
            i = i + 1;
        }
        assert(all.subrange(0, n as int) =~= all);
        assert(transaction_views(r@) =~= rv);
        r
    }

    fn push_default(&mut self, name: &str, kind: &str, icon: &str, color: &str)
        requires
            old(self)@.wf(),
            old(self)@.next_category_id < i64::MAX,
        ensures
            final(self)@.wf(),
            final(self)@ == (StoreView {
                categories: old(self)@.categories.push(
                    new_category(old(self)@.next_category_id, name@, kind@, icon@, color@, true)),
                next_category_id: (old(self)@.next_category_id + 1) as i64,
                ..old(self)@
            }),
    {
        let ghost old_view = self@;
        let c = Category {
            id: self.next_category_id,
            name: name.to_owned(),
            kind: kind.to_owned(),
            icon: icon.to_owned(),
            color: color.to_owned(),
            is_default: true,
        };
        let ghost cv = c@;
        self.categories.push(c);
        self.next_category_id = self.next_category_id + 1;
        assert(self@.categories =~= old_view.categories.push(cv));
        assert forall|i: int| 0 <= i < self@.transactions.len() implies
            has_category(self@.categories, #[trigger] self@.transactions[i].category_id) by {
            let k = choose|k: int| 0 <= k < old_view.categories.len() && #[trigger] old_view.categories[k].id == self@.transactions[i].category_id;
            assert(self@.categories[k] == old_view.categories[k]);
        }
    }

    /// Inserts the default categories into a store that has no category; a
    /// store that has one is left as it is, so seeding happens once.
    pub fn seed_if_empty(&mut self) -> (r: Result<(), StoreError>)
        requires
            old(self)@.wf(),
        ensures
            final(self)@.wf(),
            final(self)@ == seeded(old(self)@),
            r is Err <==> (old(self)@.categories.len() == 0
                && old(self)@.next_category_id > i64::MAX - DEFAULT_CATEGORY_COUNT),
            r is Err ==> r matches Err(StoreError::IdsExhausted),
    {
        if self.categories.len() != 0 {
            return Ok(());
        }
        if self.next_category_id > i64::MAX - DEFAULT_CATEGORY_COUNT {
            return Err(StoreError::IdsExhausted);
        }
        let ghost first = self.next_category_id;
        self.push_default("Alimentación", "expense", "Utensils", "#f87171");
        self.push_default("Transporte", "expense", "Car", "#fb923c");
        self.push_default("Vivienda", "expense", "Home", "#facc15");
        self.push_default("Servicios", "expense", "Zap", "#a3e635");
        self.push_default("Entretenimiento", "expense", "Gamepad2", "#22d3ee");
        self.push_default("Salud", "expense", "Heart", "#f472b6");
        self.push_default("Educación", "expense", "GraduationCap", "#818cf8");
        self.push_default("Compras", "expense", "ShoppingBag", "#2dd4bf");
        self.push_default("Otros", "expense", "MoreHorizontal", "#9ca3af");
        self.push_default("Salario", "income", "Briefcase", "#4ade80");
        self.push_default("Freelance", "income", "Laptop", "#34d399");
        self.push_default("Inversiones", "income", "TrendingUp", "#60a5fa");
        self.push_default("Regalo", "income", "Gift", "#c084fc");
        self.push_default("Otros Ingresos", "income", "Plus", "#94a3b8");
        assert(self@.categories =~= default_categories(first));
        Ok(())
    }

    /// `add_transaction` stamped with the current UTC time.
    pub fn add_transaction_now(&mut self, input: TransactionInput) -> (r: Result<Transaction, StoreError>)
        requires
            old(self)@.wf(),
        ensures
            final(self)@.wf(),
            exists|now: Seq<char>| transaction_added(old(self)@, input, now, r, final(self)@),
    {
        let now = utc_now_rfc3339();
        let ghost stamp = now@;
        let r = self.add_transaction(input, now);
        assert(transaction_added(old(self)@, input, stamp, r, self@));
        r
    }

    /// `update_transaction` stamped with the current UTC time.
    pub fn update_transaction_now(&mut self, id: i64, input: TransactionUpdate) -> (r: Result<Transaction, StoreError>)
        requires
            old(self)@.wf(),
        ensures
            final(self)@.wf(),
            exists|now: Seq<char>| transaction_updated(old(self)@, id, input, now, r, final(self)@),
    {
        let now = utc_now_rfc3339();
        let ghost stamp = now@;
        let r = self.update_transaction(id, input, now);
        assert(transaction_updated(old(self)@, id, input, stamp, r, self@));
        r
    }

    /// A store holding the given records, which must be in ascending order of
    /// id, with ids positive and below the given next ids, and with every
    /// transaction naming one of the categories; `None` when they are not.
    pub fn from_records(
        categories: Vec<Category>,
        transactions: Vec<Transaction>,
        next_category_id: i64,
        next_transaction_id: i64,
    ) -> (r: Option<Store>)
        ensures
            ({
                let v = StoreView {
                    categories: category_views(categories@),
                    transactions: transaction_views(transactions@),
                    next_category_id,
                    next_transaction_id,
                };
                &&& r is Some <==> v.wf()
                &&& r matches Some(s) ==> s@ == v
            }),
    {
        let ghost v = StoreView {
            categories: category_views(categories@),
            transactions: transaction_views(transactions@),
            next_category_id,
            next_transaction_id,
        };
        let s = Store { categories, transactions, next_category_id, next_transaction_id };
        assert(s@ == v);
        if next_category_id < 1 || next_transaction_id < 1 {
            return None;
        }
        let nc = s.categories.len();
        let mut i: usize = 0;
        while i < nc
            invariant
                nc == v.categories.len(),
                v == s@,
                v.categories == category_views(categories@),
                v.transactions == transaction_views(transactions@),
                v.next_category_id == next_category_id,
                v.next_transaction_id == next_transaction_id,
                i <= nc,
                forall|a: int, b: int| 0 <= a < b < i ==> #[trigger] v.categories[a].id < #[trigger] v.categories[b].id,
                forall|a: int| 0 <= a < i ==> 0 < #[trigger] v.categories[a].id < next_category_id,
            decreases nc - i,
        {
            let id = s.categories[i].id;
            assert(v.categories[i as int].id == id);
            if i > 0 {
                assert(v.categories[i - 1].id == s.categories@[i - 1].id);
            }
            if id <= 0 || id >= next_category_id {
                assert(!(0 < v.categories[i as int].id < v.next_category_id));
                return None;
            }
            if i > 0 && s.categories[i - 1].id >= id {
                assert(!(v.categories[i - 1].id < v.categories[i as int].id));
                return None;
            }
            i = i + 1;
        }
        assert(category_ids_ordered(v.categories));
        let nt = s.transactions.len();
        let mut i: usize = 0;
        while i < nt
            invariant
                nt == v.transactions.len(),
                v == s@,
                v.categories == category_views(categories@),
                v.transactions == transaction_views(transactions@),
                v.next_category_id == next_category_id,
                v.next_transaction_id == next_transaction_id,
                1 <= v.next_category_id,
                1 <= v.next_transaction_id,
                forall|a: int| 0 <= a < v.categories.len() ==> 0 < #[trigger] v.categories[a].id < v.next_category_id,
                category_ids_ordered(v.categories),
                i <= nt,
                forall|a: int, b: int| 0 <= a < b < i ==> #[trigger] v.transactions[a].id < #[trigger] v.transactions[b].id,
                forall|a: int| 0 <= a < i ==> 0 < #[trigger] v.transactions[a].id < next_transaction_id,
                forall|a: int| 0 <= a < i ==> has_category(v.categories, #[trigger] v.transactions[a].category_id),
            decreases nt - i,
        {
            let id = s.transactions[i].id;
            assert(v.transactions[i as int].id == id);
            assert(v.transactions[i as int].category_id == s.transactions@[i as int].category_id);
            if i > 0 {
                assert(v.transactions[i - 1].id == s.transactions@[i - 1].id);
            }
            if id <= 0 || id >= next_transaction_id {
                assert(!(0 < v.transactions[i as int].id < v.next_transaction_id));
                return None;
            }
            if i > 0 && s.transactions[i - 1].id >= id {
                assert(!(v.transactions[i - 1].id < v.transactions[i as int].id));
                return None;
            }
            if s.category_position(s.transactions[i].category_id).is_none() {
                return None;
            }
            i = i + 1;
        }
        assert(v.wf());
        Some(s)
    }
}

} // verus!
