use vstd::prelude::*;
use crate::models::{CategoryInput, ExchangeRate, TransactionInput};
use crate::store::{
    category_added, category_deleted, count_refs, default_categories, has_category, new_category,
    seeded,
    transaction_added, transaction_updated, StoreError, StoreView, DEFAULT_CATEGORY_COUNT,
};
use crate::validation::{category_error, transaction_error};

verus! {

/// A valid category that `add_category` accepts is afterwards among the
/// categories that `list_categories` returns, with the fields it was given
/// and `is_default` false.
pub proof fn law_added_category_is_listed(
    before: StoreView,
    input: CategoryInput,
    r: Result<crate::models::Category, StoreError>,
    after: StoreView,
)
    requires
        before.wf(),
        category_error(input.name@, input.kind@, input.icon@, input.color@) is None,
        before.next_category_id < i64::MAX,
        category_added(before, input, r, after),
    ensures
        r is Ok,
        after.categories.contains(
            new_category(r->Ok_0.id, input.name@, input.kind@, input.icon@, input.color@, false),
        ),
{
    assert(after.categories[before.categories.len() as int] == r->Ok_0@);
}

/// Deleting a category that no transaction names succeeds and removes it;
/// deleting one that a transaction names fails with `CategoryInUse` and
/// leaves the store, and the category, as they were.
pub proof fn law_delete_guarded_by_references(
    before: StoreView,
    id: i64,
    r: Result<(), StoreError>,
    after: StoreView,
)
    requires
        before.wf(),
        has_category(before.categories, id),
        category_deleted(before, id, r, after),
    ensures
        count_refs(before.transactions, id) == 0 ==> r is Ok && !has_category(after.categories, id),
        count_refs(before.transactions, id) > 0 ==> (r matches Err(StoreError::CategoryInUse(_))
            && after == before && has_category(after.categories, id)),
{
    if count_refs(before.transactions, id) == 0 {
        let k = choose|k: int| 0 <= k < before.categories.len() && #[trigger] before.categories[k].id == id;
        assert(after.categories == before.categories.remove(k));
        assert forall|j: int| 0 <= j < after.categories.len() implies #[trigger] after.categories[j].id != id by {
            if j < k {
                assert(before.categories[j].id < before.categories[k].id);
            } else {
                assert(after.categories[j] == before.categories[j + 1]);
                assert(before.categories[k].id < before.categories[j + 1].id);
            }
        }
    }
}

/// A valid transaction naming a category that does not exist is refused
/// with `UnknownCategory`, and no transaction is inserted.
pub proof fn law_unknown_category_inserts_nothing(
    before: StoreView,
    input: TransactionInput,
    now: Seq<char>,
    r: Result<crate::models::Transaction, StoreError>,
    after: StoreView,
)
    requires
        before.wf(),
        transaction_error(input) is None,
        !has_category(before.categories, input.category_id),
        transaction_added(before, input, now, r, after),
    ensures
        r matches Err(StoreError::UnknownCategory(x)) && x == input.category_id,
        after.transactions == before.transactions,
{
}

/// A USD transaction without an exchange rate is refused; for an ARS
/// transaction the exchange rate, given or not, does not change the outcome
/// of validation.
pub proof fn law_exchange_rate_only_for_usd(t: TransactionInput, rate: Option<ExchangeRate>)
    ensures
        t.currency@ == "USD"@ && t.exchange_rate is None ==> transaction_error(t) is Some,
        t.currency@ == "ARS"@ ==> transaction_error(TransactionInput { exchange_rate: rate, ..t })
            == transaction_error(t),
{
    reveal_strlit("USD");
    reveal_strlit("ARS");
    assert(("ARS"@)[0] != ("USD"@)[0]);
}

/// Updating a transaction keeps its creation time, stamps the given time as
/// its update time, and puts the returned record in its place.
pub proof fn law_update_keeps_created_at(
    before: StoreView,
    id: i64,
    input: TransactionInput,
    now: Seq<char>,
    r: Result<crate::models::Transaction, StoreError>,
    after: StoreView,
)
    requires
        before.wf(),
        transaction_updated(before, id, input, now, r, after),
        r is Ok,
    ensures
        forall|k: int| 0 <= k < before.transactions.len() && #[trigger] before.transactions[k].id == id ==> {
            &&& r->Ok_0@.created_at == before.transactions[k].created_at
            &&& r->Ok_0@.updated_at == now
            &&& after.transactions[k] == r->Ok_0@
        },
{
}

/// Seeding a second time changes nothing, and seeding a store without
/// categories leaves exactly the default ones.
pub proof fn law_seeding_happens_once(s: StoreView)
    requires
        s.wf(),
    ensures
        seeded(seeded(s)) == seeded(s),
        s.categories.len() == 0 && s.next_category_id <= i64::MAX - DEFAULT_CATEGORY_COUNT
            ==> seeded(s).categories.len() == DEFAULT_CATEGORY_COUNT,
{
}

/// Every default category passes the validation that categories added by
/// the user must pass.
pub proof fn law_default_categories_are_valid(first: i64)
    ensures
        forall|i: int| 0 <= i < default_categories(first).len() ==> {
            let c = #[trigger] default_categories(first)[i];
            category_error(c.name, c.kind, c.icon, c.color) is None
        },
{
    let d = default_categories(first);
    reveal_strlit("Alimentación");
    reveal_strlit("expense");
    reveal_strlit("Utensils");
    reveal_strlit("#f87171");
    reveal_strlit("Transporte");
    reveal_strlit("Car");
    reveal_strlit("#fb923c");
    reveal_strlit("Vivienda");
    reveal_strlit("Home");
    reveal_strlit("#facc15");
    reveal_strlit("Servicios");
    reveal_strlit("Zap");
    reveal_strlit("#a3e635");
    reveal_strlit("Entretenimiento");
    reveal_strlit("Gamepad2");
    reveal_strlit("#22d3ee");
    reveal_strlit("Salud");
    reveal_strlit("Heart");
    reveal_strlit("#f472b6");
    reveal_strlit("Educación");
    reveal_strlit("GraduationCap");
    reveal_strlit("#818cf8");
    reveal_strlit("Compras");
    reveal_strlit("ShoppingBag");
    reveal_strlit("#2dd4bf");
    reveal_strlit("Otros");
    reveal_strlit("MoreHorizontal");
    reveal_strlit("#9ca3af");
    reveal_strlit("Salario");
    reveal_strlit("income");
    reveal_strlit("Briefcase");
    reveal_strlit("#4ade80");
    reveal_strlit("Freelance");
    reveal_strlit("Laptop");
    reveal_strlit("#34d399");
    reveal_strlit("Inversiones");
    reveal_strlit("TrendingUp");
    reveal_strlit("#60a5fa");
    reveal_strlit("Regalo");
    reveal_strlit("Gift");
    reveal_strlit("#c084fc");
    reveal_strlit("Otros Ingresos");
    reveal_strlit("Plus");
    reveal_strlit("#94a3b8");
    assert(category_error(d[0].name, d[0].kind, d[0].icon, d[0].color) is None);
    assert(category_error(d[1].name, d[1].kind, d[1].icon, d[1].color) is None);
    assert(category_error(d[2].name, d[2].kind, d[2].icon, d[2].color) is None);
    assert(category_error(d[3].name, d[3].kind, d[3].icon, d[3].color) is None);
    assert(category_error(d[4].name, d[4].kind, d[4].icon, d[4].color) is None);
    assert(category_error(d[5].name, d[5].kind, d[5].icon, d[5].color) is None);
    assert(category_error(d[6].name, d[6].kind, d[6].icon, d[6].color) is None);
    assert(category_error(d[7].name, d[7].kind, d[7].icon, d[7].color) is None);
    assert(category_error(d[8].name, d[8].kind, d[8].icon, d[8].color) is None);
    assert(category_error(d[9].name, d[9].kind, d[9].icon, d[9].color) is None);
    assert(category_error(d[10].name, d[10].kind, d[10].icon, d[10].color) is None);
    assert(category_error(d[11].name, d[11].kind, d[11].icon, d[11].color) is None);
    assert(category_error(d[12].name, d[12].kind, d[12].icon, d[12].color) is None);
    assert(category_error(d[13].name, d[13].kind, d[13].icon, d[13].color) is None);
}

} // verus!
