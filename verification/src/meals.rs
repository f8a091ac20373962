use vstd::prelude::*;
use crate::meal::Meal;
use crate::meal::MealFactory;
use crate::money::Money;
use crate::money::lemma_money_eq;

verus! {

/// A participant has paid less than the total price of their meals plus
/// their tip; carries the missing amount.
#[derive(Debug, PartialEq, Eq, Structural, Copy, Clone)]
pub enum ChangeMoneyError {
    Underpaid(Money),
}

impl ChangeMoneyError {
    /// The missing amount.
    pub fn get_value(&self) -> (r: Money)
        ensures
            *self == ChangeMoneyError::Underpaid(r),
    {
        match *self {
            ChangeMoneyError::Underpaid(missing) => missing,
        }
    }
}

/// The total price, in cents, of a sequence of meals.
pub open spec fn sum_prices(s: Seq<Meal>) -> int
    decreases s.len(),
{
    if s.len() == 0 {
        0
    } else {
        sum_prices(s.drop_last()) + s.last().spec_price()@
    }
}

/// Extending a prefix by one meal adds that meal's price.
pub proof fn lemma_sum_prices_take_succ(s: Seq<Meal>, i: int)
    requires
        0 <= i < s.len(),
    ensures
        sum_prices(s.take(i + 1)) == sum_prices(s.take(i)) + s[i].spec_price()@,
{
    assert(s.take(i + 1).drop_last() =~= s.take(i));
    assert(s.take(i + 1).last() == s[i]);
}

/// Appending one meal adds that meal's price to the total.
pub proof fn lemma_sum_prices_push(s: Seq<Meal>, m: Meal)
    ensures
        sum_prices(s.push(m)) == sum_prices(s) + m.spec_price()@,
{
    assert(s.push(m).drop_last() =~= s);
    assert(s.push(m).last() == m);
}

/// A sum of prices is non-negative.
pub proof fn lemma_sum_prices_nonneg(s: Seq<Meal>)
    ensures
        sum_prices(s) >= 0,
    decreases s.len(),
{
    if s.len() > 0 {
        lemma_sum_prices_nonneg(s.drop_last());
    }
}

/// A prefix sum of prices is non-negative and never exceeds the whole sum.
pub proof fn lemma_sum_prices_take_bound(s: Seq<Meal>, i: int)
    requires
        0 <= i <= s.len(),
    ensures
        0 <= sum_prices(s.take(i)) <= sum_prices(s),
    decreases s.len() - i,
{
    lemma_sum_prices_nonneg(s.take(i));
    if i == s.len() {
        assert(s.take(i) =~= s);
    } else {
        lemma_sum_prices_take_succ(s, i);
        lemma_sum_prices_take_bound(s, i + 1);
    }
}

/// Whether some meal in `s` has the ID `id`.
pub open spec fn has_meal(s: Seq<Meal>, id: u32) -> bool {
    exists|i: int| 0 <= i < s.len() && #[trigger] s[i].spec_id() == id
}

/// The index of the meal with ID `id`; meaningful only when
/// `has_meal(s, id)` holds and the IDs in `s` are unique.
pub open spec fn index_of_meal(s: Seq<Meal>, id: u32) -> int {
    choose|i: int| 0 <= i < s.len() && #[trigger] s[i].spec_id() == id
}

/// Every meal in `s` has an ID below `bound`.
pub open spec fn meal_ids_below(s: Seq<Meal>, bound: u32) -> bool {
    forall|i: int| 0 <= i < s.len() ==> #[trigger] s[i].spec_id() < bound
}

/// No two meals in `s` share an ID.
pub open spec fn unique_meal_ids(s: Seq<Meal>) -> bool {
    forall|i: int, j: int|
        0 <= i < j < s.len() ==> #[trigger] s[i].spec_id() != #[trigger] s[j].spec_id()
}

/// In a sequence with unique IDs, the meal found at `i` is the one that
/// `index_of_meal` names.
pub proof fn lemma_index_of_meal_is(s: Seq<Meal>, id: u32, i: int)
    requires
        unique_meal_ids(s),
        0 <= i < s.len(),
        s[i].spec_id() == id,
    ensures
        has_meal(s, id),
        index_of_meal(s, id) == i,
{
    assert(has_meal(s, id));
    let j = index_of_meal(s, id);
    assert(0 <= j < s.len() && s[j].spec_id() == id);
    if i < j {
        assert(s[i].spec_id() != s[j].spec_id());
    } else if j < i {
        assert(s[j].spec_id() != s[i].spec_id());
    }
}

/// One participant's ledger: their selected meals keyed by meal ID,
/// what they paid, and their tip.
#[derive(Debug, PartialEq)]
pub struct Meals {
    /// Meals, each keyed by its unique ID
    meals: Vec<Meal>,
    /// User ID of this `Meals` owner
    owner_id: u32,
    /// Whether the meals selection has been completed
    ready: bool,
    paid: Money,
    tip: Money,
    meal_factory: MealFactory,
}

impl Meals {
    pub closed spec fn spec_meals(&self) -> Seq<Meal> {
        self.meals@
    }

    pub closed spec fn spec_owner_id(&self) -> u32 {
        self.owner_id
    }

    pub closed spec fn spec_ready(&self) -> bool {
        self.ready
    }

    pub closed spec fn spec_paid(&self) -> Money {
        self.paid
    }

    pub closed spec fn spec_tip(&self) -> Money {
        self.tip
    }

    /// What the owner owes: the total price of their meals plus their tip.
    pub open spec fn spec_owed(&self) -> int {
        sum_prices(self.spec_meals()) + self.spec_tip()@
    }

    /// The meals carry pairwise distinct IDs.
    pub open spec fn wf(&self) -> bool {
        unique_meal_ids(self.spec_meals())
    }

    /// An empty ledger for the given participant: no meals, nothing paid,
    /// no tip.
    pub fn new(user_id: u32) -> (r: Meals)
        ensures
            r.spec_meals() == Seq::<Meal>::empty(),
            r.spec_owner_id() == user_id,
            !r.spec_ready(),
            r.spec_paid()@ == 0,
            r.spec_tip()@ == 0,
            r.wf(),
    {
        Meals {
            meals: Vec::new(),
            owner_id: user_id,
            ready: false,
            paid: Money::new(0, 0),
            tip: Money::new(0, 0),
            meal_factory: MealFactory::new(),
        }
    }

    /// Stores a meal keyed by its ID. A meal with the same ID is
    /// overwritten; IDs are unique per factory, so that is not expected
    /// in practice.
    pub fn add_meal(&mut self, meal: Meal)
        requires
            old(self).wf(),
        ensures
            final(self).wf(),
            !has_meal(old(self).spec_meals(), meal.spec_id()) ==> final(self).spec_meals() == old(
                self,
            ).spec_meals().push(meal),
            has_meal(old(self).spec_meals(), meal.spec_id()) ==> final(self).spec_meals() == old(
                self,
            ).spec_meals().update(index_of_meal(old(self).spec_meals(), meal.spec_id()), meal),
            final(self).spec_owner_id() == old(self).spec_owner_id(),
            final(self).spec_ready() == old(self).spec_ready(),
            final(self).spec_paid() == old(self).spec_paid(),
            final(self).spec_tip() == old(self).spec_tip(),
    {
        let id = meal.get_id();
        let n = self.meals.len();
        let mut i: usize = 0;
        while i < n
            invariant
                *self == *old(self),
                old(self).wf(),
                n == self.meals.len(),
                i <= n,
                forall|k: int| 0 <= k < i ==> #[trigger] self.meals@[k].spec_id() != id,
                id == meal.spec_id(),
            decreases n - i,
        {
            if self.meals[i].get_id() == id {
                proof {
                    lemma_index_of_meal_is(self.meals@, id, i as int);
                    self.meals@.remove_ensures(i as int);
                }
                self.meals.remove(i);
                proof {
                    self.meals@.insert_ensures(i as int, meal);
                }
                self.meals.insert(i, meal);
                proof {
                    assert(self.meals@ =~= old(self).spec_meals().update(i as int, meal));
                }
                return ;
            }
            i = i + 1;
        }
        assert(!has_meal(old(self).spec_meals(), id));
        self.meals.push(meal);
    }

    pub fn get_owner_id(&self) -> (r: u32)
        ensures
            r == self.spec_owner_id(),
    {
        self.owner_id
    }

    /// Records the amount the owner paid; the last write wins, nothing
    /// accumulates.
    pub fn set_paid(&mut self, paid: Money)
        ensures
            final(self).spec_paid() == paid,
            final(self).spec_meals() == old(self).spec_meals(),
            final(self).spec_owner_id() == old(self).spec_owner_id(),
            final(self).spec_ready() == old(self).spec_ready(),
            final(self).spec_tip() == old(self).spec_tip(),
    {
        self.paid = paid;
    }

    pub fn get_tip(&self) -> (r: Money)
        ensures
            r == self.spec_tip(),
    {
        self.tip
    }

    /// Records the owner's tip; the last write wins, nothing accumulates.
    pub fn set_tip(&mut self, tip: Money)
        ensures
            final(self).spec_tip() == tip,
            final(self).spec_meals() == old(self).spec_meals(),
            final(self).spec_owner_id() == old(self).spec_owner_id(),
            final(self).spec_ready() == old(self).spec_ready(),
            final(self).spec_paid() == old(self).spec_paid(),
    {
        self.tip = tip;
    }

    /// The total price of all stored meals; zero for an empty ledger.
    pub fn calculate_total_price(&self) -> (r: Money)
        requires
            sum_prices(self.spec_meals()) <= u32::MAX,
        ensures
            r@ == sum_prices(self.spec_meals()),
    {
        let n = self.meals.len();
        let mut total_price = Money::new(0, 0);
        let mut i: usize = 0;
        while i < n
            invariant
                n == self.meals.len(),
                i <= n,
                sum_prices(self.spec_meals()) <= u32::MAX,
                total_price@ == sum_prices(self.spec_meals().take(i as int)),
            decreases n - i,
        {
            proof {
                lemma_sum_prices_take_succ(self.spec_meals(), i as int);
                lemma_sum_prices_take_bound(self.spec_meals(), i + 1);
            }
            total_price = total_price.add(self.meals[i].get_price());
            i = i + 1;
        }
        proof {
            assert(self.spec_meals().take(n as int) =~= self.spec_meals());
        }
        total_price
    }

    /// What is owed is the total meal price plus the tip. If at least
    /// that was paid, the change to return is paid minus owed; otherwise
    /// the missing amount is reported as `Underpaid`, an expected
    /// business outcome rather than a failure.
    pub fn calculate_change(&self) -> (r: Result<Money, ChangeMoneyError>)
        requires
            self.spec_owed() <= u32::MAX,
        ensures
            self.spec_paid()@ >= self.spec_owed() ==> (r matches Ok(c) && c@ == self.spec_paid()@
                - self.spec_owed()),
            self.spec_paid()@ < self.spec_owed() ==> (r matches Err(
                ChangeMoneyError::Underpaid(m),
            ) && m@ == self.spec_owed() - self.spec_paid()@),
    {
        proof {
            lemma_sum_prices_nonneg(self.spec_meals());
        }
        let has_to_pay = self.calculate_total_price().add(self.tip);
        if self.paid.get_total_cents() < has_to_pay.get_total_cents() {
            return Err(ChangeMoneyError::Underpaid(has_to_pay.sub(self.paid)));
        }
        Ok(self.paid.sub(has_to_pay))
    }

    /// Removes the meal with the given ID and returns it, or `None` if
    /// no stored meal has that ID; the ledger is then left unchanged.
    pub fn remove_meal_by_id(&mut self, id: u32) -> (r: Option<Meal>)
        requires
            old(self).wf(),
        ensures
            final(self).wf(),
            final(self).spec_owner_id() == old(self).spec_owner_id(),
            final(self).spec_ready() == old(self).spec_ready(),
            final(self).spec_paid() == old(self).spec_paid(),
            final(self).spec_tip() == old(self).spec_tip(),
            !has_meal(old(self).spec_meals(), id) ==> r == None::<Meal> && final(self).spec_meals()
                == old(self).spec_meals(),
            has_meal(old(self).spec_meals(), id) ==> r == Some(
                old(self).spec_meals()[index_of_meal(old(self).spec_meals(), id)],
            ) && final(self).spec_meals() == old(self).spec_meals().remove(
                index_of_meal(old(self).spec_meals(), id),
            ),
    {
        let n = self.meals.len();
        let mut i: usize = 0;
        while i < n
            invariant
                *self == *old(self),
                old(self).wf(),
                n == self.meals.len(),
                i <= n,
                forall|k: int| 0 <= k < i ==> #[trigger] self.meals@[k].spec_id() != id,
            decreases n - i,
        {
            if self.meals[i].get_id() == id {
                proof {
                    lemma_index_of_meal_is(self.meals@, id, i as int);
                    self.meals@.remove_ensures(i as int);
                }
                let meal = self.meals.remove(i);
                return Some(meal);
            }
            i = i + 1;
        }
        assert(!has_meal(old(self).spec_meals(), id));
        None
    }
}

/// Law: querying the total price is idempotent. The contract of
/// `calculate_total_price` pins its result to the ledger's meals alone,
/// so two results computed from the same unmutated ledger are equal.
pub proof fn lemma_total_price_idempotent(m: Meals, r1: Money, r2: Money)
    requires
        r1@ == sum_prices(m.spec_meals()),
        r2@ == sum_prices(m.spec_meals()),
    ensures
        r1 == r2,
{
    lemma_money_eq(r1, r2);
}

/// Law: a meal stored into a ledger with unique IDs and then looked up
/// by its ID is found, and the value found is exactly the meal that was
/// stored. `s` is the meal sequence before `add_meal`, whose contract
/// makes the sequence below; `remove_meal_by_id` then returns the meal
/// at `index_of_meal`.
pub proof fn lemma_add_then_remove_round_trip(s: Seq<Meal>, meal: Meal)
    requires
        unique_meal_ids(s),
    ensures
        ({
            let s1 = if has_meal(s, meal.spec_id()) {
                s.update(index_of_meal(s, meal.spec_id()), meal)
            } else {
                s.push(meal)
            };
            &&& unique_meal_ids(s1)
            &&& has_meal(s1, meal.spec_id())
            &&& s1[index_of_meal(s1, meal.spec_id())] == meal
        }),
{
    let id = meal.spec_id();
    if has_meal(s, id) {
        let i = index_of_meal(s, id);
        assert(0 <= i < s.len() && s[i].spec_id() == id);
        let s1 = s.update(i, meal);
        assert(unique_meal_ids(s1)) by {
            assert(forall|k: int| 0 <= k < s1.len() && k != i ==> s1[k] == s[k]);
        }
        lemma_index_of_meal_is(s1, id, i);
    } else {
        let s1 = s.push(meal);
        assert(forall|k: int| 0 <= k < s.len() ==> #[trigger] s[k].spec_id() != id);
        assert(unique_meal_ids(s1)) by {
            assert(forall|k: int| 0 <= k < s.len() ==> s1[k] == s[k]);
            assert(s1[s.len() as int] == meal);
        }
        lemma_index_of_meal_is(s1, id, s.len() as int);
    }
}

} // verus!
