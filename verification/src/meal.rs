use vstd::prelude::*;
use vstd::slice::slice_index_get;
use crate::errors::RemoveError;
use crate::id::Id;
use crate::id_provider::IdProvider;
use crate::money::Money;
use crate::money::sum_cents;
use crate::money::lemma_sum_cents_take_succ;
use crate::money::lemma_sum_cents_take_bound;
use crate::special::Special;
use crate::special::SpecialFactory;
use crate::special::has_special;
use crate::special::index_of_special;
use crate::special::lemma_index_of_special_is;
use crate::special::special_ids_below;
use crate::special::unique_special_ids;

verus! {

/// A failure while building a meal incrementally.
#[derive(Debug, PartialEq, Eq, Structural, Copy, Clone)]
pub enum MealBuilderError {
    /// Subtracting this amount would have made the running price negative;
    /// carries the magnitude of the overrun.
    NegativePriceBuilded(Money),
    /// This many more special descriptions than prices were given.
    MoreSpecialsThanPrices(usize),
    /// This many more prices than special descriptions were given.
    MorePricesThanSpecials(usize),
}

/// Creates `Meal` values, giving each a fresh ID. A factory instance is
/// the scope of that uniqueness: two meals created by the same factory
/// never share an ID.
#[derive(Debug, PartialEq, Eq, Structural, Hash)]
pub struct MealFactory {
    id_provider: IdProvider,
}

impl MealFactory {
    /// The ID the next created meal will get.
    pub closed spec fn spec_next_id(&self) -> u32 {
        self.id_provider.spec_next_id()
    }

    pub fn new() -> (r: MealFactory)
        ensures
            r.spec_next_id() == 0,
    {
        MealFactory { id_provider: IdProvider::new() }
    }

    /// A factory whose IDs start at `starting_value` instead of zero.
    pub fn start_by(starting_value: u32) -> (r: MealFactory)
        ensures
            r.spec_next_id() == starting_value,
    {
        MealFactory { id_provider: IdProvider::start_by(starting_value) }
    }

    /// Creates a meal with a fresh ID, no specials yet, and its own
    /// factory for special IDs.
    pub fn create_meal(&mut self, meal_id: String, variety: String, price: Money) -> (r: Meal)
        requires
            old(self).spec_next_id() < u32::MAX,
        ensures
            r.spec_id() == old(self).spec_next_id(),
            r.spec_meal_id() == meal_id@,
            r.spec_variety() == variety@,
            r.spec_price() == price,
            r.spec_specials() == Seq::<Special>::empty(),
            r.spec_special_next_id() == 0,
            r.wf(),
            final(self).spec_next_id() == old(self).spec_next_id() + 1,
    {
        let id = self.id_provider.generate_next();
        Meal::new(id.value(), meal_id, variety, price, Vec::new(), SpecialFactory::new())
    }

    /// Creates a meal with a fresh ID that already carries the given
    /// specials, together with the factory that issued their IDs.
    pub fn create_meal_with_specials(
        &mut self,
        meal_id: String,
        variety: String,
        price: Money,
        specials: Vec<Special>,
        special_factory: SpecialFactory,
    ) -> (r: Meal)
        requires
            old(self).spec_next_id() < u32::MAX,
        ensures
            r.spec_id() == old(self).spec_next_id(),
            r.spec_meal_id() == meal_id@,
            r.spec_variety() == variety@,
            r.spec_price() == price,
            r.spec_specials() == specials@,
            r.spec_special_next_id() == special_factory.spec_next_id(),
            final(self).spec_next_id() == old(self).spec_next_id() + 1,
    {
        let id = self.id_provider.generate_next();
        Meal::new(id.value(), meal_id, variety, price, specials, special_factory)
    }
}

/// Law: two meals created by the same factory never have equal IDs,
/// whatever their code, variety and price. `create_meal` returns a meal
/// carrying the factory's counter as its ID and moves the counter up, so
/// a meal created earlier has an ID below every later counter value.
pub proof fn lemma_factory_ids_unique(f0: MealFactory, f1: MealFactory, m1: Meal, m2: Meal)
    requires
        m1.spec_id() == f0.spec_next_id(),
        f0.spec_next_id() < f1.spec_next_id(),
        m2.spec_id() == f1.spec_next_id(),
    ensures
        m1.spec_id() != m2.spec_id(),
{
}

/// A priced, identified line item with a set of named add-ons.
#[derive(Debug, PartialEq, Eq)]
pub struct Meal {
    /// Unique ID of this meal
    id: u32,
    /// Number of the meal in the menu
    meal_id: String,
    /// Size of the pizza or noodle type etc.
    variety: String,
    price: Money,
    specials: Vec<Special>,
    special_factory: SpecialFactory,
}

impl Meal {
    pub closed spec fn spec_id(&self) -> u32 {
        self.id
    }

    pub closed spec fn spec_meal_id(&self) -> Seq<char> {
        self.meal_id@
    }

    pub closed spec fn spec_variety(&self) -> Seq<char> {
        self.variety@
    }

    pub closed spec fn spec_price(&self) -> Money {
        self.price
    }

    pub closed spec fn spec_specials(&self) -> Seq<Special> {
        self.specials@
    }

    /// The ID the next added special will get.
    pub closed spec fn spec_special_next_id(&self) -> u32 {
        self.special_factory.spec_next_id()
    }

    /// The specials carry pairwise distinct IDs, all below the ID
    /// factory's counter, so a freshly created special never collides.
    pub open spec fn wf(&self) -> bool {
        &&& unique_special_ids(self.spec_specials())
        &&& special_ids_below(self.spec_specials(), self.spec_special_next_id())
    }

    fn new(
        id: u32,
        meal_id: String,
        variety: String,
        price: Money,
        specials: Vec<Special>,
        special_factory: SpecialFactory,
    ) -> (r: Meal)
        ensures
            r.spec_id() == id,
            r.spec_meal_id() == meal_id@,
            r.spec_variety() == variety@,
            r.spec_price() == price,
            r.spec_specials() == specials@,
            r.spec_special_next_id() == special_factory.spec_next_id(),
    {
        Meal { id, meal_id, variety, price, specials, special_factory }
    }

    pub fn get_id(&self) -> (r: u32)
        ensures
            r == self.spec_id(),
    {
        self.id
    }

    pub fn get_meal_id(&self) -> (r: String)
        ensures
            r@ == self.spec_meal_id(),
    {
        self.meal_id.clone()
    }

    pub fn get_variety(&self) -> (r: String)
        ensures
            r@ == self.spec_variety(),
    {
        self.variety.clone()
    }

    pub fn get_price(&self) -> (r: Money)
        ensures
            r == self.spec_price(),
    {
        self.price
    }

    /// Creates a new special with a fresh ID and the given description,
    /// stores it, and returns its ID.
    pub fn add_special(&mut self, description: String) -> (r: Id)
        requires
            old(self).wf(),
            old(self).spec_special_next_id() < u32::MAX,
        ensures
            final(self).wf(),
            r@ == old(self).spec_special_next_id(),
            final(self).spec_specials().len() == old(self).spec_specials().len() + 1,
            final(self).spec_specials() == old(self).spec_specials().push(
                final(self).spec_specials().last(),
            ),
            final(self).spec_specials().last().spec_id()@ == old(self).spec_special_next_id(),
            final(self).spec_specials().last().spec_description() == description@,
            final(self).spec_special_next_id() == old(self).spec_special_next_id() + 1,
            final(self).spec_id() == old(self).spec_id(),
            final(self).spec_meal_id() == old(self).spec_meal_id(),
            final(self).spec_variety() == old(self).spec_variety(),
            final(self).spec_price() == old(self).spec_price(),
    {
        let special = self.special_factory.create_special(description);
        let id = special.get_id();
        self.specials.push(special);
        id
    }

    /// Removes the special with the given ID and returns it; absent IDs
    /// are reported as `NotFound` rather than silently ignored.
    pub fn remove_special(&mut self, id: u32) -> (r: Result<Special, RemoveError>)
        requires
            old(self).wf(),
        ensures
            final(self).wf(),
            final(self).spec_id() == old(self).spec_id(),
            final(self).spec_meal_id() == old(self).spec_meal_id(),
            final(self).spec_variety() == old(self).spec_variety(),
            final(self).spec_price() == old(self).spec_price(),
            final(self).spec_special_next_id() == old(self).spec_special_next_id(),
            !has_special(old(self).spec_specials(), id) ==> r == Err::<Special, RemoveError>(
                RemoveError::NotFound,
            ) && final(self).spec_specials() == old(self).spec_specials(),
            has_special(old(self).spec_specials(), id) ==> r == Ok::<Special, RemoveError>(
                old(self).spec_specials()[index_of_special(old(self).spec_specials(), id)],
            ) && final(self).spec_specials() == old(self).spec_specials().remove(
                index_of_special(old(self).spec_specials(), id),
            ),
    {
        let n = self.specials.len();
        let mut i: usize = 0;
        while i < n
            invariant
                *self == *old(self),
                old(self).wf(),
                n == self.specials.len(),
                i <= n,
                forall|k: int| 0 <= k < i ==> #[trigger] self.specials@[k].spec_id()@ != id,
            decreases n - i,
        {
            if self.specials[i].get_id().value() == id {
                proof {
                    lemma_index_of_special_is(self.specials@, id, i as int);
                    self.specials@.remove_ensures(i as int);
                }
                let sp = self.specials.remove(i);
                return Ok(sp);
            }
            i = i + 1;
        }
        assert(!has_special(old(self).spec_specials(), id));
        Err(RemoveError::NotFound)
    }

    /// Overwrites the description of the special with the given ID; its
    /// identity is unchanged. Absent IDs are reported as `NotFound`.
    pub fn set_special_description(&mut self, id: u32, description: String) -> (r: Result<
        (),
        RemoveError,
    >)
        requires
            old(self).wf(),
        ensures
            final(self).wf(),
            final(self).spec_id() == old(self).spec_id(),
            final(self).spec_meal_id() == old(self).spec_meal_id(),
            final(self).spec_variety() == old(self).spec_variety(),
            final(self).spec_price() == old(self).spec_price(),
            final(self).spec_special_next_id() == old(self).spec_special_next_id(),
            !has_special(old(self).spec_specials(), id) ==> r == Err::<(), RemoveError>(
                RemoveError::NotFound,
            ) && final(self).spec_specials() == old(self).spec_specials(),
            has_special(old(self).spec_specials(), id) ==> {
                let at = index_of_special(old(self).spec_specials(), id);
                &&& r == Ok::<(), RemoveError>(())
                &&& final(self).spec_specials() == old(self).spec_specials().update(
                    at,
                    final(self).spec_specials()[at],
                )
                &&& final(self).spec_specials()[at].spec_id() == old(self).spec_specials()[at].spec_id()
                &&& final(self).spec_specials()[at].spec_description() == description@
            },
    {
        let n = self.specials.len();
        let mut i: usize = 0;
        while i < n
            invariant
                *self == *old(self),
                old(self).wf(),
                n == self.specials.len(),
                i <= n,
                forall|k: int| 0 <= k < i ==> #[trigger] self.specials@[k].spec_id()@ != id,
            decreases n - i,
        {
            if self.specials[i].get_id().value() == id {
                proof {
                    lemma_index_of_special_is(self.specials@, id, i as int);
                    self.specials@.remove_ensures(i as int);
                }
                let mut sp = self.specials.remove(i);
                sp.set_description(description);
                proof {
                    self.specials@.insert_ensures(i as int, sp);
                }
                self.specials.insert(i, sp);
                proof {
                    assert(self.specials@ =~= old(self).spec_specials().update(i as int, sp));
                }
                return Ok(());
            }
            i = i + 1;
        }
        assert(!has_special(old(self).spec_specials(), id));
        Err(RemoveError::NotFound)
    }

    /// The stored specials, in the order they were added.
    pub fn specials(&self) -> (r: &Vec<Special>)
        ensures
            r@ == self.spec_specials(),
    {
        &self.specials
    }
}

/// Builds a meal incrementally: menu code, variety, a running total
/// price, and specials, before a factory turns it into a `Meal`.
#[derive(Debug, PartialEq)]
pub struct MealBuilder {
    /// Number of the meal in the menu
    meal_id: Option<String>,
    /// Size of the pizza or noodle type etc.
    variety: Option<String>,
    price: Option<Money>,
    specials: Vec<Special>,
    special_factory: SpecialFactory,
}

impl MealBuilder {
    pub closed spec fn spec_meal_id(&self) -> Option<Seq<char>> {
        match self.meal_id {
            Some(s) => Some(s@),
            None => None,
        }
    }

    pub closed spec fn spec_variety(&self) -> Option<Seq<char>> {
        match self.variety {
            Some(s) => Some(s@),
            None => None,
        }
    }

    pub closed spec fn spec_price(&self) -> Option<Money> {
        self.price
    }

    /// The running total in cents; zero while no price is set.
    pub open spec fn spec_price_cents(&self) -> int {
        match self.spec_price() {
            Some(m) => m@ as int,
            None => 0,
        }
    }

    pub closed spec fn spec_specials(&self) -> Seq<Special> {
        self.specials@
    }

    /// The ID the next added special will get.
    pub closed spec fn spec_special_next_id(&self) -> u32 {
        self.special_factory.spec_next_id()
    }

    /// The specials carry pairwise distinct IDs, all below the ID
    /// factory's counter.
    pub open spec fn wf(&self) -> bool {
        &&& unique_special_ids(self.spec_specials())
        &&& special_ids_below(self.spec_specials(), self.spec_special_next_id())
    }

    pub fn new() -> (r: MealBuilder)
        ensures
            r.spec_meal_id() is None,
            r.spec_variety() is None,
            r.spec_price() is None,
            r.spec_specials() == Seq::<Special>::empty(),
            r.spec_special_next_id() == 0,
            r.wf(),
    {
        MealBuilder {
            meal_id: None,
            variety: None,
            price: None,
            specials: Vec::new(),
            special_factory: SpecialFactory::new(),
        }
    }

    /// Set the menu code of the new meal.
    pub fn meal_id(&mut self, meal_id: String)
        ensures
            final(self).spec_meal_id() == Some(meal_id@),
            final(self).spec_variety() == old(self).spec_variety(),
            final(self).spec_price() == old(self).spec_price(),
            final(self).spec_specials() == old(self).spec_specials(),
            final(self).spec_special_next_id() == old(self).spec_special_next_id(),
    {
        self.meal_id = Some(meal_id);
    }

    /// Set the variety of the new meal.
    pub fn variety(&mut self, variety: String)
        ensures
            final(self).spec_variety() == Some(variety@),
            final(self).spec_meal_id() == old(self).spec_meal_id(),
            final(self).spec_price() == old(self).spec_price(),
            final(self).spec_specials() == old(self).spec_specials(),
            final(self).spec_special_next_id() == old(self).spec_special_next_id(),
    {
        self.variety = Some(variety);
    }

    /// Add a special to the new meal.
    pub fn special(&mut self, description: String)
        requires
            old(self).wf(),
            old(self).spec_special_next_id() < u32::MAX,
        ensures
            final(self).wf(),
            final(self).spec_specials().len() == old(self).spec_specials().len() + 1,
            final(self).spec_specials() == old(self).spec_specials().push(
                final(self).spec_specials().last(),
            ),
            final(self).spec_specials().last().spec_id()@ == old(self).spec_special_next_id(),
            final(self).spec_specials().last().spec_description() == description@,
            final(self).spec_special_next_id() == old(self).spec_special_next_id() + 1,
            final(self).spec_meal_id() == old(self).spec_meal_id(),
            final(self).spec_variety() == old(self).spec_variety(),
            final(self).spec_price() == old(self).spec_price(),
    {
        let special = self.special_factory.create_special(description);
        self.specials.push(special);
    }

    /// Add one special per description, in order.
    pub fn specials(&mut self, descriptions: &[String])
        requires
            old(self).wf(),
            old(self).spec_special_next_id() + descriptions@.len() <= u32::MAX,
        ensures
            final(self).wf(),
            final(self).spec_specials().len() == old(self).spec_specials().len()
                + descriptions@.len(),
            forall|k: int|
                0 <= k < old(self).spec_specials().len() ==> #[trigger] final(self).spec_specials()[k] == old(self).spec_specials()[k],
            forall|k: int|
                0 <= k < descriptions@.len() ==> #[trigger] final(self).spec_specials()[old(self).spec_specials().len() + k].spec_id()@ == old(self).spec_special_next_id() + k,
            forall|k: int|
                0 <= k < descriptions@.len() ==> #[trigger] final(self).spec_specials()[old(self).spec_specials().len() + k].spec_description() == descriptions@[k]@,
            final(self).spec_special_next_id() == old(self).spec_special_next_id()
                + descriptions@.len(),
            final(self).spec_meal_id() == old(self).spec_meal_id(),
            final(self).spec_variety() == old(self).spec_variety(),
            final(self).spec_price() == old(self).spec_price(),
    {
        let n = descriptions.len();
        let mut j: usize = 0;
        while j < n
            invariant
                old(self).wf(),
                self.wf(),
                n == descriptions@.len(),
                j <= n,
                old(self).spec_special_next_id() + n <= u32::MAX,
                self.spec_specials().len() == old(self).spec_specials().len() + j,
                forall|k: int|
                    0 <= k < old(self).spec_specials().len() ==> #[trigger] self.spec_specials()[k]
                        == old(self).spec_specials()[k],
                forall|k: int|
                    0 <= k < j ==> #[trigger] self.spec_specials()[old(self).spec_specials().len() + k].spec_id()@ == old(self).spec_special_next_id() + k,
                forall|k: int|
                    0 <= k < j ==> #[trigger] self.spec_specials()[old(self).spec_specials().len() + k].spec_description() == descriptions@[k]@,
                self.spec_special_next_id() == old(self).spec_special_next_id() + j,
                self.spec_meal_id() == old(self).spec_meal_id(),
                self.spec_variety() == old(self).spec_variety(),
                self.spec_price() == old(self).spec_price(),
            decreases n - j,
        {
            let description = slice_index_get(descriptions, j).clone();
            self.special(description);
            j = j + 1;
        }
    }

    /// Set the total price of the new meal, overwriting any running total.
    pub fn price(&mut self, price: Money)
        ensures
            final(self).spec_price() == Some(price),
            final(self).spec_meal_id() == old(self).spec_meal_id(),
            final(self).spec_variety() == old(self).spec_variety(),
            final(self).spec_specials() == old(self).spec_specials(),
            final(self).spec_special_next_id() == old(self).spec_special_next_id(),
    {
        self.price = Some(price);
    }

    /// Add an amount to the running total price.
    pub fn add_price(&mut self, price: Money)
        requires
            old(self).spec_price_cents() + price@ <= u32::MAX,
        ensures
            final(self).spec_price() is Some,
            final(self).spec_price_cents() == old(self).spec_price_cents() + price@,
            final(self).spec_meal_id() == old(self).spec_meal_id(),
            final(self).spec_variety() == old(self).spec_variety(),
            final(self).spec_specials() == old(self).spec_specials(),
            final(self).spec_special_next_id() == old(self).spec_special_next_id(),
    {
        self.price = match self.price {
            Some(old_price) => Some(old_price.add(price)),
            None => Some(price),
        };
    }

    /// Subtract an amount from the running total price. If that would
    /// make the total negative, nothing changes and the magnitude of the
    /// overrun is reported instead.
    pub fn diff_price(&mut self, price: Money) -> (r: Result<(), MealBuilderError>)
        ensures
            old(self).spec_price() is Some && price@ <= old(self).spec_price_cents() ==> {
                &&& r == Ok::<(), MealBuilderError>(())
                &&& final(self).spec_price() is Some
                &&& final(self).spec_price_cents() == old(self).spec_price_cents() - price@
                &&& final(self).spec_meal_id() == old(self).spec_meal_id()
                &&& final(self).spec_variety() == old(self).spec_variety()
                &&& final(self).spec_specials() == old(self).spec_specials()
                &&& final(self).spec_special_next_id() == old(self).spec_special_next_id()
            },
            old(self).spec_price() is Some && price@ > old(self).spec_price_cents() ==> {
                &&& r matches Err(MealBuilderError::NegativePriceBuilded(m)) && m@ == price@ - old(self).spec_price_cents()
                &&& *final(self) == *old(self)
            },
            old(self).spec_price() is None ==> {
                &&& r matches Err(MealBuilderError::NegativePriceBuilded(m)) && m@ == price@
                &&& *final(self) == *old(self)
            },
    {
        match self.price {
            Some(old_price) => {
                if price.get_total_cents() <= old_price.get_total_cents() {
                    self.price = Some(old_price.sub(price));
                    Ok(())
                } else {
                    Err(MealBuilderError::NegativePriceBuilded(price.sub(old_price)))
                }
            },
            None => Err(MealBuilderError::NegativePriceBuilded(price)),
        }
    }

    /// Add a special and its price to the new meal.
    pub fn special_with_price(&mut self, description: String, price: Money)
        requires
            old(self).wf(),
            old(self).spec_special_next_id() < u32::MAX,
            old(self).spec_price_cents() + price@ <= u32::MAX,
        ensures
            final(self).wf(),
            final(self).spec_specials().len() == old(self).spec_specials().len() + 1,
            final(self).spec_specials() == old(self).spec_specials().push(
                final(self).spec_specials().last(),
            ),
            final(self).spec_specials().last().spec_id()@ == old(self).spec_special_next_id(),
            final(self).spec_specials().last().spec_description() == description@,
            final(self).spec_special_next_id() == old(self).spec_special_next_id() + 1,
            final(self).spec_price() is Some,
            final(self).spec_price_cents() == old(self).spec_price_cents() + price@,
            final(self).spec_meal_id() == old(self).spec_meal_id(),
            final(self).spec_variety() == old(self).spec_variety(),
    {
        self.special(description);
        self.add_price(price);
    }

    /// Add one special per description together with its price. The two
    /// lists must have equal length; otherwise nothing changes and the
    /// side with the excess is reported.
    pub fn specials_with_prices(&mut self, descriptions: &[String], prices: &[Money]) -> (r:
        Result<(), MealBuilderError>)
        requires
            old(self).wf(),
            descriptions@.len() == prices@.len() ==> old(self).spec_special_next_id()
                + descriptions@.len() <= u32::MAX,
            descriptions@.len() == prices@.len() ==> old(self).spec_price_cents() + sum_cents(
                prices@,
            ) <= u32::MAX,
        ensures
            descriptions@.len() > prices@.len() ==> {
                &&& r matches Err(MealBuilderError::MoreSpecialsThanPrices(n)) && n
                    == descriptions@.len() - prices@.len()
                &&& *final(self) == *old(self)
            },
            prices@.len() > descriptions@.len() ==> {
                &&& r matches Err(MealBuilderError::MorePricesThanSpecials(n)) && n
                    == prices@.len() - descriptions@.len()
                &&& *final(self) == *old(self)
            },
            descriptions@.len() == prices@.len() ==> {
                &&& r == Ok::<(), MealBuilderError>(())
                &&& final(self).wf()
                &&& final(self).spec_specials().len() == old(self).spec_specials().len()
                    + descriptions@.len()
                &&& forall|k: int|
                    0 <= k < old(self).spec_specials().len() ==> #[trigger] final(self).spec_specials()[k] == old(self).spec_specials()[k]
                &&& forall|k: int|
                    0 <= k < descriptions@.len() ==> #[trigger] final(self).spec_specials()[old(self).spec_specials().len() + k].spec_id()@ == old(self).spec_special_next_id() + k
                &&& forall|k: int|
                    0 <= k < descriptions@.len() ==> #[trigger] final(self).spec_specials()[old(self).spec_specials().len() + k].spec_description() == descriptions@[k]@
                &&& final(self).spec_special_next_id() == old(self).spec_special_next_id()
                    + descriptions@.len()
                &&& final(self).spec_price_cents() == old(self).spec_price_cents() + sum_cents(
                    prices@,
                )
                &&& final(self).spec_meal_id() == old(self).spec_meal_id()
                &&& final(self).spec_variety() == old(self).spec_variety()
            },
    {
        if descriptions.len() > prices.len() {
            return Err(MealBuilderError::MoreSpecialsThanPrices(
                descriptions.len() - prices.len(),
            ));
        }
        if prices.len() > descriptions.len() {
            return Err(MealBuilderError::MorePricesThanSpecials(
                prices.len() - descriptions.len(),
            ));
        }
        let n = descriptions.len();
        let mut j: usize = 0;
        while j < n
            invariant
                old(self).wf(),
                self.wf(),
                n == descriptions@.len(),
                n == prices@.len(),
                j <= n,
                old(self).spec_special_next_id() + n <= u32::MAX,
                old(self).spec_price_cents() + sum_cents(prices@) <= u32::MAX,
                self.spec_specials().len() == old(self).spec_specials().len() + j,
                forall|k: int|
                    0 <= k < old(self).spec_specials().len() ==> #[trigger] self.spec_specials()[k]
                        == old(self).spec_specials()[k],
                forall|k: int|
                    0 <= k < j ==> #[trigger] self.spec_specials()[old(self).spec_specials().len() + k].spec_id()@ == old(self).spec_special_next_id() + k,
                forall|k: int|
                    0 <= k < j ==> #[trigger] self.spec_specials()[old(self).spec_specials().len() + k].spec_description() == descriptions@[k]@,
                self.spec_special_next_id() == old(self).spec_special_next_id() + j,
                self.spec_price_cents() == old(self).spec_price_cents() + sum_cents(
                    prices@.take(j as int),
                ),
                self.spec_meal_id() == old(self).spec_meal_id(),
                self.spec_variety() == old(self).spec_variety(),
            decreases n - j,
        {
            proof {
                lemma_sum_cents_take_succ(prices@, j as int);
                lemma_sum_cents_take_bound(prices@, j + 1);
            }
            let description = slice_index_get(descriptions, j).clone();
            let price = *slice_index_get(prices, j);
            self.special(description);
            self.add_price(price);
            j = j + 1;
        }
        proof {
            assert(prices@.take(n as int) =~= prices@);
        }
        Ok(())
    }

    /// Turns the builder into a meal created by the given factory,
    /// filling in an empty code, an empty variety and a zero price where
    /// none was set.
    pub fn meal(self, meal_factory: &mut MealFactory) -> (r: Meal)
        requires
            old(meal_factory).spec_next_id() < u32::MAX,
        ensures
            r.spec_id() == old(meal_factory).spec_next_id(),
            final(meal_factory).spec_next_id() == old(meal_factory).spec_next_id() + 1,
            r.spec_meal_id() == match self.spec_meal_id() {
                Some(s) => s,
                None => Seq::<char>::empty(),
            },
            r.spec_variety() == match self.spec_variety() {
                Some(s) => s,
                None => Seq::<char>::empty(),
            },
            r.spec_price()@ == self.spec_price_cents(),
            r.spec_specials() == self.spec_specials(),
            r.spec_special_next_id() == self.spec_special_next_id(),
            self.wf() ==> r.wf(),
    {
        let MealBuilder { meal_id, variety, price, specials, special_factory } = self;
        let mid = match meal_id {
            Some(m) => m,
            None => String::new(),
        };
        let var = match variety {
            Some(v) => v,
            None => String::new(),
        };
        let pr = match price {
            Some(p) => p,
            None => Money::new(0, 0),
        };
        meal_factory.create_meal_with_specials(mid, var, pr, specials, special_factory)
    }
}

} // verus!
