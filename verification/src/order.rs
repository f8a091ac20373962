use vstd::prelude::*;
use std::collections::HashSet;
use crate::meal::Meal;
use crate::meal::MealFactory;
use crate::meals::Meals;
use crate::meals::has_meal;
use crate::meals::lemma_sum_prices_nonneg;
use crate::meals::meal_ids_below;
use crate::meals::sum_prices;
use crate::money::Money;

verus! {

broadcast use vstd::std_specs::hash::group_hash_axioms;

/// Not all users who take part in this order have paid enough.
#[derive(Debug, PartialEq)]
pub enum NotAllPaidEnoughError {
    /// In total, not enough money was paid: the group as a whole is
    /// short by `underpaid`, and the named users paid less than they owe.
    Underpaid { underpaid: Money, paid_less: HashSet<u32> },
    /// There is enough money to pay the bill, with `change` left over,
    /// but the named users still owe the group.
    EnoughInTotal { change: Money, paid_less: HashSet<u32> },
}

/// The lifecycle label of an order; a plain tag with no behaviour
/// attached here.
#[allow(dead_code)]
#[derive(Debug, PartialEq)]
enum OrderStatus {
    Open,
    Ordering,
    Ordered(String),
    Delivered,
}

/// An operation referred to a user that was never added to the order.
#[derive(Debug, PartialEq, Eq, Structural, Copy, Clone)]
pub enum OrderError {
    UserNotParticipating,
}

/// Whether some ledger in `s` belongs to `user_id`.
pub open spec fn has_ledger(s: Seq<Meals>, user_id: u32) -> bool {
    exists|i: int| 0 <= i < s.len() && #[trigger] s[i].spec_owner_id() == user_id
}

/// The index of the ledger owned by `user_id`; meaningful only when
/// `has_ledger(s, user_id)` holds and the owners in `s` are unique.
pub open spec fn index_of_ledger(s: Seq<Meals>, user_id: u32) -> int {
    choose|i: int| 0 <= i < s.len() && #[trigger] s[i].spec_owner_id() == user_id
}

/// No two ledgers in `s` belong to the same user.
pub open spec fn unique_owner_ids(s: Seq<Meals>) -> bool {
    forall|i: int, j: int|
        0 <= i < j < s.len() ==> #[trigger] s[i].spec_owner_id() != #[trigger] s[j].spec_owner_id()
}

/// In a sequence with unique owners, the ledger found at `i` is the one
/// that `index_of_ledger` names.
pub proof fn lemma_index_of_ledger_is(s: Seq<Meals>, user_id: u32, i: int)
    requires
        unique_owner_ids(s),
        0 <= i < s.len(),
        s[i].spec_owner_id() == user_id,
    ensures
        has_ledger(s, user_id),
        index_of_ledger(s, user_id) == i,
{
    assert(has_ledger(s, user_id));
    let j = index_of_ledger(s, user_id);
    assert(0 <= j < s.len() && s[j].spec_owner_id() == user_id);
    if i < j {
        assert(s[i].spec_owner_id() != s[j].spec_owner_id());
    } else if j < i {
        assert(s[j].spec_owner_id() != s[i].spec_owner_id());
    }
}

/// An empty ledger belonging to `user_id`: no meals, nothing paid,
/// no tip.
pub open spec fn fresh_ledger(m: Meals, user_id: u32) -> bool {
    &&& m.spec_meals() == Seq::<Meal>::empty()
    &&& m.spec_owner_id() == user_id
    &&& !m.spec_ready()
    &&& m.spec_paid()@ == 0
    &&& m.spec_tip()@ == 0
}

/// The total price, in cents, over all ledgers.
pub open spec fn sum_ledger_prices(s: Seq<Meals>) -> int
    decreases s.len(),
{
    if s.len() == 0 {
        0
    } else {
        sum_ledger_prices(s.drop_last()) + sum_prices(s.last().spec_meals())
    }
}

/// The total tip, in cents, over all ledgers.
pub open spec fn sum_tips(s: Seq<Meals>) -> int
    decreases s.len(),
{
    if s.len() == 0 {
        0
    } else {
        sum_tips(s.drop_last()) + s.last().spec_tip()@
    }
}

/// Whether the owner of `m` paid at least what they owe.
pub open spec fn spec_covered(m: Meals) -> bool {
    m.spec_paid()@ >= m.spec_owed()
}

/// The change due to the owner of `m`: what they overpaid, or zero if
/// they underpaid.
pub open spec fn spec_change_of(m: Meals) -> int {
    if spec_covered(m) {
        m.spec_paid()@ - m.spec_owed()
    } else {
        0
    }
}

/// What the owner of `m` is short: what they underpaid, or zero if they
/// covered their bill.
pub open spec fn spec_shortfall_of(m: Meals) -> int {
    if spec_covered(m) {
        0
    } else {
        m.spec_owed() - m.spec_paid()@
    }
}

/// The total change, in cents, owed to the users that overpaid.
pub open spec fn sum_change(s: Seq<Meals>) -> int
    decreases s.len(),
{
    if s.len() == 0 {
        0
    } else {
        sum_change(s.drop_last()) + spec_change_of(s.last())
    }
}

/// The total shortfall, in cents, of the users that underpaid.
pub open spec fn sum_underpaid(s: Seq<Meals>) -> int
    decreases s.len(),
{
    if s.len() == 0 {
        0
    } else {
        sum_underpaid(s.drop_last()) + spec_shortfall_of(s.last())
    }
}

/// The IDs of the users that paid less than they owe.
pub open spec fn underpayers(s: Seq<Meals>) -> Set<u32>
    decreases s.len(),
{
    if s.len() == 0 {
        Set::<u32>::empty()
    } else if spec_covered(s.last()) {
        underpayers(s.drop_last())
    } else {
        underpayers(s.drop_last()).insert(s.last().spec_owner_id())
    }
}

/// Extending a prefix by one ledger adds that ledger's contribution to
/// each of the four aggregates.
pub proof fn lemma_aggregates_take_succ(s: Seq<Meals>, i: int)
    requires
        0 <= i < s.len(),
    ensures
        sum_ledger_prices(s.take(i + 1)) == sum_ledger_prices(s.take(i)) + sum_prices(
            s[i].spec_meals(),
        ),
        sum_tips(s.take(i + 1)) == sum_tips(s.take(i)) + s[i].spec_tip()@,
        sum_change(s.take(i + 1)) == sum_change(s.take(i)) + spec_change_of(s[i]),
        sum_underpaid(s.take(i + 1)) == sum_underpaid(s.take(i)) + spec_shortfall_of(s[i]),
        underpayers(s.take(i + 1)) == if spec_covered(s[i]) {
            underpayers(s.take(i))
        } else {
            underpayers(s.take(i)).insert(s[i].spec_owner_id())
        },
{
    assert(s.take(i + 1).drop_last() =~= s.take(i));
    assert(s.take(i + 1).last() == s[i]);
}

/// Each aggregate sum over ledgers is non-negative.
pub proof fn lemma_aggregates_nonneg(s: Seq<Meals>)
    ensures
        sum_ledger_prices(s) >= 0,
        sum_tips(s) >= 0,
        sum_change(s) >= 0,
        sum_underpaid(s) >= 0,
    decreases s.len(),
{
    if s.len() > 0 {
        lemma_aggregates_nonneg(s.drop_last());
        lemma_sum_prices_nonneg(s.last().spec_meals());
    }
}

/// A prefix of each aggregate sum is non-negative and never exceeds the
/// whole sum.
pub proof fn lemma_aggregates_take_bound(s: Seq<Meals>, i: int)
    requires
        0 <= i <= s.len(),
    ensures
        0 <= sum_ledger_prices(s.take(i)) <= sum_ledger_prices(s),
        0 <= sum_tips(s.take(i)) <= sum_tips(s),
        0 <= sum_change(s.take(i)) <= sum_change(s),
        0 <= sum_underpaid(s.take(i)) <= sum_underpaid(s),
    decreases s.len() - i,
{
    lemma_aggregates_nonneg(s.take(i));
    if i == s.len() {
        assert(s.take(i) =~= s);
    } else {
        lemma_aggregates_take_succ(s, i);
        lemma_aggregates_take_bound(s, i + 1);
        lemma_sum_prices_nonneg(s[i].spec_meals());
    }
}

/// The aggregate of all participants' ledgers for one shared purchase,
/// created and managed by one user. A single meal factory is shared by
/// the whole order, so meal IDs are unique across all participants.
#[derive(Debug, PartialEq)]
pub struct Order {
    /// Each participating user's ledger
    meals: Vec<Meals>,
    status: OrderStatus,
    /// User ID of the manager
    manager_id: u32,
    meal_factory: MealFactory,
}

impl Order {
    pub closed spec fn spec_ledgers(&self) -> Seq<Meals> {
        self.meals@
    }

    pub closed spec fn spec_manager_id(&self) -> u32 {
        self.manager_id
    }

    /// The ID the next created meal will get.
    pub closed spec fn spec_next_meal_id(&self) -> u32 {
        self.meal_factory.spec_next_id()
    }

    /// Every user has at most one ledger, every ledger is well formed,
    /// and every stored meal's ID is below the shared factory's counter,
    /// so a freshly created meal never collides with a stored one.
    pub open spec fn wf(&self) -> bool {
        &&& unique_owner_ids(self.spec_ledgers())
        &&& forall|i: int|
            0 <= i < self.spec_ledgers().len() ==> (#[trigger] self.spec_ledgers()[i]).wf()
        &&& forall|i: int|
            0 <= i < self.spec_ledgers().len() ==> meal_ids_below(
                (#[trigger] self.spec_ledgers()[i]).spec_meals(),
                self.spec_next_meal_id(),
            )
    }

    /// An order with no participants yet, managed by the given user.
    pub fn new(manager_id: u32) -> (r: Order)
        ensures
            r.spec_ledgers() == Seq::<Meals>::empty(),
            r.spec_manager_id() == manager_id,
            r.spec_next_meal_id() == 0,
            r.wf(),
    {
        Order {
            meals: Vec::new(),
            status: OrderStatus::Open,
            manager_id,
            meal_factory: MealFactory::new(),
        }
    }

    /// Adds a participant: stores an empty ledger for `user_id`. A user
    /// added twice gets a fresh empty ledger in place of the old one.
    pub fn add_user(&mut self, user_id: u32)
        requires
            old(self).wf(),
        ensures
            final(self).wf(),
            final(self).spec_manager_id() == old(self).spec_manager_id(),
            final(self).spec_next_meal_id() == old(self).spec_next_meal_id(),
            !has_ledger(old(self).spec_ledgers(), user_id) ==> {
                &&& final(self).spec_ledgers() == old(self).spec_ledgers().push(
                    final(self).spec_ledgers().last(),
                )
                &&& fresh_ledger(final(self).spec_ledgers().last(), user_id)
            },
            has_ledger(old(self).spec_ledgers(), user_id) ==> {
                let at = index_of_ledger(old(self).spec_ledgers(), user_id);
                &&& final(self).spec_ledgers() == old(self).spec_ledgers().update(
                    at,
                    final(self).spec_ledgers()[at],
                )
                &&& fresh_ledger(final(self).spec_ledgers()[at], user_id)
            },
    {
        let n = self.meals.len();
        let mut i: usize = 0;
        while i < n
            invariant
                *self == *old(self),
                old(self).wf(),
                n == self.meals.len(),
                i <= n,
                forall|k: int| 0 <= k < i ==> #[trigger] self.meals@[k].spec_owner_id() != user_id,
            decreases n - i,
        {
            if self.meals[i].get_owner_id() == user_id {
                proof {
                    lemma_index_of_ledger_is(self.meals@, user_id, i as int);
                    self.meals@.remove_ensures(i as int);
                }
                self.meals.remove(i);
                let fresh = Meals::new(user_id);
                proof {
                    self.meals@.insert_ensures(i as int, fresh);
                }
                self.meals.insert(i, fresh);
                proof {
                    assert(self.meals@ =~= old(self).spec_ledgers().update(i as int, fresh));
                }
                return ;
            }
            i = i + 1;
        }
        assert(!has_ledger(old(self).spec_ledgers(), user_id));
        let fresh = Meals::new(user_id);
        self.meals.push(fresh);
    }

    /// Creates a meal through the order's shared factory and stores it
    /// in the given user's ledger, returning the new meal's ID; fails
    /// with `UserNotParticipating` if that user was never added.
    pub fn add_meal_for_user(
        &mut self,
        user_id: u32,
        meal_id: String,
        variety: String,
        price: Money,
    ) -> (r: Result<u32, OrderError>)
        requires
            old(self).wf(),
            old(self).spec_next_meal_id() < u32::MAX,
        ensures
            final(self).wf(),
            final(self).spec_manager_id() == old(self).spec_manager_id(),
            !has_ledger(old(self).spec_ledgers(), user_id) ==> r == Err::<u32, OrderError>(
                OrderError::UserNotParticipating,
            ) && *final(self) == *old(self),
            has_ledger(old(self).spec_ledgers(), user_id) ==> {
                let at = index_of_ledger(old(self).spec_ledgers(), user_id);
                let ledger = final(self).spec_ledgers()[at];
                let added = ledger.spec_meals().last();
                &&& r == Ok::<u32, OrderError>(old(self).spec_next_meal_id())
                &&& final(self).spec_next_meal_id() == old(self).spec_next_meal_id() + 1
                &&& final(self).spec_ledgers() == old(self).spec_ledgers().update(at, ledger)
                &&& ledger.spec_meals() == old(self).spec_ledgers()[at].spec_meals().push(added)
                &&& added.spec_id() == old(self).spec_next_meal_id()
                &&& added.spec_meal_id() == meal_id@
                &&& added.spec_variety() == variety@
                &&& added.spec_price() == price
                &&& ledger.spec_owner_id() == old(self).spec_ledgers()[at].spec_owner_id()
                &&& ledger.spec_ready() == old(self).spec_ledgers()[at].spec_ready()
                &&& ledger.spec_paid() == old(self).spec_ledgers()[at].spec_paid()
                &&& ledger.spec_tip() == old(self).spec_ledgers()[at].spec_tip()
            },
    {
        let n = self.meals.len();
        let mut i: usize = 0;
        while i < n
            invariant
                *self == *old(self),
                old(self).wf(),
                old(self).spec_next_meal_id() < u32::MAX,
                n == self.meals.len(),
                i <= n,
                forall|k: int| 0 <= k < i ==> #[trigger] self.meals@[k].spec_owner_id() != user_id,
            decreases n - i,
        {
            if self.meals[i].get_owner_id() == user_id {
                proof {
                    lemma_index_of_ledger_is(self.meals@, user_id, i as int);
                    self.meals@.remove_ensures(i as int);
                }
                let meal = self.meal_factory.create_meal(meal_id, variety, price);
                let new_id = meal.get_id();
                let mut ledger = self.meals.remove(i);
                assert(!has_meal(ledger.spec_meals(), meal.spec_id()));
                ledger.add_meal(meal);
                proof {
                    self.meals@.insert_ensures(i as int, ledger);
                }
                self.meals.insert(i, ledger);
                proof {
                    assert(self.meals@ =~= old(self).spec_ledgers().update(i as int, ledger));
                    assert forall|k: int|
                        0 <= k < self.meals@.len() implies meal_ids_below(
                        (#[trigger] self.meals@[k]).spec_meals(),
                        self.spec_next_meal_id(),
                    ) by {
                        if k != i {
                            assert(self.meals@[k] == old(self).spec_ledgers()[k]);
                        }
                    }
                }
                return Ok(new_id);
            }
            i = i + 1;
        }
        assert(!has_ledger(old(self).spec_ledgers(), user_id));
        Err(OrderError::UserNotParticipating)
    }

    /// The ledger of the given user, or `None` if that user was never
    /// added to the order.
    pub fn get_meals_for_user(&self, user_id: u32) -> (r: Option<&Meals>)
        requires
            self.wf(),
        ensures
            !has_ledger(self.spec_ledgers(), user_id) ==> r is None,
            has_ledger(self.spec_ledgers(), user_id) ==> (r matches Some(m) && *m
                == self.spec_ledgers()[index_of_ledger(self.spec_ledgers(), user_id)]),
    {
        let n = self.meals.len();
        let mut i: usize = 0;
        while i < n
            invariant
                self.wf(),
                n == self.meals.len(),
                i <= n,
                forall|k: int| 0 <= k < i ==> #[trigger] self.meals@[k].spec_owner_id() != user_id,
            decreases n - i,
        {
            if self.meals[i].get_owner_id() == user_id {
                proof {
                    lemma_index_of_ledger_is(self.meals@, user_id, i as int);
                }
                return Some(&self.meals[i]);
            }
            i = i + 1;
        }
        assert(!has_ledger(self.spec_ledgers(), user_id));
        None
    }

    /// Records what the given user paid; fails with
    /// `UserNotParticipating` if that user was never added.
    pub fn set_paid_for_user(&mut self, user_id: u32, paid: Money) -> (r: Result<(), OrderError>)
        requires
            old(self).wf(),
        ensures
            final(self).wf(),
            final(self).spec_manager_id() == old(self).spec_manager_id(),
            final(self).spec_next_meal_id() == old(self).spec_next_meal_id(),
            !has_ledger(old(self).spec_ledgers(), user_id) ==> r == Err::<(), OrderError>(
                OrderError::UserNotParticipating,
            ) && *final(self) == *old(self),
            has_ledger(old(self).spec_ledgers(), user_id) ==> {
                let at = index_of_ledger(old(self).spec_ledgers(), user_id);
                let ledger = final(self).spec_ledgers()[at];
                &&& r == Ok::<(), OrderError>(())
                &&& final(self).spec_ledgers() == old(self).spec_ledgers().update(at, ledger)
                &&& ledger.spec_paid() == paid
                &&& ledger.spec_meals() == old(self).spec_ledgers()[at].spec_meals()
                &&& ledger.spec_owner_id() == old(self).spec_ledgers()[at].spec_owner_id()
                &&& ledger.spec_ready() == old(self).spec_ledgers()[at].spec_ready()
                &&& ledger.spec_tip() == old(self).spec_ledgers()[at].spec_tip()
            },
    {
        let n = self.meals.len();
        let mut i: usize = 0;
        while i < n
            invariant
                *self == *old(self),
                old(self).wf(),
                n == self.meals.len(),
                i <= n,
                forall|k: int| 0 <= k < i ==> #[trigger] self.meals@[k].spec_owner_id() != user_id,
            decreases n - i,
        {
            if self.meals[i].get_owner_id() == user_id {
                proof {
                    lemma_index_of_ledger_is(self.meals@, user_id, i as int);
                    self.meals@.remove_ensures(i as int);
                }
                let mut ledger = self.meals.remove(i);
                ledger.set_paid(paid);
                proof {
                    self.meals@.insert_ensures(i as int, ledger);
                }
                self.meals.insert(i, ledger);
                proof {
                    assert(self.meals@ =~= old(self).spec_ledgers().update(i as int, ledger));
                }
                return Ok(());
            }
            i = i + 1;
        }
        assert(!has_ledger(old(self).spec_ledgers(), user_id));
        Err(OrderError::UserNotParticipating)
    }

    /// Records the given user's tip; fails with `UserNotParticipating`
    /// if that user was never added.
    pub fn set_tip_for_user(&mut self, user_id: u32, tip: Money) -> (r: Result<(), OrderError>)
        requires
            old(self).wf(),
        ensures
            final(self).wf(),
            final(self).spec_manager_id() == old(self).spec_manager_id(),
            final(self).spec_next_meal_id() == old(self).spec_next_meal_id(),
            !has_ledger(old(self).spec_ledgers(), user_id) ==> r == Err::<(), OrderError>(
                OrderError::UserNotParticipating,
            ) && *final(self) == *old(self),
            has_ledger(old(self).spec_ledgers(), user_id) ==> {
                let at = index_of_ledger(old(self).spec_ledgers(), user_id);
                let ledger = final(self).spec_ledgers()[at];
                &&& r == Ok::<(), OrderError>(())
                &&& final(self).spec_ledgers() == old(self).spec_ledgers().update(at, ledger)
                &&& ledger.spec_tip() == tip
                &&& ledger.spec_meals() == old(self).spec_ledgers()[at].spec_meals()
                &&& ledger.spec_owner_id() == old(self).spec_ledgers()[at].spec_owner_id()
                &&& ledger.spec_ready() == old(self).spec_ledgers()[at].spec_ready()
                &&& ledger.spec_paid() == old(self).spec_ledgers()[at].spec_paid()
            },
    {
        let n = self.meals.len();
        let mut i: usize = 0;
        while i < n
            invariant
                *self == *old(self),
                old(self).wf(),
                n == self.meals.len(),
                i <= n,
                forall|k: int| 0 <= k < i ==> #[trigger] self.meals@[k].spec_owner_id() != user_id,
            decreases n - i,
        {
            if self.meals[i].get_owner_id() == user_id {
                proof {
                    lemma_index_of_ledger_is(self.meals@, user_id, i as int);
                    self.meals@.remove_ensures(i as int);
                }
                let mut ledger = self.meals.remove(i);
                ledger.set_tip(tip);
                proof {
                    self.meals@.insert_ensures(i as int, ledger);
                }
                self.meals.insert(i, ledger);
                proof {
                    assert(self.meals@ =~= old(self).spec_ledgers().update(i as int, ledger));
                }
                return Ok(());
            }
            i = i + 1;
        }
        assert(!has_ledger(old(self).spec_ledgers(), user_id));
        Err(OrderError::UserNotParticipating)
    }

    /// The total price over all participants' ledgers.
    pub fn calculate_total_price(&self) -> (r: Money)
        requires
            sum_ledger_prices(self.spec_ledgers()) <= u32::MAX,
        ensures
            r@ == sum_ledger_prices(self.spec_ledgers()),
    {
        let n = self.meals.len();
        let mut total_price = Money::new(0, 0);
        let mut i: usize = 0;
        while i < n
            invariant
                n == self.meals.len(),
                i <= n,
                sum_ledger_prices(self.spec_ledgers()) <= u32::MAX,
                total_price@ == sum_ledger_prices(self.spec_ledgers().take(i as int)),
            decreases n - i,
        {
            proof {
                lemma_aggregates_take_succ(self.spec_ledgers(), i as int);
                lemma_aggregates_take_bound(self.spec_ledgers(), i as int);
                lemma_aggregates_take_bound(self.spec_ledgers(), i + 1);
                lemma_sum_prices_nonneg(self.spec_ledgers()[i as int].spec_meals());
            }
            total_price = total_price.add(self.meals[i].calculate_total_price());
            i = i + 1;
        }
        proof {
            assert(self.spec_ledgers().take(n as int) =~= self.spec_ledgers());
        }
        total_price
    }

    /// The total tip over all participants' ledgers.
    pub fn calculate_total_tip(&self) -> (r: Money)
        requires
            sum_tips(self.spec_ledgers()) <= u32::MAX,
        ensures
            r@ == sum_tips(self.spec_ledgers()),
    {
        let n = self.meals.len();
        let mut total_tip = Money::new(0, 0);
        let mut i: usize = 0;
        while i < n
            invariant
                n == self.meals.len(),
                i <= n,
                sum_tips(self.spec_ledgers()) <= u32::MAX,
                total_tip@ == sum_tips(self.spec_ledgers().take(i as int)),
            decreases n - i,
        {
            proof {
                lemma_aggregates_take_succ(self.spec_ledgers(), i as int);
                lemma_aggregates_take_bound(self.spec_ledgers(), i as int);
                lemma_aggregates_take_bound(self.spec_ledgers(), i + 1);
            }
            total_tip = total_tip.add(self.meals[i].get_tip());
            i = i + 1;
        }
        proof {
            assert(self.spec_ledgers().take(n as int) =~= self.spec_ledgers());
        }
        total_tip
    }

    /// Reconciles what was paid against what is owed, over all ledgers.
    ///
    /// If every participant covered their own bill, the total change is
    /// returned. Otherwise the users that underpaid are named, and the
    /// outcome distinguishes two cases: the overpayers' surplus covers
    /// the shortfall (`EnoughInTotal`, with the remaining change), so the
    /// group only settles internally; or the group as a whole is short
    /// (`Underpaid`, with the missing amount) and more money must be
    /// collected.
    pub fn calculate_total_change(&self) -> (r: Result<Money, NotAllPaidEnoughError>)
        requires
            forall|i: int|
                0 <= i < self.spec_ledgers().len() ==> (#[trigger] self.spec_ledgers()[i]).spec_owed()
                    <= u32::MAX,
            sum_change(self.spec_ledgers()) <= u32::MAX,
            sum_underpaid(self.spec_ledgers()) <= u32::MAX,
        ensures
            sum_underpaid(self.spec_ledgers()) == 0 ==> (r matches Ok(c) && c@ == sum_change(
                self.spec_ledgers(),
            )),
            sum_underpaid(self.spec_ledgers()) > 0 && sum_change(self.spec_ledgers())
                > sum_underpaid(self.spec_ledgers()) ==> (r matches Err(
                NotAllPaidEnoughError::EnoughInTotal { change, paid_less },
            ) && change@ == sum_change(self.spec_ledgers()) - sum_underpaid(self.spec_ledgers())
                && paid_less@ == underpayers(self.spec_ledgers())),
            sum_underpaid(self.spec_ledgers()) > 0 && sum_change(self.spec_ledgers())
                <= sum_underpaid(self.spec_ledgers()) ==> (r matches Err(
                NotAllPaidEnoughError::Underpaid { underpaid, paid_less },
            ) && underpaid@ == sum_underpaid(self.spec_ledgers()) - sum_change(self.spec_ledgers())
                && paid_less@ == underpayers(self.spec_ledgers())),
    {
        let n = self.meals.len();
        let mut total_change = Money::new(0, 0);
        let mut underpaid = Money::new(0, 0);
        let mut paid_less: HashSet<u32> = HashSet::new();
        let mut i: usize = 0;
        while i < n
            invariant
                n == self.meals.len(),
                i <= n,
                forall|k: int|
                    0 <= k < self.spec_ledgers().len() ==> (
                    #[trigger] self.spec_ledgers()[k]).spec_owed() <= u32::MAX,
                sum_change(self.spec_ledgers()) <= u32::MAX,
                sum_underpaid(self.spec_ledgers()) <= u32::MAX,
                total_change@ == sum_change(self.spec_ledgers().take(i as int)),
                underpaid@ == sum_underpaid(self.spec_ledgers().take(i as int)),
                paid_less@ == underpayers(self.spec_ledgers().take(i as int)),
            decreases n - i,
        {
            proof {
                lemma_aggregates_take_succ(self.spec_ledgers(), i as int);
                lemma_aggregates_take_bound(self.spec_ledgers(), i as int);
                lemma_aggregates_take_bound(self.spec_ledgers(), i + 1);
                lemma_sum_prices_nonneg(self.spec_ledgers()[i as int].spec_meals());
            }
            match self.meals[i].calculate_change() {
                Ok(change) => {
                    total_change = total_change.add(change);
                },
                Err(e) => {
                    paid_less.insert(self.meals[i].get_owner_id());
                    underpaid = underpaid.add(e.get_value());
                },
            }
            i = i + 1;
        }
        proof {
            assert(self.spec_ledgers().take(n as int) =~= self.spec_ledgers());
        }
        if underpaid.get_total_cents() == 0 {
            Ok(total_change)
        } else if total_change.get_total_cents() > underpaid.get_total_cents() {
            Err(
                NotAllPaidEnoughError::EnoughInTotal {
                    change: total_change.sub(underpaid),
                    paid_less,
                },
            )
        } else {
            Err(
                NotAllPaidEnoughError::Underpaid {
                    underpaid: underpaid.sub(total_change),
                    paid_less,
                },
            )
        }
    }
}

} // verus!
