use std::collections::HashSet;

use rusty_pizza::meals::Meals;
use rusty_pizza::money::Money;
use rusty_pizza::order::NotAllPaidEnoughError;
use rusty_pizza::order::Order;
use rusty_pizza::order::OrderError;

#[test]
fn order_order_can_be_created() {
    // Given:
    let user_id = 0;

    // When:
    let order = Order::new(user_id);

    // Then: a fresh order has no ledgers at all.
    assert!(order.get_meals_for_user(user_id).is_none());
    assert_eq!(order.calculate_total_price(), Money::new(0, 0));
    assert_eq!(order.calculate_total_tip(), Money::new(0, 0));
}

#[test]
fn order_user_can_be_added_to_order() {
    // Given:
    let manager_id = 0;
    let mut order = Order::new(manager_id);

    let user_id = 1;

    // When:
    order.add_user(user_id);

    // Then:
    assert_eq!(order.get_meals_for_user(user_id), Some(&Meals::new(user_id)));
}

#[test]
fn meal_can_be_added_to_order_for_user() {
    // Given:
    let manager_id = 0;
    let mut order = Order::new(manager_id);

    let user_id = 1;
    order.add_user(user_id);

    // When:
    let meal_id =
        order.add_meal_for_user(user_id, String::from("03"), String::from("groß"), Money::new(5, 50));

    // Then:
    assert_eq!(meal_id, Ok(0));
    let meals = order.get_meals_for_user(user_id).expect("the user participates");
    assert_eq!(meals.calculate_total_price(), Money::new(5, 50));
}

#[test]
fn meal_cannot_be_added_to_order_for_user_if_user_is_not_participating_in_order() {
    // Given:
    let manager_id = 0;
    let mut order = Order::new(manager_id);

    let user_id = 1;

    // When:
    let meal = order.add_meal_for_user(
        user_id,
        String::from("03"),
        String::from("groß"),
        Money::new(5, 50),
    );

    // Then:
    assert_eq!(meal, Err(OrderError::UserNotParticipating));
    assert_eq!(order.get_meals_for_user(user_id), None);
}

#[test]
fn user_not_participating_in_order_has_no_meals() {
    // Given:
    let manager_id = 0;
    let mut order = Order::new(manager_id);
    order.add_user(2);

    let user_id = 1;

    // When:
    let meals = order.get_meals_for_user(user_id);

    // Then:
    assert_eq!(meals, None);
}

#[test]
fn user_participating_in_order_has_meals() {
    // Given:
    let manager_id = 0;
    let mut order = Order::new(manager_id);

    let user_id = 1;
    order.add_user(user_id);

    // When:
    let meals = order.get_meals_for_user(user_id);

    // Then:
    assert_eq!(meals, Some(&Meals::new(user_id)));
}

#[test]
fn payments_for_absent_users_are_rejected() {
    // Given:
    let mut order = Order::new(0);

    // When / Then:
    assert_eq!(
        order.set_paid_for_user(1, Money::new(5, 0)),
        Err(OrderError::UserNotParticipating),
    );
    assert_eq!(
        order.set_tip_for_user(1, Money::new(1, 0)),
        Err(OrderError::UserNotParticipating),
    );
}

#[test]
fn order_total_price_is_calculated_correctly() {
    // Given:
    let mut order = Order::new(0);
    let attributes: Vec<(u32, Vec<Money>)> = vec![
        (1, vec![Money::new(2, 25), Money::new(5, 50), Money::new(7, 37)]),
        (2, vec![Money::new(3, 50), Money::new(4, 42)]),
        (3, vec![Money::new(6, 83)]),
    ];
    for (orderer_id, meal_prices) in attributes.into_iter() {
        order.add_user(orderer_id);
        for price in meal_prices.iter() {
            order
                .add_meal_for_user(
                    orderer_id,
                    String::from("XX"),
                    String::from("something"),
                    *price,
                )
                .unwrap();
        }
    }

    // When:
    let calculated_total = order.calculate_total_price();

    // Then:
    assert_eq!(Money::new(29, 87), calculated_total);
}

#[test]
fn total_tip_is_calculated_correctly() {
    // Given:
    let mut order = Order::new(0);
    for (orderer_id, tip) in
        [(1, Money::new(2, 25)), (2, Money::new(5, 50)), (3, Money::new(7, 37))]
    {
        order.add_user(orderer_id);
        order.set_tip_for_user(orderer_id, tip).unwrap();
    }

    // When:
    let calculated_tip = order.calculate_total_tip();

    // Then:
    assert_eq!(Money::new(15, 12), calculated_tip);
}

#[test]
fn all_paid_enough_change_is_calculated_correctly() {
    // Given:
    let mut order = Order::new(0);
    let attributes: Vec<(u32, Vec<Money>, Money)> = vec![
        (1, vec![Money::new(2, 25), Money::new(5, 50), Money::new(7, 37)], Money::new(17, 0)),
        (2, vec![Money::new(3, 50), Money::new(4, 42)], Money::new(8, 50)),
        (3, vec![Money::new(6, 83)], Money::new(6, 83)),
    ];
    for (orderer_id, meal_prices, amount) in attributes.into_iter() {
        order.add_user(orderer_id);
        for price in meal_prices.iter() {
            order
                .add_meal_for_user(
                    orderer_id,
                    String::from("XX"),
                    String::from("something"),
                    *price,
                )
                .unwrap();
        }
        order.set_paid_for_user(orderer_id, amount).unwrap();
    }

    // When:
    let calculated_change = order.calculate_total_change().unwrap();

    // Then:
    assert_eq!(Money::new(2, 46), calculated_change);
}

fn build_paid_less_hash_set(user_ids: Vec<u32>) -> HashSet<u32> {
    user_ids.into_iter().collect()
}

/// One participant's surplus covers the others' shortfall: A owed 15.13
/// and paid 17.00 (change 1.87), B owed 7.92 but paid 7.50, C owed 6.83
/// but paid 6.00 (together short 1.25); the group keeps 0.62 change but
/// B and C still owe the group.
#[test]
fn group_covers_shortfall_with_enough_in_total() {
    // Given:
    let mut order = Order::new(0);
    let attributes: Vec<(u32, Money, Money)> = vec![
        (1, Money::new(15, 13), Money::new(17, 0)),
        (2, Money::new(7, 92), Money::new(7, 50)),
        (3, Money::new(6, 83), Money::new(6, 0)),
    ];
    for (orderer_id, price, amount) in attributes.into_iter() {
        order.add_user(orderer_id);
        order
            .add_meal_for_user(orderer_id, String::from("XX"), String::from("something"), price)
            .unwrap();
        order.set_paid_for_user(orderer_id, amount).unwrap();
    }

    // When:
    let calculated_change = order.calculate_total_change();

    // Then:
    assert_eq!(
        Err(NotAllPaidEnoughError::EnoughInTotal {
            change: Money::new(0, 62),
            paid_less: build_paid_less_hash_set(vec![2, 3]),
        }),
        calculated_change,
    );
}

/// As above, but A paid only 16.00 (change 0.87), so the whole group is
/// short by 0.38 in addition to B and C owing the group.
#[test]
fn group_short_overall_reports_underpaid() {
    // Given:
    let mut order = Order::new(0);
    let attributes: Vec<(u32, Money, Money)> = vec![
        (1, Money::new(15, 13), Money::new(16, 0)),
        (2, Money::new(7, 92), Money::new(7, 50)),
        (3, Money::new(6, 83), Money::new(6, 0)),
    ];
    for (orderer_id, price, amount) in attributes.into_iter() {
        order.add_user(orderer_id);
        order
            .add_meal_for_user(orderer_id, String::from("XX"), String::from("something"), price)
            .unwrap();
        order.set_paid_for_user(orderer_id, amount).unwrap();
    }

    // When:
    let calculated_change = order.calculate_total_change();

    // Then:
    assert_eq!(
        Err(NotAllPaidEnoughError::Underpaid {
            underpaid: Money::new(0, 38),
            paid_less: build_paid_less_hash_set(vec![2, 3]),
        }),
        calculated_change,
    );
}

#[test]
fn empty_order_has_zero_change() {
    let order = Order::new(0);
    assert_eq!(order.calculate_total_change(), Ok(Money::new(0, 0)));
}
