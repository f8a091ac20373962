use rusty_pizza::errors::RemoveError;
use rusty_pizza::id::Id;
use rusty_pizza::meal::Meal;
use rusty_pizza::meal::MealBuilder;
use rusty_pizza::meal::MealBuilderError;
use rusty_pizza::meal::MealFactory;
use rusty_pizza::money::Money;
use rusty_pizza::special::Special;

fn sample_meal() -> Meal {
    let mut meal_factory = MealFactory::new();
    meal_factory.create_meal(String::from("03"), String::from("groß"), Money::new(5, 50))
}

#[test]
fn meal_can_be_created() {
    // When:
    let meal = sample_meal();

    // Then:
    assert_eq!(meal.get_id(), 0);
    assert_eq!(meal.get_meal_id(), String::from("03"));
    assert_eq!(meal.get_variety(), String::from("groß"));
    assert_eq!(meal.get_price(), Money::new(5, 50));
    assert!(meal.specials().is_empty());
}

#[test]
fn meal_special_can_be_added_to_meal() {
    // Given:
    let mut meal = sample_meal();

    // When:
    let special_id = meal.add_special(String::from("Käserand"));

    // Then:
    assert_eq!(special_id, Id::new(0));
    assert_eq!(meal.specials().len(), 1);
    assert_eq!(meal.specials()[0], Special::new(Id::new(0), String::from("Käserand")));
}

#[test]
fn added_special_is_mutable() {
    // Given:
    let mut meal = sample_meal();
    meal.add_special(String::from("Kaserand"));

    // When:
    let result = meal.set_special_description(0, String::from("Käserand"));

    // Then:
    assert_eq!(result, Ok(()));
    assert_eq!(meal.specials()[0].get_description(), String::from("Käserand"));
}

#[test]
fn meal_can_be_created_through_factory() {
    // Given:
    let mut meal_factory = MealFactory::new();

    // When:
    let meal =
        meal_factory.create_meal(String::from("03"), String::from("groß"), Money::new(5, 50));

    // Then:
    assert_eq!(meal.get_id(), 0);
    assert_eq!(meal.get_meal_id(), String::from("03"));
    assert_eq!(meal.get_variety(), String::from("groß"));
    assert_eq!(meal.get_price(), Money::new(5, 50));
    assert!(meal.specials().is_empty());
}

#[test]
fn meals_created_through_factory_have_unique_ids() {
    // Given:
    let mut meal_factory = MealFactory::new();

    // When:
    let meal1_id = meal_factory
        .create_meal(String::from("03"), String::from("groß"), Money::new(5, 50))
        .get_id();
    let meal2_id = meal_factory
        .create_meal(String::from("03"), String::from("groß"), Money::new(5, 50))
        .get_id();

    // Then:
    assert!(meal1_id != meal2_id);
}

#[test]
fn factory_started_later_continues_counting() {
    // Given:
    let mut meal_factory = MealFactory::start_by(7);

    // When:
    let meal1_id = meal_factory
        .create_meal(String::from("03"), String::from("groß"), Money::new(5, 50))
        .get_id();
    let meal2_id = meal_factory
        .create_meal(String::from("04"), String::from("klein"), Money::new(4, 50))
        .get_id();

    // Then:
    assert_eq!(meal1_id, 7);
    assert_eq!(meal2_id, 8);
}

#[test]
fn added_specials_have_unique_ids() {
    // Given:
    let mut meal = sample_meal();

    // When:
    let special1_id = meal.add_special(String::from("Käserand"));
    let special2_id = meal.add_special(String::from("Extra scharf"));

    // Then:
    assert!(special1_id != special2_id);
}

#[test]
fn special_can_be_removed_by_id() {
    // Given:
    let mut meal = sample_meal();
    meal.add_special(String::from("Käserand"));

    // When:
    let special = meal.remove_special(0);

    // Then:
    assert_eq!(special, Ok(Special::new(Id::new(0), String::from("Käserand"))));
    assert!(meal.specials().is_empty());
}

#[test]
fn remving_not_existing_special_returns_not_found() {
    // Given:
    let mut meal = sample_meal();

    // When:
    let special = meal.remove_special(0);

    // Then:
    assert_eq!(special, Err(RemoveError::NotFound));
    assert_eq!(meal.get_id(), 0);
    assert_eq!(meal.get_meal_id(), String::from("03"));
    assert_eq!(meal.get_variety(), String::from("groß"));
    assert_eq!(meal.get_price(), Money::new(5, 50));
    assert!(meal.specials().is_empty());
}

#[test]
fn specials_can_be_iterated() {
    // Given:
    let mut meal = sample_meal();
    meal.add_special(String::from("Käserand"));

    // When:
    let mut specials = meal.specials().iter();

    // Then:
    assert_eq!(
        Some(&Special::new(Id::new(0), String::from("Käserand"))),
        specials.next(),
    );
    assert_eq!(None, specials.next());
}

#[test]
fn specials_can_be_mutably_iterated() {
    // Given: a meal whose specials are edited one by one, by ID.
    let mut meal = sample_meal();
    meal.add_special(String::from("Kaserand"));
    meal.add_special(String::from("scharf"));

    // When:
    for id in 0..2 {
        let description = meal.specials()[id as usize].get_description();
        let mut edited = String::from("Extra ");
        edited.push_str(&description);
        meal.set_special_description(id, edited).unwrap();
    }

    // Then:
    assert_eq!(meal.specials()[0].get_description(), String::from("Extra Kaserand"));
    assert_eq!(meal.specials()[1].get_description(), String::from("Extra scharf"));
}

#[test]
fn meal_builder_create_meal_with_default_values() {
    // Given:
    let mut meal_factory = MealFactory::new();
    let meal_builder = MealBuilder::new();

    // When:
    let meal = meal_builder.meal(&mut meal_factory);

    // Then:
    assert_eq!(meal.get_id(), 0);
    assert_eq!(meal.get_meal_id(), String::from(""));
    assert_eq!(meal.get_variety(), String::from(""));
    assert_eq!(meal.get_price(), Money::new(0, 0));
    assert!(meal.specials().is_empty());
}

#[test]
fn meal_builder_create_meal_without_spacials() {
    // Given:
    let mut meal_factory = MealFactory::new();
    let mut meal_builder = MealBuilder::new();

    // When:
    meal_builder.meal_id(String::from("05"));
    meal_builder.variety(String::from("Big"));
    meal_builder.price(Money::new(4, 50));
    let meal = meal_builder.meal(&mut meal_factory);

    // Then:
    assert_eq!(meal.get_id(), 0);
    assert_eq!(meal.get_meal_id(), String::from("05"));
    assert_eq!(meal.get_variety(), String::from("Big"));
    assert_eq!(meal.get_price(), Money::new(4, 50));
    assert!(meal.specials().is_empty());
}

#[test]
fn single_specials_can_be_added_to_meal_builder() {
    // Given:
    let mut meal_factory = MealFactory::new();
    let mut meal_builder = MealBuilder::new();
    let specials =
        vec![String::from("Pan-Pizza"), String::from("Zwiebeln"), String::from("Knoblauch")];

    // When:
    meal_builder.meal_id(String::from("05"));
    meal_builder.variety(String::from("Big"));
    meal_builder.price(Money::new(4, 50));
    for new_special in specials.iter() {
        meal_builder.special(new_special.clone());
    }
    let meal = meal_builder.meal(&mut meal_factory);

    // Then:
    assert_eq!(meal.specials().len(), 3);
    for (i, description) in specials.iter().enumerate() {
        assert_eq!(meal.specials()[i], Special::new(Id::new(i as u32), description.clone()));
    }
}

#[test]
fn bundle_of_specials_can_be_added_to_meal_builder() {
    // Given:
    let mut meal_factory = MealFactory::new();
    let mut meal_builder = MealBuilder::new();
    let specials =
        vec![String::from("Pan-Pizza"), String::from("Zwiebeln"), String::from("Knoblauch")];

    // When:
    meal_builder.meal_id(String::from("05"));
    meal_builder.variety(String::from("Big"));
    meal_builder.price(Money::new(4, 50));
    meal_builder.specials(&specials);
    let meal = meal_builder.meal(&mut meal_factory);

    // Then:
    assert_eq!(meal.specials().len(), 3);
    for (i, description) in specials.iter().enumerate() {
        assert_eq!(meal.specials()[i], Special::new(Id::new(i as u32), description.clone()));
    }
}

#[test]
fn prices_are_summed_up_correctly_in_mealbuilder() {
    // Given:
    let mut meal_factory = MealFactory::new();
    let mut meal_builder = MealBuilder::new();
    let prices = vec![Money::new(2, 42), Money::new(5, 1), Money::new(4, 83)];

    // When:
    for price in prices.into_iter() {
        meal_builder.add_price(price);
    }
    let summed_price = meal_builder.meal(&mut meal_factory).get_price();

    // Then:
    assert_eq!(Money::new(12, 26), summed_price);
}

#[test]
fn prices_are_subtracted_correctly_in_mealbuilder() {
    // Given:
    let mut meal_factory = MealFactory::new();
    let mut meal_builder = MealBuilder::new();
    meal_builder.price(Money::new(25, 0));
    let prices = vec![Money::new(2, 42), Money::new(5, 1), Money::new(4, 83)];

    // When:
    for price in prices.into_iter() {
        meal_builder.diff_price(price).unwrap();
    }
    let subtracted_price = meal_builder.meal(&mut meal_factory).get_price();

    // Then:
    assert_eq!(Money::new(12, 74), subtracted_price);
}

#[test]
fn negative_price_substraction_returns_error_in_mealbuilder() {
    // Given:
    let mut meal_builder = MealBuilder::new();
    meal_builder.price(Money::new(10, 0));
    let prices = vec![Money::new(2, 42), Money::new(5, 1), Money::new(4, 83)];
    let mut negative_amount = MealBuilderError::NegativePriceBuilded(Money::new(0, 0));

    // When:
    for price in prices.into_iter() {
        match meal_builder.diff_price(price) {
            Ok(_) => continue,
            Err(negative_error) => {
                negative_amount = negative_error;
                break;
            }
        }
    }

    // Then:
    assert_eq!(MealBuilderError::NegativePriceBuilded(Money::new(2, 26)), negative_amount);
}

#[test]
fn diff_price_without_price_set_returns_whole_amount() {
    // Given:
    let mut meal_builder = MealBuilder::new();

    // When:
    let result = meal_builder.diff_price(Money::new(3, 33));

    // Then:
    assert_eq!(result, Err(MealBuilderError::NegativePriceBuilded(Money::new(3, 33))));
}

#[test]
fn single_specials_with_price_can_be_added_to_meal_builder() {
    // Given:
    let mut meal_factory = MealFactory::new();
    let mut meal_builder = MealBuilder::new();
    let specials =
        vec![String::from("Pan-Pizza"), String::from("Zwiebeln"), String::from("Knoblauch")];
    let prices = vec![Money::new(2, 42), Money::new(5, 1), Money::new(4, 83)];

    // When:
    meal_builder.meal_id(String::from("05"));
    meal_builder.variety(String::from("Big"));
    for (new_special, new_price) in specials.iter().zip(prices.iter()) {
        meal_builder.special_with_price(new_special.clone(), *new_price);
    }
    let meal = meal_builder.meal(&mut meal_factory);

    // Then:
    assert_eq!(meal.get_price(), Money::new(12, 26));
    assert_eq!(meal.specials().len(), 3);
    for (i, description) in specials.iter().enumerate() {
        assert_eq!(meal.specials()[i], Special::new(Id::new(i as u32), description.clone()));
    }
}

#[test]
fn bundle_of_specials_with_prices_can_be_added_to_meal_builder() {
    // Given:
    let mut meal_factory = MealFactory::new();
    let mut meal_builder = MealBuilder::new();
    let specials =
        vec![String::from("Pan-Pizza"), String::from("Zwiebeln"), String::from("Knoblauch")];
    let prices = vec![Money::new(2, 42), Money::new(5, 1), Money::new(4, 83)];

    // When:
    meal_builder.meal_id(String::from("05"));
    meal_builder.variety(String::from("Big"));
    meal_builder.specials_with_prices(&specials, &prices).unwrap();
    let meal = meal_builder.meal(&mut meal_factory);

    // Then:
    assert_eq!(meal.get_price(), Money::new(12, 26));
    assert_eq!(meal.specials().len(), 3);
    for (i, description) in specials.iter().enumerate() {
        assert_eq!(meal.specials()[i], Special::new(Id::new(i as u32), description.clone()));
    }
}

#[test]
fn different_count_of_specials_and_prices_produce_error() {
    // Given:
    let mut meal_builder = MealBuilder::new();
    let three_specials =
        vec![String::from("Pan-Pizza"), String::from("Zwiebeln"), String::from("Knoblauch")];
    let two_prices = vec![Money::new(2, 42), Money::new(5, 1)];
    let one_special = vec![String::from("Pan-Pizza")];
    let three_prices = vec![Money::new(2, 42), Money::new(5, 1), Money::new(4, 83)];

    // When / Then:
    assert_eq!(
        Err(MealBuilderError::MoreSpecialsThanPrices(1)),
        meal_builder.specials_with_prices(&three_specials, &two_prices),
    );
    assert_eq!(
        Err(MealBuilderError::MorePricesThanSpecials(2)),
        meal_builder.specials_with_prices(&one_special, &three_prices),
    );
}
