use cooklang::model::{
    ComponentRelation, Content, Cookware, Counts, Ingredient, IngredientReferenceTarget,
    IngredientRelation, Item, Metadata, Modifiers, Recipe, Section, Step, Timer,
};
use cooklang::quantity::{Decimal, Number, Quantity, Value};

fn num(digits: &str) -> Value {
    Value::Number(Number::Regular(
        Decimal::from_digits(digits.as_bytes(), b"").unwrap(),
    ))
}

fn text(s: &str) -> Value {
    Value::Text(s.as_bytes().to_vec())
}

fn cookware(name: &str, quantity: Option<Value>, relation: ComponentRelation) -> Cookware<Value> {
    Cookware {
        name: name.to_string(),
        alias: None,
        quantity,
        note: None,
        relation,
        modifiers: Modifiers::empty(),
    }
}

fn ingredient(
    name: &str,
    quantity: Option<Quantity<Value>>,
    relation: IngredientRelation,
) -> Ingredient<Value> {
    Ingredient {
        name: name.to_string(),
        alias: None,
        quantity,
        note: None,
        relation,
        modifiers: Modifiers::empty(),
    }
}

fn definition(referenced_from: Vec<usize>) -> ComponentRelation {
    ComponentRelation::Definition {
        referenced_from,
        defined_in_step: true,
    }
}

fn reference(references_to: usize) -> ComponentRelation {
    ComponentRelation::Reference { references_to }
}

/// A value with its numbers as floats.
#[derive(Debug, Clone, PartialEq)]
enum Amount {
    Number(f64),
    Text(String),
}

fn is_text(a: &Amount) -> bool {
    matches!(a, Amount::Text(_))
}

fn plus(total: Amount, a: &Amount) -> Amount {
    match (total, a) {
        (Amount::Number(x), Amount::Number(y)) => Amount::Number(x + y),
        (t, a) => panic!("cannot add {:?} to {:?}", a, t),
    }
}

fn amounts(
    quantity: Option<Amount>,
    relation: ComponentRelation,
) -> Cookware<Amount> {
    Cookware {
        name: "pan".to_string(),
        alias: None,
        quantity,
        note: None,
        relation,
        modifiers: Modifiers::empty(),
    }
}

#[test]
fn group_cookware_amounts() {
    // #pan{3} #&pan{1} #&pan{big}
    let all = vec![
        amounts(Some(Amount::Number(3.0)), definition(vec![1, 2])),
        amounts(Some(Amount::Number(1.0)), reference(0)),
        amounts(Some(Amount::Text("big".to_string())), reference(0)),
    ];
    let grouped_pans = all[0].group_amounts(&all, is_text, plus);
    assert_eq!(
        grouped_pans,
        vec![Amount::Number(4.0), Amount::Text("big".to_string())]
    );
}

#[test]
fn group_cookware_amounts_text_first() {
    let big = || Some(Amount::Text("big".to_string()));
    let small = || Some(Amount::Text("small".to_string()));
    let all = vec![
        amounts(big(), definition(vec![3, 1, 2, 4])),
        amounts(None, reference(0)),
        amounts(small(), reference(0)),
        amounts(Some(Amount::Number(2.0)), reference(0)),
        amounts(Some(Amount::Number(0.5)), reference(0)),
    ];
    assert_eq!(
        all[0].all_amounts(&all),
        vec![
            &big().unwrap(),
            &Amount::Number(2.0),
            &small().unwrap(),
            &Amount::Number(0.5)
        ]
    );
    assert_eq!(
        all[0].group_amounts(&all, is_text, plus),
        vec![Amount::Number(2.5), big().unwrap(), small().unwrap()]
    );

    // a reference has its own amount and nothing else
    assert_eq!(
        all[3].group_amounts(&all, is_text, plus),
        vec![Amount::Number(2.0)]
    );
    assert_eq!(all[2].group_amounts(&all, is_text, plus), vec![small().unwrap()]);
    assert!(all[1].group_amounts(&all, is_text, plus).is_empty());
    assert!(all[1].all_amounts(&all).is_empty());
}

#[test]
fn group_cookware_amounts_adds_from_the_left() {
    // the total is the first amount, then each of the others added to it
    let all = vec![
        amounts(Some(Amount::Text("a".to_string())), definition(vec![1, 2])),
        amounts(Some(Amount::Text("b".to_string())), reference(0)),
        amounts(Some(Amount::Text("c".to_string())), reference(0)),
    ];
    let joined = all[0].group_amounts(
        &all,
        |_| false,
        |total, a| match (total, a) {
            (Amount::Text(t), Amount::Text(a)) => Amount::Text(format!("({}+{})", t, a)),
            _ => unreachable!(),
        },
    );
    assert_eq!(joined, vec![Amount::Text("((a+b)+c)".to_string())]);
}

#[test]
fn group_cookware_amounts_of_exact_fractions() {
    let half = || {
        Value::Number(Number::Fraction {
            whole: 0,
            num: 1,
            den: 2,
        })
    };
    let all = vec![
        cookware("cup", Some(half()), definition(vec![1, 2])),
        cookware("cup", Some(text("a few")), reference(0)),
        cookware("cup", Some(half()), reference(0)),
    ];
    let grouped = all[0].group_amounts(
        &all,
        |v| v.is_text(),
        |total, v| match (&total, v) {
            (Value::Number(a), Value::Number(b)) => Value::Number(a.add_exact(b).unwrap()),
            _ => unreachable!(),
        },
    );
    assert_eq!(
        grouped,
        vec![
            Value::Number(Number::Fraction {
                whole: 0,
                num: 2,
                den: 2
            }),
            text("a few")
        ]
    );
}

fn grams(amount: f64) -> Option<Quantity<Amount>> {
    Some(Quantity::new(Amount::Number(amount), Some("g".to_string())))
}

fn flour(quantity: Option<Quantity<Amount>>, relation: IngredientRelation) -> Ingredient<Amount> {
    Ingredient {
        name: "flour".to_string(),
        alias: None,
        quantity,
        note: None,
        relation,
        modifiers: Modifiers::empty(),
    }
}

/// Adds quantities of one unit; anything else is an error.
fn add_quantities(
    total: Quantity<Amount>,
    q: &Quantity<Amount>,
) -> Result<Quantity<Amount>, String> {
    match (&total.value, &q.value) {
        (Amount::Number(a), Amount::Number(b)) if total.unit == q.unit => {
            Ok(Quantity::new(Amount::Number(a + b), total.unit))
        }
        _ => Err(format!("cannot add {:?} to {:?}", q, total)),
    }
}

/// Kilograms for a thousand grams and more.
fn fit_quantity(q: Quantity<Amount>) -> Quantity<Amount> {
    match (&q.value, q.unit.as_deref()) {
        (Amount::Number(g), Some("g")) if *g >= 1000.0 => {
            Quantity::new(Amount::Number(g / 1000.0), Some("kg".to_string()))
        }
        _ => q,
    }
}

fn flours() -> Vec<Ingredient<Amount>> {
    // @flour{1000%g} @&flour{100%g}
    vec![
        flour(grams(1000.0), IngredientRelation::definition(vec![1], true)),
        flour(
            grams(100.0),
            IngredientRelation::reference(0, IngredientReferenceTarget::Ingredient),
        ),
    ]
}

#[test]
fn total_quantity_of_an_ingredient_and_its_reference() {
    let all = flours();
    assert_eq!(
        all[0].total_quantity(&all, add_quantities, fit_quantity),
        Ok(Some(Quantity::new(
            Amount::Number(1.1),
            Some("kg".to_string())
        )))
    );
    assert_eq!(
        all[1].total_quantity(&all, add_quantities, fit_quantity),
        Ok(grams(100.0))
    );
}

#[test]
fn total_quantity_without_quantities_is_none() {
    let all = vec![
        flour(None, IngredientRelation::definition(vec![1], true)),
        flour(
            None,
            IngredientRelation::reference(0, IngredientReferenceTarget::Ingredient),
        ),
    ];
    assert_eq!(
        all[0].total_quantity(&all, add_quantities, fit_quantity),
        Ok(None)
    );
}

#[test]
fn total_quantity_stops_at_the_first_error() {
    let cups = Some(Quantity::new(
        Amount::Number(2.0),
        Some("cup".to_string()),
    ));
    let all = vec![
        flour(grams(1.0), IngredientRelation::definition(vec![1, 2, 3], true)),
        flour(
            grams(2.0),
            IngredientRelation::reference(0, IngredientReferenceTarget::Ingredient),
        ),
        flour(
            cups,
            IngredientRelation::reference(0, IngredientReferenceTarget::Ingredient),
        ),
        flour(
            Some(Quantity::new(Amount::Text("more".to_string()), None)),
            IngredientRelation::reference(0, IngredientReferenceTarget::Ingredient),
        ),
    ];
    let calls = std::cell::Cell::new(0);
    let total = all[0].total_quantity(
        &all,
        |total, q| {
            calls.set(calls.get() + 1);
            add_quantities(total, q)
        },
        fit_quantity,
    );
    assert_eq!(
        total,
        Err(format!(
            "cannot add {:?} to {:?}",
            all[2].quantity.as_ref().unwrap(),
            grams(3.0).unwrap()
        ))
    );
    assert_eq!(calls.get(), 2);
}

#[test]
fn group_quantities_of_an_ingredient_and_its_reference() {
    let all = flours();
    // one bucket for each unit
    let put = |mut groups: Vec<Quantity<Amount>>, q: &Quantity<Amount>| {
        match groups.iter().position(|g| g.unit == q.unit) {
            Some(i) => {
                let total = groups.remove(i);
                groups.insert(i, add_quantities(total, q).unwrap());
            }
            None => groups.push(q.clone()),
        }
        groups
    };
    let fit = |groups: Vec<Quantity<Amount>>| groups.into_iter().map(fit_quantity).collect();
    let grouped_flour: Vec<Quantity<Amount>> =
        all[0].group_quantities(&all, Vec::new(), put, fit);
    assert_eq!(
        grouped_flour,
        vec![Quantity::new(
            Amount::Number(1.1),
            Some("kg".to_string())
        )]
    );
    let alone: Vec<Quantity<Amount>> = all[1].group_quantities(&all, Vec::new(), put, fit);
    assert_eq!(alone, vec![grams(100.0).unwrap()]);
}

#[test]
fn all_quantities_of_an_ingredient_and_its_references() {
    // @flour{1000%g} @&flour{100%g}
    let g = |digits: &str| Quantity::new(num(digits), Some("g".to_string()));
    let mut flour = ingredient(
        "flour",
        Some(g("1000")),
        IngredientRelation::definition(vec![], true),
    );
    assert!(flour.relation.add_referenced_from(1));
    let all = vec![
        flour,
        ingredient(
            "flour",
            Some(g("100")),
            IngredientRelation::reference(0, IngredientReferenceTarget::Ingredient),
        ),
    ];
    let quantities = all[0].all_quantities(&all);
    assert_eq!(quantities, vec![&g("1000"), &g("100")]);
    assert_eq!(quantities[0].unit(), Some("g"));
    assert_eq!(all[1].all_quantities(&all), vec![&g("100")]);
    let copy = g("100").clone();
    assert_eq!(copy, g("100"));
}

#[test]
fn step_numbers_skip_text() {
    let mut section = Section::new(None);
    assert!(section.is_empty());
    assert_eq!(section.next_step_number(), Some(1));
    assert_eq!(section.push_step(vec![]), None);
    assert_eq!(section.next_step_number(), Some(2));
    section.push_text("a word in between".to_string());
    assert_eq!(section.next_step_number(), Some(2));
    assert_eq!(
        section.push_step(vec![Item::Ingredient { index: 0 }]),
        None
    );
    section.push_text("the end".to_string());
    assert!(!section.is_empty());

    let numbers: Vec<Option<u32>> = section
        .content
        .iter()
        .map(|c| {
            if c.is_step() {
                Some(c.as_step().number)
            } else {
                None
            }
        })
        .collect();
    assert_eq!(numbers, vec![Some(1), None, Some(2), None]);
    assert_eq!(section.content[1].as_text(), "a word in between");
    assert_eq!(
        section.content[2].as_step().items,
        vec![Item::Ingredient { index: 0 }]
    );
}

#[test]
fn step_number_that_does_not_fit() {
    let mut section = Section::new(Some("full".to_string()));
    section
        .content
        .push(Content::Step(Step::new(vec![], u32::MAX)));
    assert_eq!(section.next_step_number(), None);
    let items = vec![Item::Text {
        value: "stir".to_string(),
    }];
    assert_eq!(
        section.push_step(items),
        Some(vec![Item::Text {
            value: "stir".to_string()
        }])
    );
    assert_eq!(section.content.len(), 1);
}

#[test]
fn section_with_a_name_is_not_empty() {
    assert!(Section::new(None).is_empty());
    assert!(!Section::new(Some("Dough".to_string())).is_empty());
}

#[test]
fn content_kinds() {
    let step = Content::Step(Step::new(vec![], 1));
    let text = Content::Text("rest".to_string());
    assert!(step.is_step() && !step.is_text());
    assert!(text.is_text() && !text.is_step());
    assert_eq!(step.as_step().number, 1);
    assert_eq!(text.as_text(), "rest");
}

#[test]
fn ingredient_display_name() {
    let mut sauce = ingredient(
        "sauces/tomato sauce.cook",
        None,
        IngredientRelation::definition(vec![], true),
    );
    assert_eq!(sauce.display_name(), "sauces/tomato sauce.cook");
    sauce.modifiers.recipe = true;
    assert_eq!(sauce.modifiers(), sauce.modifiers);
    assert_eq!(sauce.display_name(), "tomato sauce");
    assert_eq!(
        sauce.display_name_with(Some("ketchup".to_string())),
        "ketchup"
    );
    assert_eq!(sauce.display_name_with(None), "sauces/tomato sauce.cook");
    sauce.alias = Some("red sauce".to_string());
    assert_eq!(sauce.display_name(), "red sauce");
    assert_eq!(
        sauce.display_name_with(Some("ketchup".to_string())),
        "red sauce"
    );
}

#[test]
fn cookware_display_name() {
    let mut pan = cookware("frying pan", None, definition(vec![]));
    assert_eq!(pan.display_name(), "frying pan");
    assert_eq!(pan.modifiers(), Modifiers::empty());
    pan.alias = Some("pan".to_string());
    assert_eq!(pan.display_name(), "pan");
}

#[test]
fn component_relation_accessors() {
    let mut def = definition(vec![4, 2]);
    assert_eq!(def.referenced_from(), &[4, 2]);
    assert_eq!(def.references_to(), None);
    assert!(def.is_definition() && !def.is_reference());
    assert_eq!(def.is_defined_in_step(), Some(true));
    assert!(def.add_referenced_from(7));
    assert_eq!(def.referenced_from(), &[4, 2, 7]);

    let mut re = reference(3);
    assert!(re.referenced_from().is_empty());
    assert_eq!(re.references_to(), Some(3));
    assert!(re.is_reference() && !re.is_definition());
    assert_eq!(re.is_defined_in_step(), None);
    assert!(!re.add_referenced_from(7));
    assert_eq!(re, reference(3));
}

#[test]
fn ingredient_relation_accessors() {
    let mut def = IngredientRelation::definition(vec![1], false);
    assert_eq!(def.referenced_from(), &[1]);
    assert_eq!(def.references_to(), None);
    assert!(def.is_definition());
    assert!(!def.is_regular_reference() && !def.is_intermediate_reference());
    assert_eq!(def.is_defined_in_step(), Some(false));
    assert!(def.add_referenced_from(5));
    assert_eq!(def, IngredientRelation::definition(vec![1, 5], false));

    let mut re = IngredientRelation::reference(2, IngredientReferenceTarget::Ingredient);
    assert!(re.referenced_from().is_empty());
    assert_eq!(
        re.references_to(),
        Some((2, IngredientReferenceTarget::Ingredient))
    );
    assert!(!re.is_definition());
    assert!(re.is_regular_reference() && !re.is_intermediate_reference());
    assert_eq!(re.is_defined_in_step(), None);
    assert!(!re.add_referenced_from(5));
    assert_eq!(
        re,
        IngredientRelation::reference(2, IngredientReferenceTarget::Ingredient)
    );

    let step = IngredientRelation::reference(0, IngredientReferenceTarget::Step);
    assert!(step.is_intermediate_reference() && !step.is_regular_reference());
    let section = IngredientRelation::reference(1, IngredientReferenceTarget::Section);
    assert!(section.is_intermediate_reference());
    assert_eq!(
        section.references_to(),
        Some((1, IngredientReferenceTarget::Section))
    );
}

#[test]
fn numbering_of_a_section_can_be_checked() {
    let mut section = Section::new(None);
    assert!(section.is_numbered());
    section.push_text("first some words".to_string());
    section.push_step(vec![]);
    section.push_step(vec![]);
    assert!(section.is_numbered());

    section.content.push(Content::Step(Step::new(vec![], 2)));
    assert!(!section.is_numbered());
    section.content.pop();
    section.content.push(Content::Step(Step::new(vec![], 3)));
    assert!(section.is_numbered());

    let from_zero = Section {
        name: None,
        content: vec![Content::Step(Step::new(vec![], 0))],
    };
    assert!(!from_zero.is_numbered());
}

fn recipe(items: Vec<Item>) -> Recipe<(), Value> {
    let mut section = Section::new(Some("Sauce".to_string()));
    section.push_text("a sauce".to_string());
    section.push_step(items);
    Recipe {
        metadata: Metadata { entries: vec![] },
        sections: vec![Section::new(None), section],
        ingredients: vec![
            ingredient("oil", None, IngredientRelation::definition(vec![], true)),
            ingredient("salt", None, IngredientRelation::definition(vec![], true)),
        ],
        cookware: vec![cookware("pan", None, definition(vec![]))],
        timers: vec![],
        inline_quantities: vec![Quantity::new(num("5"), None)],
        data: (),
    }
}

#[test]
fn items_must_point_into_the_recipe() {
    let good = recipe(vec![
        Item::Text {
            value: "fry in".to_string(),
        },
        Item::Ingredient { index: 1 },
        Item::Cookware { index: 0 },
        Item::InlineQuantity { index: 0 },
    ]);
    assert_eq!(
        good.counts(),
        Counts {
            ingredients: 2,
            cookware: 1,
            timers: 0,
            inline_quantities: 1
        }
    );
    assert!(good.check_items());
    assert!(recipe(vec![]).check_items());

    assert!(!recipe(vec![Item::Ingredient { index: 2 }]).check_items());
    assert!(!recipe(vec![Item::Cookware { index: 1 }]).check_items());
    assert!(!recipe(vec![Item::Timer { index: 0 }]).check_items());
    assert!(!recipe(vec![Item::InlineQuantity { index: 1 }]).check_items());

    let mut with_timer = recipe(vec![Item::Timer { index: 0 }]);
    with_timer.timers.push(Timer {
        name: Some("rest".to_string()),
        quantity: None,
    });
    assert!(with_timer.check_items());
    let counts = with_timer.counts();
    assert!(with_timer.sections[1].is_within(counts));
    assert!(with_timer.sections[1].content[1].is_within(counts));
    assert!(Item::Timer { index: 0 }.is_within(counts));
    assert!(!Item::Timer { index: 1 }.is_within(counts));
}
