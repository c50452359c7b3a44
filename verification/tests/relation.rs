use cooklang::model::{
    ComponentRelation, Cookware, Ingredient, IngredientReferenceTarget, IngredientRelation,
    Modifiers,
};
use cooklang::quantity::Value;
use cooklang::relation::{
    find_cookware_definition, find_ingredient_definition, push_cookware_definition,
    push_cookware_reference, push_ingredient_definition, push_ingredient_reference,
    push_intermediate_reference,
};

fn cookware(name: &str) -> Cookware<Value> {
    Cookware {
        name: name.to_string(),
        alias: None,
        quantity: None,
        note: None,
        // replaced when the item is added
        relation: ComponentRelation::Reference { references_to: 99 },
        modifiers: Modifiers::empty(),
    }
}

fn ingredient(name: &str) -> Ingredient<Value> {
    Ingredient {
        name: name.to_string(),
        alias: None,
        quantity: None,
        note: None,
        // replaced when the item is added
        relation: IngredientRelation::reference(99, IngredientReferenceTarget::Section),
        modifiers: Modifiers::empty(),
    }
}

#[test]
fn cookware_references_link_to_the_last_definition() {
    let mut all: Vec<Cookware<Value>> = Vec::new();
    push_cookware_definition(&mut all, cookware("pan"), true);
    push_cookware_definition(&mut all, cookware("pot"), false);
    assert!(push_cookware_reference(&mut all, cookware("pan")));
    push_cookware_definition(&mut all, cookware("pan"), true);
    assert!(push_cookware_reference(&mut all, cookware("pan")));
    assert!(push_cookware_reference(&mut all, cookware("pan")));
    assert!(push_cookware_reference(&mut all, cookware("pot")));

    let relations: Vec<&ComponentRelation> = all.iter().map(|c| &c.relation).collect();
    assert_eq!(
        relations,
        vec![
            &ComponentRelation::Definition {
                referenced_from: vec![2],
                defined_in_step: true
            },
            &ComponentRelation::Definition {
                referenced_from: vec![6],
                defined_in_step: false
            },
            &ComponentRelation::Reference { references_to: 0 },
            &ComponentRelation::Definition {
                referenced_from: vec![4, 5],
                defined_in_step: true
            },
            &ComponentRelation::Reference { references_to: 3 },
            &ComponentRelation::Reference { references_to: 3 },
            &ComponentRelation::Reference { references_to: 1 },
        ]
    );
    assert_eq!(find_cookware_definition(&all, &"pan".to_string()), Some(3));
    assert_eq!(find_cookware_definition(&all, &"pot".to_string()), Some(1));
    assert_eq!(find_cookware_definition(&all, &"lid".to_string()), None);
    for c in &all {
        assert!(c.relation.references_within(all.len()));
    }
    assert!(!all[3].relation.references_within(5));
    assert!(all[3].relation.references_within(6));
}

#[test]
fn cookware_reference_without_definition_becomes_a_definition() {
    let mut all: Vec<Cookware<Value>> = Vec::new();
    assert!(!push_cookware_reference(&mut all, cookware("wok")));
    assert_eq!(all.len(), 1);
    assert_eq!(all[0].name, "wok");
    assert_eq!(
        all[0].relation,
        ComponentRelation::Definition {
            referenced_from: vec![],
            defined_in_step: true
        }
    );
    // the definition that was made up can be referred to
    assert!(push_cookware_reference(&mut all, cookware("wok")));
    assert_eq!(all[0].relation.referenced_from(), &[1]);
    assert_eq!(all[1].relation.references_to(), Some(0));
}

#[test]
fn ingredient_references_link_to_the_last_definition() {
    let mut all: Vec<Ingredient<Value>> = Vec::new();
    push_ingredient_definition(&mut all, ingredient("flour"), true);
    assert!(push_ingredient_reference(&mut all, ingredient("flour")));
    assert!(!push_ingredient_reference(&mut all, ingredient("salt")));
    assert!(push_ingredient_reference(&mut all, ingredient("flour")));
    assert!(push_ingredient_reference(&mut all, ingredient("salt")));

    assert_eq!(
        all[0].relation,
        IngredientRelation::definition(vec![1, 3], true)
    );
    assert_eq!(
        all[1].relation,
        IngredientRelation::reference(0, IngredientReferenceTarget::Ingredient)
    );
    assert_eq!(all[2].relation, IngredientRelation::definition(vec![4], true));
    assert_eq!(
        all[3].relation,
        IngredientRelation::reference(0, IngredientReferenceTarget::Ingredient)
    );
    assert_eq!(
        all[4].relation,
        IngredientRelation::reference(2, IngredientReferenceTarget::Ingredient)
    );
    assert_eq!(find_ingredient_definition(&all, &"salt".to_string()), Some(2));
    assert_eq!(find_ingredient_definition(&all, &"oil".to_string()), None);
    assert!(all[0].relation.references_within(4));
    assert!(!all[0].relation.references_within(3));
}

#[test]
fn intermediate_references_point_at_steps_and_sections() {
    let mut all: Vec<Ingredient<Value>> = Vec::new();
    push_ingredient_definition(&mut all, ingredient("dough"), false);
    assert!(push_intermediate_reference(
        &mut all,
        ingredient("dough"),
        IngredientReferenceTarget::Step,
        1,
        2
    ));
    assert!(!push_intermediate_reference(
        &mut all,
        ingredient("filling"),
        IngredientReferenceTarget::Section,
        2,
        2
    ));
    assert_eq!(all[0].relation, IngredientRelation::definition(vec![], false));
    assert_eq!(
        all[1].relation,
        IngredientRelation::reference(1, IngredientReferenceTarget::Step)
    );
    assert!(all[1].relation.is_intermediate_reference());
    assert_eq!(all[2].relation, IngredientRelation::definition(vec![], true));
    assert_eq!(all[2].name, "filling");
}
