//! Linking references to definitions: how the components of one list come
//! to point at each other by index.

use vstd::prelude::*;
use crate::model::{ComponentRelation, Cookware, Ingredient, IngredientReferenceTarget, IngredientRelation};

verus! {

/// The references and definitions of one list agree: a reference into the
/// list is to a definition of the list that names it back, and what a
/// definition names are references into the list to that very definition,
/// each named once. `inward` says of each component whether, if it is a
/// reference, it is one into the list.
pub open spec fn links_agree(relations: Seq<ComponentRelation>, inward: Seq<bool>) -> bool {
    &&& inward.len() == relations.len()
    &&& forall|i: int|
        0 <= i < relations.len() && (#[trigger] relations[i]) is Reference && inward[i] ==> {
            &&& relations[i]->references_to < relations.len()
            &&& relations[relations[i]->references_to as int] is Definition
            &&& relations[relations[i]->references_to as int].referenced_from_spec().contains(
                i as usize,
            )
        }
    &&& forall|d: int, k: int|
        0 <= d < relations.len() && 0 <= k < relations[d].referenced_from_spec().len() ==> {
            &&& (#[trigger] relations[d].referenced_from_spec()[k]) < relations.len()
            &&& relations[relations[d].referenced_from_spec()[k] as int]
                == (ComponentRelation::Reference { references_to: d as usize })
            &&& inward[relations[d].referenced_from_spec()[k] as int]
        }
    &&& forall|d: int|
        0 <= d < relations.len() ==> (#[trigger] relations[d]).referenced_from_spec().no_duplicates()
}

/// The references and definitions of a list whose references are all into
/// the list agree.
pub open spec fn relations_linked(relations: Seq<ComponentRelation>) -> bool {
    links_agree(relations, Seq::new(relations.len(), |i: int| true))
}

/// A definition that nothing refers to yet.
pub open spec fn is_fresh_definition(relation: ComponentRelation) -> bool {
    relation is Definition && relation.referenced_from_spec().len() == 0
}

/// Relations that agree still do when a component is added at the end that
/// is a definition which nothing refers to, or a reference out of the list.
pub proof fn lemma_push_unlinked(
    relations: Seq<ComponentRelation>,
    inward: Seq<bool>,
    added: ComponentRelation,
    added_inward: bool,
)
    requires
        links_agree(relations, inward),
        is_fresh_definition(added) || (added is Reference && !added_inward),
    ensures
        links_agree(relations.push(added), inward.push(added_inward)),
{
    let after = relations.push(added);
    let mask = inward.push(added_inward);
    assert forall|i: int|
        0 <= i < after.len() && (#[trigger] after[i]) is Reference && mask[i] implies {
        &&& after[i]->references_to < after.len()
        &&& after[after[i]->references_to as int] is Definition
        &&& after[after[i]->references_to as int].referenced_from_spec().contains(i as usize)
    } by {
        assert(after[i] == relations[i]);
        assert(mask[i] == inward[i]);
        assert(after[relations[i]->references_to as int]
            == relations[relations[i]->references_to as int]);
    }
    assert forall|d: int, k: int|
        0 <= d < after.len() && 0 <= k < after[d].referenced_from_spec().len() implies {
        &&& (#[trigger] after[d].referenced_from_spec()[k]) < after.len()
        &&& after[after[d].referenced_from_spec()[k] as int]
            == (ComponentRelation::Reference { references_to: d as usize })
        &&& mask[after[d].referenced_from_spec()[k] as int]
    } by {
        assert(after[d] == relations[d]);
        let r = relations[d].referenced_from_spec()[k];
        assert(after[r as int] == relations[r as int]);
        assert(mask[r as int] == inward[r as int]);
    }
    assert forall|d: int| 0 <= d < after.len() implies (#[trigger] after[d]).referenced_from_spec().no_duplicates() by {
        if d < relations.len() {
            assert(after[d] == relations[d]);
        }
    }
}

/// Relations that agree still do when a reference to the definition at
/// `target` is added at the end and that definition names it.
pub proof fn lemma_push_linked(
    relations: Seq<ComponentRelation>,
    inward: Seq<bool>,
    target: int,
    linked: ComponentRelation,
)
    requires
        links_agree(relations, inward),
        0 <= target < relations.len(),
        relations.len() < usize::MAX,
        relations[target] is Definition,
        linked is Definition,
        linked.referenced_from_spec() == relations[target].referenced_from_spec().push(
            relations.len() as usize,
        ),
    ensures
        links_agree(
            relations.update(target, linked).push(
                ComponentRelation::Reference { references_to: target as usize },
            ),
            inward.push(true),
        ),
{
    let n = relations.len() as int;
    let new = ComponentRelation::Reference { references_to: target as usize };
    let after = relations.update(target, linked).push(new);
    let mask = inward.push(true);
    let old_refs = relations[target].referenced_from_spec();
    assert forall|i: int|
        0 <= i < after.len() && (#[trigger] after[i]) is Reference && mask[i] implies {
        &&& after[i]->references_to < after.len()
        &&& after[after[i]->references_to as int] is Definition
        &&& after[after[i]->references_to as int].referenced_from_spec().contains(i as usize)
    } by {
        if i == n {
            assert(linked.referenced_from_spec()[old_refs.len() as int] == n as usize);
        } else {
            assert(after[i] == relations[i]);
            assert(mask[i] == inward[i]);
            let d = relations[i]->references_to as int;
            if d == target {
                let k = choose|k: int| 0 <= k < old_refs.len() && old_refs[k] == i as usize;
                assert(linked.referenced_from_spec()[k] == i as usize);
            } else {
                assert(after[d] == relations[d]);
            }
        }
    }
    assert forall|d: int, k: int|
        0 <= d < after.len() && 0 <= k < after[d].referenced_from_spec().len() implies {
        &&& (#[trigger] after[d].referenced_from_spec()[k]) < after.len()
        &&& after[after[d].referenced_from_spec()[k] as int]
            == (ComponentRelation::Reference { references_to: d as usize })
        &&& mask[after[d].referenced_from_spec()[k] as int]
    } by {
        if d == target {
            if k < old_refs.len() {
                let r = old_refs[k];
                assert(linked.referenced_from_spec()[k] == r);
                assert(relations[target].referenced_from_spec()[k] == r);
                assert(r < n);
                assert(relations[r as int] is Reference);
                assert(after[r as int] == relations[r as int]);
                assert(mask[r as int] == inward[r as int]);
            }
        } else if d < n {
            assert(after[d] == relations[d]);
            let r = relations[d].referenced_from_spec()[k];
            assert(r < n);
            assert(relations[r as int] is Reference);
            assert(after[r as int] == relations[r as int]);
            assert(mask[r as int] == inward[r as int]);
        }
    }
    assert forall|d: int| 0 <= d < after.len() implies (#[trigger] after[d]).referenced_from_spec().no_duplicates() by {
        if d == target {
            assert(relations[target].referenced_from_spec().no_duplicates());
            assert forall|a: int, b: int|
                0 <= a < linked.referenced_from_spec().len() && 0 <= b
                    < linked.referenced_from_spec().len() && a != b implies linked.referenced_from_spec()[a]
                != linked.referenced_from_spec()[b] by {
                if a < old_refs.len() {
                    assert(relations[target].referenced_from_spec()[a] < n);
                }
                if b < old_refs.len() {
                    assert(relations[target].referenced_from_spec()[b] < n);
                }
            }
        } else if d < n {
            assert(after[d] == relations[d]);
        }
    }
}

/// A list of `n` components whose references are all into the list, with
/// one more such component.
pub proof fn lemma_all_inward_push(n: nat)
    ensures
        Seq::new(n, |i: int| true).push(true) == Seq::new(n + 1, |i: int| true),
{
    assert(Seq::new(n, |i: int| true).push(true) =~= Seq::new(n + 1, |i: int| true));
}

/// The relations of the cookware items, in order.
pub open spec fn cookware_relations<V>(all: Seq<Cookware<V>>) -> Seq<ComponentRelation> {
    all.map_values(|c: Cookware<V>| c.relation)
}

/// Index of the last of the first `to` cookware items that is a definition
/// named `name`.
pub open spec fn last_cookware_definition<V>(all: Seq<Cookware<V>>, name: Seq<char>, to: int) -> Option<
    usize,
>
    decreases to,
{
    if to <= 0 || to > all.len() {
        None
    } else if all[to - 1].relation is Definition && all[to - 1].name@ == name {
        Some((to - 1) as usize)
    } else {
        last_cookware_definition(all, name, to - 1)
    }
}

/// What `last_cookware_definition` finds is a definition of the list.
pub proof fn lemma_last_cookware_definition<V>(all: Seq<Cookware<V>>, name: Seq<char>, to: int)
    requires
        0 <= to <= all.len() <= usize::MAX,
    ensures
        last_cookware_definition(all, name, to) is Some ==> {
            &&& last_cookware_definition(all, name, to)->0 < to
            &&& all[last_cookware_definition(all, name, to)->0 as int].relation is Definition
            &&& all[last_cookware_definition(all, name, to)->0 as int].name@ == name
        },
    decreases to,
{
    if to > 0 && !(all[to - 1].relation is Definition && all[to - 1].name@ == name) {
        lemma_last_cookware_definition(all, name, to - 1);
    }
}

/// Finds the definition that a reference to the cookware item `name` is
/// to: the last definition of that name.
pub fn find_cookware_definition<V>(all: &[Cookware<V>], name: &String) -> (found: Option<usize>)
    ensures
        found == last_cookware_definition(all@, name@, all@.len() as int),
{
    let mut to: usize = all.len();
    while to > 0
        invariant
            to <= all@.len(),
            last_cookware_definition(all@, name@, all@.len() as int) == last_cookware_definition(
                all@,
                name@,
                to as int,
            ),
        decreases to,
    {
        if all[to - 1].relation.is_definition() && all[to - 1].name == *name {
            return Some(to - 1);
        }
        to -= 1;
    }
    None
}

/// Adds `item` at the end of `all` as a reference to the last definition
/// of its name, and has that definition name it back. Where there is no
/// such definition, `item` is added as a definition of its own that
/// nothing refers to, and the answer is `false`: no index is left
/// dangling. The relation that `item` comes with is replaced either way.
pub fn push_cookware_reference<V>(all: &mut Vec<Cookware<V>>, item: Cookware<V>) -> (found: bool)
    requires
        relations_linked(cookware_relations(old(all)@)),
        old(all)@.len() < usize::MAX,
    ensures
        relations_linked(cookware_relations(final(all)@)),
        final(all)@.len() == old(all)@.len() + 1,
        final(all)@.last().name == item.name,
        final(all)@.last().alias == item.alias,
        final(all)@.last().quantity == item.quantity,
        final(all)@.last().note == item.note,
        final(all)@.last().modifiers == item.modifiers,
        found == last_cookware_definition(
            old(all)@,
            item.name@,
            old(all)@.len() as int,
        ) is Some,
        match last_cookware_definition(old(all)@, item.name@, old(all)@.len() as int) {
            Some(target) => {
                &&& final(all)@.last().relation == (ComponentRelation::Reference {
                    references_to: target,
                })
                &&& final(all)@[target as int].relation is Definition
                &&& final(all)@[target as int].relation.referenced_from_spec() == old(
                    all,
                )@[target as int].relation.referenced_from_spec().push(old(all)@.len() as usize)
                &&& final(all)@[target as int].relation->defined_in_step == old(
                    all,
                )@[target as int].relation->defined_in_step
                &&& final(all)@[target as int].name == old(all)@[target as int].name
                &&& final(all)@[target as int].alias == old(all)@[target as int].alias
                &&& final(all)@[target as int].quantity == old(all)@[target as int].quantity
                &&& final(all)@[target as int].note == old(all)@[target as int].note
                &&& final(all)@[target as int].modifiers == old(all)@[target as int].modifiers
                &&& forall|j: int|
                    0 <= j < old(all)@.len() && j != target ==> final(all)@[j] == old(all)@[j]
            },
            None => {
                &&& is_fresh_definition(final(all)@.last().relation)
                &&& final(all)@.last().relation->defined_in_step
                &&& forall|j: int| 0 <= j < old(all)@.len() ==> final(all)@[j] == old(all)@[j]
            },
        },
{
    let index: usize = all.len();
    let ghost before = all@;
    let Cookware { name, alias, quantity, note, relation: _, modifiers } = item;
    match find_cookware_definition(all.as_slice(), &name) {
        Some(target) => {
            proof {
                lemma_last_cookware_definition(before, name@, before.len() as int);
            }
            all[target].relation.add_referenced_from(index);
            let ghost linked = all@[target as int].relation;
            all.push(
                Cookware {
                    name,
                    alias,
                    quantity,
                    note,
                    relation: ComponentRelation::Reference { references_to: target },
                    modifiers,
                },
            );
            proof {
                let inward = Seq::new(before.len(), |i: int| true);
                lemma_push_linked(cookware_relations(before), inward, target as int, linked);
                lemma_all_inward_push(before.len());
                assert(cookware_relations(all@) =~= cookware_relations(before).update(
                    target as int,
                    linked,
                ).push(ComponentRelation::Reference { references_to: target }));
            }
            true
        },
        None => {
            let relation = ComponentRelation::Definition {
                referenced_from: Vec::new(),
                defined_in_step: true,
            };
            all.push(Cookware { name, alias, quantity, note, relation, modifiers });
            proof {
                let inward = Seq::new(before.len(), |i: int| true);
                lemma_push_unlinked(cookware_relations(before), inward, relation, true);
                lemma_all_inward_push(before.len());
                assert(cookware_relations(all@) =~= cookware_relations(before).push(relation));
            }
            false
        },
    }
}

/// Adds `item` at the end of `all` as a definition that nothing refers to
/// yet. The relation that `item` comes with is replaced.
pub fn push_cookware_definition<V>(all: &mut Vec<Cookware<V>>, item: Cookware<V>, defined_in_step: bool)
    requires
        relations_linked(cookware_relations(old(all)@)),
    ensures
        relations_linked(cookware_relations(final(all)@)),
        final(all)@.len() == old(all)@.len() + 1,
        final(all)@.last().name == item.name,
        final(all)@.last().alias == item.alias,
        final(all)@.last().quantity == item.quantity,
        final(all)@.last().note == item.note,
        final(all)@.last().modifiers == item.modifiers,
        is_fresh_definition(final(all)@.last().relation),
        final(all)@.last().relation->defined_in_step == defined_in_step,
        forall|j: int| 0 <= j < old(all)@.len() ==> final(all)@[j] == old(all)@[j],
{
    let ghost before = all@;
    let Cookware { name, alias, quantity, note, relation: _, modifiers } = item;
    let relation = ComponentRelation::Definition { referenced_from: Vec::new(), defined_in_step };
    all.push(Cookware { name, alias, quantity, note, relation, modifiers });
    proof {
        let inward = Seq::new(before.len(), |i: int| true);
        lemma_push_unlinked(cookware_relations(before), inward, relation, true);
        lemma_all_inward_push(before.len());
        assert(cookware_relations(all@) =~= cookware_relations(before).push(relation));
    }
}

/// The relations of the ingredients, in order, without their targets.
pub open spec fn ingredient_relations<V>(all: Seq<Ingredient<V>>) -> Seq<ComponentRelation> {
    all.map_values(|i: Ingredient<V>| i.relation.relation())
}

/// Of each ingredient, whether its target is an ingredient: whether, if it
/// is a reference, it is one into the list of ingredients.
pub open spec fn ingredient_inward<V>(all: Seq<Ingredient<V>>) -> Seq<bool> {
    all.map_values(
        |i: Ingredient<V>|
            i.relation.reference_target() == Some(IngredientReferenceTarget::Ingredient),
    )
}

/// The references to ingredients and the definitions of a list of
/// ingredients agree. References to steps and sections point elsewhere and
/// are not held to anything.
pub open spec fn ingredients_linked<V>(all: Seq<Ingredient<V>>) -> bool {
    links_agree(ingredient_relations(all), ingredient_inward(all))
}

/// Index of the last of the first `to` ingredients that is a definition
/// named `name`.
pub open spec fn last_ingredient_definition<V>(all: Seq<Ingredient<V>>, name: Seq<char>, to: int) -> Option<
    usize,
>
    decreases to,
{
    if to <= 0 || to > all.len() {
        None
    } else if all[to - 1].relation.relation() is Definition && all[to - 1].name@ == name {
        Some((to - 1) as usize)
    } else {
        last_ingredient_definition(all, name, to - 1)
    }
}

/// What `last_ingredient_definition` finds is a definition of the list.
pub proof fn lemma_last_ingredient_definition<V>(all: Seq<Ingredient<V>>, name: Seq<char>, to: int)
    requires
        0 <= to <= all.len() <= usize::MAX,
    ensures
        last_ingredient_definition(all, name, to) is Some ==> {
            &&& last_ingredient_definition(all, name, to)->0 < to
            &&& all[last_ingredient_definition(all, name, to)->0 as int].relation.relation() is Definition
            &&& all[last_ingredient_definition(all, name, to)->0 as int].name@ == name
        },
    decreases to,
{
    if to > 0 && !(all[to - 1].relation.relation() is Definition && all[to - 1].name@ == name) {
        lemma_last_ingredient_definition(all, name, to - 1);
    }
}

/// Finds the definition that a reference to the ingredient `name` is to:
/// the last definition of that name.
pub fn find_ingredient_definition<V>(all: &[Ingredient<V>], name: &String) -> (found: Option<usize>)
    ensures
        found == last_ingredient_definition(all@, name@, all@.len() as int),
{
    let mut to: usize = all.len();
    while to > 0
        invariant
            to <= all@.len(),
            last_ingredient_definition(all@, name@, all@.len() as int)
                == last_ingredient_definition(all@, name@, to as int),
        decreases to,
    {
        if all[to - 1].relation.is_definition() && all[to - 1].name == *name {
            return Some(to - 1);
        }
        to -= 1;
    }
    None
}

/// `after` is `before` with one ingredient more, and the ingredients of
/// `before` are as they were, but for the one at `except`.
pub open spec fn one_more<V>(after: Seq<Ingredient<V>>, before: Seq<Ingredient<V>>, except: int) -> bool {
    &&& after.len() == before.len() + 1
    &&& forall|j: int| 0 <= j < before.len() && j != except ==> after[j] == before[j]
}

/// `added` is `item` with another relation.
pub open spec fn same_but_relation<V>(added: Ingredient<V>, item: Ingredient<V>) -> bool {
    &&& added.name == item.name
    &&& added.alias == item.alias
    &&& added.quantity == item.quantity
    &&& added.note == item.note
    &&& added.modifiers == item.modifiers
}

/// Adds `item` at the end of `all` as a definition that nothing refers to
/// yet. The relation that `item` comes with is replaced.
pub fn push_ingredient_definition<V>(
    all: &mut Vec<Ingredient<V>>,
    item: Ingredient<V>,
    defined_in_step: bool,
)
    requires
        ingredients_linked(old(all)@),
    ensures
        ingredients_linked(final(all)@),
        one_more(final(all)@, old(all)@, -1),
        same_but_relation(final(all)@.last(), item),
        is_fresh_definition(final(all)@.last().relation.relation()),
        final(all)@.last().relation.relation()->defined_in_step == defined_in_step,
{
    let ghost before = all@;
    let Ingredient { name, alias, quantity, note, relation: _, modifiers } = item;
    let relation = IngredientRelation::definition(Vec::new(), defined_in_step);
    let ghost added = relation.relation();
    all.push(Ingredient { name, alias, quantity, note, relation, modifiers });
    proof {
        lemma_push_unlinked(ingredient_relations(before), ingredient_inward(before), added, false);
        assert(ingredient_relations(all@) =~= ingredient_relations(before).push(added));
        assert(ingredient_inward(all@) =~= ingredient_inward(before).push(false));
    }
}

/// Adds `item` at the end of `all` as a reference to the last definition
/// of its name, and has that definition name it back. Where there is no
/// such definition, `item` is added as a definition of its own that
/// nothing refers to, and the answer is `false`: no index is left
/// dangling. The relation that `item` comes with is replaced either way.
pub fn push_ingredient_reference<V>(all: &mut Vec<Ingredient<V>>, item: Ingredient<V>) -> (found:
    bool)
    requires
        ingredients_linked(old(all)@),
        old(all)@.len() < usize::MAX,
    ensures
        ingredients_linked(final(all)@),
        same_but_relation(final(all)@.last(), item),
        found == last_ingredient_definition(
            old(all)@,
            item.name@,
            old(all)@.len() as int,
        ) is Some,
        match last_ingredient_definition(old(all)@, item.name@, old(all)@.len() as int) {
            Some(target) => {
                &&& one_more(final(all)@, old(all)@, target as int)
                &&& final(all)@.last().relation.relation() == (ComponentRelation::Reference {
                    references_to: target,
                })
                &&& final(all)@.last().relation.reference_target() == Some(
                    IngredientReferenceTarget::Ingredient,
                )
                &&& same_but_relation(final(all)@[target as int], old(all)@[target as int])
                &&& final(all)@[target as int].relation.relation() is Definition
                &&& final(all)@[target as int].relation.relation().referenced_from_spec() == old(
                    all,
                )@[target as int].relation.relation().referenced_from_spec().push(
                    old(all)@.len() as usize,
                )
                &&& final(all)@[target as int].relation.relation()->defined_in_step == old(
                    all,
                )@[target as int].relation.relation()->defined_in_step
            },
            None => {
                &&& one_more(final(all)@, old(all)@, -1)
                &&& is_fresh_definition(final(all)@.last().relation.relation())
                &&& final(all)@.last().relation.relation()->defined_in_step
            },
        },
{
    let index: usize = all.len();
    let ghost before = all@;
    match find_ingredient_definition(all.as_slice(), &item.name) {
        Some(target) => {
            proof {
                lemma_last_ingredient_definition(before, item.name@, before.len() as int);
            }
            let Ingredient { name, alias, quantity, note, relation: _, modifiers } = item;
            all[target].relation.add_referenced_from(index);
            let ghost linked = all@[target as int].relation.relation();
            let relation = IngredientRelation::reference(
                target,
                IngredientReferenceTarget::Ingredient,
            );
            all.push(Ingredient { name, alias, quantity, note, relation, modifiers });
            proof {
                lemma_push_linked(
                    ingredient_relations(before),
                    ingredient_inward(before),
                    target as int,
                    linked,
                );
                assert(ingredient_relations(all@) =~= ingredient_relations(before).update(
                    target as int,
                    linked,
                ).push(ComponentRelation::Reference { references_to: target }));
                assert(ingredient_inward(all@) =~= ingredient_inward(before).push(true));
            }
            true
        },
        None => {
            push_ingredient_definition(all, item, true);
            false
        },
    }
}

/// Adds `item` at the end of `all` as a reference to number `index` of the
/// steps of its section or of the sections of the recipe, as `target`
/// says, of which there are `available`. Where there is no such step or
/// section, `item` is added as a definition of its own that nothing refers
/// to, and the answer is `false`. The relation that `item` comes with is
/// replaced either way.
pub fn push_intermediate_reference<V>(
    all: &mut Vec<Ingredient<V>>,
    item: Ingredient<V>,
    target: IngredientReferenceTarget,
    index: usize,
    available: usize,
) -> (found: bool)
    requires
        ingredients_linked(old(all)@),
        target != IngredientReferenceTarget::Ingredient,
    ensures
        ingredients_linked(final(all)@),
        one_more(final(all)@, old(all)@, -1),
        same_but_relation(final(all)@.last(), item),
        found == (index < available),
        found ==> final(all)@.last().relation.relation() == (ComponentRelation::Reference {
            references_to: index,
        }) && final(all)@.last().relation.reference_target() == Some(target),
        !found ==> is_fresh_definition(final(all)@.last().relation.relation()),
        !found ==> final(all)@.last().relation.relation()->defined_in_step,
{
    if index < available {
        let ghost before = all@;
        let Ingredient { name, alias, quantity, note, relation: _, modifiers } = item;
        let relation = IngredientRelation::reference(index, target);
        let ghost added = relation.relation();
        all.push(Ingredient { name, alias, quantity, note, relation, modifiers });
        proof {
            lemma_push_unlinked(
                ingredient_relations(before),
                ingredient_inward(before),
                added,
                false,
            );
            assert(ingredient_relations(all@) =~= ingredient_relations(before).push(added));
            assert(ingredient_inward(all@) =~= ingredient_inward(before).push(false));
        }
        true
    } else {
        push_ingredient_definition(all, item, true);
        false
    }
}

} // verus!
