//! Totals: the quantities of a component and of what refers to it, added
//! up. The arithmetic is the caller's; the order and the bookkeeping are
//! settled here.

use vstd::prelude::*;
use crate::model::{Cookware, Ingredient};
use crate::quantity::{quantity_cloned, Quantity};

verus! {

/// `total` is what adding the first `n` of `items` up can give, where `n` is
/// at least one: a clone of the first, to which the others are added with
/// `plus` from left to right, none of which fails.
pub open spec fn quantities_add_up<V: Clone, E, A: Fn(Quantity<V>, &Quantity<V>) -> Result<
    Quantity<V>,
    E,
>>(plus: A, items: Seq<Quantity<V>>, n: int, total: Quantity<V>) -> bool
    decreases n,
{
    if n <= 1 {
        n == 1 && quantity_cloned(items[0], total)
    } else {
        exists|before: Quantity<V>|
            quantities_add_up(plus, items, n - 1, before) && #[trigger] plus.ensures(
                (before, &items[n - 1]),
                Ok(total),
            )
    }
}

/// Items that add up to `before`, and the next added to it, add up too.
pub proof fn lemma_add_up_step<V: Clone, E, A: Fn(Quantity<V>, &Quantity<V>) -> Result<
    Quantity<V>,
    E,
>>(plus: A, items: Seq<Quantity<V>>, n: int, before: Quantity<V>, total: Quantity<V>)
    requires
        n >= 1,
        quantities_add_up(plus, items, n, before),
        plus.ensures((before, &items[n]), Ok(total)),
    ensures
        quantities_add_up(plus, items, n + 1, total),
{
    assert(quantities_add_up(plus, items, n + 1 - 1, before));
}

/// Adding `items` up fails with `error` at the first addition that fails:
/// the items before it add up, and adding the next to them gives `error`.
pub open spec fn quantities_fail<V: Clone, E, A: Fn(Quantity<V>, &Quantity<V>) -> Result<
    Quantity<V>,
    E,
>>(plus: A, items: Seq<Quantity<V>>, error: E) -> bool {
    exists|n: int, before: Quantity<V>|
        1 <= n < items.len() && quantities_add_up(plus, items, n, before) && #[trigger] plus.ensures(
            (before, &items[n]),
            Err(error),
        )
}

impl<V: Clone> Ingredient<V> {
    /// Calculates the total quantity adding all the quantities from the
    /// references: the quantity of the ingredient, if it has one, and those
    /// of the ingredients that refer to it, in their order. `plus` adds a
    /// quantity to the total so far and `fit` rewrites the total in the
    /// unit that suits it. There is no total where there is no quantity,
    /// and the first addition that fails ends the adding up.
    pub fn total_quantity<E, A, F>(&self, all_ingredients: &[Ingredient<V>], plus: A, fit: F) -> (total:
        Result<Option<Quantity<V>>, E>) where
        A: Fn(Quantity<V>, &Quantity<V>) -> Result<Quantity<V>, E>,
        F: FnOnce(Quantity<V>) -> Quantity<V>,

        requires
            self.relation.relation().references_within_spec(all_ingredients@.len()),
            forall|t: Quantity<V>, q: &Quantity<V>| #[trigger] plus.requires((t, q)),
            forall|t: Quantity<V>| #[trigger] fit.requires((t,)),
        ensures
            match total {
                Ok(None) => self.all_quantities_spec(all_ingredients@).len() == 0,
                Ok(Some(fitted)) => exists|sum: Quantity<V>|
                    quantities_add_up(
                        plus,
                        self.all_quantities_spec(all_ingredients@),
                        self.all_quantities_spec(all_ingredients@).len() as int,
                        sum,
                    ) && #[trigger] fit.ensures((sum,), fitted),
                Err(error) => quantities_fail(
                    plus,
                    self.all_quantities_spec(all_ingredients@),
                    error,
                ),
            },
    {
        let quantities: Vec<&Quantity<V>> = self.all_quantities(all_ingredients);
        let ghost items = self.all_quantities_spec(all_ingredients@);
        if quantities.len() == 0 {
            return Ok(None);
        }
        let mut total: Quantity<V> = quantities[0].clone();
        let mut i: usize = 1;
        while i < quantities.len()
            invariant
                1 <= i <= quantities@.len(),
                quantities@.len() == items.len(),
                forall|k: int| 0 <= k < quantities@.len() ==> *(#[trigger] quantities@[k]) == items[k],
                forall|t: Quantity<V>, q: &Quantity<V>| #[trigger] plus.requires((t, q)),
                items == self.all_quantities_spec(all_ingredients@),
                quantities_add_up(plus, items, i as int, total),
            decreases quantities@.len() - i,
        {
            let ghost before = total;
            match plus(total, quantities[i]) {
                Ok(sum) => {
                    total = sum;
                    proof {
                        lemma_add_up_step(plus, items, i as int, before, total);
                    }
                },
                Err(error) => {
                    return Err(error);
                },
            }
            i += 1;
        }
        Ok(Some(fit(total)))
    }
}

/// `group` is what gathering the first `n` of `items` into `start` gives:
/// each is put in with `put`, from left to right.
pub open spec fn gathers_up<V, G, A: Fn(G, &Quantity<V>) -> G>(
    put: A,
    start: G,
    items: Seq<Quantity<V>>,
    n: int,
    group: G,
) -> bool
    decreases n,
{
    if n <= 0 {
        group == start
    } else {
        exists|before: G|
            gathers_up(put, start, items, n - 1, before) && #[trigger] put.ensures(
                (before, &items[n - 1]),
                group,
            )
    }
}

/// A group that has gathered some items, and the next put into it, has
/// gathered that one too.
pub proof fn lemma_gathers_up_step<V, G, A: Fn(G, &Quantity<V>) -> G>(
    put: A,
    start: G,
    items: Seq<Quantity<V>>,
    n: int,
    before: G,
    group: G,
)
    requires
        n >= 0,
        gathers_up(put, start, items, n, before),
        put.ensures((before, &items[n]), group),
    ensures
        gathers_up(put, start, items, n + 1, group),
{
    assert(gathers_up(put, start, items, n + 1 - 1, before));
}

impl<V> Ingredient<V> {
    /// Groups all quantities from itself and its references (if any): the
    /// quantity of the ingredient, if it has one, and those of the
    /// ingredients that refer to it are put into `grouped` with `put`, in
    /// their order, and `fit` rewrites the groups in the units that suit
    /// them.
    pub fn group_quantities<G, A, F>(
        &self,
        all_ingredients: &[Ingredient<V>],
        grouped: G,
        put: A,
        fit: F,
    ) -> (fitted: G) where A: Fn(G, &Quantity<V>) -> G, F: FnOnce(G) -> G
        requires
            self.relation.relation().references_within_spec(all_ingredients@.len()),
            forall|g: G, q: &Quantity<V>| #[trigger] put.requires((g, q)),
            forall|g: G| #[trigger] fit.requires((g,)),
        ensures
            exists|gathered: G|
                gathers_up(
                    put,
                    grouped,
                    self.all_quantities_spec(all_ingredients@),
                    self.all_quantities_spec(all_ingredients@).len() as int,
                    gathered,
                ) && #[trigger] fit.ensures((gathered,), fitted),
    {
        let quantities: Vec<&Quantity<V>> = self.all_quantities(all_ingredients);
        let ghost items = self.all_quantities_spec(all_ingredients@);
        let ghost start = grouped;
        let mut grouped: G = grouped;
        let mut i: usize = 0;
        while i < quantities.len()
            invariant
                i <= quantities@.len(),
                quantities@.len() == items.len(),
                forall|k: int| 0 <= k < quantities@.len() ==> *(#[trigger] quantities@[k]) == items[k],
                forall|g: G, q: &Quantity<V>| #[trigger] put.requires((g, q)),
                gathers_up(put, start, items, i as int, grouped),
            decreases quantities@.len() - i,
        {
            let ghost before = grouped;
            grouped = put(grouped, quantities[i]);
            proof {
                lemma_gathers_up_step(put, start, items, i as int, before, grouped);
            }
            i += 1;
        }
        fit(grouped)
    }
}

/// `total` is what adding the first `n` of `items` up can give, where `n` is
/// at least one: a clone of the first, to which the others are added with
/// `plus` from left to right.
pub open spec fn amounts_add_up<V: Clone, A: Fn(V, &V) -> V>(
    plus: A,
    items: Seq<V>,
    n: int,
    total: V,
) -> bool
    decreases n,
{
    if n <= 1 {
        n == 1 && cloned(items[0], total)
    } else {
        exists|before: V|
            amounts_add_up(plus, items, n - 1, before) && #[trigger] plus.ensures(
                (before, &items[n - 1]),
                total,
            )
    }
}

/// What the first `n` of some items add up to does not depend on the
/// items after them.
pub proof fn lemma_amounts_add_up_start<V: Clone, A: Fn(V, &V) -> V>(
    plus: A,
    items: Seq<V>,
    others: Seq<V>,
    n: int,
    total: V,
)
    requires
        n <= items.len(),
        n <= others.len(),
        forall|k: int| 0 <= k < n ==> items[k] == others[k],
        amounts_add_up(plus, items, n, total),
    ensures
        amounts_add_up(plus, others, n, total),
    decreases n,
{
    if n > 1 {
        let before = choose|before: V|
            amounts_add_up(plus, items, n - 1, before) && #[trigger] plus.ensures(
                (before, &items[n - 1]),
                total,
            );
        lemma_amounts_add_up_start(plus, items, others, n - 1, before);
    }
}

/// Amounts that add up to `before`, and the next added to it, add up too.
pub proof fn lemma_amounts_add_up_step<V: Clone, A: Fn(V, &V) -> V>(
    plus: A,
    items: Seq<V>,
    n: int,
    before: V,
    total: V,
)
    requires
        n >= 1,
        amounts_add_up(plus, items, n, before),
        plus.ensures((before, &items[n]), total),
    ensures
        amounts_add_up(plus, items, n + 1, total),
{
    assert(amounts_add_up(plus, items, n + 1 - 1, before));
}

/// How many totals there are of `n` amounts that are no text: one, unless
/// there is no such amount.
pub open spec fn totals_of(n: nat) -> int {
    if n == 0 {
        0
    } else {
        1
    }
}

/// The amounts among `amounts` that `is_text` takes for text, where
/// `text` is `true`, or those that it does not, where `text` is `false`.
pub open spec fn amounts_where<V, T: Fn(&V) -> bool>(is_text: T, amounts: Seq<V>, text: bool) -> Seq<
    V,
> {
    amounts.filter(|v: V| is_text.ensures((&v,), true) == text)
}

impl<V: Clone> Cookware<V> {
    /// Groups all the amounts of itself and its references. The first
    /// element is the total of the amounts that are no text (if any): a
    /// clone of the first of them, to which the others are added with
    /// `plus` in their order. The rest are clones of the text amounts, in
    /// their order. `is_text` tells text from the rest.
    pub fn group_amounts<T, A>(&self, all_cookware: &[Cookware<V>], is_text: T, plus: A) -> (grouped:
        Vec<V>) where T: Fn(&V) -> bool, A: Fn(V, &V) -> V
        requires
            self.relation.references_within_spec(all_cookware@.len()),
            forall|v: &V| #[trigger] is_text.requires((v,)),
            forall|v: &V| !(is_text.ensures((v,), true) && is_text.ensures((v,), false)),
            forall|t: V, v: &V| #[trigger] plus.requires((t, v)),
        ensures
            ({
                let numeric = amounts_where(is_text, self.all_amounts_spec(all_cookware@), false);
                let text = amounts_where(is_text, self.all_amounts_spec(all_cookware@), true);
                let skip = totals_of(numeric.len());
                &&& grouped@.len() == skip + text.len()
                &&& numeric.len() > 0 ==> amounts_add_up(
                    plus,
                    numeric,
                    numeric.len() as int,
                    grouped@[0],
                )
                &&& forall|k: int|
                    0 <= k < text.len() ==> cloned(text[k], #[trigger] grouped@[skip + k])
            }),
    {
        let amounts: Vec<&V> = self.all_amounts(all_cookware);
        let ghost all = self.all_amounts_spec(all_cookware@);
        let ghost textual = |v: V| is_text.ensures((&v,), true) == true;
        let ghost other = |v: V| is_text.ensures((&v,), true) == false;
        let mut total: Option<V> = None;
        let mut texts: Vec<V> = Vec::new();
        let mut i: usize = 0;
        proof {
            reveal(Seq::filter);
        }
        while i < amounts.len()
            invariant
                i <= amounts@.len(),
                amounts@.len() == all.len(),
                forall|k: int| 0 <= k < amounts@.len() ==> *(#[trigger] amounts@[k]) == all[k],
                forall|v: &V| #[trigger] is_text.requires((v,)),
                forall|v: &V| !(is_text.ensures((v,), true) && is_text.ensures((v,), false)),
                forall|t: V, v: &V| #[trigger] plus.requires((t, v)),
                textual == (|v: V| is_text.ensures((&v,), true) == true),
                other == (|v: V| is_text.ensures((&v,), true) == false),
                total is None <==> all.subrange(0, i as int).filter(other).len() == 0,
                total is Some ==> amounts_add_up(
                    plus,
                    all.subrange(0, i as int).filter(other),
                    all.subrange(0, i as int).filter(other).len() as int,
                    total->0,
                ),
                texts@.len() == all.subrange(0, i as int).filter(textual).len(),
                forall|k: int|
                    0 <= k < texts@.len() ==> cloned(
                        all.subrange(0, i as int).filter(textual)[k],
                        #[trigger] texts@[k],
                    ),
            decreases amounts@.len() - i,
        {
            let v: &V = amounts[i];
            let ghost seen = all.subrange(0, i as int);
            let ghost numeric = seen.filter(other);
            proof {
                assert(all.subrange(0, i + 1) =~= seen.push(*v));
                seen.lemma_filter_push(*v, textual);
                seen.lemma_filter_push(*v, other);
            }
            if is_text(v) {
                texts.push(v.clone());
            } else {
                let ghost grown = numeric.push(*v);
                match total {
                    None => {
                        total = Some(v.clone());
                    },
                    Some(sum) => {
                        let ghost before = sum;
                        let next: V = plus(sum, v);
                        proof {
                            lemma_amounts_add_up_start(
                                plus,
                                numeric,
                                grown,
                                numeric.len() as int,
                                before,
                            );
                            lemma_amounts_add_up_step(
                                plus,
                                grown,
                                numeric.len() as int,
                                before,
                                next,
                            );
                        }
                        total = Some(next);
                    },
                }
            }
            i += 1;
        }
        assert(all.subrange(0, i as int) =~= all);
        let mut grouped: Vec<V> = Vec::new();
        match total {
            Some(sum) => {
                grouped.push(sum);
            },
            None => {},
        }
        grouped.append(&mut texts);
        grouped
    }
}

} // verus!
