//! The recipe model: sections of steps, and flat lists of the ingredients,
//! cookware, timers and quantities that the steps point into.

use vstd::prelude::*;
use crate::quantity::{Quantity, Value};

verus! {

/// Marks on a component that change how it is treated.
#[derive(Clone, Copy, Debug, PartialEq, Eq, Structural, Hash)]
pub struct Modifiers {
    /// The component is another recipe, named by its path.
    pub recipe: bool,
    /// The component refers to an earlier one of the same name.
    pub reference: bool,
    /// The component is left out of lists.
    pub hidden: bool,
    /// The component is optional.
    pub optional: bool,
    /// The component is a new definition even if the name is known.
    pub new: bool,
}

impl Modifiers {
    /// No modifier set.
    pub fn empty() -> (m: Modifiers)
        ensures
            m == (Modifiers {
                recipe: false,
                reference: false,
                hidden: false,
                optional: false,
                new: false,
            }),
    {
        Modifiers { recipe: false, reference: false, hidden: false, optional: false, new: false }
    }
}

/// Key and value pairs that describe the recipe as a whole, in source order.
#[derive(Debug, PartialEq)]
pub struct Metadata {
    pub entries: Vec<(String, String)>,
}

/// A complete recipe. `D` tells a recipe that was scaled from one that was
/// not; `V` is the kind of value its quantities hold.
#[derive(Debug, PartialEq)]
pub struct Recipe<D, V> {
    /// Metadata
    pub metadata: Metadata,
    /// The sections, in order. A recipe that declares none has one section
    /// without a name.
    pub sections: Vec<Section>,
    /// All the ingredients
    pub ingredients: Vec<Ingredient<V>>,
    /// All the cookware
    pub cookware: Vec<Cookware<V>>,
    /// All the timers
    pub timers: Vec<Timer<V>>,
    /// All the quantities that stand in the text of a step
    pub inline_quantities: Vec<Quantity<Value>>,
    pub data: D,
}

/// A section holding steps
#[derive(Debug, PartialEq)]
pub struct Section {
    /// Name of the section
    pub name: Option<String>,
    /// Content inside
    pub content: Vec<Content>,
}

/// Each type of content inside a section
#[derive(Debug, PartialEq)]
pub enum Content {
    /// A step
    Step(Step),
    /// A paragraph of just text, no instructions
    Text(String),
}

/// A step holding step [`Item`]s
#[derive(Debug, PartialEq)]
#[non_exhaustive]
pub struct Step {
    /// [`Item`]s inside
    pub items: Vec<Item>,
    /// Step number: steps are counted from 1 in each section, and text
    /// paragraphs are not counted.
    pub number: u32,
}

/// A step item. But for [`Item::Text`], the value is the index of the item
/// in its list in the [`Recipe`].
#[derive(Debug, PartialEq)]
pub enum Item {
    /// Just plain text
    Text { value: String },
    Ingredient { index: usize },
    Cookware { index: usize },
    Timer { index: usize },
    InlineQuantity { index: usize },
}

/// A recipe ingredient
#[derive(Debug, PartialEq)]
pub struct Ingredient<V> {
    /// Name. It can have the form of a path if the ingredient is a recipe.
    pub name: String,
    /// Alias
    pub alias: Option<String>,
    /// Quantity
    pub quantity: Option<Quantity<V>>,
    /// Note
    pub note: Option<String>,
    /// How the ingredient is related to others
    pub relation: IngredientRelation,
    pub modifiers: Modifiers,
}

/// A recipe cookware item
#[derive(Debug, PartialEq)]
pub struct Cookware<V> {
    /// Name
    pub name: String,
    /// Alias
    pub alias: Option<String>,
    /// Amount needed. This is a value, not a quantity: it has no unit.
    pub quantity: Option<V>,
    /// Note
    pub note: Option<String>,
    /// How the cookware is related to others
    pub relation: ComponentRelation,
    pub modifiers: Modifiers,
}

/// A recipe timer
#[derive(Debug, PartialEq)]
pub struct Timer<V> {
    /// Name
    pub name: Option<String>,
    /// Time quantity
    pub quantity: Option<Quantity<V>>,
}

/// Relation between components
#[derive(Debug, PartialEq)]
pub enum ComponentRelation {
    /// The component is a definition
    Definition {
        /// Indices of the components of the same kind that refer to this one
        referenced_from: Vec<usize>,
        /// True if the definition was in a step
        defined_in_step: bool,
    },
    /// The component is a reference
    Reference {
        /// Index of the definition component
        references_to: usize,
    },
}

/// What an ingredient reference refers to
#[derive(Clone, Copy, Debug, PartialEq, Eq, Structural, Hash)]
pub enum IngredientReferenceTarget {
    /// Ingredient definition
    Ingredient,
    /// Step in the current section
    Step,
    /// Section in the current recipe
    Section,
}

/// Same as [`ComponentRelation`], but a reference may also be to a step or
/// a section. The target is there for a reference and for nothing else.
#[derive(Debug, PartialEq)]
pub struct IngredientRelation {
    relation: ComponentRelation,
    reference_target: Option<IngredientReferenceTarget>,
}

/// How many of `content` are steps.
pub open spec fn step_count(content: Seq<Content>) -> nat {
    content.filter(|c: Content| c is Step).len()
}

/// The steps of `content` are numbered from 1 in their order; text
/// paragraphs do not count.
pub open spec fn steps_numbered(content: Seq<Content>) -> bool {
    forall|i: int|
        0 <= i < content.len() && (#[trigger] content[i]) is Step ==> content[i]->Step_0.number
            == step_count(content.subrange(0, i)) + 1
}

/// Adding one piece of content adds one to the count of steps if it is a
/// step, and nothing if it is text.
pub proof fn lemma_step_count_push(content: Seq<Content>, next: Content)
    ensures
        step_count(content.push(next)) == step_count(content) + if next is Step {
            1nat
        } else {
            0nat
        },
        step_count(content) <= content.len(),
{
    content.lemma_filter_push(next, |c: Content| c is Step);
    content.lemma_filter_len(|c: Content| c is Step);
}

impl Section {
    /// The number that the next step of the section gets.
    pub open spec fn next_step_number_spec(&self) -> nat {
        step_count(self.content@) + 1
    }

    /// The number that the next step of the section gets: one more than the
    /// number of steps in it. `None` where that number does not fit.
    pub fn next_step_number(&self) -> (number: Option<u32>)
        requires
            steps_numbered(self.content@),
        ensures
            number is Some <==> self.next_step_number_spec() <= u32::MAX,
            number is Some ==> number->0 == self.next_step_number_spec(),
    {
        let ghost is_step = |c: Content| c is Step;
        let mut i: usize = self.content.len();
        proof {
            assert(self.content@.subrange(0, i as int) =~= self.content@);
        }
        while i > 0
            invariant
                i <= self.content@.len(),
                steps_numbered(self.content@),
                is_step == (|c: Content| c is Step),
                step_count(self.content@) == step_count(self.content@.subrange(0, i as int)),
            decreases i,
        {
            proof {
                let upto = self.content@.subrange(0, i as int);
                assert(upto.drop_last() =~= self.content@.subrange(0, i - 1));
                assert(upto.drop_last().push(upto.last()) =~= upto);
                lemma_step_count_push(upto.drop_last(), upto.last());
            }
            match &self.content[i - 1] {
                Content::Step(step) => {
                    return step.number.checked_add(1);
                },
                Content::Text(_) => {},
            }
            i -= 1;
        }
        proof {
            reveal(Seq::filter);
        }
        Some(1)
    }

    /// Decides whether the steps of the section are numbered from 1 in
    /// their order.
    pub fn is_numbered(&self) -> (yes: bool)
        ensures
            yes == steps_numbered(self.content@),
    {
        let mut steps: usize = 0;
        let mut i: usize = 0;
        proof {
            reveal(Seq::filter);
        }
        while i < self.content.len()
            invariant
                i <= self.content@.len(),
                steps == step_count(self.content@.subrange(0, i as int)),
                steps <= i,
                forall|k: int|
                    0 <= k < i && (#[trigger] self.content@[k]) is Step
                        ==> self.content@[k]->Step_0.number == step_count(
                        self.content@.subrange(0, k),
                    ) + 1,
            decreases self.content@.len() - i,
        {
            proof {
                let upto = self.content@.subrange(0, i as int);
                assert(self.content@.subrange(0, i + 1) =~= upto.push(self.content@[i as int]));
                lemma_step_count_push(upto, self.content@[i as int]);
            }
            match &self.content[i] {
                Content::Step(step) => {
                    if steps >= 4294967295usize || step.number != (steps + 1) as u32 {
                        return false;
                    }
                    steps += 1;
                },
                Content::Text(_) => {},
            }
            i += 1;
        }
        true
    }

    /// Adds a step with the given items at the end of the section and gives
    /// it the next number. Where that number does not fit, the items come
    /// back and the section stays as it is.
    pub fn push_step(&mut self, items: Vec<Item>) -> (rejected: Option<Vec<Item>>)
        requires
            steps_numbered(old(self).content@),
        ensures
            final(self).name == old(self).name,
            steps_numbered(final(self).content@),
            rejected is Some <==> old(self).next_step_number_spec() > u32::MAX,
            rejected is Some ==> rejected->0 == items && final(self).content@ == old(self).content@,
            rejected is None ==> final(self).content@ == old(self).content@.push(
                Content::Step(Step { items, number: old(self).next_step_number_spec() as u32 }),
            ),
    {
        match self.next_step_number() {
            Some(number) => {
                let ghost before = self.content@;
                let step = Step { items, number };
                self.content.push(Content::Step(step));
                proof {
                    lemma_numbered_push(before, Content::Step(step));
                }
                None
            },
            None => Some(items),
        }
    }

    /// Adds a paragraph of text at the end of the section. The number of
    /// the next step stays what it was.
    pub fn push_text(&mut self, text: String)
        requires
            steps_numbered(old(self).content@),
        ensures
            final(self).name == old(self).name,
            steps_numbered(final(self).content@),
            final(self).content@ == old(self).content@.push(Content::Text(text)),
            final(self).next_step_number_spec() == old(self).next_step_number_spec(),
    {
        let ghost before = self.content@;
        self.content.push(Content::Text(text));
        proof {
            lemma_numbered_push(before, Content::Text(text));
            lemma_step_count_push(before, Content::Text(text));
        }
    }

    /// A section with the given name and no content.
    pub fn new(name: Option<String>) -> (section: Section)
        ensures
            section.name == name,
            section.content@ == Seq::<Content>::empty(),
            steps_numbered(section.content@),
    {
        Section { name, content: Vec::new() }
    }

    /// Check if the section is empty: it has no name and no content.
    pub fn is_empty(&self) -> (empty: bool)
        ensures
            empty == (self.name is None && self.content@.len() == 0),
    {
        self.name.is_none() && self.content.len() == 0
    }
}

/// Content whose steps are numbered stays so when text is added, or a step
/// with the next number.
pub proof fn lemma_numbered_push(content: Seq<Content>, next: Content)
    requires
        steps_numbered(content),
        next is Step ==> next->Step_0.number == step_count(content) + 1,
    ensures
        steps_numbered(content.push(next)),
{
    let after = content.push(next);
    assert forall|i: int| 0 <= i < after.len() && (#[trigger] after[i]) is Step implies after[i]->Step_0.number
        == step_count(after.subrange(0, i)) + 1 by {
        assert(after.subrange(0, i) =~= content.subrange(0, i));
        if i == content.len() {
            assert(content.subrange(0, i) =~= content);
        }
    }
}

impl Step {
    /// The step with the given items and number.
    pub fn new(items: Vec<Item>, number: u32) -> (step: Step)
        ensures
            step == (Step { items, number }),
    {
        Step { items, number }
    }
}

impl Content {
    /// Checks if the content is a regular step
    pub fn is_step(&self) -> (yes: bool)
        ensures
            yes == (self is Step),
    {
        match self {
            Content::Step(_) => true,
            Content::Text(_) => false,
        }
    }

    /// Checks if the content is a text paragraph
    pub fn is_text(&self) -> (yes: bool)
        ensures
            yes == (self is Text),
    {
        match self {
            Content::Step(_) => false,
            Content::Text(_) => true,
        }
    }

    /// The step inside. Only for content that is a step.
    pub fn as_step(&self) -> (step: &Step)
        requires
            self is Step,
        ensures
            *step == self->Step_0,
    {
        match self {
            Content::Step(s) => s,
            Content::Text(_) => vstd::pervasive::unreached(),
        }
    }

    /// The text inside. Only for content that is a text paragraph.
    pub fn as_text(&self) -> (text: &str)
        requires
            self is Text,
        ensures
            text@ == self->Text_0@,
    {
        match self {
            Content::Step(_) => vstd::pervasive::unreached(),
            Content::Text(t) => t.as_str(),
        }
    }
}

impl ComponentRelation {
    /// The indices of the components that refer to this one: those of a
    /// definition, none for a reference.
    pub open spec fn referenced_from_spec(&self) -> Seq<usize> {
        match self {
            ComponentRelation::Definition { referenced_from, .. } => referenced_from@,
            ComponentRelation::Reference { .. } => Seq::empty(),
        }
    }

    /// Gets a list of the components referencing this one, as indices into
    /// the list of the [`Recipe`] that this component is in.
    pub fn referenced_from(&self) -> (indices: &[usize])
        ensures
            indices@ == self.referenced_from_spec(),
    {
        match self {
            ComponentRelation::Definition { referenced_from, .. } => referenced_from.as_slice(),
            ComponentRelation::Reference { .. } => &[],
        }
    }

    /// Every component that refers to this one has an index below `len`.
    pub open spec fn references_within_spec(&self, len: nat) -> bool {
        forall|k: int|
            0 <= k < self.referenced_from_spec().len() ==> (#[trigger] self.referenced_from_spec()[k])
                < len
    }

    /// Decides whether every component that refers to this one has an
    /// index below `len`: whether it is in a list of `len` components.
    pub fn references_within(&self, len: usize) -> (yes: bool)
        ensures
            yes == self.references_within_spec(len as nat),
    {
        let refs: &[usize] = self.referenced_from();
        let mut k: usize = 0;
        while k < refs.len()
            invariant
                k <= refs@.len(),
                refs@ == self.referenced_from_spec(),
                forall|j: int| 0 <= j < k ==> (#[trigger] refs@[j]) < len,
            decreases refs@.len() - k,
        {
            if refs[k] >= len {
                return false;
            }
            k += 1;
        }
        true
    }

    /// Records that component number `index` refers to this one. Does
    /// nothing to a reference, and says so.
    pub fn add_referenced_from(&mut self, index: usize) -> (added: bool)
        ensures
            added == (*old(self) is Definition),
            match *old(self) {
                ComponentRelation::Definition { referenced_from, defined_in_step } => {
                    &&& *final(self) is Definition
                    &&& final(self).referenced_from_spec() == referenced_from@.push(index)
                    &&& final(self)->defined_in_step == defined_in_step
                },
                ComponentRelation::Reference { .. } => *final(self) == *old(self),
            },
    {
        match self {
            ComponentRelation::Definition { referenced_from, .. } => {
                referenced_from.push(index);
                true
            },
            ComponentRelation::Reference { .. } => false,
        }
    }

    /// Get the index the relations references to
    pub fn references_to(&self) -> (index: Option<usize>)
        ensures
            index == match self {
                ComponentRelation::Definition { .. } => None,
                ComponentRelation::Reference { references_to } => Some(*references_to),
            },
    {
        match self {
            ComponentRelation::Definition { .. } => None,
            ComponentRelation::Reference { references_to } => Some(*references_to),
        }
    }

    /// Check if the relation is a reference
    pub fn is_reference(&self) -> (yes: bool)
        ensures
            yes == (self is Reference),
    {
        match self {
            ComponentRelation::Reference { .. } => true,
            ComponentRelation::Definition { .. } => false,
        }
    }

    /// Check if the relation is a definition
    pub fn is_definition(&self) -> (yes: bool)
        ensures
            yes == (self is Definition),
    {
        match self {
            ComponentRelation::Definition { .. } => true,
            ComponentRelation::Reference { .. } => false,
        }
    }

    /// Checks if the definition was in a step. `None` for references.
    pub fn is_defined_in_step(&self) -> (in_step: Option<bool>)
        ensures
            in_step == match self {
                ComponentRelation::Definition { defined_in_step, .. } => Some(*defined_in_step),
                ComponentRelation::Reference { .. } => None,
            },
    {
        match self {
            ComponentRelation::Definition { defined_in_step, .. } => Some(*defined_in_step),
            ComponentRelation::Reference { .. } => None,
        }
    }
}

impl IngredientRelation {
    #[verifier::type_invariant]
    spec fn target_matches(&self) -> bool {
        self.reference_target is Some <==> self.relation is Reference
    }

    /// The relation, without the target.
    pub closed spec fn relation(&self) -> ComponentRelation {
        self.relation
    }

    /// What a reference refers to; `None` for a definition.
    pub closed spec fn reference_target(&self) -> Option<IngredientReferenceTarget> {
        self.reference_target
    }

    /// The relation of a definition that the components `referenced_from`
    /// refer to.
    pub fn definition(referenced_from: Vec<usize>, defined_in_step: bool) -> (relation: Self)
        ensures
            relation.relation() == (ComponentRelation::Definition {
                referenced_from,
                defined_in_step,
            }),
            relation.reference_target() is None,
    {
        Self {
            relation: ComponentRelation::Definition { referenced_from, defined_in_step },
            reference_target: None,
        }
    }

    /// The relation of a reference to number `references_to` of what
    /// `reference_target` says.
    pub fn reference(references_to: usize, reference_target: IngredientReferenceTarget) -> (relation:
        Self)
        ensures
            relation.relation() == (ComponentRelation::Reference { references_to }),
            relation.reference_target() == Some(reference_target),
    {
        Self {
            relation: ComponentRelation::Reference { references_to },
            reference_target: Some(reference_target),
        }
    }

    /// Gets a list of the components referencing this one, as indices into
    /// the ingredients of the [`Recipe`].
    pub fn referenced_from(&self) -> (indices: &[usize])
        ensures
            indices@ == self.relation().referenced_from_spec(),
    {
        self.relation.referenced_from()
    }

    /// Decides whether every ingredient that refers to this one has an
    /// index below `len`: whether it is in a list of `len` ingredients.
    pub fn references_within(&self, len: usize) -> (yes: bool)
        ensures
            yes == self.relation().references_within_spec(len as nat),
    {
        self.relation.references_within(len)
    }

    /// Records that ingredient number `index` refers to this one. Does
    /// nothing to a reference, and says so.
    pub fn add_referenced_from(&mut self, index: usize) -> (added: bool)
        ensures
            added == (old(self).relation() is Definition),
            final(self).reference_target() == old(self).reference_target(),
            match old(self).relation() {
                ComponentRelation::Definition { referenced_from, defined_in_step } => {
                    &&& final(self).relation() is Definition
                    &&& final(self).relation().referenced_from_spec() == referenced_from@.push(
                        index,
                    )
                    &&& final(self).relation()->defined_in_step == defined_in_step
                },
                ComponentRelation::Reference { .. } => final(self).relation() == old(
                    self,
                ).relation(),
            },
    {
        proof {
            use_type_invariant(&*self);
        }
        match self.reference_target {
            Some(_) => false,
            None => {
                let mut relation = ComponentRelation::Definition {
                    referenced_from: Vec::new(),
                    defined_in_step: false,
                };
                core::mem::swap(&mut self.relation, &mut relation);
                relation.add_referenced_from(index);
                core::mem::swap(&mut self.relation, &mut relation);
                true
            },
        }
    }

    /// Get the index the relation refrences to and the target. The index is
    /// into the ingredients of the recipe for a target
    /// [`IngredientReferenceTarget::Ingredient`], into the content of the
    /// section that the ingredient is in for
    /// [`IngredientReferenceTarget::Step`], and into the sections of the
    /// recipe for [`IngredientReferenceTarget::Section`].
    pub fn references_to(&self) -> (reference: Option<(usize, IngredientReferenceTarget)>)
        ensures
            self.reference_target() is Some <==> self.relation() is Reference,
            reference == match self.relation() {
                ComponentRelation::Definition { .. } => None,
                ComponentRelation::Reference { references_to } => Some(
                    (references_to, self.reference_target()->0),
                ),
            },
    {
        proof {
            use_type_invariant(self);
        }
        match self.relation.references_to() {
            Some(index) => Some((index, self.reference_target.unwrap())),
            None => None,
        }
    }

    /// Checks if the relation is a regular reference to an ingredient
    pub fn is_regular_reference(&self) -> (yes: bool)
        ensures
            yes == (self.reference_target() == Some(IngredientReferenceTarget::Ingredient)),
    {
        proof {
            use_type_invariant(self);
        }
        match self.references_to() {
            Some((_, IngredientReferenceTarget::Ingredient)) => true,
            _ => false,
        }
    }

    /// Checks if the relation is an intermediate reference to a step or section
    pub fn is_intermediate_reference(&self) -> (yes: bool)
        ensures
            yes == (self.reference_target() == Some(IngredientReferenceTarget::Step)
                || self.reference_target() == Some(IngredientReferenceTarget::Section)),
    {
        proof {
            use_type_invariant(self);
        }
        match self.references_to() {
            Some((_, IngredientReferenceTarget::Step)) => true,
            Some((_, IngredientReferenceTarget::Section)) => true,
            _ => false,
        }
    }

    /// Check if the relation is a definition
    pub fn is_definition(&self) -> (yes: bool)
        ensures
            yes == (self.relation() is Definition),
            yes == (self.reference_target() is None),
    {
        proof {
            use_type_invariant(self);
        }
        self.relation.is_definition()
    }

    /// Checks if the definition was in a step. `None` for references.
    pub fn is_defined_in_step(&self) -> (in_step: Option<bool>)
        ensures
            in_step == match self.relation() {
                ComponentRelation::Definition { defined_in_step, .. } => Some(defined_in_step),
                ComponentRelation::Reference { .. } => None,
            },
    {
        self.relation.is_defined_in_step()
    }
}

/// `Path::file_stem`: the file name in the path `name`, without its
/// extension, where the path has a file name that is valid text. Nothing is
/// claimed of it: what a path's parts are depends on the platform.
#[verifier::external_body]
fn file_stem(name: &str) -> (stem: Option<String>) {
    let stem = std::path::Path::new(name).file_stem()?;
    Some(stem.to_str()?.to_owned())
}

/// The quantity, where there is one, as a list of its own.
pub open spec fn own<T>(quantity: Option<T>) -> Seq<T> {
    match quantity {
        Some(q) => seq![q],
        None => Seq::empty(),
    }
}

/// The text of a file stem, where there is one.
pub open spec fn stem_view(stem: Option<String>) -> Option<Seq<char>> {
    match stem {
        Some(s) => Some(s@),
        None => None,
    }
}

impl<V> Ingredient<V> {
    /// The name to show for the ingredient, given the file stem of its
    /// name: the alias where there is one; else, for an ingredient that is
    /// a recipe and whose name has a file stem, that stem; else the name.
    pub open spec fn display_name_spec(&self, stem: Option<Seq<char>>) -> Seq<char> {
        match self.alias {
            Some(alias) => alias@,
            None => if self.modifiers.recipe && stem is Some {
                stem->0
            } else {
                self.name@
            },
        }
    }

    /// The name to show for the ingredient, where `stem` is the file stem
    /// of its name as a path, if it has one.
    pub fn display_name_with(&self, stem: Option<String>) -> (name: String)
        ensures
            name@ == self.display_name_spec(stem_view(stem)),
    {
        match &self.alias {
            Some(alias) => alias.clone(),
            None => {
                if self.modifiers.recipe {
                    match stem {
                        Some(stem) => stem,
                        None => self.name.clone(),
                    }
                } else {
                    self.name.clone()
                }
            },
        }
    }

    /// Gets the name the ingredient should be displayed with: the alias
    /// where there is one; else the name, or, for an ingredient that is a
    /// recipe, the file stem of the name taken as a path.
    pub fn display_name(&self) -> (name: String)
        ensures
            self.alias is Some ==> name@ == self.alias->0@,
            self.alias is None && !self.modifiers.recipe ==> name@ == self.name@,
            exists|stem: Option<Seq<char>>| name@ == self.display_name_spec(stem),
    {
        let stem: Option<String> = if self.modifiers.recipe {
            file_stem(self.name.as_str())
        } else {
            None
        };
        self.display_name_with(stem)
    }

    /// Access the ingredient modifiers
    pub fn modifiers(&self) -> (modifiers: Modifiers)
        ensures
            modifiers == self.modifiers,
    {
        self.modifiers
    }

    /// The quantity of the ingredient, if it has one, and after it the
    /// quantities of the ingredients that refer to it, in their order.
    pub open spec fn all_quantities_spec(&self, all_ingredients: Seq<Ingredient<V>>) -> Seq<
        Quantity<V>,
    > {
        own(self.quantity) + self.relation.relation().referenced_from_spec().filter_map(
            |i: usize| all_ingredients[i as int].quantity,
        )
    }

    /// Gets all quantities of this ingredient and its references. The
    /// references must be ingredients of `all_ingredients`.
    pub fn all_quantities<'a>(&'a self, all_ingredients: &'a [Ingredient<V>]) -> (quantities: Vec<
        &'a Quantity<V>,
    >)
        requires
            self.relation.relation().references_within_spec(all_ingredients@.len()),
        ensures
            quantities@.len() == self.all_quantities_spec(all_ingredients@).len(),
            forall|k: int|
                0 <= k < quantities@.len() ==> *(#[trigger] quantities@[k])
                    == self.all_quantities_spec(all_ingredients@)[k],
    {
        let mut quantities: Vec<&'a Quantity<V>> = Vec::new();
        match &self.quantity {
            Some(q) => {
                quantities.push(q);
            },
            None => {},
        }
        let refs: &[usize] = self.relation.referenced_from();
        let ghost pick = |i: usize| all_ingredients@[i as int].quantity;
        let ghost head = own(self.quantity);
        let mut i: usize = 0;
        while i < refs.len()
            invariant
                i <= refs@.len(),
                refs@ == self.relation.relation().referenced_from_spec(),
                forall|k: int| 0 <= k < refs@.len() ==> (#[trigger] refs@[k]) < all_ingredients@.len(),
                pick == (|i: usize| all_ingredients@[i as int].quantity),
                head == own(self.quantity),
                quantities@.len() == (head + refs@.subrange(0, i as int).filter_map(pick)).len(),
                forall|k: int|
                    0 <= k < quantities@.len() ==> *(#[trigger] quantities@[k]) == (head
                        + refs@.subrange(0, i as int).filter_map(pick))[k],
            decreases refs@.len() - i,
        {
            let index: usize = refs[i];
            proof {
                let upto = refs@.subrange(0, i + 1);
                assert(upto.drop_last() =~= refs@.subrange(0, i as int));
            }
            match &all_ingredients[index].quantity {
                Some(q) => {
                    quantities.push(q);
                },
                None => {},
            }
            i += 1;
        }
        assert(refs@.subrange(0, i as int) =~= refs@);
        quantities
    }
}

impl<V> Cookware<V> {
    /// Gets the name the cookware item should be displayed with: the alias
    /// where there is one, else the name.
    pub fn display_name(&self) -> (name: &str)
        ensures
            name@ == match self.alias {
                Some(alias) => alias@,
                None => self.name@,
            },
    {
        match &self.alias {
            Some(alias) => alias.as_str(),
            None => self.name.as_str(),
        }
    }

    /// Access the cookware modifiers
    pub fn modifiers(&self) -> (modifiers: Modifiers)
        ensures
            modifiers == self.modifiers,
    {
        self.modifiers
    }

    /// The amount of the cookware item, if it has one, and after it the
    /// amounts of the items that refer to it, in their order.
    pub open spec fn all_amounts_spec(&self, all_cookware: Seq<Cookware<V>>) -> Seq<V> {
        own(self.quantity) + self.relation.referenced_from_spec().filter_map(
            |i: usize| all_cookware[i as int].quantity,
        )
    }

    /// Gets all the amounts of this cookware item and its references. The
    /// references must be items of `all_cookware`.
    pub fn all_amounts<'a>(&'a self, all_cookware: &'a [Cookware<V>]) -> (amounts: Vec<&'a V>)
        requires
            self.relation.references_within_spec(all_cookware@.len()),
        ensures
            amounts@.len() == self.all_amounts_spec(all_cookware@).len(),
            forall|k: int|
                0 <= k < amounts@.len() ==> *(#[trigger] amounts@[k]) == self.all_amounts_spec(
                    all_cookware@,
                )[k],
    {
        let mut amounts: Vec<&'a V> = Vec::new();
        match &self.quantity {
            Some(q) => {
                amounts.push(q);
            },
            None => {},
        }
        let refs: &[usize] = self.relation.referenced_from();
        let ghost pick = |i: usize| all_cookware@[i as int].quantity;
        let ghost head = own(self.quantity);
        let mut i: usize = 0;
        while i < refs.len()
            invariant
                i <= refs@.len(),
                refs@ == self.relation.referenced_from_spec(),
                forall|k: int| 0 <= k < refs@.len() ==> (#[trigger] refs@[k]) < all_cookware@.len(),
                pick == (|i: usize| all_cookware@[i as int].quantity),
                head == own(self.quantity),
                amounts@.len() == (head + refs@.subrange(0, i as int).filter_map(pick)).len(),
                forall|k: int|
                    0 <= k < amounts@.len() ==> *(#[trigger] amounts@[k]) == (head + refs@.subrange(
                        0,
                        i as int,
                    ).filter_map(pick))[k],
            decreases refs@.len() - i,
        {
            let index: usize = refs[i];
            proof {
                let upto = refs@.subrange(0, i + 1);
                assert(upto.drop_last() =~= refs@.subrange(0, i as int));
            }
            match &all_cookware[index].quantity {
                Some(q) => {
                    amounts.push(q);
                },
                None => {},
            }
            i += 1;
        }
        assert(refs@.subrange(0, i as int) =~= refs@);
        amounts
    }
}

/// How many components of each kind a recipe holds.
#[derive(Clone, Copy, Debug, PartialEq, Eq, Structural, Hash)]
pub struct Counts {
    pub ingredients: usize,
    pub cookware: usize,
    pub timers: usize,
    pub inline_quantities: usize,
}

impl Item {
    /// The item is text, or its index is below the count of its kind.
    pub open spec fn within(self, counts: Counts) -> bool {
        match self {
            Item::Text { .. } => true,
            Item::Ingredient { index } => index < counts.ingredients,
            Item::Cookware { index } => index < counts.cookware,
            Item::Timer { index } => index < counts.timers,
            Item::InlineQuantity { index } => index < counts.inline_quantities,
        }
    }

    /// Decides whether the item is text or has an index below the count of
    /// its kind.
    pub fn is_within(&self, counts: Counts) -> (yes: bool)
        ensures
            yes == self.within(counts),
    {
        match self {
            Item::Text { .. } => true,
            Item::Ingredient { index } => *index < counts.ingredients,
            Item::Cookware { index } => *index < counts.cookware,
            Item::Timer { index } => *index < counts.timers,
            Item::InlineQuantity { index } => *index < counts.inline_quantities,
        }
    }
}

impl Content {
    /// The content is text, or a step whose items are all within `counts`.
    pub open spec fn within(self, counts: Counts) -> bool {
        match self {
            Content::Text(_) => true,
            Content::Step(step) => forall|i: int|
                0 <= i < step.items@.len() ==> (#[trigger] step.items@[i]).within(counts),
        }
    }

    /// Decides whether the content is text or a step whose items are all
    /// within `counts`.
    pub fn is_within(&self, counts: Counts) -> (yes: bool)
        ensures
            yes == self.within(counts),
    {
        match self {
            Content::Text(_) => true,
            Content::Step(step) => {
                let mut i: usize = 0;
                while i < step.items.len()
                    invariant
                        i <= step.items@.len(),
                        *self == Content::Step(*step),
                        forall|k: int| 0 <= k < i ==> (#[trigger] step.items@[k]).within(counts),
                    decreases step.items@.len() - i,
                {
                    if !step.items[i].is_within(counts) {
                        assert(!self->Step_0.items@[i as int].within(counts));
                        return false;
                    }
                    i += 1;
                }
                true
            },
        }
    }
}

impl Section {
    /// The items of all the steps of the section are within `counts`.
    pub open spec fn within(self, counts: Counts) -> bool {
        forall|c: int| 0 <= c < self.content@.len() ==> (#[trigger] self.content@[c]).within(counts)
    }

    /// Decides whether the items of all the steps of the section are
    /// within `counts`.
    pub fn is_within(&self, counts: Counts) -> (yes: bool)
        ensures
            yes == self.within(counts),
    {
        let mut c: usize = 0;
        while c < self.content.len()
            invariant
                c <= self.content@.len(),
                forall|k: int| 0 <= k < c ==> (#[trigger] self.content@[k]).within(counts),
            decreases self.content@.len() - c,
        {
            if !self.content[c].is_within(counts) {
                return false;
            }
            c += 1;
        }
        true
    }
}

impl<D, V> Recipe<D, V> {
    /// How many components of each kind the recipe holds.
    pub open spec fn counts_spec(&self) -> Counts {
        Counts {
            ingredients: self.ingredients@.len() as usize,
            cookware: self.cookware@.len() as usize,
            timers: self.timers@.len() as usize,
            inline_quantities: self.inline_quantities@.len() as usize,
        }
    }

    /// Every item of every step points at a component that the recipe
    /// holds.
    pub open spec fn items_valid(&self) -> bool {
        forall|s: int|
            0 <= s < self.sections@.len() ==> (#[trigger] self.sections@[s]).within(
                self.counts_spec(),
            )
    }

    /// How many components of each kind the recipe holds.
    pub fn counts(&self) -> (counts: Counts)
        ensures
            counts == self.counts_spec(),
    {
        Counts {
            ingredients: self.ingredients.len(),
            cookware: self.cookware.len(),
            timers: self.timers.len(),
            inline_quantities: self.inline_quantities.len(),
        }
    }

    /// Decides whether every item of every step points at a component that
    /// the recipe holds.
    pub fn check_items(&self) -> (yes: bool)
        ensures
            yes == self.items_valid(),
    {
        let counts: Counts = self.counts();
        let mut s: usize = 0;
        while s < self.sections.len()
            invariant
                s <= self.sections@.len(),
                counts == self.counts_spec(),
                forall|k: int| 0 <= k < s ==> (#[trigger] self.sections@[k]).within(counts),
            decreases self.sections@.len() - s,
        {
            if !self.sections[s].is_within(counts) {
                return false;
            }
            s += 1;
        }
        true
    }
}

} // verus!
