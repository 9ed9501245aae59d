//! The assembler: from a declaration to the body of its equality method.
//!
//! A record gives one destructuring of the two operands and one comparison.
//! A union gives one match arm per variant, in the order of the declaration,
//! each pairing the variant with itself, and a last arm that answers `false`
//! for every other pair.
use crate::comparison::{
    answers_for, build_comparison_with, excluded_fields, kept_flags, synthesized, Comparison,
    Formula,
};
use crate::declaration::{
    Declaration, DeclarationView, FieldView, Fields, Shape, ShapeView, TypeRef,
};
use crate::exclusions::{
    has_directive, lemma_merged, list_exclusions, listed_views, merge_exclusions, merged,
    read_from, Listed, SynthesisError,
};
use crate::marker::{marker_views, MarkerKind};
use crate::value::{Instance, InstanceView};
use vstd::prelude::*;

verus! {

/// One of the two operands of the equality method.
#[derive(Clone, Copy, Debug, PartialEq, Eq, Structural)]
pub enum Side {
    /// The receiver, `self`.
    Left,
    /// The argument, `other`.
    Right,
}

impl Side {
    /// What is appended to a field's binding name under this operand, so that
    /// the two bindings of one field never collide.
    pub fn postfix(self) -> (postfix: &'static str)
        ensures
            postfix@ == (match self {
                Side::Left => "_left"@,
                Side::Right => "_right"@,
            }),
    {
        match self {
            Side::Left => "_left",
            Side::Right => "_right",
        }
    }
}

/// Which pairs of operands a match arm takes.
#[derive(Clone, Copy, Debug, PartialEq, Eq, Structural)]
pub enum ArmPattern {
    /// Both operands are the variant at this place.
    SameVariant(usize),
    /// Any pair at all.
    Otherwise,
}

/// One arm of the match over the two operands of a union.
#[derive(Debug, PartialEq, Eq)]
pub struct MatchArm {
    pub pattern: ArmPattern,
    /// For each field of the variant, whether the arm's pattern binds it.
    pub bound: Vec<bool>,
    pub condition: Comparison,
}

/// The body of the equality method.
#[derive(Debug, PartialEq, Eq)]
pub enum MethodBody {
    /// For a record: a destructuring of both operands, then the comparison.
    Record {
        /// For each field, whether the destructuring binds it.
        bound: Vec<bool>,
        condition: Comparison,
    },
    /// For a union: a match over the pair of operands.
    Union { arms: Vec<MatchArm> },
}

/// An arm's pattern as plain data.
pub enum PatternView {
    SameVariant(int),
    Otherwise,
}

impl View for ArmPattern {
    type V = PatternView;

    open spec fn view(&self) -> PatternView {
        match self {
            ArmPattern::SameVariant(variant) => PatternView::SameVariant(*variant as int),
            ArmPattern::Otherwise => PatternView::Otherwise,
        }
    }
}

/// A match arm as plain data.
pub struct ArmView {
    pub pattern: PatternView,
    pub bound: Seq<bool>,
    pub condition: Formula,
}

/// A method body as plain data.
pub enum BodyView {
    Record { bound: Seq<bool>, condition: Formula },
    Union { arms: Seq<ArmView> },
}

impl View for MatchArm {
    type V = ArmView;

    open spec fn view(&self) -> ArmView {
        ArmView { pattern: self.pattern@, bound: self.bound@, condition: self.condition@ }
    }
}

/// The views of a list of arms, in order.
pub open spec fn arm_views(arms: Seq<MatchArm>) -> Seq<ArmView> {
    Seq::new(arms.len(), |i: int| arms[i]@)
}

impl View for MethodBody {
    type V = BodyView;

    open spec fn view(&self) -> BodyView {
        match self {
            MethodBody::Record { bound, condition } => BodyView::Record {
                bound: bound@,
                condition: condition@,
            },
            MethodBody::Union { arms } => BodyView::Union { arms: arm_views(arms@) },
        }
    }
}

impl ArmView {
    /// The arm takes a pair of operands of these variants.
    pub open spec fn takes(self, left: int, right: int) -> bool {
        match self.pattern {
            PatternView::SameVariant(variant) => left == variant && right == variant,
            PatternView::Otherwise => true,
        }
    }
}

/// The answer of the first arm, from place `from` on, that takes the pair of
/// operands; `false` where none does.
pub open spec fn answer_from(
    arms: Seq<ArmView>,
    from: int,
    left: InstanceView,
    right: InstanceView,
) -> bool
    decreases arms.len() - from,
{
    if from < 0 || from >= arms.len() {
        false
    } else if arms[from].takes(left.variant, right.variant) {
        arms[from].condition.holds(left.fields, right.fields)
    } else {
        answer_from(arms, from + 1, left, right)
    }
}

impl BodyView {
    /// What the method answers for the operands `left` and `right`.
    pub open spec fn answers(self, left: InstanceView, right: InstanceView) -> bool {
        match self {
            BodyView::Record { bound, condition } => condition.holds(left.fields, right.fields),
            BodyView::Union { arms } => answer_from(arms, 0, left, right),
        }
    }
}

/// A pattern over `count` fields that binds exactly the fields that
/// `condition` refers to.
pub open spec fn bindings(count: nat, condition: Formula) -> Seq<bool> {
    Seq::new(count, |i: int| condition.mentions(i))
}

/// The flags for the field list at place `place` (a record's own list is at
/// place 0); no flags where `excluded` has no such place.
pub open spec fn row(excluded: Seq<Seq<bool>>, place: int) -> Seq<bool> {
    if 0 <= place < excluded.len() {
        excluded[place]
    } else {
        Seq::empty()
    }
}

/// The views of the flags of several field lists.
pub open spec fn flag_rows(rows: Seq<Vec<bool>>) -> Seq<Seq<bool>> {
    Seq::new(rows.len(), |i: int| rows[i]@)
}

/// The arm for the variant at place `variant`, whose fields are `fields`,
/// where `excluded` says which of them are of an excluded type.
pub open spec fn variant_arm(variant: int, fields: Seq<FieldView>, excluded: Seq<bool>) -> ArmView {
    ArmView {
        pattern: PatternView::SameVariant(variant),
        bound: bindings(fields.len(), synthesized(fields, excluded)),
        condition: synthesized(fields, excluded),
    }
}

/// The last arm of every union: any other pair of operands is unequal.
pub open spec fn fallback_arm() -> ArmView {
    ArmView {
        pattern: PatternView::Otherwise,
        bound: Seq::empty(),
        condition: Formula::Literal(false),
    }
}

/// The arms for the first `count` variants, in order.
pub open spec fn variant_arms(
    variants: Seq<Seq<FieldView>>,
    count: int,
    excluded: Seq<Seq<bool>>,
) -> Seq<ArmView> {
    Seq::new(count as nat, |v: int| variant_arm(v, variants[v], row(excluded, v)))
}

/// The method body for a declaration of this shape, where `excluded` says,
/// for each field list and each of its fields, whether the field is of an
/// excluded type.
pub open spec fn assembled(shape: ShapeView, excluded: Seq<Seq<bool>>) -> BodyView {
    match shape {
        ShapeView::Record(fields) => BodyView::Record {
            bound: bindings(fields.len(), synthesized(fields, row(excluded, 0))),
            condition: synthesized(fields, row(excluded, 0)),
        },
        ShapeView::Union(variants) => BodyView::Union {
            arms: variant_arms(variants, variants.len() as int, excluded).push(fallback_arm()),
        },
    }
}

/// `excluded` can be what an exclusion set of `exclusions` types answers for
/// a declaration of this shape: one row of flags for each field list, each
/// as `answers_for` describes.
pub open spec fn answers_for_shape(shape: ShapeView, exclusions: nat, excluded: Seq<Seq<bool>>) -> bool {
    match shape {
        ShapeView::Record(fields) => excluded.len() == 1 && answers_for(
            fields.len(),
            exclusions,
            excluded[0],
        ),
        ShapeView::Union(variants) => excluded.len() == variants.len() && forall|v: int|
            0 <= v < variants.len() ==> answers_for(
                (#[trigger] variants[v]).len(),
                exclusions,
                excluded[v],
            ),
    }
}

/// The method body that a declaration gives, or the error that its markers
/// give, where `listed` holds the lists read for its markers and `excluded`
/// the flags of its fields.
pub open spec fn derived_from(
    declaration: DeclarationView,
    listed: Listed,
    excluded: Seq<Seq<bool>>,
) -> Result<BodyView, SynthesisError> {
    match merged(declaration.markers, listed) {
        Ok(_) => Ok(assembled(declaration.shape, excluded)),
        Err(place) => Err(SynthesisError::MalformedExclusions { marker: place as usize }),
    }
}

/// `listed` and `excluded` can be what the syntax layer answers for this
/// declaration: the lists are read from its markers, and where they merge
/// into an exclusion set, the flags are answers of that set.
pub open spec fn answered(
    declaration: DeclarationView,
    listed: Listed,
    excluded: Seq<Seq<bool>>,
) -> bool {
    &&& read_from(declaration.markers, listed)
    &&& match merged(declaration.markers, listed) {
        Ok(types) => answers_for_shape(declaration.shape, types.len(), excluded),
        Err(_) => true,
    }
}

/// `outcome` is what `expected` says.
pub open spec fn derives_to(
    outcome: Result<MethodBody, SynthesisError>,
    expected: Result<BodyView, SynthesisError>,
) -> bool {
    match expected {
        Ok(body) => outcome is Ok && outcome->Ok_0@ == body,
        Err(error) => outcome is Err && outcome->Err_0 == error,
    }
}

/// Marks, for each of `count` fields, whether `condition` refers to it.
pub fn bindings_for(count: usize, condition: &Comparison) -> (bound: Vec<bool>)
    ensures
        bound@ == bindings(count as nat, condition@),
{
    let mut bound: Vec<bool> = Vec::new();
    let mut i: usize = 0;
    while i < count
        invariant
            i <= count,
            bound@.len() == i,
            forall|j: int| 0 <= j < i ==> bound@[j] == condition@.mentions(j),
        decreases count - i,
    {
        bound.push(condition.mentions(i));
        i += 1;
    }
    proof {
        assert(bound@ =~= bindings(count as nat, condition@));
    }
    bound
}

/// Assembles the match arm for the variant at place `variant`, where
/// `excluded` says which of its fields are of an excluded type.
pub fn assemble_arm(variant: usize, fields: &Fields, excluded: &[bool]) -> (arm: MatchArm)
    ensures
        arm@ == variant_arm(variant as int, fields@, excluded@),
{
    let condition = build_comparison_with(fields, excluded);
    let bound = bindings_for(fields.len(), &condition);
    MatchArm { pattern: ArmPattern::SameVariant(variant), bound, condition }
}

/// Assembles the method body for a declaration of the given shape, where
/// `excluded` says, for each field list in order (a record's own list comes
/// first) and each of its fields, whether the field is of an excluded type.
/// A field list or a field without an entry counts as not excluded.
///
/// A record gives its bindings and one comparison. A union gives one arm
/// for each variant, in the order of the declaration, and then the arm that
/// takes every other pair and answers `false`.
pub fn assemble_from(shape: &Shape, excluded: &Vec<Vec<bool>>) -> (body: MethodBody)
    ensures
        body@ == assembled(shape@, flag_rows(excluded@)),
{
    let none: Vec<bool> = Vec::new();
    let ghost rows = flag_rows(excluded@);
    match shape {
        Shape::Record(fields) => {
            let flags = if 0 < excluded.len() {
                excluded[0].as_slice()
            } else {
                none.as_slice()
            };
            assert(flags@ == row(rows, 0));
            let condition = build_comparison_with(fields, flags);
            let bound = bindings_for(fields.len(), &condition);
            MethodBody::Record { bound, condition }
        },
        Shape::Union(variants) => {
            let ghost models = shape@->Union_0;
            let mut arms: Vec<MatchArm> = Vec::new();
            let mut v: usize = 0;
            while v < variants.len()
                invariant
                    v <= variants.len(),
                    shape@ == ShapeView::Union(models),
                    models.len() == variants@.len(),
                    forall|j: int|
                        0 <= j < variants@.len() ==> models[j] == (#[trigger] variants@[j]).fields@,
                    rows == flag_rows(excluded@),
                    none@.len() == 0,
                    arm_views(arms@) =~= variant_arms(models, v as int, rows),
                decreases variants.len() - v,
            {
                let ghost earlier = arm_views(arms@);
                let flags = if v < excluded.len() {
                    excluded[v].as_slice()
                } else {
                    none.as_slice()
                };
                assert(flags@ =~= row(rows, v as int));
                let arm = assemble_arm(v, &variants[v].fields, flags);
                proof {
                    assert(models[v as int] == variants@[v as int].fields@);
                    assert(arm@ == variant_arm(v as int, models[v as int], row(rows, v as int)));
                }
                arms.push(arm);
                proof {
                    assert(arm_views(arms@) =~= earlier.push(arm@));
                    assert(variant_arms(models, v + 1, rows) =~= variant_arms(
                        models,
                        v as int,
                        rows,
                    ).push(variant_arm(v as int, models[v as int], row(rows, v as int))));
                }
                v += 1;
            }
            arms.push(
                MatchArm {
                    pattern: ArmPattern::Otherwise,
                    bound: Vec::new(),
                    condition: Comparison::Literal(false),
                },
            );
            proof {
                assert(arms@.last()@.bound =~= Seq::<bool>::empty());
                assert(arms@.last()@ == fallback_arm());
                assert(arm_views(arms@) =~= variant_arms(models, models.len() as int, rows).push(
                    fallback_arm(),
                ));
            }
            MethodBody::Union { arms }
        },
    }
}

/// For each field list of the shape and each of its fields, whether the
/// field's type is one of `exclusions`.
///
/// Each row is the answer of `excluded_fields`. Whatever the answers, there
/// is one row for each field list and one flag for each field, and none is
/// set where the set is empty.
pub fn excluded_by_shape(shape: &Shape, exclusions: &[TypeRef]) -> (excluded: Vec<Vec<bool>>)
    ensures
        answers_for_shape(shape@, exclusions@.len() as nat, flag_rows(excluded@)),
{
    let mut excluded: Vec<Vec<bool>> = Vec::new();
    match shape {
        Shape::Record(fields) => {
            excluded.push(excluded_fields(fields, exclusions));
        },
        Shape::Union(variants) => {
            let ghost models = shape@->Union_0;
            let mut v: usize = 0;
            while v < variants.len()
                invariant
                    v <= variants.len(),
                    shape@ == ShapeView::Union(models),
                    models.len() == variants@.len(),
                    forall|j: int|
                        0 <= j < variants@.len() ==> models[j] == (#[trigger] variants@[j]).fields@,
                    excluded@.len() == v,
                    forall|j: int|
                        0 <= j < v ==> answers_for(
                            (#[trigger] models[j]).len(),
                            exclusions@.len() as nat,
                            excluded@[j]@,
                        ),
                decreases variants.len() - v,
            {
                let flags = excluded_fields(&variants[v].fields, exclusions);
                proof {
                    assert(models[v as int] == variants@[v as int].fields@);
                }
                excluded.push(flags);
                v += 1;
            }
        },
    }
    excluded
}

/// With an empty exclusion set the answers change nothing: the body is the
/// one that no answers at all give.
pub proof fn lemma_empty_set_changes_nothing(shape: ShapeView, excluded: Seq<Seq<bool>>)
    requires
        answers_for_shape(shape, 0, excluded),
    ensures
        assembled(shape, excluded) == assembled(shape, Seq::empty()),
{
    let none = Seq::<Seq<bool>>::empty();
    match shape {
        ShapeView::Record(fields) => {
            assert(kept_flags(fields, row(excluded, 0)) =~= kept_flags(fields, row(none, 0)));
        },
        ShapeView::Union(variants) => {
            assert forall|v: int| 0 <= v < variants.len() implies variant_arm(
                v,
                variants[v],
                row(excluded, v),
            ) == variant_arm(v, variants[v], row(none, v)) by {
                assert(answers_for(variants[v].len(), 0, excluded[v]));
                assert(kept_flags(variants[v], row(excluded, v)) =~= kept_flags(
                    variants[v],
                    row(none, v),
                ));
            }
            assert(variant_arms(variants, variants.len() as int, excluded) =~= variant_arms(
                variants,
                variants.len() as int,
                none,
            ));
        },
    }
}

/// Assembles the method body for a declaration of the given shape under an
/// exclusion set that is already resolved.
///
/// Which fields are of an excluded type is asked of `excluded_by_shape`, once
/// for the whole declaration; the body is then assembled by `assemble_from`.
/// Whatever the answers, with an empty exclusion set the body is the one
/// that compares every field without the ignore directive.
pub fn assemble(shape: &Shape, exclusions: &[TypeRef]) -> (body: MethodBody)
    ensures
        exists|excluded: Seq<Seq<bool>>| #[trigger]
            answers_for_shape(shape@, exclusions@.len() as nat, excluded) && body@ == assembled(
                shape@,
                excluded,
            ),
        exclusions@.len() == 0 ==> body@ == assembled(shape@, Seq::empty()),
{
    let excluded = excluded_by_shape(shape, exclusions);
    let body = assemble_from(shape, &excluded);
    proof {
        assert(answers_for_shape(shape@, exclusions@.len() as nat, flag_rows(excluded@)));
        if exclusions@.len() == 0 {
            lemma_empty_set_changes_nothing(shape@, flag_rows(excluded@));
        }
    }
    body
}

/// Derives the body of the equality method for a declaration, where `listed`
/// holds the lists of types read for its markers and `excluded` says, for
/// each field list and each of its fields, whether the field is of an
/// excluded type.
///
/// The lists are merged as `merge_exclusions` does; a directive without a
/// list ends the derivation with an error and no body. Otherwise the body is
/// assembled as `assemble_from` does.
pub fn derive_body_from(
    declaration: &Declaration,
    listed: &Vec<Option<Vec<TypeRef>>>,
    excluded: &Vec<Vec<bool>>,
) -> (outcome: Result<MethodBody, SynthesisError>)
    ensures
        derives_to(
            outcome,
            derived_from(declaration@, listed_views(listed@), flag_rows(excluded@)),
        ),
{
    match merge_exclusions(&declaration.markers, listed) {
        Ok(_) => Ok(assemble_from(&declaration.shape, excluded)),
        Err(error) => Err(error),
    }
}

/// Derives the body of the equality method for a declaration.
///
/// The exclusion set is resolved once from the declaration's own markers and
/// is shared by all variants. Which types a directive lists and which fields
/// are of such a type are `syn`'s answers. Whatever it answers: the outcome
/// is what `derive_body_from` gives for those answers; a declaration without
/// a type exclusion directive gets the body that compares every field
/// without the ignore directive; and an error names a type exclusion
/// directive of the declaration.
pub fn derive_body(declaration: &Declaration) -> (outcome: Result<MethodBody, SynthesisError>)
    ensures
        exists|listed: Listed, excluded: Seq<Seq<bool>>| #[trigger]
            answered(declaration@, listed, excluded) && derives_to(
                outcome,
                derived_from(declaration@, listed, excluded),
            ),
        !has_directive(declaration@.markers) ==> outcome is Ok && outcome->Ok_0@ == assembled(
            declaration@.shape,
            Seq::empty(),
        ),
        outcome is Err ==> outcome->Err_0->marker < declaration@.markers.len()
            && declaration@.markers[outcome->Err_0->marker as int].kind
            == MarkerKind::IgnoreTypes,
{
    let listed = list_exclusions(&declaration.markers);
    let count = declaration.markers.len();
    let ghost views = marker_views(declaration.markers@);
    let ghost lists = listed_views(listed@);
    proof {
        lemma_merged(views, lists);
    }
    match merge_exclusions(&declaration.markers, &listed) {
        Ok(exclusions) => {
            let excluded = excluded_by_shape(&declaration.shape, exclusions.as_slice());
            let body = assemble_from(&declaration.shape, &excluded);
            proof {
                let rows = flag_rows(excluded@);
                assert(answered(declaration@, lists, rows));
                assert(derives_to(Ok(body), derived_from(declaration@, lists, rows)));
                if !has_directive(views) {
                    lemma_empty_set_changes_nothing(declaration@.shape, rows);
                }
            }
            Ok(body)
        },
        Err(error) => {
            proof {
                let place = merged(views, lists)->Err_0;
                assert(0 <= place < count);
                assert(place as usize == place);
                assert(answered(declaration@, lists, Seq::empty()));
                assert(derives_to(
                    Err(error),
                    derived_from(declaration@, lists, Seq::empty()),
                ));
            }
            Err(error)
        },
    }
}

impl MethodBody {
    /// Runs the method body on two instances.
    pub fn equals(&self, left: &Instance, right: &Instance) -> (answer: bool)
        ensures
            answer == self@.answers(left@, right@),
    {
        match self {
            MethodBody::Record { bound, condition } => condition.evaluate(
                &left.fields,
                &right.fields,
            ),
            MethodBody::Union { arms } => {
                let mut i: usize = 0;
                while i < arms.len()
                    invariant
                        i <= arms.len(),
                        self@ == (BodyView::Union { arms: arm_views(arms@) }),
                        answer_from(arm_views(arms@), i as int, left@, right@) == answer_from(
                            arm_views(arms@),
                            0,
                            left@,
                            right@,
                        ),
                    decreases arms.len() - i,
                {
                    let taken = match arms[i].pattern {
                        ArmPattern::SameVariant(variant) => left.variant == variant
                            && right.variant == variant,
                        ArmPattern::Otherwise => true,
                    };
                    assert(taken == arm_views(arms@)[i as int].takes(
                        left@.variant,
                        right@.variant,
                    ));
                    if taken {
                        assert(arm_views(arms@)[i as int].condition == arms@[i as int].condition@);
                        return arms[i].condition.evaluate(&left.fields, &right.fields);
                    }
                    i += 1;
                }
                false
            },
        }
    }
}

} // verus!
