//! What holds of every synthesized comparison.
//!
//! Whether a field's type is in the exclusion set is an answer from outside.
//! The laws hold for every such answer: they speak of `excluded`, the flags
//! that say field by field whether the type is excluded.
use crate::assembly::{
    answer_from, assembled, bindings, fallback_arm, row, variant_arm, variant_arms, PatternView,
};
use crate::comparison::{
    conjunction, equal_at, flag_at, kept_flags, kept_indices, synthesized, Formula,
};
use crate::declaration::{FieldView, ShapeView};
use crate::exclusions::{entry, lemma_merged, merged, read_from, Listed};
use crate::marker::{MarkerKind, MarkerView};
use crate::value::InstanceView;
use vstd::prelude::*;

verus! {

/// The kept indices are places of the list at which the flag is set, every
/// such place is among them, and they stand in rising order.
pub proof fn lemma_kept_indices(kept: Seq<bool>)
    ensures
        forall|k: int|
            0 <= k < kept_indices(kept).len() ==> 0 <= (#[trigger] kept_indices(kept)[k])
                < kept.len() && kept[kept_indices(kept)[k]],
        forall|i: int| 0 <= i < kept.len() && #[trigger] kept[i] ==> kept_indices(kept).contains(i),
        forall|a: int, b: int|
            0 <= a < b < kept_indices(kept).len() ==> (#[trigger] kept_indices(kept)[a]) < (
            #[trigger] kept_indices(kept)[b]),
    decreases kept.len(),
{
    let all = kept_indices(kept);
    if kept.len() > 0 {
        let front = kept.drop_last();
        let earlier = kept_indices(front);
        lemma_kept_indices(front);
        assert forall|k: int| 0 <= k < all.len() implies 0 <= (#[trigger] all[k]) < kept.len()
            && kept[all[k]] by {
            if k < earlier.len() {
                assert(all[k] == earlier[k]);
                assert(front[earlier[k]] == kept[earlier[k]]);
            }
        }
        assert forall|i: int| 0 <= i < kept.len() && #[trigger] kept[i] implies all.contains(i) by {
            if i < front.len() {
                assert(front[i] == kept[i]);
                assert(earlier.contains(i));
                let k = choose|k: int| 0 <= k < earlier.len() && earlier[k] == i;
                assert(all[k] == i);
            } else {
                assert(all[all.len() - 1] == i);
            }
        }
        assert forall|a: int, b: int| 0 <= a < b < all.len() implies (#[trigger] all[a]) < (
        #[trigger] all[b]) by {
            assert(all[a] == earlier[a]);
            if b < earlier.len() {
                assert(all[b] == earlier[b]);
            }
        }
    }
}

/// Where every flag is set, the kept indices are all places in order.
pub proof fn lemma_all_kept(kept: Seq<bool>)
    requires
        forall|i: int| 0 <= i < kept.len() ==> #[trigger] kept[i],
    ensures
        kept_indices(kept) == Seq::new(kept.len(), |i: int| i),
    decreases kept.len(),
{
    if kept.len() > 0 {
        let front = kept.drop_last();
        assert forall|i: int| 0 <= i < front.len() implies #[trigger] front[i] by {
            assert(front[i] == kept[i]);
        }
        lemma_all_kept(front);
        assert(kept[kept.len() - 1]);
    }
    assert(kept_indices(kept) =~= Seq::new(kept.len(), |i: int| i));
}

/// Where no flag is set, nothing is kept.
pub proof fn lemma_none_kept(kept: Seq<bool>)
    requires
        forall|i: int| 0 <= i < kept.len() ==> !#[trigger] kept[i],
    ensures
        kept_indices(kept).len() == 0,
    decreases kept.len(),
{
    if kept.len() > 0 {
        let front = kept.drop_last();
        assert forall|i: int| 0 <= i < front.len() implies !#[trigger] front[i] by {
            assert(front[i] == kept[i]);
        }
        lemma_none_kept(front);
        assert(!kept[kept.len() - 1]);
    }
}

/// A conjunction refers to exactly the fields it was built from.
pub proof fn lemma_conjunction_mentions(indices: Seq<int>, index: int)
    ensures
        conjunction(indices).mentions(index) <==> indices.contains(index),
    decreases indices.len(),
{
    reveal_with_fuel(Formula::mentions, 2);
    if indices.len() == 0 {
    } else if indices.len() == 1 {
        if indices.contains(index) {
            let k = choose|k: int| 0 <= k < indices.len() && indices[k] == index;
            assert(k == 0);
        } else {
            assert(indices[0] != index);
        }
    } else {
        let front = indices.drop_last();
        lemma_conjunction_mentions(front, index);
        if indices.contains(index) {
            let k = choose|k: int| 0 <= k < indices.len() && indices[k] == index;
            if k < front.len() {
                assert(front[k] == index);
            }
        }
        if front.contains(index) {
            let k = choose|k: int| 0 <= k < front.len() && front[k] == index;
            assert(indices[k] == index);
        }
        if indices.last() == index {
            assert(indices[indices.len() - 1] == index);
        }
    }
}

/// A conjunction is true of two operands exactly when each of its fields is
/// equal in both.
pub proof fn lemma_conjunction_holds<V>(indices: Seq<int>, left: Seq<V>, right: Seq<V>)
    ensures
        conjunction(indices).holds(left, right) <==> forall|k: int|
            0 <= k < indices.len() ==> equal_at(left, right, #[trigger] indices[k]),
    decreases indices.len(),
{
    reveal_with_fuel(Formula::holds, 2);
    if indices.len() == 0 {
    } else if indices.len() == 1 {
        if conjunction(indices).holds(left, right) {
            assert forall|k: int| 0 <= k < indices.len() implies equal_at(
                left,
                right,
                #[trigger] indices[k],
            ) by {
                assert(k == 0);
            }
        }
    } else {
        let front = indices.drop_last();
        lemma_conjunction_holds(front, left, right);
        if conjunction(indices).holds(left, right) {
            assert forall|k: int| 0 <= k < indices.len() implies equal_at(
                left,
                right,
                #[trigger] indices[k],
            ) by {
                if k < front.len() {
                    assert(front[k] == indices[k]);
                }
            }
        }
        if forall|k: int| 0 <= k < indices.len() ==> equal_at(left, right, #[trigger] indices[k]) {
            assert forall|k: int| 0 <= k < front.len() implies equal_at(
                left,
                right,
                #[trigger] front[k],
            ) by {
                assert(front[k] == indices[k]);
            }
            assert(equal_at(left, right, indices[indices.len() - 1]));
        }
    }
}

/// The synthesized comparison refers to a field exactly when the field is in
/// the list, does not carry the ignore directive, and is of no excluded type.
pub proof fn law_reference_iff_kept(fields: Seq<FieldView>, excluded: Seq<bool>, index: int)
    ensures
        synthesized(fields, excluded).mentions(index) <==> 0 <= index < fields.len()
            && !fields[index].ignored() && !flag_at(excluded, index),
{
    let kept = kept_flags(fields, excluded);
    let all = kept_indices(kept);
    lemma_kept_indices(kept);
    lemma_conjunction_mentions(all, index);
    if all.contains(index) {
        let k = choose|k: int| 0 <= k < all.len() && all[k] == index;
        assert(kept[all[k]]);
    }
    if 0 <= index < fields.len() && kept[index] {
        assert(all.contains(index));
    }
}

/// The synthesized comparison is true of two operands exactly when every
/// field that takes part is equal in both.
pub proof fn law_equal_iff_kept_fields_equal<V>(
    fields: Seq<FieldView>,
    excluded: Seq<bool>,
    left: Seq<V>,
    right: Seq<V>,
)
    ensures
        synthesized(fields, excluded).holds(left, right) <==> forall|i: int|
            0 <= i < fields.len() && #[trigger] kept_flags(fields, excluded)[i] ==> equal_at(
                left,
                right,
                i,
            ),
{
    let kept = kept_flags(fields, excluded);
    let all = kept_indices(kept);
    lemma_kept_indices(kept);
    lemma_conjunction_holds(all, left, right);
    if synthesized(fields, excluded).holds(left, right) {
        assert forall|i: int| 0 <= i < fields.len() && #[trigger] kept[i] implies equal_at(
            left,
            right,
            i,
        ) by {
            assert(all.contains(i));
            let k = choose|k: int| 0 <= k < all.len() && all[k] == i;
            assert(equal_at(left, right, all[k]));
        }
    }
    if forall|i: int| 0 <= i < fields.len() && #[trigger] kept[i] ==> equal_at(left, right, i) {
        assert forall|k: int| 0 <= k < all.len() implies equal_at(left, right, #[trigger] all[k]) by {
            assert(kept[all[k]]);
        }
    }
}

/// Where no field carries the ignore directive and no field is of an
/// excluded type, the comparison goes over every field in the order of the
/// declaration, and is true of two operands exactly when each field is equal
/// in both.
pub proof fn law_plain_record_compares_every_field<V>(
    fields: Seq<FieldView>,
    excluded: Seq<bool>,
    left: Seq<V>,
    right: Seq<V>,
)
    requires
        forall|i: int| 0 <= i < fields.len() ==> !(#[trigger] fields[i]).ignored(),
        forall|i: int| 0 <= i < fields.len() ==> !flag_at(excluded, i),
    ensures
        synthesized(fields, excluded) == conjunction(Seq::new(fields.len(), |i: int| i)),
        synthesized(fields, excluded).holds(left, right) <==> forall|i: int|
            0 <= i < fields.len() ==> equal_at(left, right, i),
{
    let kept = kept_flags(fields, excluded);
    assert forall|i: int| 0 <= i < kept.len() implies #[trigger] kept[i] by {
        assert(!fields[i].ignored());
        assert(!flag_at(excluded, i));
    }
    lemma_all_kept(kept);
    law_equal_iff_kept_fields_equal(fields, excluded, left, right);
    if synthesized(fields, excluded).holds(left, right) {
        assert forall|i: int| 0 <= i < fields.len() implies equal_at(left, right, i) by {
            assert(kept[i]);
        }
    }
}

/// A field that carries the ignore directive is never referred to.
pub proof fn law_ignored_field_is_not_referenced(
    fields: Seq<FieldView>,
    excluded: Seq<bool>,
    index: int,
)
    requires
        0 <= index < fields.len(),
        fields[index].ignored(),
    ensures
        !synthesized(fields, excluded).mentions(index),
{
    law_reference_iff_kept(fields, excluded, index);
}

/// What a formula answers does not depend on a field that it does not refer
/// to: the field's value may change in either operand.
pub proof fn law_unreferenced_field_is_irrelevant<V>(
    formula: Formula,
    index: int,
    left: Seq<V>,
    right: Seq<V>,
    left_value: V,
    right_value: V,
)
    requires
        !formula.mentions(index),
        0 <= index < left.len(),
        0 <= index < right.len(),
    ensures
        formula.holds(left.update(index, left_value), right.update(index, right_value))
            == formula.holds(left, right),
    decreases formula,
{
    match formula {
        Formula::Literal(_) => {},
        Formula::FieldsEqual(_) => {},
        Formula::And(first, second) => {
            law_unreferenced_field_is_irrelevant(
                *first,
                index,
                left,
                right,
                left_value,
                right_value,
            );
            law_unreferenced_field_is_irrelevant(
                *second,
                index,
                left,
                right,
                left_value,
                right_value,
            );
        },
    }
}

/// Two operands that differ at most in a field that carries the ignore
/// directive compare equal.
pub proof fn law_ignored_field_does_not_matter<V>(
    fields: Seq<FieldView>,
    excluded: Seq<bool>,
    index: int,
    left: Seq<V>,
    right: Seq<V>,
)
    requires
        0 <= index < fields.len(),
        fields[index].ignored(),
        forall|j: int| 0 <= j < fields.len() && j != index ==> equal_at(left, right, j),
    ensures
        synthesized(fields, excluded).holds(left, right),
{
    law_equal_iff_kept_fields_equal(fields, excluded, left, right);
}

/// A field is of an excluded type as soon as one entry of the exclusion set
/// is answered to be its type.
pub proof fn law_one_yes_excludes(answers: Seq<bool>, place: int)
    requires
        0 <= place < answers.len(),
        answers[place],
    ensures
        answers.contains(true),
{
}

/// A field of an excluded type is never referred to, whatever markers it
/// carries.
pub proof fn law_excluded_type_is_skipped(fields: Seq<FieldView>, excluded: Seq<bool>, index: int)
    requires
        0 <= index < fields.len(),
        flag_at(excluded, index),
    ensures
        !synthesized(fields, excluded).mentions(index),
{
    law_reference_iff_kept(fields, excluded, index);
}

/// A field of a type that is not excluded is treated as if nothing were
/// excluded: it is referred to unless it carries the ignore directive.
pub proof fn law_other_types_are_unaffected(
    fields: Seq<FieldView>,
    excluded: Seq<bool>,
    index: int,
)
    requires
        0 <= index < fields.len(),
        !flag_at(excluded, index),
    ensures
        synthesized(fields, excluded).mentions(index) <==> !fields[index].ignored(),
        synthesized(fields, excluded).mentions(index) <==> synthesized(
            fields,
            Seq::empty(),
        ).mentions(index),
{
    law_reference_iff_kept(fields, excluded, index);
    law_reference_iff_kept(fields, Seq::empty(), index);
}

/// The body of a union has one arm for each variant, in order, each pairing
/// the variant with itself, and then the arm that takes any pair and answers
/// `false`.
pub proof fn law_one_arm_per_variant(variants: Seq<Seq<FieldView>>, excluded: Seq<Seq<bool>>)
    ensures
        assembled(ShapeView::Union(variants), excluded) is Union,
        ({
            let arms = assembled(ShapeView::Union(variants), excluded)->arms;
            &&& arms.len() == variants.len() + 1
            &&& forall|v: int|
                0 <= v < variants.len() ==> (#[trigger] arms[v]).pattern
                    == PatternView::SameVariant(v) && arms[v].condition == synthesized(
                    variants[v],
                    row(excluded, v),
                )
            &&& arms.last() == fallback_arm()
        }),
{
}

/// In the body of a union, a pair of operands of different variants gets the
/// answer `false` from every place on.
proof fn lemma_mismatch_answers_false(
    variants: Seq<Seq<FieldView>>,
    excluded: Seq<Seq<bool>>,
    from: int,
    left: InstanceView,
    right: InstanceView,
)
    requires
        left.variant != right.variant,
        0 <= from <= variants.len(),
    ensures
        !answer_from(
            variant_arms(variants, variants.len() as int, excluded).push(fallback_arm()),
            from,
            left,
            right,
        ),
    decreases variants.len() - from,
{
    let arms = variant_arms(variants, variants.len() as int, excluded).push(fallback_arm());
    if from < variants.len() {
        assert(arms[from] == variant_arm(from, variants[from], row(excluded, from)));
        lemma_mismatch_answers_false(variants, excluded, from + 1, left, right);
    } else {
        assert(arms[from] == fallback_arm());
    }
}

/// In the body of a union, a pair of operands of one declared variant gets
/// the answer of that variant's arm from every place up to it.
proof fn lemma_match_answers_by_arm(
    variants: Seq<Seq<FieldView>>,
    excluded: Seq<Seq<bool>>,
    from: int,
    left: InstanceView,
    right: InstanceView,
)
    requires
        left.variant == right.variant,
        0 <= from <= left.variant < variants.len(),
    ensures
        answer_from(
            variant_arms(variants, variants.len() as int, excluded).push(fallback_arm()),
            from,
            left,
            right,
        ) == synthesized(variants[left.variant], row(excluded, left.variant)).holds(
            left.fields,
            right.fields,
        ),
    decreases left.variant - from,
{
    let arms = variant_arms(variants, variants.len() as int, excluded).push(fallback_arm());
    assert(arms[from] == variant_arm(from, variants[from], row(excluded, from)));
    if from < left.variant {
        lemma_match_answers_by_arm(variants, excluded, from + 1, left, right);
    }
}

/// Two instances of different variants of a union are never equal, whatever
/// their fields hold.
pub proof fn law_different_variants_are_unequal(
    variants: Seq<Seq<FieldView>>,
    excluded: Seq<Seq<bool>>,
    left: InstanceView,
    right: InstanceView,
)
    requires
        left.variant != right.variant,
    ensures
        !assembled(ShapeView::Union(variants), excluded).answers(left, right),
{
    lemma_mismatch_answers_false(variants, excluded, 0, left, right);
}

/// Two instances of the same variant of a union are equal exactly when that
/// variant's own comparison holds of their fields.
pub proof fn law_same_variant_compares_its_fields(
    variants: Seq<Seq<FieldView>>,
    excluded: Seq<Seq<bool>>,
    left: InstanceView,
    right: InstanceView,
)
    requires
        left.variant == right.variant,
        0 <= left.variant < variants.len(),
    ensures
        assembled(ShapeView::Union(variants), excluded).answers(left, right) == synthesized(
            variants[left.variant],
            row(excluded, left.variant),
        ).holds(left.fields, right.fields),
{
    lemma_match_answers_by_arm(variants, excluded, 0, left, right);
}

/// With no field taking part, the synthesized comparison is the literal
/// `true`.
pub proof fn law_nothing_compared_is_true(fields: Seq<FieldView>, excluded: Seq<bool>)
    requires
        forall|i: int|
            0 <= i < fields.len() ==> (#[trigger] fields[i]).ignored() || flag_at(excluded, i),
    ensures
        synthesized(fields, excluded) == Formula::Literal(true),
{
    let kept = kept_flags(fields, excluded);
    assert forall|i: int| 0 <= i < kept.len() implies !#[trigger] kept[i] by {
        assert(fields[i].ignored() || flag_at(excluded, i));
    }
    lemma_none_kept(kept);
}

/// A record with no field taking part, because it has none or because all
/// are left out, is equal to every other instance.
pub proof fn law_vacuous_record_is_always_equal(
    fields: Seq<FieldView>,
    excluded: Seq<Seq<bool>>,
    left: InstanceView,
    right: InstanceView,
)
    requires
        forall|i: int|
            0 <= i < fields.len() ==> (#[trigger] fields[i]).ignored() || flag_at(
                row(excluded, 0),
                i,
            ),
    ensures
        assembled(ShapeView::Record(fields), excluded).answers(left, right),
{
    law_nothing_compared_is_true(fields, row(excluded, 0));
}

/// A variant with no field taking part is equal to every other instance of
/// the same variant.
pub proof fn law_vacuous_variant_is_always_equal(
    variants: Seq<Seq<FieldView>>,
    excluded: Seq<Seq<bool>>,
    left: InstanceView,
    right: InstanceView,
)
    requires
        left.variant == right.variant,
        0 <= left.variant < variants.len(),
        forall|i: int|
            0 <= i < variants[left.variant].len() ==> (
            #[trigger] variants[left.variant][i]).ignored() || flag_at(
                row(excluded, left.variant),
                i,
            ),
    ensures
        assembled(ShapeView::Union(variants), excluded).answers(left, right),
{
    law_same_variant_compares_its_fields(variants, excluded, left, right);
    law_nothing_compared_is_true(variants[left.variant], row(excluded, left.variant));
}

/// Every field that a comparison refers to is a field of the shape, and the
/// pattern that stands before the comparison binds it.
pub proof fn law_patterns_bind_what_is_referenced(
    fields: Seq<FieldView>,
    excluded: Seq<bool>,
    index: int,
)
    requires
        synthesized(fields, excluded).mentions(index),
    ensures
        0 <= index < fields.len(),
        bindings(fields.len(), synthesized(fields, excluded))[index],
{
    law_reference_iff_kept(fields, excluded, index);
}

/// The two operands never share a postfix, so the two bindings of one field
/// have different names.
pub proof fn law_sides_have_different_postfixes()
    ensures
        "_left"@ != "_right"@,
{
    reveal_strlit("_left");
    reveal_strlit("_right");
    assert("_left"@.len() != "_right"@.len());
}

/// Without a type exclusion directive the exclusion set is empty, whatever
/// was read.
pub proof fn law_no_directive_excludes_nothing(markers: Seq<MarkerView>, listed: Listed)
    requires
        forall|i: int|
            0 <= i < markers.len() ==> (#[trigger] markers[i]).kind != MarkerKind::IgnoreTypes,
    ensures
        merged(markers, listed) == Ok::<Seq<Seq<char>>, int>(Seq::empty()),
{
    lemma_merged(markers, listed);
    match merged(markers, listed) {
        Ok(types) => {
            assert(types =~= Seq::empty());
        },
        Err(place) => {
            assert(markers[place].kind == MarkerKind::IgnoreTypes);
        },
    }
}

/// A type exclusion directive that was written without arguments is an
/// error: at its own place, or at that of an earlier directive for which no
/// list could be read.
pub proof fn law_directive_without_arguments_is_an_error(
    markers: Seq<MarkerView>,
    listed: Listed,
    place: int,
)
    requires
        read_from(markers, listed),
        0 <= place < markers.len(),
        markers[place].kind == MarkerKind::IgnoreTypes,
        markers[place].arguments is None,
    ensures
        merged(markers, listed) is Err,
        merged(markers, listed)->Err_0 <= place,
{
    lemma_merged(markers, listed);
    assert(entry(listed, place) is None);
}

} // verus!
