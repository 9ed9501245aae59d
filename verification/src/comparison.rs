//! The comparison synthesizer: from a field list and an exclusion set to one
//! boolean expression.
use crate::declaration::{FieldView, Fields, TypeRef};
use crate::value::{value_views, Value};
use vstd::prelude::*;

verus! {

/// A comparison expression over the fields of two operands of one shape.
#[derive(Debug, PartialEq, Eq)]
pub enum Comparison {
    /// A constant answer.
    Literal(bool),
    /// The field at this index is equal in the two operands.
    FieldsEqual(usize),
    /// Both parts hold.
    And(Box<Comparison>, Box<Comparison>),
}

/// A comparison expression as a formula over field indices.
pub enum Formula {
    Literal(bool),
    FieldsEqual(int),
    And(Box<Formula>, Box<Formula>),
}

/// Both operands have a field at `index`, and it is equal in the two.
pub open spec fn equal_at<V>(left: Seq<V>, right: Seq<V>, index: int) -> bool {
    0 <= index < left.len() && index < right.len() && left[index] == right[index]
}

impl Formula {
    /// The formula refers to the field at `index`.
    pub open spec fn mentions(self, index: int) -> bool
        decreases self,
    {
        match self {
            Formula::Literal(_) => false,
            Formula::FieldsEqual(i) => i == index,
            Formula::And(left, right) => left.mentions(index) || right.mentions(index),
        }
    }

    /// The formula is true of two operands with the field values `left` and
    /// `right`. A field that one of the operands lacks is equal to nothing.
    pub open spec fn holds<V>(self, left: Seq<V>, right: Seq<V>) -> bool
        decreases self,
    {
        match self {
            Formula::Literal(answer) => answer,
            Formula::FieldsEqual(i) => equal_at(left, right, i),
            Formula::And(first, second) => first.holds(left, right) && second.holds(left, right),
        }
    }
}

impl View for Comparison {
    type V = Formula;

    open spec fn view(&self) -> Formula {
        self.formula()
    }
}

impl Comparison {
    /// The formula that the expression stands for.
    pub open spec fn formula(&self) -> Formula
        decreases self,
    {
        match self {
            Comparison::Literal(answer) => Formula::Literal(*answer),
            Comparison::FieldsEqual(index) => Formula::FieldsEqual(*index as int),
            Comparison::And(left, right) => Formula::And(
                Box::new(left.formula()),
                Box::new(right.formula()),
            ),
        }
    }

    /// Whether the expression refers to the field at `index`.
    pub fn mentions(&self, index: usize) -> (mentioned: bool)
        ensures
            mentioned == self@.mentions(index as int),
        decreases self,
    {
        match self {
            Comparison::Literal(_) => false,
            Comparison::FieldsEqual(i) => *i == index,
            Comparison::And(left, right) => left.mentions(index) || right.mentions(index),
        }
    }

    /// Runs the expression on the field values of two operands.
    pub fn evaluate(&self, left: &Vec<Value>, right: &Vec<Value>) -> (answer: bool)
        ensures
            answer == self@.holds(value_views(left@), value_views(right@)),
        decreases self,
    {
        match self {
            Comparison::Literal(answer) => *answer,
            Comparison::FieldsEqual(i) => {
                if *i < left.len() && *i < right.len() {
                    left[*i].same(&right[*i])
                } else {
                    false
                }
            },
            Comparison::And(first, second) => first.evaluate(left, right) && second.evaluate(
                left,
                right,
            ),
        }
    }
}

/// The flag at place `index`; `false` where the list has no such place.
pub open spec fn flag_at(flags: Seq<bool>, index: int) -> bool {
    0 <= index < flags.len() && flags[index]
}

/// For each field, whether it takes part in the comparison: it does not
/// carry the ignore directive, and its type is not excluded. `excluded`
/// says, field by field, whether the field's type is in the exclusion set.
pub open spec fn kept_flags(fields: Seq<FieldView>, excluded: Seq<bool>) -> Seq<bool> {
    Seq::new(fields.len(), |i: int| !fields[i].ignored() && !flag_at(excluded, i))
}

/// The places at which `kept` is set, in rising order.
pub open spec fn kept_indices(kept: Seq<bool>) -> Seq<int>
    decreases kept.len(),
{
    if kept.len() == 0 {
        Seq::empty()
    } else {
        let earlier = kept_indices(kept.drop_last());
        if kept.last() {
            earlier.push(kept.len() - 1)
        } else {
            earlier
        }
    }
}

/// The conjunction of the comparisons of the fields at `indices`, joined from
/// the left in the order given; `true` where there is none.
pub open spec fn conjunction(indices: Seq<int>) -> Formula
    decreases indices.len(),
{
    if indices.len() == 0 {
        Formula::Literal(true)
    } else if indices.len() == 1 {
        Formula::FieldsEqual(indices[0])
    } else {
        Formula::And(
            Box::new(conjunction(indices.drop_last())),
            Box::new(Formula::FieldsEqual(indices.last())),
        )
    }
}

/// The comparison of two operands with these fields, where `excluded` says
/// which fields are of an excluded type.
pub open spec fn synthesized(fields: Seq<FieldView>, excluded: Seq<bool>) -> Formula {
    conjunction(kept_indices(kept_flags(fields, excluded)))
}

/// `excluded` can be what the exclusion set answers for `count` fields: one
/// flag for each field, and none set where the set is empty.
pub open spec fn answers_for(count: nat, exclusions: nat, excluded: Seq<bool>) -> bool {
    &&& excluded.len() == count
    &&& exclusions == 0 ==> forall|i: int| 0 <= i < count ==> !#[trigger] excluded[i]
}

/// Joins the comparisons of the fields marked in `kept`.
///
/// The fields are taken in the order of the declaration and joined with
/// `&&` from the left. With no field marked the expression is the literal
/// `true`.
pub fn build_comparison_from(kept: &[bool]) -> (top: Comparison)
    ensures
        top@ == conjunction(kept_indices(kept@)),
{
    let mut top: Option<Comparison> = None;
    let n = kept.len();
    let mut i: usize = 0;
    proof {
        assert(kept@.take(0) =~= Seq::empty());
    }
    while i < n
        invariant
            i <= n,
            n == kept@.len(),
            match top {
                Some(joined) => kept_indices(kept@.take(i as int)).len() > 0 && joined@
                    == conjunction(kept_indices(kept@.take(i as int))),
                None => kept_indices(kept@.take(i as int)).len() == 0,
            },
        decreases n - i,
    {
        let ghost earlier = kept_indices(kept@.take(i as int));
        let ghost now = kept_indices(kept@.take(i + 1));
        proof {
            assert(kept@.take(i + 1).drop_last() =~= kept@.take(i as int));
            assert(kept@.take(i + 1).last() == kept@[i as int]);
        }
        if kept[i] {
            let leaf = Comparison::FieldsEqual(i);
            proof {
                assert(now == earlier.push(i as int));
                assert(now.drop_last() =~= earlier);
                assert(now.last() == i);
                assert(leaf@ == Formula::FieldsEqual(i as int));
            }
            top = match top {
                Some(joined) => Some(Comparison::And(Box::new(joined), Box::new(leaf))),
                None => Some(leaf),
            };
            assert(top->Some_0@ == conjunction(now));
        } else {
            assert(now == earlier);
        }
        i += 1;
    }
    proof {
        assert(kept@.take(n as int) =~= kept@);
    }
    match top {
        Some(joined) => joined,
        None => Comparison::Literal(true),
    }
}

/// Marks the fields that take part in the comparison, where `excluded` says
/// for each field whether its type is in the exclusion set. A field with no
/// entry in `excluded` counts as not excluded.
pub fn select_fields(fields: &Fields, excluded: &[bool]) -> (kept: Vec<bool>)
    ensures
        kept@ == kept_flags(fields@, excluded@),
{
    let mut kept: Vec<bool> = Vec::new();
    let n = fields.len();
    let mut i: usize = 0;
    while i < n
        invariant
            i <= n,
            n == fields@.len(),
            kept@.len() == i,
            forall|j: int|
                0 <= j < i ==> kept@[j] == (!fields@[j].ignored() && !flag_at(excluded@, j)),
        decreases n - i,
    {
        let ignored = match fields.get(i) {
            Some(field) => field.is_ignored(),
            None => true,
        };
        let taken = i < excluded.len() && excluded[i];
        kept.push(!ignored && !taken);
        i += 1;
    }
    proof {
        assert(kept@ =~= kept_flags(fields@, excluded@));
    }
    kept
}

/// Synthesizes the comparison for one field list, where `excluded` says for
/// each field whether its type is in the exclusion set.
///
/// A field that carries the ignore directive, or whose type is excluded, is
/// left out. The others are compared one by one, in the order of the
/// declaration, and joined with `&&` from the left. With no field left the
/// expression is the literal `true`.
pub fn build_comparison_with(fields: &Fields, excluded: &[bool]) -> (top: Comparison)
    ensures
        top@ == synthesized(fields@, excluded@),
{
    let kept = select_fields(fields, excluded);
    build_comparison_from(kept.as_slice())
}

/// Whether one of the answers is a yes.
pub fn any_yes(answers: &[bool]) -> (found: bool)
    ensures
        found == answers@.contains(true),
{
    let mut k: usize = 0;
    while k < answers.len()
        invariant
            k <= answers.len(),
            forall|j: int| 0 <= j < k ==> !answers@[j],
        decreases answers.len() - k,
    {
        if answers[k] {
            return true;
        }
        k += 1;
    }
    false
}

/// Whether the type `ty` is one of `exclusions`.
///
/// `ty` is held against each entry by `TypeRef::same_type`, and it is
/// excluded where one of the answers is a yes. The answers are `syn`'s;
/// whatever they are, nothing is excluded by an empty set.
pub fn is_excluded(ty: &TypeRef, exclusions: &[TypeRef]) -> (found: bool)
    ensures
        exists|answers: Seq<bool>|
            answers.len() == exclusions@.len() && found == #[trigger] answers.contains(true),
        exclusions@.len() == 0 ==> !found,
{
    let mut answers: Vec<bool> = Vec::new();
    let mut k: usize = 0;
    while k < exclusions.len()
        invariant
            k <= exclusions.len(),
            answers@.len() == k,
        decreases exclusions.len() - k,
    {
        answers.push(ty.same_type(&exclusions[k]));
        k += 1;
    }
    let found = any_yes(answers.as_slice());
    proof {
        assert(answers@.len() == exclusions@.len() && found == answers@.contains(true));
    }
    found
}

/// For each field, whether its type is one of `exclusions`.
///
/// Each flag is the answer of `is_excluded` for the field's type. Whatever
/// the answers, there is one flag for each field, and none is set where the
/// set is empty.
pub fn excluded_fields(fields: &Fields, exclusions: &[TypeRef]) -> (excluded: Vec<bool>)
    ensures
        answers_for(fields@.len(), exclusions@.len() as nat, excluded@),
{
    let mut excluded: Vec<bool> = Vec::new();
    let n = fields.len();
    let mut i: usize = 0;
    while i < n
        invariant
            i <= n,
            n == fields@.len(),
            excluded@.len() == i,
            exclusions@.len() == 0 ==> forall|j: int| 0 <= j < i ==> !#[trigger] excluded@[j],
        decreases n - i,
    {
        let taken = match fields.get(i) {
            Some(field) => is_excluded(&field.ty, exclusions),
            None => false,
        };
        excluded.push(taken);
        i += 1;
    }
    excluded
}

/// Synthesizes the comparison for one field list under an exclusion set.
///
/// Which fields are of an excluded type is asked of `excluded_fields`; the
/// comparison is then built by `build_comparison_with`. Whatever the
/// answers, a field that carries the ignore directive is left out, and with
/// an empty exclusion set exactly the other fields are compared.
pub fn build_comparison_for_fields(fields: &Fields, ignored_types: &[TypeRef]) -> (top: Comparison)
    ensures
        exists|excluded: Seq<bool>| #[trigger]
            answers_for(fields@.len(), ignored_types@.len() as nat, excluded) && top@
                == synthesized(fields@, excluded),
        ignored_types@.len() == 0 ==> top@ == synthesized(fields@, Seq::empty()),
{
    let excluded = excluded_fields(fields, ignored_types);
    let top = build_comparison_with(fields, excluded.as_slice());
    proof {
        assert(answers_for(fields@.len(), ignored_types@.len() as nat, excluded@));
        if ignored_types@.len() == 0 {
            assert(kept_flags(fields@, excluded@) =~= kept_flags(fields@, Seq::empty()));
        }
    }
    top
}

} // verus!
