//! Trait emission: the skeleton of the equality implementation that stands
//! around a method body.
use crate::assembly::{
    answered, assembled, derive_body, derived_from, derives_to, BodyView, MethodBody,
};
use crate::declaration::{Declaration, DeclarationView};
use crate::exclusions::{has_directive, Listed, SynthesisError};
use crate::marker::MarkerKind;
use vstd::prelude::*;
use vstd::string::StringExecFns;

verus! {

/// How a method takes the value it is called on.
#[derive(Clone, Copy, Debug, PartialEq, Eq, Structural)]
pub enum Receiver {
    /// `&self`
    Borrowed,
    /// `&mut self`
    BorrowedMutably,
    /// `self`
    Owned,
}

/// An implementation of the equality trait for one declaration, ready to be
/// written out.
#[derive(Debug, PartialEq, Eq)]
pub struct TraitImplementation {
    /// The path of the trait that is implemented.
    pub trait_path: String,
    /// The name of the type that the implementation is for.
    pub target: String,
    /// The generic parameters of that type, repeated as they were declared.
    pub generics: Vec<String>,
    /// The name of the trait's one method.
    pub method: String,
    /// How the method takes the left operand.
    pub receiver: Receiver,
    /// The argument of the method: the right operand, borrowed, of the same
    /// type.
    pub argument: String,
    /// What the method returns.
    pub returns: String,
    /// What the method does.
    pub body: MethodBody,
}

/// An implementation as plain data.
pub struct ImplementationView {
    pub trait_path: Seq<char>,
    pub target: Seq<char>,
    pub generics: Seq<Seq<char>>,
    pub method: Seq<char>,
    pub receiver: Receiver,
    pub argument: Seq<char>,
    pub returns: Seq<char>,
    pub body: BodyView,
}

impl View for TraitImplementation {
    type V = ImplementationView;

    open spec fn view(&self) -> ImplementationView {
        ImplementationView {
            trait_path: self.trait_path@,
            target: self.target@,
            generics: self.generics.deep_view(),
            method: self.method@,
            receiver: self.receiver,
            argument: self.argument@,
            returns: self.returns@,
            body: self.body@,
        }
    }
}

/// The implementation that wraps `body` for a declaration called `target`
/// with the generic parameters `generics`.
pub open spec fn skeleton(
    target: Seq<char>,
    generics: Seq<Seq<char>>,
    body: BodyView,
) -> ImplementationView {
    ImplementationView {
        trait_path: "::std::cmp::PartialEq"@,
        target,
        generics,
        method: "eq"@,
        receiver: Receiver::Borrowed,
        argument: "other: &Self"@,
        returns: "bool"@,
        body,
    }
}

/// The implementation that a declaration gives, or the error that its
/// markers give, where `listed` holds the lists read for its markers and
/// `excluded` the flags of its fields.
pub open spec fn emitted_from(
    declaration: DeclarationView,
    listed: Listed,
    excluded: Seq<Seq<bool>>,
) -> Result<ImplementationView, SynthesisError> {
    match derived_from(declaration, listed, excluded) {
        Ok(body) => Ok(skeleton(declaration.name, declaration.generics, body)),
        Err(error) => Err(error),
    }
}

/// `outcome` is what `expected` says.
pub open spec fn emits(
    outcome: Result<TraitImplementation, SynthesisError>,
    expected: Result<ImplementationView, SynthesisError>,
) -> bool {
    match expected {
        Ok(implementation) => outcome is Ok && outcome->Ok_0@ == implementation,
        Err(error) => outcome is Err && outcome->Err_0 == error,
    }
}

/// Copies a list of texts.
fn copy_texts(texts: &Vec<String>) -> (copy: Vec<String>)
    ensures
        copy.deep_view() == texts.deep_view(),
{
    let mut copy: Vec<String> = Vec::new();
    let mut i: usize = 0;
    while i < texts.len()
        invariant
            i <= texts.len(),
            copy@.len() == i,
            forall|j: int| 0 <= j < i ==> copy@[j]@ == texts@[j]@,
        decreases texts.len() - i,
    {
        copy.push(texts[i].clone());
        i += 1;
    }
    proof {
        assert(copy.deep_view() =~= texts.deep_view());
    }
    copy
}

/// Wraps a method body as the equality implementation for the type `target`
/// with the generic parameters `generics`: the trait's path, the method's
/// signature with both operands borrowed, and the body unchanged.
pub fn emit(target: &str, generics: &Vec<String>, body: MethodBody) -> (implementation:
    TraitImplementation)
    ensures
        implementation@ == skeleton(target@, generics.deep_view(), body@),
        implementation.body == body,
{
    TraitImplementation {
        trait_path: String::from_str("::std::cmp::PartialEq"),
        target: String::from_str(target),
        generics: copy_texts(generics),
        method: String::from_str("eq"),
        receiver: Receiver::Borrowed,
        argument: String::from_str("other: &Self"),
        returns: String::from_str("bool"),
        body,
    }
}

/// Synthesizes the equality implementation for a declaration.
///
/// The method body is derived by `derive_body` and wrapped by `emit` in the
/// trait skeleton for the declaration's name and generic parameters. Which
/// types a directive lists and which fields are of such a type are `syn`'s
/// answers. Whatever it answers: a declaration without a type exclusion
/// directive gets the implementation that compares every field without the
/// ignore directive; an error names a type exclusion directive of the
/// declaration, and then nothing is emitted.
pub fn partial_eq_extras(declaration: &Declaration) -> (outcome: Result<
    TraitImplementation,
    SynthesisError,
>)
    ensures
        exists|listed: Listed, excluded: Seq<Seq<bool>>| #[trigger]
            answered(declaration@, listed, excluded) && emits(
                outcome,
                emitted_from(declaration@, listed, excluded),
            ),
        !has_directive(declaration@.markers) ==> outcome is Ok && outcome->Ok_0@ == skeleton(
            declaration@.name,
            declaration@.generics,
            assembled(declaration@.shape, Seq::empty()),
        ),
        outcome is Err ==> outcome->Err_0->marker < declaration@.markers.len()
            && declaration@.markers[outcome->Err_0->marker as int].kind
            == MarkerKind::IgnoreTypes,
{
    let derived = derive_body(declaration);
    let ghost (listed, excluded) = choose|listed: Listed, excluded: Seq<Seq<bool>>| #[trigger]
        answered(declaration@, listed, excluded) && derives_to(
            derived,
            derived_from(declaration@, listed, excluded),
        );
    let outcome = match derived {
        Ok(body) => Ok(emit(declaration.name.as_str(), &declaration.generics, body)),
        Err(error) => Err(error),
    };
    proof {
        assert(answered(declaration@, listed, excluded));
        assert(emits(outcome, emitted_from(declaration@, listed, excluded)));
    }
    outcome
}

} // verus!
