//! The declaration model: what the synthesis reads of a type declaration.
use crate::marker::{any_ignore, has_ignore, marker_views, Marker, MarkerView};
use crate::syntax::same_type_text;
use vstd::prelude::*;
use vstd::string::StringExecFns;

verus! {

/// A reference to a type, held as the text it was written with.
#[derive(Clone, Debug, PartialEq, Eq)]
pub struct TypeRef {
    pub text: String,
}

impl View for TypeRef {
    type V = Seq<char>;

    open spec fn view(&self) -> Seq<char> {
        self.text@
    }
}

/// What an answer to "are these two the same type?" comes to: only a plain
/// yes counts. Where one of the two texts was no type there is no answer,
/// and the two are not the same.
pub open spec fn counts_as_same(answer: Option<bool>) -> bool {
    answer == Some(true)
}

/// Decides on an answer to "are these two the same type?".
pub fn is_same(answer: Option<bool>) -> (same: bool)
    ensures
        same == counts_as_same(answer),
{
    match answer {
        Some(same) => same,
        None => false,
    }
}

impl TypeRef {
    /// The type written as `text`.
    pub fn new(text: &str) -> (ty: TypeRef)
        ensures
            ty@ == text@,
    {
        TypeRef { text: String::from_str(text) }
    }

    /// A copy of this type reference.
    pub fn duplicate(&self) -> (copy: TypeRef)
        ensures
            copy@ == self@,
    {
        TypeRef { text: self.text.clone() }
    }

    /// Whether `self` and `other` are exactly the same type: equal in
    /// structure, generic arguments included, whatever the spacing. The
    /// question is put to `syn`, and `is_same` decides on its answer.
    pub fn same_type(&self, other: &TypeRef) -> (same: bool) {
        is_same(same_type_text(self.text.as_str(), other.text.as_str()))
    }
}

/// The views of a list of type references, in order.
pub open spec fn type_views(types: Seq<TypeRef>) -> Seq<Seq<char>> {
    Seq::new(types.len(), |i: int| types[i]@)
}

/// One field of a record or of a variant: its type and its markers. Its place
/// in the field list is its index.
#[derive(Clone, Debug, PartialEq, Eq)]
pub struct Field {
    pub ty: TypeRef,
    pub markers: Vec<Marker>,
}

/// What the synthesis reads of a field.
pub struct FieldView {
    pub ty: Seq<char>,
    pub markers: Seq<MarkerView>,
}

impl FieldView {
    /// The field carries the field-level ignore directive.
    pub open spec fn ignored(self) -> bool {
        has_ignore(self.markers)
    }
}

impl View for Field {
    type V = FieldView;

    open spec fn view(&self) -> FieldView {
        FieldView { ty: self.ty@, markers: marker_views(self.markers@) }
    }
}

impl Field {
    /// A field of type `ty` with the given markers.
    pub fn new(ty: TypeRef, markers: Vec<Marker>) -> (field: Field)
        ensures
            field.ty == ty,
            field.markers == markers,
    {
        Field { ty, markers }
    }

    /// Whether the field carries the field-level ignore directive.
    pub fn is_ignored(&self) -> (ignored: bool)
        ensures
            ignored == self@.ignored(),
    {
        any_ignore(&self.markers)
    }
}

/// A field that is written with a name.
#[derive(Clone, Debug, PartialEq, Eq)]
pub struct NamedField {
    pub name: String,
    pub field: Field,
}

/// The fields of a record or of a variant, in the order of the declaration.
#[derive(Clone, Debug, PartialEq, Eq)]
pub enum Fields {
    /// `{ x: u32, y: String }`
    Named(Vec<NamedField>),
    /// `(u32, String)`
    Positional(Vec<Field>),
    /// No fields at all.
    Empty,
}

impl View for Fields {
    type V = Seq<FieldView>;

    /// The fields in order; whether they are named plays no part in what is
    /// compared.
    open spec fn view(&self) -> Seq<FieldView> {
        match self {
            Fields::Named(fields) => Seq::new(fields@.len(), |i: int| fields@[i].field@),
            Fields::Positional(fields) => Seq::new(fields@.len(), |i: int| fields@[i]@),
            Fields::Empty => Seq::empty(),
        }
    }
}

impl Fields {
    /// How many fields there are.
    pub fn len(&self) -> (n: usize)
        ensures
            n == self@.len(),
    {
        match self {
            Fields::Named(fields) => fields.len(),
            Fields::Positional(fields) => fields.len(),
            Fields::Empty => 0,
        }
    }

    /// The field at `index`, where there is one.
    pub fn get(&self, index: usize) -> (field: Option<&Field>)
        ensures
            match field {
                Some(found) => index < self@.len() && found@ == self@[index as int],
                None => index >= self@.len(),
            },
    {
        match self {
            Fields::Named(fields) => if index < fields.len() {
                Some(&fields[index].field)
            } else {
                None
            },
            Fields::Positional(fields) => if index < fields.len() {
                Some(&fields[index])
            } else {
                None
            },
            Fields::Empty => None,
        }
    }
}

/// One alternative of a union.
#[derive(Clone, Debug, PartialEq, Eq)]
pub struct Variant {
    pub name: String,
    pub fields: Fields,
}

/// The shape of a declaration: a single record, or a union of variants.
#[derive(Clone, Debug, PartialEq, Eq)]
pub enum Shape {
    Record(Fields),
    Union(Vec<Variant>),
}

/// What the synthesis reads of a shape.
pub enum ShapeView {
    Record(Seq<FieldView>),
    Union(Seq<Seq<FieldView>>),
}

impl View for Shape {
    type V = ShapeView;

    open spec fn view(&self) -> ShapeView {
        match self {
            Shape::Record(fields) => ShapeView::Record(fields@),
            Shape::Union(variants) => ShapeView::Union(
                Seq::new(variants@.len(), |i: int| variants@[i].fields@),
            ),
        }
    }
}

/// A type declaration: its name, its generic parameters as they were
/// written, the markers written on it, and its shape.
#[derive(Clone, Debug, PartialEq, Eq)]
pub struct Declaration {
    pub name: String,
    pub generics: Vec<String>,
    pub markers: Vec<Marker>,
    pub shape: Shape,
}

/// What the synthesis reads of a declaration.
pub struct DeclarationView {
    pub name: Seq<char>,
    pub generics: Seq<Seq<char>>,
    pub markers: Seq<MarkerView>,
    pub shape: ShapeView,
}

impl View for Declaration {
    type V = DeclarationView;

    open spec fn view(&self) -> DeclarationView {
        DeclarationView {
            name: self.name@,
            generics: self.generics.deep_view(),
            markers: marker_views(self.markers@),
            shape: self.shape@,
        }
    }
}

} // verus!
