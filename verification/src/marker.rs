//! Markers: the directives attached to a declaration or to a field.
use vstd::prelude::*;
use vstd::string::StringExecFns;

verus! {

/// The directives that the synthesis knows. Any other marker belongs to
/// somebody else and is passed over.
#[derive(Clone, Copy, Debug, PartialEq, Eq, Structural)]
pub enum MarkerKind {
    /// On a field: leave this field out of the comparison.
    IgnoreField,
    /// On a declaration: leave out every field of the listed types.
    IgnoreTypes,
    /// A marker that means nothing here.
    Unrecognized,
}

/// The kind of the marker called `name`.
pub open spec fn kind_of_name(name: Seq<char>) -> MarkerKind {
    if name == "partial_eq_ignore"@ {
        MarkerKind::IgnoreField
    } else if name == "partial_eq_ignore_types"@ {
        MarkerKind::IgnoreTypes
    } else {
        MarkerKind::Unrecognized
    }
}

impl MarkerKind {
    /// The name under which a recognized directive is written; `None` for
    /// `Unrecognized`, which stands for every other name.
    pub fn name(self) -> (name: Option<&'static str>)
        ensures
            match name {
                Some(text) => self != MarkerKind::Unrecognized && kind_of_name(text@) == self,
                None => self == MarkerKind::Unrecognized,
            },
    {
        proof {
            lemma_names_differ();
        }
        match self {
            MarkerKind::IgnoreField => Some("partial_eq_ignore"),
            MarkerKind::IgnoreTypes => Some("partial_eq_ignore_types"),
            MarkerKind::Unrecognized => None,
        }
    }

    /// Classifies a marker by its name.
    pub fn from_name(name: &str) -> (kind: MarkerKind)
        ensures
            kind == kind_of_name(name@),
    {
        let owned = String::from_str(name);
        if owned == String::from_str("partial_eq_ignore") {
            MarkerKind::IgnoreField
        } else if owned == String::from_str("partial_eq_ignore_types") {
            MarkerKind::IgnoreTypes
        } else {
            MarkerKind::Unrecognized
        }
    }
}

/// The two directive names are different words.
pub proof fn lemma_names_differ()
    ensures
        "partial_eq_ignore"@ != "partial_eq_ignore_types"@,
        kind_of_name("partial_eq_ignore"@) == MarkerKind::IgnoreField,
        kind_of_name("partial_eq_ignore_types"@) == MarkerKind::IgnoreTypes,
{
    reveal_strlit("partial_eq_ignore");
    reveal_strlit("partial_eq_ignore_types");
    assert("partial_eq_ignore"@.len() != "partial_eq_ignore_types"@.len());
}

/// A marker as it was written: its name and, where it was written with
/// parentheses, the text between them.
#[derive(Clone, Debug, PartialEq, Eq)]
pub struct Marker {
    pub name: String,
    pub arguments: Option<String>,
}

/// What a marker says: its kind and its argument text.
pub struct MarkerView {
    pub kind: MarkerKind,
    pub arguments: Option<Seq<char>>,
}

impl View for Marker {
    type V = MarkerView;

    open spec fn view(&self) -> MarkerView {
        MarkerView {
            kind: kind_of_name(self.name@),
            arguments: match self.arguments {
                Some(text) => Some(text@),
                None => None,
            },
        }
    }
}

/// The views of a list of markers, in order.
pub open spec fn marker_views(markers: Seq<Marker>) -> Seq<MarkerView> {
    Seq::new(markers.len(), |i: int| markers[i]@)
}

/// Whether one of `markers` is the field-level ignore directive.
pub open spec fn has_ignore(markers: Seq<MarkerView>) -> bool {
    exists|i: int| 0 <= i < markers.len() && (#[trigger] markers[i]).kind == MarkerKind::IgnoreField
}

impl Marker {
    /// A marker without arguments, such as `#[partial_eq_ignore]`.
    pub fn bare(name: &str) -> (marker: Marker)
        ensures
            marker@.kind == kind_of_name(name@),
            marker@.arguments is None,
            marker.name@ == name@,
    {
        Marker { name: String::from_str(name), arguments: None }
    }

    /// A marker with arguments, such as `#[partial_eq_ignore_types(String)]`;
    /// `arguments` is the text between the parentheses.
    pub fn with_arguments(name: &str, arguments: &str) -> (marker: Marker)
        ensures
            marker@.kind == kind_of_name(name@),
            marker@.arguments == Some(arguments@),
            marker.name@ == name@,
    {
        Marker { name: String::from_str(name), arguments: Some(String::from_str(arguments)) }
    }

    /// The directive that this marker is.
    pub fn kind(&self) -> (kind: MarkerKind)
        ensures
            kind == self@.kind,
    {
        MarkerKind::from_name(self.name.as_str())
    }
}

/// Whether a list of markers holds the field-level ignore directive.
pub fn any_ignore(markers: &Vec<Marker>) -> (found: bool)
    ensures
        found == has_ignore(marker_views(markers@)),
{
    let mut i: usize = 0;
    while i < markers.len()
        invariant
            i <= markers.len(),
            forall|j: int| 0 <= j < i ==> (#[trigger] marker_views(markers@)[j]).kind != MarkerKind::IgnoreField,
        decreases markers.len() - i,
    {
        if markers[i].kind() == MarkerKind::IgnoreField {
            assert(marker_views(markers@)[i as int].kind == MarkerKind::IgnoreField);
            return true;
        }
        i += 1;
    }
    false
}

} // verus!
