//! The exclusion resolver: which types a declaration asks to leave out.
//!
//! A declaration may carry the type exclusion directive more than once. All
//! of them count: their lists are joined in the order in which the directives
//! were written.
use crate::declaration::{type_views, TypeRef};
use crate::marker::{marker_views, Marker, MarkerKind, MarkerView};
use crate::syntax::parse_type_list;
use vstd::prelude::*;

verus! {

/// Why no comparison could be synthesized.
#[derive(Clone, Copy, Debug, PartialEq, Eq, Structural)]
pub enum SynthesisError {
    /// The type exclusion directive at place `marker` among the declaration's
    /// markers has no argument list, or one that is no comma separated list
    /// of types.
    MalformedExclusions { marker: usize },
}

/// For each marker of a declaration, the types that were read from its
/// arguments; `None` where none could be read.
pub type Listed = Seq<Option<Seq<Seq<char>>>>;

/// The views of the lists read for the markers of a declaration.
pub open spec fn listed_views(listed: Seq<Option<Vec<TypeRef>>>) -> Listed {
    Seq::new(
        listed.len(),
        |i: int|
            match listed[i] {
                Some(types) => Some(type_views(types@)),
                None => None,
            },
    )
}

/// The list read for the marker at `place`; `None` where `listed` has no
/// entry for it.
pub open spec fn entry(listed: Listed, place: int) -> Option<Seq<Seq<char>>> {
    if 0 <= place < listed.len() {
        listed[place]
    } else {
        None
    }
}

/// The exclusion set of a declaration with these markers, given the lists
/// that were read for them: the lists of all its type exclusion directives,
/// joined in order. Where no list was read for a directive, the place of the
/// first such one. Markers of other kinds and their entries count for
/// nothing.
pub open spec fn merged(markers: Seq<MarkerView>, listed: Listed) -> Result<Seq<Seq<char>>, int>
    decreases markers.len(),
{
    if markers.len() == 0 {
        Ok(Seq::empty())
    } else {
        match merged(markers.drop_last(), listed) {
            Err(place) => Err(place),
            Ok(earlier) => if markers.last().kind != MarkerKind::IgnoreTypes {
                Ok(earlier)
            } else {
                match entry(listed, markers.len() - 1) {
                    Some(types) => Ok(earlier + types),
                    None => Err(markers.len() - 1),
                }
            },
        }
    }
}

/// One of the markers is a type exclusion directive.
pub open spec fn has_directive(markers: Seq<MarkerView>) -> bool {
    exists|i: int| 0 <= i < markers.len() && (#[trigger] markers[i]).kind == MarkerKind::IgnoreTypes
}

/// `listed` can be what was read for `markers`: it has one entry for each
/// marker, and none for a marker that is no type exclusion directive or that
/// was written without arguments.
pub open spec fn read_from(markers: Seq<MarkerView>, listed: Listed) -> bool {
    &&& listed.len() == markers.len()
    &&& forall|i: int|
        0 <= i < markers.len() && ((#[trigger] markers[i]).kind != MarkerKind::IgnoreTypes
            || markers[i].arguments is None) ==> listed[i] is None
}

/// `outcome` is what `expected` says.
pub open spec fn resolves_to(
    outcome: Result<Vec<TypeRef>, SynthesisError>,
    expected: Result<Seq<Seq<char>>, int>,
) -> bool {
    match expected {
        Ok(types) => outcome is Ok && type_views(outcome->Ok_0@) == types,
        Err(place) => outcome == Err::<Vec<TypeRef>, SynthesisError>(
            SynthesisError::MalformedExclusions { marker: place as usize },
        ),
    }
}

/// Appends copies of `more` to `types`.
fn append_types(types: &mut Vec<TypeRef>, more: &Vec<TypeRef>)
    ensures
        type_views(final(types)@) == type_views(old(types)@) + type_views(more@),
{
    let ghost before = type_views(types@);
    let mut j: usize = 0;
    while j < more.len()
        invariant
            j <= more.len(),
            type_views(types@) == before + type_views(more@).take(j as int),
        decreases more.len() - j,
    {
        let ghost previous = type_views(types@);
        types.push(more[j].duplicate());
        proof {
            assert(type_views(types@) =~= previous.push(more@[j as int]@));
            assert(type_views(more@).take(j + 1) =~= type_views(more@).take(j as int).push(
                more@[j as int]@,
            ));
        }
        j += 1;
    }
    proof {
        assert(type_views(more@).take(more.len() as int) =~= type_views(more@));
    }
}

/// Joins the lists that were read for a declaration's markers into its
/// exclusion set.
///
/// `listed` holds, for each marker in order, the types read from its
/// arguments, or `None`. Every type exclusion directive contributes its
/// list, in the order of the directives; other markers are passed over. The
/// first directive with no list ends the resolution with an error that names
/// its place.
pub fn merge_exclusions(markers: &Vec<Marker>, listed: &Vec<Option<Vec<TypeRef>>>) -> (outcome:
    Result<Vec<TypeRef>, SynthesisError>)
    ensures
        resolves_to(outcome, merged(marker_views(markers@), listed_views(listed@))),
        merged(marker_views(markers@), listed_views(listed@)) is Err ==> 0 <= merged(
            marker_views(markers@),
            listed_views(listed@),
        )->Err_0 < markers@.len(),
{
    let ghost views = marker_views(markers@);
    let ghost lists = listed_views(listed@);
    let mut types: Vec<TypeRef> = Vec::new();
    let mut i: usize = 0;
    proof {
        assert(views.take(0) =~= Seq::empty());
        assert(type_views(types@) =~= Seq::empty());
    }
    while i < markers.len()
        invariant
            i <= markers.len(),
            views == marker_views(markers@),
            lists == listed_views(listed@),
            merged(views.take(i as int), lists) == Ok::<Seq<Seq<char>>, int>(type_views(types@)),
        decreases markers.len() - i,
    {
        proof {
            assert(views.take(i + 1).drop_last() =~= views.take(i as int));
            assert(views.take(i + 1).last() == markers@[i as int]@);
        }
        if markers[i].kind() == MarkerKind::IgnoreTypes {
            if i < listed.len() {
                match &listed[i] {
                    Some(more) => {
                        append_types(&mut types, more);
                    },
                    None => {
                        proof {
                            lemma_error_stays(views, lists, i + 1);
                        }
                        return Err(SynthesisError::MalformedExclusions { marker: i });
                    },
                }
            } else {
                proof {
                    lemma_error_stays(views, lists, i + 1);
                }
                return Err(SynthesisError::MalformedExclusions { marker: i });
            }
        }
        i += 1;
    }
    proof {
        assert(views.take(markers.len() as int) =~= views);
    }
    Ok(types)
}

/// Wraps the texts of a list of types as type references.
fn types_of(texts: &Vec<String>) -> (types: Vec<TypeRef>)
    ensures
        type_views(types@) == texts.deep_view(),
{
    let mut types: Vec<TypeRef> = Vec::new();
    let mut j: usize = 0;
    while j < texts.len()
        invariant
            j <= texts.len(),
            types@.len() == j,
            forall|k: int| 0 <= k < j ==> types@[k]@ == texts@[k]@,
        decreases texts.len() - j,
    {
        types.push(TypeRef { text: texts[j].clone() });
        j += 1;
    }
    proof {
        assert(type_views(types@) =~= texts.deep_view());
    }
    types
}

/// Reads, for each marker, the list of types in its arguments.
///
/// Only the arguments of a type exclusion directive are read: they are put
/// to `syn` as a comma separated list of types. The entry is `None` for any
/// other marker, for a directive written without arguments, and where `syn`
/// finds no such list.
pub fn list_exclusions(markers: &Vec<Marker>) -> (listed: Vec<Option<Vec<TypeRef>>>)
    ensures
        read_from(marker_views(markers@), listed_views(listed@)),
{
    let mut listed: Vec<Option<Vec<TypeRef>>> = Vec::new();
    let mut i: usize = 0;
    while i < markers.len()
        invariant
            i <= markers.len(),
            listed@.len() == i,
            forall|j: int|
                0 <= j < i && ((#[trigger] marker_views(markers@)[j]).kind
                    != MarkerKind::IgnoreTypes || marker_views(markers@)[j].arguments is None)
                    ==> listed@[j] is None,
        decreases markers.len() - i,
    {
        let read = if markers[i].kind() == MarkerKind::IgnoreTypes {
            match &markers[i].arguments {
                Some(arguments) => match parse_type_list(arguments.as_str()) {
                    Ok(texts) => Some(types_of(&texts)),
                    Err(_) => None,
                },
                None => None,
            }
        } else {
            None
        };
        listed.push(read);
        i += 1;
    }
    listed
}

/// Resolves the exclusion set from a declaration's markers.
///
/// The lists are read by `list_exclusions` and joined by `merge_exclusions`.
/// Which types a directive lists is `syn`'s answer. Whatever it answers:
/// without a directive the set is empty; a directive without arguments is an
/// error; and an error names a directive before which every directive had a
/// list.
pub fn resolve_exclusions(markers: &Vec<Marker>) -> (outcome: Result<Vec<TypeRef>, SynthesisError>)
    ensures
        exists|listed: Listed| #[trigger]
            read_from(marker_views(markers@), listed) && resolves_to(
                outcome,
                merged(marker_views(markers@), listed),
            ),
        !has_directive(marker_views(markers@)) ==> outcome is Ok && outcome->Ok_0@.len() == 0,
        outcome is Err ==> outcome->Err_0->marker < markers@.len() && marker_views(
            markers@,
        )[outcome->Err_0->marker as int].kind == MarkerKind::IgnoreTypes,
{
    let listed = list_exclusions(markers);
    let count = markers.len();
    let outcome = merge_exclusions(markers, &listed);
    proof {
        let views = marker_views(markers@);
        let lists = listed_views(listed@);
        assert(read_from(views, lists));
        lemma_merged(views, lists);
        if merged(views, lists) is Err {
            let place = merged(views, lists)->Err_0;
            assert(0 <= place < count);
            assert(place as usize == place);
            assert(outcome->Err_0->marker == place);
        }
        if !has_directive(views) {
            assert(type_views(outcome->Ok_0@).len() == 0);
        }
    }
    outcome
}

/// Once a prefix of the markers ends in an error, the whole list does, at the
/// same place.
pub proof fn lemma_error_stays(markers: Seq<MarkerView>, listed: Listed, n: int)
    requires
        0 <= n <= markers.len(),
        merged(markers.take(n), listed) is Err,
    ensures
        merged(markers, listed) == merged(markers.take(n), listed),
    decreases markers.len() - n,
{
    if n == markers.len() {
        assert(markers.take(n) =~= markers);
    } else {
        assert(markers.take(n + 1).drop_last() =~= markers.take(n));
        lemma_error_stays(markers, listed, n + 1);
    }
}

/// What the merge comes to. An error names a directive for which no list
/// was read, and before which every directive had a list. Success means that
/// every directive had a list; without any directive the set is empty.
pub proof fn lemma_merged(markers: Seq<MarkerView>, listed: Listed)
    ensures
        match merged(markers, listed) {
            Err(place) => {
                &&& 0 <= place < markers.len()
                &&& markers[place].kind == MarkerKind::IgnoreTypes
                &&& entry(listed, place) is None
                &&& forall|j: int|
                    0 <= j < place && (#[trigger] markers[j]).kind == MarkerKind::IgnoreTypes
                        ==> entry(listed, j) is Some
            },
            Ok(types) => {
                &&& forall|j: int|
                    0 <= j < markers.len() && (#[trigger] markers[j]).kind
                        == MarkerKind::IgnoreTypes ==> entry(listed, j) is Some
                &&& !has_directive(markers) ==> types.len() == 0
            },
        },
    decreases markers.len(),
{
    if markers.len() > 0 {
        let front = markers.drop_last();
        lemma_merged(front, listed);
        assert forall|j: int| 0 <= j < front.len() implies #[trigger] front[j] == markers[j] by {}
        match merged(front, listed) {
            Err(place) => {
                assert(front[place] == markers[place]);
                assert forall|j: int|
                    0 <= j < place && (#[trigger] markers[j]).kind
                        == MarkerKind::IgnoreTypes implies entry(listed, j) is Some by {
                    assert(front[j] == markers[j]);
                }
            },
            Ok(earlier) => {
                assert forall|j: int|
                    0 <= j < front.len() && (#[trigger] markers[j]).kind
                        == MarkerKind::IgnoreTypes implies entry(listed, j) is Some by {
                    assert(front[j] == markers[j]);
                }
                if !has_directive(markers) {
                    if has_directive(front) {
                        let i = choose|i: int|
                            0 <= i < front.len() && (#[trigger] front[i]).kind
                                == MarkerKind::IgnoreTypes;
                        assert(markers[i].kind == MarkerKind::IgnoreTypes);
                    }
                    assert(markers[markers.len() - 1].kind != MarkerKind::IgnoreTypes);
                }
            },
        }
    }
}

} // verus!
