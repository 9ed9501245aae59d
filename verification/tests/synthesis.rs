use derive_partial_eq_extras::assembly::{
    assemble, assemble_arm, assemble_from, bindings_for, derive_body, derive_body_from,
    excluded_by_shape, ArmPattern, MatchArm, MethodBody, Side,
};
use derive_partial_eq_extras::comparison::{
    any_yes, build_comparison_for_fields, build_comparison_from, build_comparison_with,
    excluded_fields, is_excluded, select_fields, Comparison,
};
use derive_partial_eq_extras::declaration::{
    is_same, Declaration, Field, Fields, NamedField, Shape, TypeRef, Variant,
};
use derive_partial_eq_extras::emission::{emit, partial_eq_extras, Receiver};
use derive_partial_eq_extras::exclusions::{
    list_exclusions, merge_exclusions, resolve_exclusions, SynthesisError,
};
use derive_partial_eq_extras::marker::{any_ignore, Marker, MarkerKind};
use derive_partial_eq_extras::value::{Instance, Value};

fn plain(ty: &str) -> Field {
    Field::new(TypeRef::new(ty), vec![])
}

fn ignored(ty: &str) -> Field {
    Field::new(TypeRef::new(ty), vec![Marker::bare("partial_eq_ignore")])
}

fn leaf(index: usize) -> Comparison {
    Comparison::FieldsEqual(index)
}

fn and(left: Comparison, right: Comparison) -> Comparison {
    Comparison::And(Box::new(left), Box::new(right))
}

fn types(texts: &[&str]) -> Vec<TypeRef> {
    texts.iter().map(|text| TypeRef::new(text)).collect()
}

fn numbers(values: &[u64]) -> Vec<Value> {
    values.iter().map(|value| Value::Unsigned(*value)).collect()
}

fn record_of(markers: Vec<Marker>, fields: Fields) -> Declaration {
    Declaration { name: "R".to_string(), generics: vec![], markers, shape: Shape::Record(fields) }
}

#[test]
fn marker_names_are_recognized() {
    assert_eq!(MarkerKind::from_name("partial_eq_ignore"), MarkerKind::IgnoreField);
    assert_eq!(MarkerKind::from_name("partial_eq_ignore_types"), MarkerKind::IgnoreTypes);
    assert_eq!(MarkerKind::from_name("serde"), MarkerKind::Unrecognized);
    assert_eq!(MarkerKind::from_name(""), MarkerKind::Unrecognized);
    assert_eq!(MarkerKind::from_name("partial_eq_ignore_type"), MarkerKind::Unrecognized);
}

#[test]
fn marker_kinds_have_their_names() {
    assert_eq!(MarkerKind::IgnoreField.name(), Some("partial_eq_ignore"));
    assert_eq!(MarkerKind::IgnoreTypes.name(), Some("partial_eq_ignore_types"));
    assert_eq!(MarkerKind::Unrecognized.name(), None);
}

#[test]
fn markers_keep_what_was_written() {
    let bare = Marker::bare("doc");
    assert_eq!(bare.name, "doc");
    assert_eq!(bare.arguments, None);
    assert_eq!(bare.kind(), MarkerKind::Unrecognized);
    let listed = Marker::with_arguments("partial_eq_ignore_types", "u8, u16");
    assert_eq!(listed.name, "partial_eq_ignore_types");
    assert_eq!(listed.arguments, Some("u8, u16".to_string()));
    assert_eq!(listed.kind(), MarkerKind::IgnoreTypes);
}

#[test]
fn ignore_marker_is_found_among_others() {
    assert!(!any_ignore(&vec![]));
    assert!(!any_ignore(&vec![Marker::bare("doc"), Marker::bare("partial_eq_ignore_types")]));
    assert!(any_ignore(&vec![Marker::bare("doc"), Marker::bare("partial_eq_ignore")]));
    assert!(any_ignore(&vec![Marker::with_arguments("partial_eq_ignore", "anything")]));
    assert!(ignored("u8").is_ignored());
    assert!(!plain("u8").is_ignored());
}

#[test]
fn same_type_goes_by_structure_not_spelling() {
    let spaced = TypeRef::new("Vec < u8 >");
    let tight = TypeRef::new("Vec<u8>");
    assert!(tight.same_type(&spaced));
    assert!(spaced.same_type(&tight));
    assert!(tight.same_type(&tight));
    assert!(TypeRef::new("& 'a str").same_type(&TypeRef::new("&'a str")));
}

#[test]
fn same_type_tells_generic_arguments_apart() {
    assert!(!TypeRef::new("Vec<u8>").same_type(&TypeRef::new("Vec<u16>")));
    assert!(!TypeRef::new("Vec<u8>").same_type(&TypeRef::new("Vec")));
    assert!(!TypeRef::new("String").same_type(&TypeRef::new("std::string::String")));
    assert!(!TypeRef::new("u32").same_type(&TypeRef::new("&u32")));
}

#[test]
fn text_that_is_no_type_is_identical_to_nothing() {
    let broken = TypeRef::new("Vec<");
    assert!(!broken.same_type(&broken));
    assert!(!broken.same_type(&TypeRef::new("u8")));
    assert!(!TypeRef::new("u8").same_type(&broken));
    assert!(!TypeRef::new("").same_type(&TypeRef::new("")));
}

#[test]
fn no_directive_resolves_to_no_exclusion() {
    assert_eq!(resolve_exclusions(&vec![]), Ok(vec![]));
    let others = vec![Marker::bare("partial_eq_ignore"), Marker::with_arguments("repr", "C")];
    assert_eq!(resolve_exclusions(&others), Ok(vec![]));
}

#[test]
fn directive_lists_its_types_in_order() {
    let markers = vec![Marker::with_arguments("partial_eq_ignore_types", "String, Vec<u8>, (u8, u16)")];
    let resolved = resolve_exclusions(&markers).unwrap();
    assert_eq!(resolved.len(), 3);
    assert!(resolved[0].same_type(&TypeRef::new("String")));
    assert!(resolved[1].same_type(&TypeRef::new("Vec<u8>")));
    assert!(resolved[2].same_type(&TypeRef::new("(u8, u16)")));
}

#[test]
fn directive_with_empty_list_excludes_nothing() {
    let markers = vec![Marker::with_arguments("partial_eq_ignore_types", "")];
    assert_eq!(resolve_exclusions(&markers), Ok(vec![]));
}

#[test]
fn directive_takes_a_trailing_comma() {
    let markers = vec![Marker::with_arguments("partial_eq_ignore_types", "u8, u16,")];
    assert_eq!(resolve_exclusions(&markers).unwrap().len(), 2);
}

#[test]
fn several_directives_are_merged_in_order() {
    let markers = vec![
        Marker::with_arguments("partial_eq_ignore_types", "u8"),
        Marker::bare("doc"),
        Marker::with_arguments("partial_eq_ignore_types", "u16, u32"),
    ];
    let resolved = resolve_exclusions(&markers).unwrap();
    assert_eq!(resolved.len(), 3);
    assert!(resolved[0].same_type(&TypeRef::new("u8")));
    assert!(resolved[1].same_type(&TypeRef::new("u16")));
    assert!(resolved[2].same_type(&TypeRef::new("u32")));
}

#[test]
fn directive_without_a_type_list_is_an_error() {
    let markers = vec![
        Marker::bare("doc"),
        Marker::with_arguments("partial_eq_ignore_types", "u8, 42"),
    ];
    assert_eq!(
        resolve_exclusions(&markers),
        Err(SynthesisError::MalformedExclusions { marker: 1 })
    );
}

#[test]
fn directive_without_arguments_is_an_error() {
    let markers = vec![Marker::bare("partial_eq_ignore_types")];
    assert_eq!(
        resolve_exclusions(&markers),
        Err(SynthesisError::MalformedExclusions { marker: 0 })
    );
}

#[test]
fn first_malformed_directive_is_reported() {
    let markers = vec![
        Marker::with_arguments("partial_eq_ignore_types", "u8"),
        Marker::with_arguments("partial_eq_ignore_types", "u8 u16"),
        Marker::bare("partial_eq_ignore_types"),
    ];
    assert_eq!(
        resolve_exclusions(&markers),
        Err(SynthesisError::MalformedExclusions { marker: 1 })
    );
}

#[test]
fn exclusion_is_by_exact_type() {
    let set = types(&["String", "Vec<u8>"]);
    assert!(is_excluded(&TypeRef::new("String"), &set));
    assert!(is_excluded(&TypeRef::new("Vec < u8 >"), &set));
    assert!(!is_excluded(&TypeRef::new("Vec<String>"), &set));
    assert!(!is_excluded(&TypeRef::new("u8"), &set));
    assert!(!is_excluded(&TypeRef::new("String"), &[]));
}

#[test]
fn field_is_kept_unless_ignored_or_excluded() {
    let fields = Fields::Positional(vec![
        plain("u32"),
        plain("String"),
        ignored("u32"),
        ignored("String"),
        plain("u8"),
    ]);
    assert_eq!(
        select_fields(&fields, &[false, true, false, true, false]),
        vec![true, false, false, false, true]
    );
    assert_eq!(select_fields(&fields, &[]), vec![true, true, false, false, true]);
    assert_eq!(select_fields(&fields, &[true]), vec![false, true, false, false, true]);
    assert_eq!(
        select_fields(&fields, &[false, false, false, false, false, true, true]),
        vec![true, true, false, false, true]
    );
    assert_eq!(select_fields(&Fields::Empty, &[true]), Vec::<bool>::new());
}

#[test]
fn only_a_plain_yes_counts_as_the_same_type() {
    assert!(is_same(Some(true)));
    assert!(!is_same(Some(false)));
    assert!(!is_same(None));
}

#[test]
fn one_yes_among_the_answers_is_enough() {
    assert!(!any_yes(&[]));
    assert!(!any_yes(&[false, false]));
    assert!(any_yes(&[false, true, false]));
    assert!(any_yes(&[true]));
}

#[test]
fn excluded_fields_have_one_flag_for_each_field() {
    let fields = Fields::Positional(vec![plain("u32"), plain("String"), ignored("Vec<u8>")]);
    assert_eq!(
        excluded_fields(&fields, &types(&["String", "Vec < u8 >"])),
        vec![false, true, true]
    );
    assert_eq!(excluded_fields(&fields, &[]), vec![false, false, false]);
    assert_eq!(excluded_fields(&Fields::Empty, &types(&["String"])), Vec::<bool>::new());
}

#[test]
fn excluded_by_shape_has_one_row_for_each_field_list() {
    let record = Shape::Record(Fields::Positional(vec![plain("u8"), plain("String")]));
    assert_eq!(excluded_by_shape(&record, &types(&["String"])), vec![vec![false, true]]);
    let union = Shape::Union(vec![
        Variant { name: "X".to_string(), fields: Fields::Empty },
        Variant { name: "Y".to_string(), fields: Fields::Positional(vec![plain("String")]) },
    ]);
    assert_eq!(excluded_by_shape(&union, &types(&["String"])), vec![vec![], vec![true]]);
    assert_eq!(excluded_by_shape(&union, &[]), vec![vec![], vec![false]]);
    assert_eq!(excluded_by_shape(&Shape::Union(vec![]), &[]), Vec::<Vec<bool>>::new());
}

#[test]
fn kept_flags_give_the_conjunction() {
    assert_eq!(build_comparison_from(&[]), Comparison::Literal(true));
    assert_eq!(build_comparison_from(&[false, false]), Comparison::Literal(true));
    assert_eq!(build_comparison_from(&[false, true]), leaf(1));
    assert_eq!(
        build_comparison_from(&[true, false, true, true]),
        and(and(leaf(0), leaf(2)), leaf(3))
    );
}

#[test]
fn given_answers_decide_the_comparison() {
    let fields = Fields::Named(vec![
        NamedField { name: "x".to_string(), field: plain("u32") },
        NamedField { name: "y".to_string(), field: plain("String") },
        NamedField { name: "z".to_string(), field: ignored("u8") },
        NamedField { name: "w".to_string(), field: plain("u8") },
    ]);
    assert_eq!(build_comparison_with(&fields, &[false, true, false, false]), and(leaf(0), leaf(3)));
    assert_eq!(build_comparison_with(&fields, &[true, true, true, true]), Comparison::Literal(true));
    assert_eq!(
        build_comparison_with(&fields, &[]),
        and(and(leaf(0), leaf(1)), leaf(3))
    );
}

#[test]
fn given_lists_are_merged_in_order() {
    let markers = vec![
        Marker::with_arguments("partial_eq_ignore_types", "first"),
        Marker::bare("doc"),
        Marker::with_arguments("partial_eq_ignore_types", "second"),
    ];
    let listed = vec![Some(types(&["u8"])), Some(types(&["passed over"])), Some(types(&["u16", "u32"]))];
    assert_eq!(merge_exclusions(&markers, &listed), Ok(types(&["u8", "u16", "u32"])));
    let unread = vec![Some(types(&["u8"])), None, Some(vec![])];
    assert_eq!(merge_exclusions(&markers, &unread), Ok(types(&["u8"])));
}

#[test]
fn directive_without_a_list_ends_the_merge() {
    let markers = vec![
        Marker::bare("doc"),
        Marker::with_arguments("partial_eq_ignore_types", "first"),
        Marker::with_arguments("partial_eq_ignore_types", "second"),
        Marker::with_arguments("partial_eq_ignore_types", "third"),
    ];
    let listed = vec![None, Some(types(&["u8"])), None, None];
    assert_eq!(
        merge_exclusions(&markers, &listed),
        Err(SynthesisError::MalformedExclusions { marker: 2 })
    );
    let short = vec![None, Some(types(&["u8"]))];
    assert_eq!(
        merge_exclusions(&markers, &short),
        Err(SynthesisError::MalformedExclusions { marker: 2 })
    );
    assert_eq!(merge_exclusions(&vec![], &vec![None]), Ok(vec![]));
}

#[test]
fn lists_are_read_only_for_directives_with_arguments() {
    let markers = vec![
        Marker::with_arguments("serde", "u8, u16"),
        Marker::bare("partial_eq_ignore_types"),
        Marker::with_arguments("partial_eq_ignore_types", "u8, 42"),
        Marker::with_arguments("partial_eq_ignore_types", "u8, u16"),
        Marker::with_arguments("partial_eq_ignore", "u8"),
    ];
    let listed = list_exclusions(&markers);
    assert_eq!(listed.len(), 5);
    assert_eq!(listed[0], None);
    assert_eq!(listed[1], None);
    assert_eq!(listed[2], None);
    assert_eq!(listed[3].as_ref().map(|types| types.len()), Some(2));
    assert_eq!(listed[4], None);
}

#[test]
fn type_references_are_copied_as_written() {
    let written = TypeRef::new("Vec < u8 >");
    assert_eq!(written.duplicate(), written);
    assert_eq!(written.duplicate().text, "Vec < u8 >");
}

#[test]
fn given_answers_decide_the_body_of_a_record() {
    let shape = Shape::Record(Fields::Positional(vec![plain("u32"), plain("String")]));
    assert_eq!(
        assemble_from(&shape, &vec![vec![false, true]]),
        MethodBody::Record { bound: vec![true, false], condition: leaf(0) }
    );
    assert_eq!(
        assemble_from(&shape, &vec![]),
        MethodBody::Record { bound: vec![true, true], condition: and(leaf(0), leaf(1)) }
    );
}

#[test]
fn given_answers_decide_the_arms_of_a_union() {
    let shape = Shape::Union(vec![
        Variant { name: "P".to_string(), fields: Fields::Positional(vec![plain("String"), plain("u8")]) },
        Variant { name: "Q".to_string(), fields: Fields::Positional(vec![plain("u8"), plain("String")]) },
    ]);
    let fallback = || MatchArm {
        pattern: ArmPattern::Otherwise,
        bound: vec![],
        condition: Comparison::Literal(false),
    };
    assert_eq!(
        assemble_from(&shape, &vec![vec![true, false], vec![false, true]]),
        MethodBody::Union {
            arms: vec![
                MatchArm { pattern: ArmPattern::SameVariant(0), bound: vec![false, true], condition: leaf(1) },
                MatchArm { pattern: ArmPattern::SameVariant(1), bound: vec![true, false], condition: leaf(0) },
                fallback(),
            ]
        }
    );
    assert_eq!(
        assemble_from(&shape, &vec![vec![true, true]]),
        MethodBody::Union {
            arms: vec![
                MatchArm {
                    pattern: ArmPattern::SameVariant(0),
                    bound: vec![false, false],
                    condition: Comparison::Literal(true),
                },
                MatchArm {
                    pattern: ArmPattern::SameVariant(1),
                    bound: vec![true, true],
                    condition: and(leaf(0), leaf(1)),
                },
                fallback(),
            ]
        }
    );
}

#[test]
fn arm_pairs_a_variant_with_itself() {
    let fields = Fields::Positional(vec![plain("u8"), ignored("u8")]);
    assert_eq!(
        assemble_arm(3, &fields, &[]),
        MatchArm { pattern: ArmPattern::SameVariant(3), bound: vec![true, false], condition: leaf(0) }
    );
}

#[test]
fn given_answers_decide_the_derivation() {
    let declaration = record_of(
        vec![Marker::with_arguments("partial_eq_ignore_types", "String")],
        Fields::Named(vec![
            NamedField { name: "x".to_string(), field: plain("u32") },
            NamedField { name: "y".to_string(), field: plain("String") },
        ]),
    );
    let body = derive_body_from(&declaration, &vec![Some(types(&["String"]))], &vec![vec![false, true]]);
    assert_eq!(body, Ok(MethodBody::Record { bound: vec![true, false], condition: leaf(0) }));
    let body = body.unwrap();
    let of = |x: u64, y: &str| Instance::record(vec![Value::Unsigned(x), Value::text(y)]);
    assert!(body.equals(&of(4, "A"), &of(4, "B")));
    assert!(!body.equals(&of(4, "A"), &of(7, "A")));
    assert_eq!(
        derive_body_from(&declaration, &vec![None], &vec![vec![false, true]]),
        Err(SynthesisError::MalformedExclusions { marker: 0 })
    );
    assert_eq!(
        derive_body_from(&declaration, &vec![], &vec![]),
        Err(SynthesisError::MalformedExclusions { marker: 0 })
    );
}

#[test]
fn no_fields_give_true() {
    assert_eq!(build_comparison_for_fields(&Fields::Empty, &[]), Comparison::Literal(true));
    assert_eq!(
        build_comparison_for_fields(&Fields::Named(vec![]), &[]),
        Comparison::Literal(true)
    );
    assert_eq!(
        build_comparison_for_fields(&Fields::Positional(vec![]), &[]),
        Comparison::Literal(true)
    );
}

#[test]
fn one_field_gives_one_leaf() {
    let fields = Fields::Positional(vec![plain("u8")]);
    assert_eq!(build_comparison_for_fields(&fields, &[]), leaf(0));
}

#[test]
fn fields_are_joined_from_the_left_in_order() {
    let fields = Fields::Positional(vec![plain("u8"), plain("u16"), plain("u32"), plain("u64")]);
    assert_eq!(
        build_comparison_for_fields(&fields, &[]),
        and(and(and(leaf(0), leaf(1)), leaf(2)), leaf(3))
    );
}

#[test]
fn left_out_fields_keep_the_indices_of_the_others() {
    let fields = Fields::Positional(vec![
        ignored("u8"),
        plain("u16"),
        plain("String"),
        plain("u32"),
        ignored("String"),
        plain("u64"),
    ]);
    assert_eq!(
        build_comparison_for_fields(&fields, &types(&["String"])),
        and(and(leaf(1), leaf(3)), leaf(5))
    );
}

#[test]
fn all_fields_left_out_give_true() {
    let fields = Fields::Named(vec![
        NamedField { name: "a".to_string(), field: ignored("u8") },
        NamedField { name: "b".to_string(), field: plain("String") },
    ]);
    assert_eq!(
        build_comparison_for_fields(&fields, &types(&["String"])),
        Comparison::Literal(true)
    );
}

#[test]
fn unrecognized_markers_change_nothing() {
    let noted = Field::new(TypeRef::new("u8"), vec![Marker::with_arguments("serde", "skip")]);
    let fields = Fields::Positional(vec![noted, plain("u8")]);
    assert_eq!(build_comparison_for_fields(&fields, &[]), and(leaf(0), leaf(1)));
}

#[test]
fn fields_are_reached_by_index() {
    let fields = Fields::Named(vec![
        NamedField { name: "a".to_string(), field: plain("u8") },
        NamedField { name: "b".to_string(), field: ignored("u16") },
    ]);
    assert_eq!(fields.len(), 2);
    assert_eq!(fields.get(1), Some(&ignored("u16")));
    assert_eq!(fields.get(2), None);
    assert_eq!(Fields::Empty.len(), 0);
    assert_eq!(Fields::Empty.get(0), None);
    assert_eq!(Fields::Positional(vec![plain("u8")]).get(0), Some(&plain("u8")));
}

#[test]
fn expression_mentions_its_leaves() {
    let expression = and(and(leaf(1), leaf(3)), Comparison::Literal(true));
    assert!(expression.mentions(1));
    assert!(expression.mentions(3));
    assert!(!expression.mentions(0));
    assert!(!expression.mentions(2));
    assert!(!Comparison::Literal(true).mentions(0));
}

#[test]
fn expression_evaluates_field_by_field() {
    let expression = and(leaf(0), leaf(2));
    assert!(expression.evaluate(&numbers(&[1, 2, 3]), &numbers(&[1, 9, 3])));
    assert!(!expression.evaluate(&numbers(&[1, 2, 3]), &numbers(&[1, 2, 4])));
    assert!(!expression.evaluate(&numbers(&[0, 2, 3]), &numbers(&[1, 2, 3])));
    assert!(Comparison::Literal(true).evaluate(&numbers(&[1]), &numbers(&[2])));
    assert!(!Comparison::Literal(false).evaluate(&numbers(&[1]), &numbers(&[1])));
}

#[test]
fn missing_field_is_equal_to_nothing() {
    assert!(!leaf(1).evaluate(&numbers(&[1]), &numbers(&[1, 2])));
    assert!(!leaf(1).evaluate(&numbers(&[1, 2]), &numbers(&[1])));
    assert!(!leaf(0).evaluate(&[].to_vec(), &[].to_vec()));
}

#[test]
fn values_are_equal_by_sort_and_content() {
    assert!(Value::Unsigned(4).same(&Value::Unsigned(4)));
    assert!(!Value::Unsigned(4).same(&Value::Unsigned(5)));
    assert!(!Value::Unsigned(4).same(&Value::Signed(4)));
    assert!(Value::Signed(-4).same(&Value::Signed(-4)));
    assert!(Value::Flag(true).same(&Value::Flag(true)));
    assert!(!Value::Flag(true).same(&Value::Flag(false)));
    assert!(Value::text("A").same(&Value::Text("A".to_string())));
    assert!(!Value::text("A").same(&Value::text("B")));
    assert!(!Value::text("1").same(&Value::Unsigned(1)));
}

#[test]
fn bindings_follow_the_expression() {
    assert_eq!(bindings_for(4, &and(leaf(1), leaf(3))), vec![false, true, false, true]);
    assert_eq!(bindings_for(2, &Comparison::Literal(true)), vec![false, false]);
    assert_eq!(bindings_for(0, &Comparison::Literal(true)), Vec::<bool>::new());
}

#[test]
fn sides_have_different_postfixes() {
    assert_eq!(Side::Left.postfix(), "_left");
    assert_eq!(Side::Right.postfix(), "_right");
}

#[test]
fn record_body_binds_what_it_compares() {
    let shape = Shape::Record(Fields::Positional(vec![plain("u8"), ignored("u8"), plain("u16")]));
    assert_eq!(
        assemble(&shape, &[]),
        MethodBody::Record { bound: vec![true, false, true], condition: and(leaf(0), leaf(2)) }
    );
}

#[test]
fn union_body_has_one_arm_per_variant_and_a_fallback() {
    let shape = Shape::Union(vec![
        Variant { name: "X".to_string(), fields: Fields::Empty },
        Variant { name: "Y".to_string(), fields: Fields::Positional(vec![plain("u8"), plain("String")]) },
    ]);
    assert_eq!(
        assemble(&shape, &types(&["String"])),
        MethodBody::Union {
            arms: vec![
                MatchArm {
                    pattern: ArmPattern::SameVariant(0),
                    bound: vec![],
                    condition: Comparison::Literal(true),
                },
                MatchArm {
                    pattern: ArmPattern::SameVariant(1),
                    bound: vec![true, false],
                    condition: leaf(0),
                },
                MatchArm {
                    pattern: ArmPattern::Otherwise,
                    bound: vec![],
                    condition: Comparison::Literal(false),
                },
            ]
        }
    );
}

#[test]
fn union_without_variants_has_only_the_fallback() {
    let body = assemble(&Shape::Union(vec![]), &[]);
    assert_eq!(
        body,
        MethodBody::Union {
            arms: vec![MatchArm {
                pattern: ArmPattern::Otherwise,
                bound: vec![],
                condition: Comparison::Literal(false),
            }]
        }
    );
    assert!(!body.equals(&Instance::of_variant(0, vec![]), &Instance::of_variant(0, vec![])));
}

#[test]
fn plain_record_is_equal_field_by_field() {
    let declaration = record_of(
        vec![],
        Fields::Positional(vec![plain("u8"), plain("u16"), plain("u32")]),
    );
    let body = derive_body(&declaration).unwrap();
    let base = Instance::record(numbers(&[1, 2, 3]));
    assert!(body.equals(&base, &Instance::record(numbers(&[1, 2, 3]))));
    assert!(!body.equals(&base, &Instance::record(numbers(&[0, 2, 3]))));
    assert!(!body.equals(&base, &Instance::record(numbers(&[1, 0, 3]))));
    assert!(!body.equals(&base, &Instance::record(numbers(&[1, 2, 0]))));
}

#[test]
fn type_exclusion_skips_the_field_whatever_its_markers() {
    let declaration = record_of(
        vec![Marker::with_arguments("partial_eq_ignore_types", "Vec<u8>")],
        Fields::Positional(vec![
            plain("Vec < u8 >"),
            ignored("Vec<u8>"),
            plain("Vec<u16>"),
        ]),
    );
    let body = derive_body(&declaration).unwrap();
    assert_eq!(
        body,
        MethodBody::Record { bound: vec![false, false, true], condition: leaf(2) }
    );
    assert!(body.equals(
        &Instance::record(numbers(&[1, 2, 3])),
        &Instance::record(numbers(&[7, 8, 3]))
    ));
    assert!(!body.equals(
        &Instance::record(numbers(&[1, 2, 3])),
        &Instance::record(numbers(&[1, 2, 4]))
    ));
}

#[test]
fn exclusions_are_shared_by_all_variants() {
    let declaration = Declaration {
        name: "U".to_string(),
        generics: vec![],
        markers: vec![Marker::with_arguments("partial_eq_ignore_types", "String")],
        shape: Shape::Union(vec![
            Variant { name: "P".to_string(), fields: Fields::Positional(vec![plain("String"), plain("u8")]) },
            Variant { name: "Q".to_string(), fields: Fields::Positional(vec![plain("u8"), plain("String")]) },
        ]),
    };
    let body = derive_body(&declaration).unwrap();
    let p = |a: &str, b: u64| Instance::of_variant(0, vec![Value::text(a), Value::Unsigned(b)]);
    let q = |a: u64, b: &str| Instance::of_variant(1, vec![Value::Unsigned(a), Value::text(b)]);
    assert!(body.equals(&p("one", 1), &p("two", 1)));
    assert!(!body.equals(&p("one", 1), &p("one", 2)));
    assert!(body.equals(&q(1, "one"), &q(1, "two")));
    assert!(!body.equals(&q(1, "one"), &q(2, "one")));
    assert!(!body.equals(&p("one", 1), &q(1, "one")));
}

#[test]
fn record_with_nothing_to_compare_is_always_equal() {
    let empty = derive_body(&record_of(vec![], Fields::Empty)).unwrap();
    assert!(empty.equals(&Instance::record(vec![]), &Instance::record(vec![])));
    let excluded = derive_body(&record_of(
        vec![Marker::with_arguments("partial_eq_ignore_types", "u8")],
        Fields::Positional(vec![plain("u8"), ignored("u16")]),
    ))
    .unwrap();
    assert!(excluded.equals(
        &Instance::record(numbers(&[1, 2])),
        &Instance::record(numbers(&[3, 4]))
    ));
}

#[test]
fn different_variants_are_never_equal() {
    let declaration = Declaration {
        name: "U".to_string(),
        generics: vec![],
        markers: vec![],
        shape: Shape::Union(vec![
            Variant { name: "P".to_string(), fields: Fields::Positional(vec![ignored("u8")]) },
            Variant { name: "Q".to_string(), fields: Fields::Positional(vec![ignored("u8")]) },
        ]),
    };
    let body = derive_body(&declaration).unwrap();
    let p = Instance::of_variant(0, numbers(&[1]));
    let q = Instance::of_variant(1, numbers(&[1]));
    assert!(body.equals(&p, &p));
    assert!(body.equals(&q, &q));
    assert!(!body.equals(&p, &q));
    assert!(!body.equals(&q, &p));
}

#[test]
fn malformed_directive_gives_no_body() {
    let declaration = record_of(
        vec![Marker::with_arguments("partial_eq_ignore_types", "not a type list !")],
        Fields::Positional(vec![plain("u8")]),
    );
    assert_eq!(
        derive_body(&declaration),
        Err(SynthesisError::MalformedExclusions { marker: 0 })
    );
    assert_eq!(
        partial_eq_extras(&declaration),
        Err(SynthesisError::MalformedExclusions { marker: 0 })
    );
}

#[test]
fn implementation_repeats_name_and_generics() {
    let declaration = Declaration {
        name: "Pair".to_string(),
        generics: vec!["'a".to_string(), "T: Clone".to_string()],
        markers: vec![],
        shape: Shape::Record(Fields::Positional(vec![plain("&'a T"), plain("T")])),
    };
    let implementation = partial_eq_extras(&declaration).unwrap();
    assert_eq!(implementation.trait_path, "::std::cmp::PartialEq");
    assert_eq!(implementation.target, "Pair");
    assert_eq!(implementation.generics, vec!["'a".to_string(), "T: Clone".to_string()]);
    assert_eq!(implementation.method, "eq");
    assert_eq!(implementation.receiver, Receiver::Borrowed);
    assert_eq!(implementation.argument, "other: &Self");
    assert_eq!(implementation.returns, "bool");
    assert_eq!(
        implementation.body,
        MethodBody::Record { bound: vec![true, true], condition: and(leaf(0), leaf(1)) }
    );
}

#[test]
fn emit_wraps_the_body_unchanged() {
    let body = MethodBody::Record { bound: vec![true], condition: leaf(0) };
    let implementation = emit("Single", &vec![], body);
    assert_eq!(implementation.target, "Single");
    assert!(implementation.generics.is_empty());
    assert_eq!(
        implementation.body,
        MethodBody::Record { bound: vec![true], condition: leaf(0) }
    );
}

#[test]
fn instances_record_their_variant() {
    assert_eq!(Instance::record(vec![]).variant, 0);
    assert_eq!(Instance::of_variant(3, numbers(&[1])).variant, 3);
    assert_eq!(Instance::of_variant(3, numbers(&[1])).fields, numbers(&[1]));
}
