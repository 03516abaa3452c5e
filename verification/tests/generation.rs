use enum_group::ast::{ErrorKind, Meta, TypeData, TypeDecl, VariantDecl};
use enum_group::context::EnumGroupContext;
use enum_group::output::{GenBody, GenImpl};
use enum_group::FieldShape;

fn path(name: &str, span: u64) -> Meta {
    Meta::Path { segments: vec![name.to_string()], span }
}

fn list(name: &str, args: Vec<Meta>, span: u64) -> Meta {
    Meta::List { segments: vec![name.to_string()], path_span: span, args, span }
}

fn groups(args: Vec<Meta>, span: u64) -> Meta {
    list("groups", args, span)
}

fn variant(name: &str, shape: FieldShape, attrs: Vec<Meta>, span: u64) -> VariantDecl {
    VariantDecl { ident: name.to_string(), shape, attrs, span }
}

fn unit_variant(name: &str, attrs: Vec<Meta>, span: u64) -> VariantDecl {
    variant(name, FieldShape::Unit, attrs, span)
}

fn enum_decl(variants: Vec<VariantDecl>) -> TypeDecl {
    TypeDecl {
        visibility: "pub".to_string(),
        ident: "Subject".to_string(),
        generics: String::new(),
        data: TypeData::Enum { variants },
        span: 99,
    }
}

fn generate(variants: Vec<VariantDecl>) -> GenImpl {
    let ctx = EnumGroupContext::new(enum_decl(variants)).unwrap();
    ctx.generate().unwrap()
}

fn is(block: &GenImpl, fn_name: &str, variant: &str) -> bool {
    block.eval_predicate(&fn_name.to_string(), &variant.to_string()).unwrap()
}

#[test]
fn nested_group_flattens_to_compound_label() {
    let block = generate(vec![
        unit_variant("Deep", vec![groups(vec![list("outer", vec![path("inner", 2)], 1)], 1)], 10),
        unit_variant("Plain", vec![], 11),
    ]);
    assert!(is(&block, "is_outer_inner", "Deep"));
    assert!(!is(&block, "is_outer_inner", "Plain"));
    // the unflattened names exist nowhere
    assert_eq!(block.eval_predicate(&"is_outer".to_string(), &"Deep".to_string()), None);
    assert_eq!(block.eval_predicate(&"is_inner".to_string(), &"Deep".to_string()), None);
}

#[test]
fn doubly_nested_group_flattens_in_order() {
    let block = generate(vec![unit_variant(
        "Deep",
        vec![groups(
            vec![list("a", vec![list("b", vec![path("c", 3)], 2)], 1)],
            1,
        )],
        10,
    )]);
    assert!(is(&block, "is_a_b_c", "Deep"));
}

#[test]
fn nested_group_beside_plain_labels() {
    let block = generate(vec![
        unit_variant(
            "Mixed",
            vec![groups(vec![path("flat", 1), list("outer", vec![path("x", 3), path("y", 4)], 2)], 1)],
            10,
        ),
        unit_variant("Other", vec![], 11),
    ]);
    assert!(is(&block, "is_flat", "Mixed"));
    assert!(is(&block, "is_outer_x", "Mixed"));
    assert!(is(&block, "is_outer_y", "Mixed"));
    assert!(!is(&block, "is_outer_x", "Other"));
}

fn expect_error(variants: Vec<VariantDecl>, kind: ErrorKind, span: u64) {
    let err = match EnumGroupContext::new(enum_decl(variants)) {
        Err(e) => e,
        Ok(_) => panic!("generation was expected to fail"),
    };
    assert_eq!(err.kind, kind);
    assert_eq!(err.span, span);
}

#[test]
fn empty_groups_list_is_rejected() {
    expect_error(
        vec![unit_variant("One", vec![groups(vec![], 7)], 10)],
        ErrorKind::EmptyGroupList,
        7,
    );
}

#[test]
fn duplicate_groups_attribute_is_rejected() {
    expect_error(
        vec![unit_variant(
            "One",
            vec![groups(vec![path("odd", 1)], 6), groups(vec![path("prime", 2)], 8)],
            10,
        )],
        ErrorKind::DuplicateGroupAttribute,
        8,
    );
}

#[test]
fn label_starting_with_underscore_is_rejected() {
    expect_error(
        vec![unit_variant("One", vec![groups(vec![path("_odd", 5)], 1)], 10)],
        ErrorKind::LabelStartsWithUnderscore,
        5,
    );
}

#[test]
fn label_ending_with_underscore_is_rejected() {
    expect_error(
        vec![unit_variant("One", vec![groups(vec![path("odd_", 5)], 1)], 10)],
        ErrorKind::LabelEndsWithUnderscore,
        5,
    );
}

#[test]
fn label_with_invalid_character_is_rejected() {
    expect_error(
        vec![unit_variant("One", vec![groups(vec![path("odd!", 5)], 1)], 10)],
        ErrorKind::InvalidLabelCharacters,
        5,
    );
}

#[test]
fn label_with_uppercase_character_is_rejected() {
    expect_error(
        vec![unit_variant("One", vec![groups(vec![path("Odd", 5)], 1)], 10)],
        ErrorKind::InvalidLabelCharacters,
        5,
    );
}

#[test]
fn struct_declaration_is_rejected() {
    let decl = TypeDecl {
        visibility: "pub".to_string(),
        ident: "Subject".to_string(),
        generics: String::new(),
        data: TypeData::Struct,
        span: 99,
    };
    let err = match EnumGroupContext::new(decl) {
        Err(e) => e,
        Ok(_) => panic!("generation was expected to fail"),
    };
    assert_eq!(err.kind, ErrorKind::NotAnEnum);
    assert_eq!(err.span, 99);
}

#[test]
fn multi_segment_path_is_rejected() {
    let arg = Meta::Path { segments: vec!["a".to_string(), "b".to_string()], span: 5 };
    expect_error(
        vec![unit_variant("One", vec![groups(vec![arg], 1)], 10)],
        ErrorKind::UnknownGroupItem,
        5,
    );
}

#[test]
fn literal_argument_is_rejected() {
    expect_error(
        vec![unit_variant("One", vec![groups(vec![Meta::Other { span: 5 }], 1)], 10)],
        ErrorKind::UnknownGroupItem,
        5,
    );
}

#[test]
fn label_equal_to_variant_name_is_rejected() {
    expect_error(
        vec![unit_variant("One", vec![groups(vec![path("one", 5)], 1)], 10)],
        ErrorKind::GroupNameEqualsVariantName,
        10,
    );
}

#[test]
fn first_error_wins_over_later_duplicate() {
    // a valid groups attribute followed by an empty one: the empty list
    // is reported, not the duplication
    expect_error(
        vec![unit_variant(
            "One",
            vec![groups(vec![path("odd", 1)], 6), groups(vec![], 8)],
            10,
        )],
        ErrorKind::EmptyGroupList,
        8,
    );
}

#[test]
fn unlabeled_enum_generates_only_self_predicates_and_name_accessor() {
    let block = generate(vec![
        unit_variant("Red", vec![], 10),
        variant("Green", FieldShape::Unnamed, vec![], 11),
        variant("Blue", FieldShape::Named, vec![], 12),
    ]);
    assert_eq!(block.fns.len(), 4);
    assert_eq!(block.fns[0].name, "is_red");
    assert_eq!(block.fns[1].name, "is_green");
    assert_eq!(block.fns[2].name, "is_blue");
    assert_eq!(block.fns[3].name, "variant_name");
    assert!(matches!(block.fns[3].body, GenBody::NameAccessor { .. }));
    assert!(is(&block, "is_red", "Red"));
    assert!(!is(&block, "is_red", "Green"));
}

#[test]
fn variant_name_returns_declared_identifier_for_every_shape() {
    let block = generate(vec![
        unit_variant("Bare", vec![], 10),
        variant("Tuple", FieldShape::Unnamed, vec![], 11),
        variant("Record", FieldShape::Named, vec![groups(vec![path("labeled", 1)], 1)], 12),
    ]);
    assert_eq!(block.eval_variant_name(&"Bare".to_string()), Some("Bare".to_string()));
    assert_eq!(block.eval_variant_name(&"Tuple".to_string()), Some("Tuple".to_string()));
    assert_eq!(block.eval_variant_name(&"Record".to_string()), Some("Record".to_string()));
}

#[test]
fn self_predicate_name_lowercases_the_variant_identifier() {
    let block = generate(vec![
        unit_variant("HTTP", vec![], 10),
        unit_variant("Mixed", vec![], 11),
    ]);
    assert!(is(&block, "is_http", "HTTP"));
    assert!(!is(&block, "is_http", "Mixed"));
    assert!(is(&block, "is_mixed", "Mixed"));
    // the unfolded spelling exists nowhere
    assert_eq!(block.eval_predicate(&"is_HTTP".to_string(), &"HTTP".to_string()), None);
}

#[test]
fn digits_and_underscores_are_valid_label_characters() {
    let block = generate(vec![unit_variant(
        "One",
        vec![groups(vec![path("a1_b2", 1)], 1)],
        10,
    )]);
    assert!(is(&block, "is_a1_b2", "One"));
}

#[test]
fn label_listed_twice_still_answers_once() {
    let block = generate(vec![
        unit_variant("One", vec![groups(vec![path("odd", 1), path("odd", 2)], 1)], 10),
        unit_variant("Two", vec![], 11),
    ]);
    assert_eq!(block.eval_predicate(&"is_odd".to_string(), &"One".to_string()), Some(true));
    assert_eq!(block.eval_predicate(&"is_odd".to_string(), &"Two".to_string()), Some(false));
}

#[test]
fn emitted_block_holds_one_function_per_label_and_variant_plus_accessor() {
    // three distinct labels over four variants: 3 + 4 + 1 functions
    let block = generate(vec![
        unit_variant("One", vec![groups(vec![path("odd", 1)], 1)], 10),
        unit_variant("Two", vec![groups(vec![path("even", 2), path("prime", 3)], 2)], 11),
        unit_variant("Three", vec![groups(vec![path("odd", 4), path("prime", 5)], 4)], 12),
        unit_variant("Unknown", vec![], 13),
    ]);
    assert_eq!(block.fns.len(), 8);
    assert_eq!(block.type_ident, "Subject");
}

#[test]
fn end_to_end_example() {
    // `{ #[groups(odd)] One, #[groups(even, prime)] Two,
    //    #[groups(odd, prime)] Three, Unknown }`
    let block = generate(vec![
        unit_variant("One", vec![groups(vec![path("odd", 1)], 1)], 10),
        unit_variant("Two", vec![groups(vec![path("even", 2), path("prime", 3)], 2)], 11),
        unit_variant("Three", vec![groups(vec![path("odd", 4), path("prime", 5)], 4)], 12),
        unit_variant("Unknown", vec![], 13),
    ]);
    assert!(is(&block, "is_odd", "One"));
    assert!(!is(&block, "is_odd", "Two"));
    assert!(is(&block, "is_odd", "Three"));
    assert!(!is(&block, "is_odd", "Unknown"));
    assert!(is(&block, "is_prime", "Two"));
    assert!(is(&block, "is_prime", "Three"));
    assert!(!is(&block, "is_prime", "One"));
    assert!(!is(&block, "is_prime", "Unknown"));
    assert!(is(&block, "is_unknown", "Unknown"));
    assert!(!is(&block, "is_unknown", "One"));
    assert!(!is(&block, "is_unknown", "Two"));
    assert!(!is(&block, "is_unknown", "Three"));
}
