use enum_group::ast::{Meta, TypeData, TypeDecl, VariantDecl};
use enum_group::context::EnumGroupContext;
use enum_group::output::GenImpl;
use enum_group::FieldShape;

fn path(name: &str, span: u64) -> Meta {
    Meta::Path { segments: vec![name.to_string()], span }
}

fn groups(args: Vec<Meta>, span: u64) -> Meta {
    Meta::List { segments: vec!["groups".to_string()], path_span: span, args, span }
}

/// `#[allow(dead_code)]`, as the metadata list carries it: a list whose
/// path is not `groups`, so the generator skips it.
fn allow_dead_code(span: u64) -> Meta {
    Meta::List {
        segments: vec!["allow".to_string()],
        path_span: span,
        args: vec![path("dead_code", span)],
        span,
    }
}

fn named_variant(name: &str, attrs: Vec<Meta>, span: u64) -> VariantDecl {
    VariantDecl { ident: name.to_string(), shape: FieldShape::Named, attrs, span }
}

fn unit_variant(name: &str, attrs: Vec<Meta>, span: u64) -> VariantDecl {
    VariantDecl { ident: name.to_string(), shape: FieldShape::Unit, attrs, span }
}

/// The declaration of `TestNamedEnum`: `Sunflower{..}` and `Rose{..}`
/// labeled `plant`; `Tortoise{..}`, `Crow{..}` and `Cat{..}` labeled
/// `animal` plus one of `reptile`, `bird`, `mammalian`; `Unknown` bare.
/// The field values (a color string, feet, fur, feather) never reach the
/// generator: only the named-field shape does.
fn named_enum() -> GenImpl {
    let decl = TypeDecl {
        visibility: "pub".to_string(),
        ident: "TestNamedEnum".to_string(),
        generics: String::new(),
        data: TypeData::Enum {
            variants: vec![
                named_variant(
                    "Sunflower",
                    vec![allow_dead_code(1), groups(vec![path("plant", 2)], 2)],
                    10,
                ),
                named_variant(
                    "Rose",
                    vec![allow_dead_code(3), groups(vec![path("plant", 4)], 4)],
                    11,
                ),
                named_variant(
                    "Tortoise",
                    vec![allow_dead_code(5), groups(vec![path("animal", 6), path("reptile", 7)], 6)],
                    12,
                ),
                named_variant(
                    "Crow",
                    vec![allow_dead_code(8), groups(vec![path("animal", 9), path("bird", 20)], 9)],
                    13,
                ),
                named_variant(
                    "Cat",
                    vec![
                        allow_dead_code(21),
                        groups(vec![path("animal", 22), path("mammalian", 23)], 22),
                    ],
                    14,
                ),
                unit_variant("Unknown", vec![], 15),
            ],
        },
        span: 0,
    };
    let ctx = EnumGroupContext::new(decl).unwrap();
    ctx.generate().unwrap()
}

fn is(block: &GenImpl, fn_name: &str, variant: &str) -> bool {
    block.eval_predicate(&fn_name.to_string(), &variant.to_string()).unwrap()
}

#[test]
fn test_is_plant() {
    let block = named_enum();
    assert!(is(&block, "is_plant", "Sunflower"));
    assert!(is(&block, "is_plant", "Rose"));
    assert!(!is(&block, "is_plant", "Tortoise"));
    assert!(!is(&block, "is_plant", "Crow"));
    assert!(!is(&block, "is_plant", "Cat"));
    assert!(!is(&block, "is_plant", "Unknown"));
}

#[test]
fn test_is_animal() {
    let block = named_enum();
    assert!(!is(&block, "is_animal", "Sunflower"));
    assert!(!is(&block, "is_animal", "Rose"));
    assert!(is(&block, "is_animal", "Tortoise"));
    assert!(is(&block, "is_animal", "Crow"));
    assert!(is(&block, "is_animal", "Cat"));
    assert!(!is(&block, "is_animal", "Unknown"));
}

#[test]
fn test_is_reptile() {
    let block = named_enum();
    assert!(!is(&block, "is_reptile", "Sunflower"));
    assert!(!is(&block, "is_reptile", "Rose"));
    assert!(is(&block, "is_reptile", "Tortoise"));
    assert!(!is(&block, "is_reptile", "Crow"));
    assert!(!is(&block, "is_reptile", "Cat"));
    assert!(!is(&block, "is_reptile", "Unknown"));
}

#[test]
fn test_is_bird() {
    let block = named_enum();
    assert!(!is(&block, "is_bird", "Sunflower"));
    assert!(!is(&block, "is_bird", "Rose"));
    assert!(!is(&block, "is_bird", "Tortoise"));
    assert!(is(&block, "is_bird", "Crow"));
    assert!(!is(&block, "is_bird", "Cat"));
    assert!(!is(&block, "is_bird", "Unknown"));
}

#[test]
fn test_is_mammalian() {
    let block = named_enum();
    assert!(!is(&block, "is_mammalian", "Sunflower"));
    assert!(!is(&block, "is_mammalian", "Rose"));
    assert!(!is(&block, "is_mammalian", "Tortoise"));
    assert!(!is(&block, "is_mammalian", "Crow"));
    assert!(is(&block, "is_mammalian", "Cat"));
    assert!(!is(&block, "is_mammalian", "Unknown"));
}
