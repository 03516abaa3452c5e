use enum_group::ast::{Meta, TypeData, TypeDecl, VariantDecl};
use enum_group::context::EnumGroupContext;
use enum_group::output::GenImpl;
use enum_group::FieldShape;

fn path(name: &str, span: u64) -> Meta {
    Meta::Path { segments: vec![name.to_string()], span }
}

fn groups(args: Vec<Meta>, span: u64) -> Meta {
    Meta::List { segments: vec!["groups".to_string()], path_span: span, args, span }
}

fn tuple_variant(name: &str, attrs: Vec<Meta>, span: u64) -> VariantDecl {
    VariantDecl { ident: name.to_string(), shape: FieldShape::Unnamed, attrs, span }
}

fn unit_variant(name: &str, attrs: Vec<Meta>, span: u64) -> VariantDecl {
    VariantDecl { ident: name.to_string(), shape: FieldShape::Unit, attrs, span }
}

/// The declaration of `TestUnnameEnum`: `I8(i8)` and `I16(i16)` labeled
/// `number, integer, order, comparable`; `Float32(f32)` labeled
/// `number, float, order, comparable`; `Str(String)` labeled
/// `string, comparable`; `Unknown` bare. The payload types, floating
/// point included, never reach the generator: only the positional shape
/// does.
fn unname_enum() -> GenImpl {
    let decl = TypeDecl {
        visibility: "pub".to_string(),
        ident: "TestUnnameEnum".to_string(),
        generics: String::new(),
        data: TypeData::Enum {
            variants: vec![
                tuple_variant(
                    "I8",
                    vec![groups(
                        vec![
                            path("number", 1),
                            path("integer", 2),
                            path("order", 3),
                            path("comparable", 4),
                        ],
                        1,
                    )],
                    10,
                ),
                tuple_variant(
                    "I16",
                    vec![groups(
                        vec![
                            path("number", 5),
                            path("integer", 6),
                            path("order", 7),
                            path("comparable", 8),
                        ],
                        5,
                    )],
                    11,
                ),
                tuple_variant(
                    "Float32",
                    vec![groups(
                        vec![
                            path("number", 9),
                            path("float", 20),
                            path("order", 21),
                            path("comparable", 22),
                        ],
                        9,
                    )],
                    12,
                ),
                tuple_variant(
                    "Str",
                    vec![groups(vec![path("string", 23), path("comparable", 24)], 23)],
                    13,
                ),
                unit_variant("Unknown", vec![], 14),
            ],
        },
        span: 0,
    };
    let ctx = EnumGroupContext::new(decl).unwrap();
    ctx.generate().unwrap()
}

fn is(block: &GenImpl, fn_name: &str, variant: &str) -> bool {
    block.eval_predicate(&fn_name.to_string(), &variant.to_string()).unwrap()
}

#[test]
fn test_is_i8() {
    let block = unname_enum();
    assert!(is(&block, "is_i8", "I8"));
    assert!(!is(&block, "is_i8", "I16"));
    assert!(!is(&block, "is_i8", "Float32"));
    assert!(!is(&block, "is_i8", "Str"));
    assert!(!is(&block, "is_i8", "Unknown"));
}

#[test]
fn test_is_i16() {
    let block = unname_enum();
    assert!(!is(&block, "is_i16", "I8"));
    assert!(is(&block, "is_i16", "I16"));
    assert!(!is(&block, "is_i16", "Float32"));
    assert!(!is(&block, "is_i16", "Str"));
    assert!(!is(&block, "is_i16", "Unknown"));
}

#[test]
fn test_is_float32() {
    let block = unname_enum();
    assert!(!is(&block, "is_float32", "I8"));
    assert!(!is(&block, "is_float32", "I16"));
    assert!(is(&block, "is_float32", "Float32"));
    assert!(!is(&block, "is_float32", "Str"));
    assert!(!is(&block, "is_float32", "Unknown"));
}

#[test]
fn test_is_str() {
    let block = unname_enum();
    assert!(!is(&block, "is_str", "I8"));
    assert!(!is(&block, "is_str", "I16"));
    assert!(!is(&block, "is_str", "Float32"));
    assert!(is(&block, "is_str", "Str"));
    assert!(!is(&block, "is_str", "Unknown"));
}

#[test]
fn test_is_unknown() {
    let block = unname_enum();
    assert!(!is(&block, "is_unknown", "I8"));
    assert!(!is(&block, "is_unknown", "I16"));
    assert!(!is(&block, "is_unknown", "Float32"));
    assert!(!is(&block, "is_unknown", "Str"));
    assert!(is(&block, "is_unknown", "Unknown"));
}

#[test]
fn test_is_number() {
    let block = unname_enum();
    assert!(is(&block, "is_number", "I8"));
    assert!(is(&block, "is_number", "I16"));
    assert!(is(&block, "is_number", "Float32"));
    assert!(!is(&block, "is_number", "Str"));
    assert!(!is(&block, "is_number", "Unknown"));
}

#[test]
fn test_is_integer() {
    let block = unname_enum();
    assert!(is(&block, "is_integer", "I8"));
    assert!(is(&block, "is_integer", "I16"));
    assert!(!is(&block, "is_integer", "Float32"));
    assert!(!is(&block, "is_integer", "Str"));
    assert!(!is(&block, "is_number", "Unknown"));
}

#[test]
fn test_is_order() {
    let block = unname_enum();
    assert!(is(&block, "is_order", "I8"));
    assert!(is(&block, "is_order", "I16"));
    assert!(is(&block, "is_order", "Float32"));
    assert!(!is(&block, "is_order", "Str"));
    assert!(!is(&block, "is_number", "Unknown"));
}

#[test]
fn test_is_comparable() {
    let block = unname_enum();
    assert!(is(&block, "is_comparable", "I8"));
    assert!(is(&block, "is_comparable", "I16"));
    assert!(is(&block, "is_comparable", "Float32"));
    assert!(is(&block, "is_comparable", "Str"));
    assert!(!is(&block, "is_number", "Unknown"));
}
