use enum_group::ast::{Meta, TypeData, TypeDecl, VariantDecl};
use enum_group::context::EnumGroupContext;
use enum_group::output::GenImpl;
use enum_group::FieldShape;

fn path(name: &str, span: u64) -> Meta {
    Meta::Path { segments: vec![name.to_string()], span }
}

fn groups(args: Vec<Meta>, span: u64) -> Meta {
    Meta::List { segments: vec!["groups".to_string()], path_span: span, args, span }
}

fn tuple_variant(name: &str, attrs: Vec<Meta>, span: u64) -> VariantDecl {
    VariantDecl { ident: name.to_string(), shape: FieldShape::Unnamed, attrs, span }
}

/// The declaration of `TestGenericEnum<'a>`: `Title(&'a str)` and
/// `Author(&'a str)` labeled `freeze`; `Summary(&'a str)` and
/// `Content(String)` labeled `multi_line`. The generic parameter list is
/// carried through verbatim; the payloads (`"hello world"`, `"beyond"`,
/// `"say hello to everyone"`, `"Hello everyone"` in use) never reach the
/// generator, only the positional shape does.
fn generic_enum() -> GenImpl {
    let decl = TypeDecl {
        visibility: "pub".to_string(),
        ident: "TestGenericEnum".to_string(),
        generics: "<'a>".to_string(),
        data: TypeData::Enum {
            variants: vec![
                tuple_variant("Title", vec![groups(vec![path("freeze", 1)], 1)], 10),
                tuple_variant("Author", vec![groups(vec![path("freeze", 2)], 2)], 11),
                tuple_variant("Summary", vec![groups(vec![path("multi_line", 3)], 3)], 12),
                tuple_variant("Content", vec![groups(vec![path("multi_line", 4)], 4)], 13),
            ],
        },
        span: 0,
    };
    let ctx = EnumGroupContext::new(decl).unwrap();
    let block = ctx.generate().unwrap();
    assert_eq!(block.generics, "<'a>");
    block
}

fn is(block: &GenImpl, fn_name: &str, variant: &str) -> bool {
    block.eval_predicate(&fn_name.to_string(), &variant.to_string()).unwrap()
}

#[test]
fn test_is_freeze() {
    let block = generic_enum();
    assert!(is(&block, "is_freeze", "Title"));
    assert!(is(&block, "is_freeze", "Author"));
    assert!(!is(&block, "is_freeze", "Summary"));
    assert!(!is(&block, "is_freeze", "Content"));
}

#[test]
fn test_is_multi_line() {
    let block = generic_enum();
    assert!(!is(&block, "is_multi_line", "Title"));
    assert!(!is(&block, "is_multi_line", "Author"));
    assert!(is(&block, "is_multi_line", "Summary"));
    assert!(is(&block, "is_multi_line", "Content"));
}
