//! End-to-end tests of parsing and evaluation.

use ensan::document::{Attribute, Document, Expr, Structure};
use ensan::engine::Engine;
use ensan::errors::Error;
use ensan::value::Val;

#[test]
fn test_nested_block_with_3_labels() {
    let mut en = Engine::new();
    let hcl = r#"
        blk "one" "two" "three" {
            bar = "baz"
            another = bar
            again "four" "five" "six" {
                foo = "?"
                hai = "bai"
            }
            hai = again.four.five.six.hai
        }
        wow = blk.one.two.three.again.four.five.six.foo
        "#;
    let expect = r#"
        blk "one" "two" "three" {
            bar = "baz"
            another = "baz"
            again "four" "five" "six" {
                foo = "?"
                hai = "bai"
            }
            hai = "bai"
        }
        wow = "?"
        "#;
    assert_eq!(en.parse(hcl).unwrap(), en.clean_up().parse(expect).unwrap());
}

#[test]
fn concrete_scenario_block_then_reference() {
    let evaluated = ensan::parse("var \"foo\" {\n bar = \"baz\"\n}\ntest = var.foo.bar\n").unwrap();
    let expected = ensan::parse("var \"foo\" {\n bar = \"baz\"\n}\ntest = \"baz\"\n").unwrap();
    assert_eq!(evaluated, expected);
}

#[test]
fn forward_reference_is_an_error() {
    let err = ensan::parse("test = foo\nfoo = \"x\"\n");
    assert!(matches!(err, Err(Error::Eval(_))));
}

#[test]
fn syntax_error_is_reported() {
    let err = ensan::parse("this is { not hcl");
    assert!(matches!(err, Err(Error::Syntax(_))));
}

#[test]
fn scope_isolation_plain_name_invisible() {
    let err = ensan::parse("b \"l\" {\n x = \"1\"\n}\ny = x\n");
    assert!(matches!(err, Err(Error::Eval(_))));
    let ok = ensan::parse("b \"l\" {\n x = \"1\"\n}\ny = b.l.x\n").unwrap();
    let expect = ensan::parse("b \"l\" {\n x = \"1\"\n}\ny = \"1\"\n").unwrap();
    assert_eq!(ok, expect);
}

#[test]
fn sibling_after_block_not_before() {
    // The block's contents become visible only after the block has finished.
    let err = ensan::parse("y = b.x\nb {\n x = \"1\"\n}\n");
    assert!(matches!(err, Err(Error::Eval(_))));
}

#[test]
fn deep_nesting_ten_blocks() {
    let mut text = String::new();
    for i in 1..=10 {
        text.push_str(&format!("b{} {{\n", i));
    }
    text.push_str("bar = \"baz\"\n");
    for _ in 1..=10 {
        text.push_str("}\n");
    }
    text.push_str("leaf = b1.b2.b3.b4.b5.b6.b7.b8.b9.b10.bar\n");
    let evaluated = ensan::parse(&text).unwrap();
    match evaluated.0.last().unwrap() {
        Structure::Attribute(a) => {
            assert_eq!(a.key, "leaf");
            assert_eq!(a.expr, Expr::Lit(Val::Str("baz".to_string())));
        },
        _ => panic!("expected the leaf attribute"),
    }
}

#[test]
fn idempotent_on_already_evaluated_input() {
    let mut doc = Document(vec![
        Structure::Attribute(Attribute {
            key: "a".to_string(),
            expr: Expr::Lit(Val::Str("x".to_string())),
        }),
        Structure::Block(ensan::document::Block {
            identifier: "b".to_string(),
            labels: vec!["l".to_string()],
            body: Document(vec![Structure::Attribute(Attribute {
                key: "c".to_string(),
                expr: Expr::Lit(Val::Bool(true)),
            })]),
        }),
    ]);
    let snapshot = format!("{:?}", doc);
    let mut en = Engine::new();
    en.evaluate_body(&mut doc).unwrap();
    assert_eq!(format!("{:?}", doc), snapshot);
}

#[test]
fn round_trip_under_reparsing() {
    let text = "var \"foo\" {\n bar = \"baz\"\n}\ntest = var.foo.bar\narr = [\"a\", \"b\"]\n";
    let once = ensan::parse(text).unwrap();
    let rendered = ensan::bridge::render_document(&once).unwrap();
    let twice = ensan::parse(&rendered).unwrap();
    assert_eq!(once, twice);
}

#[test]
fn engine_keeps_variables_until_cleaned() {
    let mut en = Engine::new();
    en.parse_str("foo = \"bar\"").unwrap();
    let ok = en.parse_str("another = foo").unwrap();
    let expect = ensan::parse("another = \"bar\"").unwrap();
    assert_eq!(ok, expect);
    en.clean_up();
    assert!(en.parse_str("again = foo").is_err());
}

#[test]
fn evaluation_is_in_place_literal_replacement() {
    let doc = ensan::parse("a = \"x\"\nb = a\n").unwrap();
    assert_eq!(doc.0.len(), 2);
    match &doc.0[1] {
        Structure::Attribute(a) => {
            assert_eq!(a.key, "b");
            assert_eq!(a.expr, Expr::Lit(Val::Str("x".to_string())));
        },
        _ => panic!("expected an attribute"),
    }
}

#[test]
fn mixed_document_with_interpolation() {
    let cfg = r#"
arr = ["hai", "bai"]
foo = arr[0]
obj = {
    key = "value"
}
my_block "hai" "bai" {
    foo = "bar"
    baz = "nya"
}

nested_str = "${my_block.hai.bai.foo}"
"#;
    let expected = r#"
arr = ["hai", "bai"]
foo = "hai"
obj = {
    key = "value"
}
my_block "hai" "bai" {
    foo = "bar"
    baz = "nya"
}

nested_str = "bar"
"#;
    let mut engine = Engine::new();
    let body = engine.parse(cfg).unwrap();
    let body2 = engine.clean_up().parse(expected).unwrap();
    assert_eq!(body, body2);
}

#[test]
fn arithmetic_and_conditionals_evaluate() {
    let evaluated = ensan::parse("a = 1 + 1\nb = a == 2 ? \"yes\" : \"no\"\n").unwrap();
    let expected = ensan::parse("a = 2\nb = \"yes\"\n").unwrap();
    assert_eq!(evaluated, expected);
}
