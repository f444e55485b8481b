//! Tests of the builtin functions, through full document evaluation and
//! through direct calls.

use ensan::errors::FnError;
use ensan::functions;
use ensan::value::Val;

fn eval_eq(input: &str, expected: &str) {
    let evaluated = ensan::parse(input).unwrap();
    let expect = ensan::parse(expected).unwrap();
    assert_eq!(evaluated, expect);
}

#[test]
fn test_yamldecode() {
    ensan::parse(r#"hi = yamldecode()"#).expect_err("yamldecode() runs without args");
    ensan::parse(r#"hi = yamldecode(1)"#).expect_err("yamldecode() runs with wrong-type args");
}

#[test]
fn test_jsondecode() {
    ensan::parse(r#"hi = jsondecode()"#).expect_err("jsondecode() runs without args");
    ensan::parse(r#"hi = jsondecode(1)"#).expect_err("jsondecode() runs with wrong-type args");
}

#[test]
fn yamldecode_object() {
    eval_eq(r#"hi = yamldecode("key: value")"#, r#"hi = { key = "value" }"#);
}

#[test]
fn yamlencode_object() {
    eval_eq(r#"hi = yamlencode({ key = "value" })"#, r#"hi = "key: value""#);
}

#[test]
fn jsondecode_object() {
    eval_eq(r#"hi = jsondecode("{\"key\": \"value\"}")"#, r#"hi = { key = "value" }"#);
}

#[test]
fn jsonencode_object() {
    eval_eq(r#"hi = jsonencode({ key = "value" })"#, r#"hi = "{\"key\":\"value\"}""#);
}

#[test]
fn jsondecode_malformed_is_an_error() {
    ensan::parse(r#"hi = jsondecode("{")"#).expect_err("malformed JSON decodes");
}

#[test]
fn base64_encode_decode() {
    eval_eq(r#"hi = base64encode("hello")"#, r#"hi = "aGVsbG8=""#);
    eval_eq(r#"hi = base64decode("aGVsbG8=")"#, r#"hi = "hello""#);
    ensan::parse(r#"hi = base64decode("!!!")"#).expect_err("invalid base64 decodes");
}

#[test]
fn string_builtins() {
    eval_eq(r#"hi = lower("HELLO")"#, r#"hi = "hello""#);
    eval_eq(r#"hi = upper("hello")"#, r#"hi = "HELLO""#);
    eval_eq(r#"hi = strlen("hello")"#, r#"hi = 5"#);
    eval_eq(r#"hi = trimspace("  hello  ")"#, r#"hi = "hello""#);
    eval_eq(r#"hi = strrev("hello")"#, r#"hi = "olleh""#);
}

#[test]
fn split_and_join() {
    eval_eq(r#"hi = split(",", "a,b,c")"#, r#"hi = ["a", "b", "c"]"#);
    eval_eq(r#"hi = split(",", "")"#, r#"hi = [""]"#);
    eval_eq(r#"hi = split("--", "a--b")"#, r#"hi = ["a", "b"]"#);
    eval_eq(r#"hi = join(",", ["a", "b", "c"])"#, r#"hi = "a,b,c""#);
    eval_eq(r#"hi = join(",", [])"#, r#"hi = """#);
}

#[test]
fn split_empty_separator_matches_std() {
    // The pieces are what str::split with an empty pattern yields.
    let parts: Vec<String> = "abc".split("").map(|p| p.to_string()).collect();
    let direct = functions::split(&vec![
        Val::Str(String::new()),
        Val::Str("abc".to_string()),
    ])
    .unwrap();
    match direct {
        Val::Arr(items) => {
            let got: Vec<String> = items
                .into_iter()
                .map(|v| match v {
                    Val::Str(s) => s,
                    _ => panic!("expected strings"),
                })
                .collect();
            assert_eq!(got, parts);
        },
        _ => panic!("expected an array"),
    }
}

#[test]
fn hashing_builtins() {
    eval_eq(r#"hi = md5("hello")"#, r#"hi = "5d41402abc4b2a76b9719d911017c592""#);
    eval_eq(r#"hi = sha1("hello")"#, r#"hi = "aaf4c61ddcc5e8a2dabede0f3b482cd9aea9434d""#);
    eval_eq(
        r#"hi = sha256("hello")"#,
        r#"hi = "2cf24dba5fb0a30e26e83b2ac5b9e29e1b161e5c1fa7425e73043362938b9824""#,
    );
    eval_eq(
        r#"hi = sha512("hello")"#,
        r#"hi = "9b71d224bd62f3785d96d46ad3ea3d73319bfbc2890caadae2dff72519673ca72323c3d99ba5c11d7c7acc6e14b8c5da0c4663475c2e5c3adef46f73bcdec043""#,
    );
}

#[test]
fn uuidv5_is_deterministic() {
    eval_eq(
        r#"hi = uuidv5("6ba7b810-9dad-11d1-80b4-00c04fd430c8", "example.com")"#,
        r#"hi = "cfbff0d1-9375-5685-968c-48ce8b15ae17""#,
    );
    ensan::parse(r#"hi = uuidv5("not-a-uuid", "x")"#).expect_err("invalid namespace accepted");
}

#[test]
fn uuidv4_has_uuid_shape() {
    let r = functions::uuidv4(&vec![]).unwrap();
    match r {
        Val::Str(s) => assert_eq!(s.len(), 36),
        _ => panic!("expected a string"),
    }
}

#[test]
fn bcrypt_hashes() {
    let r = functions::bcrypt(&vec![Val::Str("hello".to_string()), Val::Null]).unwrap();
    match r {
        Val::Str(s) => assert!(s.starts_with("$2")),
        _ => panic!("expected a string"),
    }
}

#[test]
fn wrong_argument_types_are_rejected() {
    ensan::parse(r#"hi = lower(1)"#).expect_err("lower() runs on a number");
    ensan::parse(r#"hi = split(1, "a")"#).expect_err("split() runs on a number");
    ensan::parse(r#"hi = join(",", "nope")"#).expect_err("join() runs on a string");
    ensan::parse(r#"hi = join(",", [1, 2])"#).expect_err("join() runs on a number array");
    ensan::parse(r#"hi = strlen("a", "b")"#).expect_err("strlen() runs with two args");
    ensan::parse(r#"hi = md5()"#).expect_err("md5() runs without args");
}

#[test]
fn invoke_distinguishes_argument_errors() {
    let bad = functions::invoke(functions::BuiltinId::Lower, &vec![Val::Bool(true)]);
    assert!(matches!(bad, Err(FnError::Arg(_))));
    let good = functions::invoke(
        functions::BuiltinId::Lower,
        &vec![Val::Str("ABC".to_string())],
    );
    assert_eq!(good.unwrap(), Val::Str("abc".to_string()));
    let arity = functions::invoke(functions::BuiltinId::Lower, &vec![]);
    assert!(matches!(arity, Err(FnError::Arg(_))));
}

#[test]
fn nullable_cost_accepts_null_and_number() {
    let with_null = functions::invoke(
        functions::BuiltinId::Bcrypt,
        &vec![Val::Str("pw".to_string()), Val::Null],
    );
    assert!(with_null.is_ok());
    let with_bool = functions::invoke(
        functions::BuiltinId::Bcrypt,
        &vec![Val::Str("pw".to_string()), Val::Bool(true)],
    );
    assert!(matches!(with_bool, Err(FnError::Arg(_))));
}

#[test]
fn split_takes_leftmost_nonoverlapping_matches() {
    eval_eq(r#"hi = split("aa", "aaa")"#, r#"hi = ["", "a"]"#);
}

#[test]
fn strlen_counts_bytes() {
    let text = format!("hi = strlen(\"{}\")", '\u{e9}');
    let evaluated = ensan::parse(&text).unwrap();
    let expected = ensan::parse("hi = 2").unwrap();
    assert_eq!(evaluated, expected);
}
