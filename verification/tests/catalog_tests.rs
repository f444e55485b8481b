//! Tests of the function catalog: registration, lookup, and validated calls.

use ensan::errors::FnError;
use ensan::functions::{default_catalog, BuiltinId, Catalog, CatalogEntry, ParamType};
use ensan::value::Val;

#[test]
fn unknown_function_is_distinct() {
    let c = default_catalog();
    let r = c.call_function(&"nosuch".to_string(), &vec![]);
    assert!(matches!(r, Err(FnError::Unknown(_))));
}

#[test]
fn call_function_validates_before_running() {
    let c = default_catalog();
    let wrong_type = c.call_function(&"upper".to_string(), &vec![Val::Num(5u64.into())]);
    assert!(matches!(wrong_type, Err(FnError::Arg(_))));
    let wrong_arity = c.call_function(&"upper".to_string(), &vec![]);
    assert!(matches!(wrong_arity, Err(FnError::Arg(_))));
    let ok = c.call_function(&"upper".to_string(), &vec![Val::Str("abc".to_string())]);
    assert_eq!(ok.unwrap(), Val::Str("ABC".to_string()));
}

#[test]
fn runtime_failure_is_distinct_from_argument_error() {
    let c = default_catalog();
    let r = c.call_function(&"base64decode".to_string(), &vec![Val::Str("!!!".to_string())]);
    assert!(matches!(r, Err(FnError::Runtime(_))));
}

#[test]
fn register_adds_after_existing_entries() {
    let mut c = Catalog::new();
    c.register(CatalogEntry {
        name: "shout".to_string(),
        params: vec![ParamType::Str],
        id: BuiltinId::Upper,
    });
    let r = c.call_function(&"shout".to_string(), &vec![Val::Str("hey".to_string())]);
    assert_eq!(r.unwrap(), Val::Str("HEY".to_string()));
}

#[test]
fn array_parameter_checks_elements() {
    let c = default_catalog();
    let mixed = c.call_function(
        &"join".to_string(),
        &vec![
            Val::Str(",".to_string()),
            Val::Arr(vec![Val::Str("a".to_string()), Val::Bool(false)]),
        ],
    );
    assert!(matches!(mixed, Err(FnError::Arg(_))));
    let all_strings = c.call_function(
        &"join".to_string(),
        &vec![
            Val::Str(",".to_string()),
            Val::Arr(vec![Val::Str("a".to_string()), Val::Str("b".to_string())]),
        ],
    );
    assert_eq!(all_strings.unwrap(), Val::Str("a,b".to_string()));
}

#[test]
fn lookup_finds_registered_names() {
    let c = default_catalog();
    assert!(c.lookup(&"sha256".to_string()).is_some());
    assert!(c.lookup(&"env".to_string()).is_none());
}
