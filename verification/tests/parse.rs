use extension_fn::args::{ArgKind, Args, ParseError, ParseErrorKind};

fn parse(s: &str) -> Result<Args, ParseError> {
    Args::parse(s)
}

#[test]
fn parse_type_simple() {
    let a = parse("str").unwrap();
    assert!(a.generics.is_none());
    match a.kind {
        ArgKind::Type(ty) => assert_eq!(ty, "str"),
        ArgKind::TraitBound(_) => panic!("expected a concrete-type target"),
    }
}

#[test]
fn parse_type_trimmed() {
    let a = parse("  Vec<u8>  ").unwrap();
    match a.kind {
        ArgKind::Type(ty) => assert_eq!(ty, "Vec<u8>"),
        ArgKind::TraitBound(_) => panic!("expected a concrete-type target"),
    }
}

#[test]
fn parse_generics_with_bounds() {
    let a = parse("<K: Hash + Eq, V> HashMap<K, V>").unwrap();
    let ps = a.generics.unwrap();
    assert_eq!(ps.len(), 2);
    assert_eq!(ps[0].name, "K");
    assert_eq!(ps[0].bounds, "Hash + Eq");
    assert_eq!(ps[1].name, "V");
    assert_eq!(ps[1].bounds, "");
    match a.kind {
        ArgKind::Type(ty) => assert_eq!(ty, "HashMap<K, V>"),
        ArgKind::TraitBound(_) => panic!("expected a concrete-type target"),
    }
}

#[test]
fn parse_trait_bound_list() {
    let a = parse("trait Clone + Send").unwrap();
    match a.kind {
        ArgKind::TraitBound(cs) => assert_eq!(cs, vec!["Clone".to_string(), "Send".to_string()]),
        ArgKind::Type(_) => panic!("expected a capability-bound target"),
    }
}

#[test]
fn parse_trait_bound_trailing_plus() {
    let a = parse("trait Hash +").unwrap();
    match a.kind {
        ArgKind::TraitBound(cs) => assert_eq!(cs, vec!["Hash".to_string()]),
        ArgKind::Type(_) => panic!("expected a capability-bound target"),
    }
}

#[test]
fn parse_generics_trailing_comma() {
    let a = parse("<K,> K").unwrap();
    let ps = a.generics.unwrap();
    assert_eq!(ps.len(), 1);
    assert_eq!(ps[0].name, "K");
    assert_eq!(ps[0].bounds, "");
}

#[test]
fn parse_trait_prefix_of_identifier_is_a_type() {
    let a = parse("traits").unwrap();
    match a.kind {
        ArgKind::Type(ty) => assert_eq!(ty, "traits"),
        ArgKind::TraitBound(_) => panic!("expected a concrete-type target"),
    }
}

#[test]
fn error_empty_input() {
    let e = parse("").unwrap_err();
    assert_eq!(e, ParseError { kind: ParseErrorKind::MalformedTypeExpr, at: 0 });
}

#[test]
fn error_unclosed_generics() {
    let e = parse("<K").unwrap_err();
    assert_eq!(e, ParseError { kind: ParseErrorKind::MalformedGenerics, at: 0 });
}

#[test]
fn error_generics_then_nothing() {
    let e = parse("<K>").unwrap_err();
    assert_eq!(e, ParseError { kind: ParseErrorKind::MalformedTypeExpr, at: 3 });
}

#[test]
fn error_empty_constraint_list() {
    let e = parse("trait").unwrap_err();
    assert_eq!(e, ParseError { kind: ParseErrorKind::MalformedConstraintList, at: 0 });
}

#[test]
fn error_empty_constraint_in_list() {
    let e = parse("trait A ++ B").unwrap_err();
    assert_eq!(e, ParseError { kind: ParseErrorKind::MalformedConstraintList, at: 9 });
}

#[test]
fn error_trailing_tokens_after_type() {
    let e = parse("Vec<u8>, x").unwrap_err();
    assert_eq!(e, ParseError { kind: ParseErrorKind::TrailingTokens, at: 7 });
}

#[test]
fn error_trailing_tokens_after_bounds() {
    let e = parse("trait AsRef<str>, X").unwrap_err();
    assert_eq!(e, ParseError { kind: ParseErrorKind::TrailingTokens, at: 16 });
}

#[test]
fn error_empty_generic_parameter() {
    let e = parse("<K,,V> str").unwrap_err();
    assert_eq!(e, ParseError { kind: ParseErrorKind::MalformedGenerics, at: 3 });
}

#[test]
fn error_empty_bound_set_after_colon() {
    let e = parse("<K:> str").unwrap_err();
    assert_eq!(e, ParseError { kind: ParseErrorKind::MalformedGenerics, at: 1 });
}

#[test]
fn error_parameter_name_not_an_identifier() {
    let e = parse("<K V> str").unwrap_err();
    assert_eq!(e, ParseError { kind: ParseErrorKind::MalformedGenerics, at: 1 });
}

#[test]
fn error_unbalanced_type() {
    let e = parse("Vec<u8").unwrap_err();
    assert_eq!(e, ParseError { kind: ParseErrorKind::MalformedTypeExpr, at: 0 });
}

#[test]
fn error_unbalanced_constraint() {
    let e = parse("trait AsRef<str").unwrap_err();
    assert_eq!(e, ParseError { kind: ParseErrorKind::MalformedConstraintList, at: 0 });
}

#[test]
fn tuple_type_commas_are_not_trailing_tokens() {
    let a = parse("(u8, u16)").unwrap();
    match a.kind {
        ArgKind::Type(ty) => assert_eq!(ty, "(u8, u16)"),
        ArgKind::TraitBound(_) => panic!("expected a concrete-type target"),
    }
}

#[test]
fn arrow_in_function_type_balances() {
    let a = parse("fn(u8) -> u8").unwrap();
    match a.kind {
        ArgKind::Type(ty) => assert_eq!(ty, "fn(u8) -> u8"),
        ArgKind::TraitBound(_) => panic!("expected a concrete-type target"),
    }
}
