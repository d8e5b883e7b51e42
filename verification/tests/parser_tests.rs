use ballerina_parser::ast::AstNode;
use ballerina_parser::ast::Visibility;
use ballerina_parser::grammar::parse_identifier;
use ballerina_parser::grammar::parse_qualified_identifier;
use ballerina_parser::grammar::parse_type;
use ballerina_parser::parser::Parser;

#[test]
fn single_import_has_path_and_no_alias() {
    let p = Parser::new("import a/b/c;".to_string());
    let m = p.parse().unwrap();
    assert_eq!(m.imports.len(), 1);
    assert_eq!(m.imports[0].path, "a/b/c");
    assert!(m.imports[0].alias.is_none());
    assert_eq!(m.declarations.len(), 0);
}

#[test]
fn import_with_alias() {
    let p = Parser::new("import a/b as x;".to_string());
    let m = p.parse().unwrap();
    assert_eq!(m.imports.len(), 1);
    assert_eq!(m.imports[0].path, "a/b");
    assert_eq!(m.imports[0].alias.as_deref(), Some("x"));
}

#[test]
fn function_declaration_private_by_default() {
    let p = Parser::new("function f(a: int, b: string) returns boolean { }".to_string());
    let m = p.parse().unwrap();
    assert_eq!(m.declarations.len(), 1);
    match &m.declarations[0] {
        AstNode::Function(f) => {
            assert_eq!(f.name, "f");
            assert_eq!(f.params.len(), 2);
            assert_eq!(f.params[0].name, "a");
            assert_eq!(f.params[0].param_type.name, "int");
            assert_eq!(f.params[1].name, "b");
            assert_eq!(f.params[1].param_type.name, "string");
            assert_eq!(f.return_type.as_ref().unwrap().name, "boolean");
            assert_eq!(f.body.len(), 0);
            assert_eq!(f.visibility, Visibility::Private);
        }
        other => panic!("expected a function declaration, got {:?}", other),
    }
}

#[test]
fn public_modifier_yields_public_visibility() {
    let p = Parser::new("public function f(a: int, b: string) returns boolean { }".to_string());
    let m = p.parse().unwrap();
    match &m.declarations[0] {
        AstNode::Function(f) => assert_eq!(f.visibility, Visibility::Public),
        other => panic!("expected a function declaration, got {:?}", other),
    }
}

#[test]
fn type_with_array_then_optional_marker() {
    let (end, t) = parse_type("int[]?", 0).unwrap();
    assert_eq!(end, 6);
    assert_eq!(t.name, "int");
    assert!(t.is_array);
    assert!(t.is_optional);
}

#[test]
fn type_markers_in_wrong_order_do_not_form_one_token() {
    // `?` before `[]` stops the type token after the optional marker.
    let (end, t) = parse_type("int?[]", 0).unwrap();
    assert_eq!(end, 4);
    assert!(!t.is_array);
    assert!(t.is_optional);
    // As a whole declaration the leftover `[]` makes the parse fail.
    let p = Parser::new("x: int?[]".to_string());
    assert!(p.parse().is_err());
}

#[test]
fn whole_type_token_parses_in_a_declaration() {
    let p = Parser::new("x: int[]?".to_string());
    let m = p.parse().unwrap();
    match &m.declarations[0] {
        AstNode::Variable(v) => {
            assert_eq!(v.name, "x");
            assert_eq!(v.var_type.name, "int");
            assert!(v.var_type.is_array);
            assert!(v.var_type.is_optional);
            assert!(v.initializer.is_none());
        }
        other => panic!("expected a variable declaration, got {:?}", other),
    }
}

#[test]
fn malformed_function_yields_failure_not_partial_module() {
    let p = Parser::new("function ()".to_string());
    assert!(p.parse().is_err());
}

#[test]
fn import_then_function_scenario() {
    let p = Parser::new(
        "import demo/foo;\nfunction add(x: int, y: int) returns int { }".to_string(),
    );
    let m = p.parse().unwrap();
    assert_eq!(m.imports.len(), 1);
    assert_eq!(m.imports[0].path, "demo/foo");
    assert_eq!(m.declarations.len(), 1);
    match &m.declarations[0] {
        AstNode::Function(f) => {
            assert_eq!(f.name, "add");
            assert_eq!(f.params.len(), 2);
            assert_eq!(f.params[0].param_type.name, "int");
            assert_eq!(f.params[1].param_type.name, "int");
            assert_eq!(f.return_type.as_ref().unwrap().name, "int");
        }
        other => panic!("expected a function declaration, got {:?}", other),
    }
}

#[test]
fn service_with_endpoints_and_resource() {
    let p = Parser::new("service s on a, b { function r() { } }".to_string());
    let m = p.parse().unwrap();
    match &m.declarations[0] {
        AstNode::Service(sv) => {
            assert_eq!(sv.name, "s");
            assert_eq!(sv.endpoints, vec!["a".to_string(), "b".to_string()]);
            assert_eq!(sv.resources.len(), 1);
            assert_eq!(sv.resources[0].name, "r");
        }
        other => panic!("expected a service declaration, got {:?}", other),
    }
}

#[test]
fn variable_initializer_is_placeholder_reference() {
    let p = Parser::new("x: int = y".to_string());
    let m = p.parse().unwrap();
    match &m.declarations[0] {
        AstNode::Variable(v) => {
            assert_eq!(v.name, "x");
            assert_eq!(v.var_type.name, "int");
            match v.initializer.as_deref() {
                Some(AstNode::Variable(inner)) => {
                    assert_eq!(inner.name, "y");
                    assert_eq!(inner.var_type.name, "unknown");
                    assert!(inner.initializer.is_none());
                }
                other => panic!("expected a placeholder variable node, got {:?}", other),
            }
        }
        other => panic!("expected a variable declaration, got {:?}", other),
    }
}

#[test]
fn failure_reports_offset_of_unconsumed_remainder() {
    let p = Parser::new("x: int ???".to_string());
    let e = p.parse().unwrap_err();
    assert_eq!(e.offset, 7);
}

#[test]
fn missing_semicolon_fails_at_start() {
    let p = Parser::new("import a/b".to_string());
    let e = p.parse().unwrap_err();
    assert_eq!(e.offset, 0);
}

#[test]
fn empty_source_is_an_empty_module() {
    let p = Parser::new(String::new());
    let m = p.parse().unwrap();
    assert_eq!(m.imports.len(), 0);
    assert_eq!(m.declarations.len(), 0);
}

#[test]
fn whitespace_only_source_is_an_empty_module() {
    let p = Parser::new("  \n\t ".to_string());
    let m = p.parse().unwrap();
    assert_eq!(m.imports.len(), 0);
    assert_eq!(m.declarations.len(), 0);
}

#[test]
fn two_imports_then_two_declarations() {
    let p = Parser::new("import a;\nimport b/c;\nx: int\npublic function g() { }".to_string());
    let m = p.parse().unwrap();
    assert_eq!(m.imports.len(), 2);
    assert_eq!(m.imports[0].path, "a");
    assert_eq!(m.imports[1].path, "b/c");
    assert_eq!(m.declarations.len(), 2);
    assert!(matches!(&m.declarations[0], AstNode::Variable(_)));
    assert!(matches!(&m.declarations[1], AstNode::Function(_)));
}

#[test]
fn function_body_statements_are_variables() {
    let p = Parser::new("function f() { a: int b: string = a }".to_string());
    let m = p.parse().unwrap();
    match &m.declarations[0] {
        AstNode::Function(f) => {
            assert_eq!(f.body.len(), 2);
            assert!(matches!(&f.body[0], AstNode::Variable(_)));
            assert!(f.return_type.is_none());
        }
        other => panic!("expected a function declaration, got {:?}", other),
    }
}

#[test]
fn identifier_grammar() {
    let (end, id) = parse_identifier("abc_1 rest", 0).unwrap();
    assert_eq!(end, 5);
    assert_eq!(id, "abc_1");
    assert!(parse_identifier("1abc", 0).is_none());
    assert!(parse_identifier("_abc", 0).is_none());
}

#[test]
fn qualified_identifier_grammar() {
    let (end, path) = parse_qualified_identifier("a/b/c;", 0).unwrap();
    assert_eq!(end, 5);
    assert_eq!(path, "a/b/c");
    // A trailing slash with no identifier after it is not consumed.
    let (end, path) = parse_qualified_identifier("a/b/;", 0).unwrap();
    assert_eq!(end, 3);
    assert_eq!(path, "a/b");
}
