use ballerina_parser::ast::FunctionNode;
use ballerina_parser::ast::ModuleNode;
use ballerina_parser::ast::ParameterNode;
use ballerina_parser::ast::TypeNode;
use ballerina_parser::ast::Visibility;
use ballerina_parser::completion::CompletionContext;
use ballerina_parser::completion::CompletionItemKind;
use ballerina_parser::completion::CompletionProvider;
use ballerina_parser::completion::SymbolTable;

const KEYWORDS: [&str; 17] = [
    "function", "service", "resource", "type", "record", "object", "public", "private", "return",
    "if", "else", "while", "foreach", "true", "false", "null", "import",
];

fn empty_module() -> ModuleNode {
    ModuleNode { imports: Vec::new(), declarations: Vec::new() }
}

fn context(line_text: &str, character: u32, symbols: SymbolTable) -> CompletionContext {
    CompletionContext {
        line: 0,
        character,
        line_text: line_text.to_string(),
        ast: empty_module(),
        symbols,
    }
}

fn simple_type(name: &str) -> TypeNode {
    TypeNode { name: name.to_string(), is_array: false, is_optional: false }
}

#[test]
fn import_context_precedes_keywords() {
    let provider = CompletionProvider::new();
    let ctx = context("import ", 7, SymbolTable::default());
    let items = provider.get_completions(&ctx);
    // The module batch comes first, then the keyword batch.
    assert_eq!(items.len(), 2 + KEYWORDS.len());
    assert_eq!(items[0].label, "ballerina/http");
    assert_eq!(items[0].kind, CompletionItemKind::Module);
    assert_eq!(items[0].detail.as_deref(), Some("HTTP module"));
    assert_eq!(
        items[0].documentation.as_deref(),
        Some("Provides HTTP client and server implementations")
    );
    assert_eq!(items[1].label, "ballerina/io");
    assert_eq!(items[1].detail.as_deref(), Some("I/O module"));
    assert_eq!(items[1].documentation.as_deref(), Some("Provides I/O operations"));
    for (k, kw) in KEYWORDS.iter().enumerate() {
        assert_eq!(items[2 + k].label, *kw);
        assert_eq!(items[2 + k].kind, CompletionItemKind::Keyword);
    }
}

#[test]
fn whitespace_line_yields_exactly_the_keyword_batch() {
    let provider = CompletionProvider::new();
    let ctx = context("   ", 3, SymbolTable::default());
    let items = provider.get_completions(&ctx);
    assert_eq!(items.len(), KEYWORDS.len());
    for (k, kw) in KEYWORDS.iter().enumerate() {
        assert_eq!(items[k].label, *kw);
        assert_eq!(items[k].kind, CompletionItemKind::Keyword);
        assert!(items[k].detail.is_none());
        assert!(items[k].documentation.is_none());
    }
}

#[test]
fn empty_line_yields_exactly_the_keyword_batch() {
    let provider = CompletionProvider::new();
    let ctx = context("", 0, SymbolTable::default());
    let items = provider.get_completions(&ctx);
    assert_eq!(items.len(), KEYWORDS.len());
}

#[test]
fn type_context_starts_with_builtin_types_on_empty_table() {
    let provider = CompletionProvider::new();
    let ctx = context("x:", 2, SymbolTable::default());
    let items = provider.get_completions(&ctx);
    assert_eq!(items.len(), 3);
    assert_eq!(items[0].label, "string");
    assert_eq!(items[0].detail.as_deref(), Some("String type"));
    assert_eq!(items[0].documentation.as_deref(), Some("Represents a string value"));
    assert_eq!(items[1].label, "int");
    assert_eq!(items[1].detail.as_deref(), Some("Integer type"));
    assert_eq!(items[2].label, "boolean");
    assert_eq!(items[2].detail.as_deref(), Some("Boolean type"));
    assert!(items.iter().all(|it| it.kind == CompletionItemKind::Type));
}

#[test]
fn type_context_appends_user_defined_types_after_builtins() {
    let provider = CompletionProvider::new();
    let mut symbols = SymbolTable::default();
    symbols.types.push(simple_type("Person"));
    symbols.types.push(simple_type("Order"));
    let ctx = context("x:", 2, symbols);
    let items = provider.get_completions(&ctx);
    assert_eq!(items.len(), 5);
    assert_eq!(items[0].label, "string");
    assert_eq!(items[1].label, "int");
    assert_eq!(items[2].label, "boolean");
    assert_eq!(items[3].label, "Person");
    assert_eq!(items[3].detail.as_deref(), Some("User-defined type"));
    assert!(items[3].documentation.is_none());
    assert_eq!(items[4].label, "Order");
}

#[test]
fn type_keyword_and_record_trigger_type_context() {
    let provider = CompletionProvider::new();
    for line in ["type", "record", "x: "] {
        let ctx = context(line, line.len() as u32, SymbolTable::default());
        let items = provider.get_completions(&ctx);
        assert_eq!(items[0].label, "string", "line {:?}", line);
    }
}

#[test]
fn function_context_renders_signature_detail_and_insert_text() {
    let provider = CompletionProvider::new();
    let mut symbols = SymbolTable::default();
    symbols.functions.push(FunctionNode {
        name: "greet".to_string(),
        params: vec![ParameterNode {
            name: "name".to_string(),
            param_type: simple_type("string"),
        }],
        return_type: Some(simple_type("string")),
        body: Vec::new(),
        visibility: Visibility::Public,
    });
    let ctx = context("x.", 2, symbols);
    let items = provider.get_completions(&ctx);
    assert_eq!(items.len(), 1);
    assert_eq!(items[0].label, "greet");
    assert_eq!(items[0].kind, CompletionItemKind::Function);
    assert_eq!(
        items[0].detail.as_deref(),
        Some("function greet(name: string) returns string")
    );
    assert_eq!(items[0].insert_text.as_deref(), Some("greet()"));
    assert!(items[0].documentation.is_none());
}

#[test]
fn function_signature_with_several_params_and_no_return() {
    let provider = CompletionProvider::new();
    let mut symbols = SymbolTable::default();
    symbols.functions.push(FunctionNode {
        name: "add".to_string(),
        params: vec![
            ParameterNode { name: "x".to_string(), param_type: simple_type("int") },
            ParameterNode { name: "y".to_string(), param_type: simple_type("int") },
        ],
        return_type: None,
        body: Vec::new(),
        visibility: Visibility::Private,
    });
    let items = provider.get_function_completions(&symbols);
    assert_eq!(items.len(), 1);
    assert_eq!(items[0].detail.as_deref(), Some("function add(x: int, y: int)"));
    assert_eq!(items[0].insert_text.as_deref(), Some("add()"));
}

#[test]
fn mid_word_cursor_yields_no_candidates() {
    let provider = CompletionProvider::new();
    let ctx = context("fun", 3, SymbolTable::default());
    let items = provider.get_completions(&ctx);
    assert!(items.is_empty());
}

#[test]
fn cursor_beyond_line_end_is_clamped() {
    let provider = CompletionProvider::new();
    let ctx = context("x:", 50, SymbolTable::default());
    let items = provider.get_completions(&ctx);
    assert_eq!(items[0].label, "string");
}

#[test]
fn trailing_space_appends_keywords_to_type_batch() {
    let provider = CompletionProvider::new();
    let ctx = context("x: ", 3, SymbolTable::default());
    let items = provider.get_completions(&ctx);
    // `x: ` right-trimmed ends with `:`, and the raw prefix ends with a
    // space, so both the type batch and the keyword batch appear.
    assert_eq!(items.len(), 3 + KEYWORDS.len());
    assert_eq!(items[0].label, "string");
    assert_eq!(items[3].label, "function");
    assert_eq!(items[3].kind, CompletionItemKind::Keyword);
}

#[test]
fn keyword_batch_matches_fixed_list() {
    let provider = CompletionProvider::new();
    let items = provider.get_keyword_completions();
    let labels: Vec<&str> = items.iter().map(|it| it.label.as_str()).collect();
    assert_eq!(labels, KEYWORDS.to_vec());
}

#[test]
fn default_symbol_table_is_empty() {
    let t = SymbolTable::default();
    assert!(t.functions.is_empty());
    assert!(t.services.is_empty());
    assert!(t.variables.is_empty());
    assert!(t.types.is_empty());
}

#[test]
fn context_classifiers_follow_precedence_inputs() {
    let provider = CompletionProvider::new();
    assert!(provider.is_type_context("x:", 2));
    assert!(provider.is_type_context("  type  ", 8));
    assert!(provider.is_function_context("obj.", 4));
    assert!(provider.is_module_context("import", 6));
    assert!(provider.is_module_context("import ", 7));
    assert!(!provider.is_type_context("import ", 7));
    assert!(provider.should_show_keywords("", 0));
    assert!(provider.should_show_keywords("foo ", 4));
    assert!(!provider.should_show_keywords("foo", 3));
}
