//! Completion engine: classifies the cursor's lexical context from the text
//! of the current line and produces suggestion candidates from fixed
//! catalogs and a caller-built symbol table.
//!
//! The result is a concatenation of at most one context batch (type,
//! function, or module context — checked in that fixed precedence order,
//! first match wins) and an optional trailing keyword batch. No batch
//! filters against partially typed text, deduplicates, or re-ranks; emission
//! order is the whole contract.

use vstd::prelude::*;
use crate::ast::FunctionNode;
use crate::ast::FunctionV;
use crate::ast::ModuleNode;
use crate::ast::ParameterV;
use crate::ast::ServiceNode;
use crate::ast::TypeNode;
use crate::ast::TypeV;
use crate::ast::VariableNode;
use crate::ast::function_view;
use crate::ast::functions_view;
use crate::ast::lemma_functions_view_index;
use crate::ast::service_view;
use crate::ast::type_view;
use crate::ast::variable_view;
use crate::grammar::is_space;
use crate::grammar::is_space_char;

verus! {

/// One completion candidate handed to a caller.
#[derive(Debug)]
pub struct CompletionItem {
    pub label: String,
    pub kind: CompletionItemKind,
    pub detail: Option<String>,
    pub documentation: Option<String>,
    pub sort_text: Option<String>,
    pub insert_text: Option<String>,
}

/// The kind tag of a completion candidate.
#[derive(Clone, Copy, Debug, PartialEq, Eq, Structural)]
pub enum CompletionItemKind {
    Function,
    Variable,
    Class,
    Interface,
    Module,
    Property,
    Type,
    Keyword,
    Service,
}

/// One completion request: cursor position, the current line's text, the
/// parsed tree, and a snapshot of the symbol table.
pub struct CompletionContext {
    pub line: u32,
    pub character: u32,
    pub line_text: String,
    pub ast: ModuleNode,
    pub symbols: SymbolTable,
}

/// Caller-maintained index of the symbols visible at a completion request.
pub struct SymbolTable {
    pub functions: Vec<FunctionNode>,
    pub services: Vec<ServiceNode>,
    pub variables: Vec<VariableNode>,
    pub types: Vec<TypeNode>,
}

impl Default for SymbolTable {
    /// An empty symbol table.
    fn default() -> (t: SymbolTable)
        ensures
            t.functions@.len() == 0,
            t.services@.len() == 0,
            t.variables@.len() == 0,
            t.types@.len() == 0,
    {
        SymbolTable { functions: Vec::new(), services: Vec::new(), variables: Vec::new(), types: Vec::new() }
    }
}

/// View of `SymbolTable`.
pub struct SymbolTableV {
    pub functions: Seq<FunctionV>,
    pub services: Seq<crate::ast::ServiceV>,
    pub variables: Seq<crate::ast::VariableV>,
    pub types: Seq<TypeV>,
}

pub open spec fn table_view(t: SymbolTable) -> SymbolTableV {
    SymbolTableV {
        functions: functions_view(t.functions@),
        services: Seq::new(t.services@.len(), |i: int| service_view(t.services@[i])),
        variables: Seq::new(t.variables@.len(), |i: int| variable_view(t.variables@[i])),
        types: Seq::new(t.types@.len(), |i: int| type_view(t.types@[i])),
    }
}

/// View of `CompletionItem`.
pub struct CompletionItemV {
    pub label: Seq<char>,
    pub kind: CompletionItemKind,
    pub detail: Option<Seq<char>>,
    pub documentation: Option<Seq<char>>,
    pub sort_text: Option<Seq<char>>,
    pub insert_text: Option<Seq<char>>,
}

pub open spec fn opt_text_view(o: Option<String>) -> Option<Seq<char>> {
    match o {
        Some(s) => Some(s@),
        None => None,
    }
}

pub open spec fn item_view(it: CompletionItem) -> CompletionItemV {
    CompletionItemV {
        label: it.label@,
        kind: it.kind,
        detail: opt_text_view(it.detail),
        documentation: opt_text_view(it.documentation),
        sort_text: opt_text_view(it.sort_text),
        insert_text: opt_text_view(it.insert_text),
    }
}

pub open spec fn items_view(v: Seq<CompletionItem>) -> Seq<CompletionItemV> {
    Seq::new(v.len(), |i: int| item_view(v[i]))
}

/// A candidate with neither detail nor documentation.
pub open spec fn plain_item(label: Seq<char>, kind: CompletionItemKind) -> CompletionItemV {
    CompletionItemV {
        label,
        kind,
        detail: None,
        documentation: None,
        sort_text: None,
        insert_text: None,
    }
}

/// A candidate with a fixed detail and documentation pair.
pub open spec fn doc_item(
    label: Seq<char>,
    kind: CompletionItemKind,
    detail: Seq<char>,
    documentation: Seq<char>,
) -> CompletionItemV {
    CompletionItemV {
        label,
        kind,
        detail: Some(detail),
        documentation: Some(documentation),
        sort_text: None,
        insert_text: None,
    }
}

/// The fixed list of language keywords, in emission order.
pub open spec fn keyword_labels() -> Seq<Seq<char>> {
    seq![
        "function"@,
        "service"@,
        "resource"@,
        "type"@,
        "record"@,
        "object"@,
        "public"@,
        "private"@,
        "return"@,
        "if"@,
        "else"@,
        "while"@,
        "foreach"@,
        "true"@,
        "false"@,
        "null"@,
        "import"@,
    ]
}

/// The keyword batch: one plain candidate per keyword, in list order.
pub open spec fn keyword_batch() -> Seq<CompletionItemV> {
    keyword_labels().map_values(|l: Seq<char>| plain_item(l, CompletionItemKind::Keyword))
}

/// The three built-in type candidates, always in this order.
pub open spec fn builtin_type_batch() -> Seq<CompletionItemV> {
    seq![
        doc_item("string"@, CompletionItemKind::Type, "String type"@, "Represents a string value"@),
        doc_item("int"@, CompletionItemKind::Type, "Integer type"@, "Represents an integer value"@),
        doc_item(
            "boolean"@,
            CompletionItemKind::Type,
            "Boolean type"@,
            "Represents a boolean value"@,
        ),
    ]
}

/// The candidate for one user-defined type from the symbol table.
pub open spec fn user_type_item(t: TypeV) -> CompletionItemV {
    CompletionItemV {
        label: t.name,
        kind: CompletionItemKind::Type,
        detail: Some("User-defined type"@),
        documentation: None,
        sort_text: None,
        insert_text: None,
    }
}

/// The type-context batch: the built-in types, then one candidate per type
/// known in the symbol table.
pub open spec fn type_batch(st: SymbolTableV) -> Seq<CompletionItemV> {
    builtin_type_batch() + st.types.map_values(|t: TypeV| user_type_item(t))
}

/// The rendered signature text of one parameter: `name: type`.
pub open spec fn param_sig(p: ParameterV) -> Seq<char> {
    p.name + ": "@ + p.param_type.name
}

/// The first `k` parameters rendered and joined with `, `.
pub open spec fn params_sig_upto(ps: Seq<ParameterV>, k: int) -> Seq<char>
    decreases k,
{
    if k <= 0 || k > ps.len() {
        Seq::empty()
    } else {
        params_sig_upto(ps, k - 1) + (if k - 1 > 0 {
            ", "@
        } else {
            Seq::<char>::empty()
        }) + param_sig(ps[k - 1])
    }
}

/// The rendered signature of a function:
/// `function name(p: t, ...)[ returns t]`.
pub open spec fn function_signature(f: FunctionV) -> Seq<char> {
    "function "@ + f.name + "("@ + params_sig_upto(f.params, f.params.len() as int) + ")"@
        + (match f.return_type {
        Some(t) => " returns "@ + t.name,
        None => Seq::<char>::empty(),
    })
}

/// The candidate for one function from the symbol table: its signature as
/// detail and `name()` as insert text.
pub open spec fn function_item(f: FunctionV) -> CompletionItemV {
    CompletionItemV {
        label: f.name,
        kind: CompletionItemKind::Function,
        detail: Some(function_signature(f)),
        documentation: None,
        sort_text: None,
        insert_text: Some(f.name + "()"@),
    }
}

/// The function-context batch: one candidate per function in the table.
pub open spec fn function_batch(st: SymbolTableV) -> Seq<CompletionItemV> {
    st.functions.map_values(|f: FunctionV| function_item(f))
}

/// The fixed module-context batch: the built-in module catalog.
pub open spec fn module_batch() -> Seq<CompletionItemV> {
    seq![
        doc_item(
            "ballerina/http"@,
            CompletionItemKind::Module,
            "HTTP module"@,
            "Provides HTTP client and server implementations"@,
        ),
        doc_item(
            "ballerina/io"@,
            CompletionItemKind::Module,
            "I/O module"@,
            "Provides I/O operations"@,
        ),
    ]
}

/// True when every character of `s` is whitespace.
pub open spec fn all_space(s: Seq<char>) -> bool {
    forall|i: int| 0 <= i < s.len() ==> is_space_char(s[i])
}

/// Length of `s` once trailing whitespace is removed.
pub open spec fn trim_end_len(s: Seq<char>) -> int
    decreases s.len(),
{
    if s.len() > 0 && is_space_char(s[s.len() - 1]) {
        trim_end_len(s.drop_last())
    } else {
        s.len() as int
    }
}

/// `s` with its trailing whitespace removed.
pub open spec fn trimmed_end(s: Seq<char>) -> Seq<char> {
    s.subrange(0, trim_end_len(s))
}

pub proof fn lemma_trim_end_len_bounds(s: Seq<char>)
    ensures
        0 <= trim_end_len(s) <= s.len(),
    decreases s.len(),
{
    if s.len() > 0 && is_space_char(s[s.len() - 1]) {
        lemma_trim_end_len_bounds(s.drop_last());
    }
}

/// Trailing-trim removes everything exactly on all-whitespace text.
pub proof fn lemma_trim_all_space(s: Seq<char>)
    ensures
        (trim_end_len(s) == 0) <==> all_space(s),
    decreases s.len(),
{
    if s.len() > 0 && is_space_char(s[s.len() - 1]) {
        lemma_trim_all_space(s.drop_last());
        assert(all_space(s.drop_last()) ==> all_space(s)) by {
            if all_space(s.drop_last()) {
                assert forall|i: int| 0 <= i < s.len() implies is_space_char(s[i]) by {
                    if i < s.len() - 1 {
                        assert(s.drop_last()[i] == s[i]);
                    }
                }
            }
        }
        assert(all_space(s) ==> all_space(s.drop_last()));
    } else if s.len() > 0 {
        assert(!is_space_char(s[s.len() - 1]));
    }
}

/// True when the last character of `s` is `c`.
pub open spec fn ends_with_char(s: Seq<char>, c: char) -> bool {
    s.len() >= 1 && s[s.len() - 1] == c
}

/// True when `s` ends with the text `type`.
pub open spec fn ends_with_type_word(s: Seq<char>) -> bool {
    s.len() >= 4 && s[s.len() - 4] == 't' && s[s.len() - 3] == 'y' && s[s.len() - 2] == 'p'
        && s[s.len() - 1] == 'e'
}

/// True when `s` ends with the text `record`.
pub open spec fn ends_with_record_word(s: Seq<char>) -> bool {
    s.len() >= 6 && s[s.len() - 6] == 'r' && s[s.len() - 5] == 'e' && s[s.len() - 4] == 'c'
        && s[s.len() - 3] == 'o' && s[s.len() - 2] == 'r' && s[s.len() - 1] == 'd'
}

/// True when `s` ends with the text `import`.
pub open spec fn ends_with_import_word(s: Seq<char>) -> bool {
    s.len() >= 6 && s[s.len() - 6] == 'i' && s[s.len() - 5] == 'm' && s[s.len() - 4] == 'p'
        && s[s.len() - 3] == 'o' && s[s.len() - 2] == 'r' && s[s.len() - 1] == 't'
}

/// The text before the cursor: the line's first `character` characters, or
/// the whole line when the cursor lies beyond its end.
pub open spec fn spec_prefix(line: Seq<char>, character: u32) -> Seq<char> {
    if (character as int) < line.len() {
        line.subrange(0, character as int)
    } else {
        line
    }
}

/// Type context: the right-trimmed prefix ends with `:`, `type`, or
/// `record`.
pub open spec fn is_type_context_spec(prefix: Seq<char>) -> bool {
    let t = trimmed_end(prefix);
    ends_with_char(t, ':') || ends_with_type_word(t) || ends_with_record_word(t)
}

/// Function context: the right-trimmed prefix ends with `.`.
pub open spec fn is_function_context_spec(prefix: Seq<char>) -> bool {
    ends_with_char(trimmed_end(prefix), '.')
}

/// Module context: the right-trimmed prefix ends with `import`.
pub open spec fn is_module_context_spec(prefix: Seq<char>) -> bool {
    ends_with_import_word(trimmed_end(prefix))
}

/// Keywords are offered when the prefix is empty or whitespace-only, or
/// ends with a space.
pub open spec fn show_keywords_spec(prefix: Seq<char>) -> bool {
    all_space(prefix) || ends_with_char(prefix, ' ')
}

/// The full completion result for one prefix: at most one context batch —
/// type, else function, else module, first match wins — followed by the
/// keyword batch when keywords are offered.
pub open spec fn completions_for_prefix(prefix: Seq<char>, st: SymbolTableV) -> Seq<
    CompletionItemV,
> {
    (if is_type_context_spec(prefix) {
        type_batch(st)
    } else if is_function_context_spec(prefix) {
        function_batch(st)
    } else if is_module_context_spec(prefix) {
        module_batch()
    } else {
        Seq::empty()
    }) + (if show_keywords_spec(prefix) {
        keyword_batch()
    } else {
        Seq::empty()
    })
}

/// The full completion result for a line and cursor position.
pub open spec fn spec_completions(line: Seq<char>, character: u32, st: SymbolTableV) -> Seq<
    CompletionItemV,
> {
    completions_for_prefix(spec_prefix(line, character), st)
}

/// The completion type-context batch always begins with exactly the three
/// built-in types `string`, `int`, `boolean`, in that order, before any
/// symbol-table-derived entries, whatever the table holds.
pub proof fn lemma_type_batch_builtins_first(st: SymbolTableV)
    ensures
        type_batch(st).len() >= 3,
        type_batch(st)[0] == doc_item(
            "string"@,
            CompletionItemKind::Type,
            "String type"@,
            "Represents a string value"@,
        ),
        type_batch(st)[1] == doc_item(
            "int"@,
            CompletionItemKind::Type,
            "Integer type"@,
            "Represents an integer value"@,
        ),
        type_batch(st)[2] == doc_item(
            "boolean"@,
            CompletionItemKind::Type,
            "Boolean type"@,
            "Represents a boolean value"@,
        ),
        type_batch(st).subrange(3, type_batch(st).len() as int) == st.types.map_values(
            |t: TypeV| user_type_item(t),
        ),
{
    assert(type_batch(st).subrange(3, type_batch(st).len() as int) =~= st.types.map_values(
        |t: TypeV| user_type_item(t),
    ));
}

/// For any line whose text before the cursor ends in `import` immediately
/// followed by a space, the completion sequence is the fixed module batch
/// followed by the keyword batch — the module context wins, and keywords
/// are appended because the prefix ends with a space.
pub proof fn lemma_import_context_precedence(t: Seq<char>, st: SymbolTableV)
    ensures
        completions_for_prefix(t + "import "@, st) == module_batch() + keyword_batch(),
{
    reveal_strlit("import ");
    reveal_strlit("import");
    let prefix = t + "import "@;
    let trimmed = t + "import"@;
    assert(prefix.len() == t.len() + 7);
    assert(prefix[prefix.len() - 1] == ' ');
    assert(prefix.drop_last() =~= trimmed);
    assert(trim_end_len(prefix) == trim_end_len(trimmed));
    assert(trim_end_len(trimmed) == trimmed.len()) by {
        assert(trimmed[trimmed.len() - 1] == 't');
    }
    assert(trimmed_end(prefix) =~= trimmed);
    let tr = trimmed_end(prefix);
    assert(tr[tr.len() - 1] == 't');
    assert(tr[tr.len() - 4] == 'p');
    assert(tr[tr.len() - 6] == 'i');
    assert(!ends_with_char(tr, ':'));
    assert(!ends_with_type_word(tr));
    assert(!ends_with_record_word(tr)) by {
        assert(tr[tr.len() - 6] == 'i' && 'i' != 'r');
    }
    assert(!ends_with_char(tr, '.'));
    assert(ends_with_import_word(tr));
    assert(show_keywords_spec(prefix)) by {
        assert(ends_with_char(prefix, ' '));
    }
}

/// For a prefix that is entirely whitespace (the empty prefix included),
/// the completion sequence is exactly the keyword batch, in keyword-list
/// order, and nothing else.
pub proof fn lemma_whitespace_keywords_only(prefix: Seq<char>, st: SymbolTableV)
    requires
        all_space(prefix),
    ensures
        completions_for_prefix(prefix, st) == keyword_batch(),
{
    lemma_trim_all_space(prefix);
    lemma_trim_end_len_bounds(prefix);
    assert(trimmed_end(prefix).len() == 0);
    assert(Seq::<CompletionItemV>::empty() + keyword_batch() =~= keyword_batch());
}

/// Offers completion candidates; holds the fixed keyword list.
pub struct CompletionProvider {
    keywords: Vec<String>,
}

impl CompletionProvider {
    /// The provider's keyword list is exactly the fixed catalog.
    pub closed spec fn wf(&self) -> bool {
        crate::ast::strings_view(self.keywords@) == keyword_labels()
    }

    /// Makes a provider holding the fixed keyword list.
    pub fn new() -> (p: CompletionProvider)
        ensures
            p.wf(),
    {
        let mut ks: Vec<String> = Vec::new();
        ks.push("function".to_owned());
        ks.push("service".to_owned());
        ks.push("resource".to_owned());
        ks.push("type".to_owned());
        ks.push("record".to_owned());
        ks.push("object".to_owned());
        ks.push("public".to_owned());
        ks.push("private".to_owned());
        ks.push("return".to_owned());
        ks.push("if".to_owned());
        ks.push("else".to_owned());
        ks.push("while".to_owned());
        ks.push("foreach".to_owned());
        ks.push("true".to_owned());
        ks.push("false".to_owned());
        ks.push("null".to_owned());
        ks.push("import".to_owned());
        let p = CompletionProvider { keywords: ks };
        proof {
            assert(crate::ast::strings_view(p.keywords@) =~= keyword_labels());
        }
        p
    }

    /// All candidates for one request: the context batch chosen by the
    /// precedence order, then the keyword batch when keywords are offered.
    pub fn get_completions(&self, context: &CompletionContext) -> (r: Vec<CompletionItem>)
        requires
            self.wf(),
        ensures
            items_view(r@) == spec_completions(
                context.line_text@,
                context.character,
                table_view(context.symbols),
            ),
    {
        let ghost prefix = spec_prefix(context.line_text@, context.character);
        let mut out: Vec<CompletionItem>;
        if self.is_type_context(context.line_text.as_str(), context.character) {
            out = self.get_type_completions(&context.symbols);
        } else if self.is_function_context(context.line_text.as_str(), context.character) {
            out = self.get_function_completions(&context.symbols);
        } else if self.is_module_context(context.line_text.as_str(), context.character) {
            out = self.get_module_completions();
        } else {
            out = Vec::new();
        }
        let ghost ctx_items = items_view(out@);
        if self.should_show_keywords(context.line_text.as_str(), context.character) {
            let mut kws = self.get_keyword_completions();
            let ghost kw_items = items_view(kws@);
            out.append(&mut kws);
            proof {
                assert(items_view(out@) =~= ctx_items + kw_items);
            }
        } else {
            proof {
                assert(items_view(out@) =~= ctx_items + Seq::<CompletionItemV>::empty());
            }
        }
        out
    }

    /// Classifies the type context from the line and cursor.
    pub fn is_type_context(&self, line: &str, position: u32) -> (b: bool)
        ensures
            b == is_type_context_spec(spec_prefix(line@, position)),
    {
        let p = clamp_to_len(line, position);
        let e = trim_end_pos(line, p);
        proof {
            relate_trimmed(line@, position, p, e);
        }
        (e >= 1 && line.get_char(e - 1) == ':') || (e >= 4 && line.get_char(e - 4) == 't'
            && line.get_char(e - 3) == 'y' && line.get_char(e - 2) == 'p' && line.get_char(e - 1)
            == 'e') || (e >= 6 && line.get_char(e - 6) == 'r' && line.get_char(e - 5) == 'e'
            && line.get_char(e - 4) == 'c' && line.get_char(e - 3) == 'o' && line.get_char(e - 2)
            == 'r' && line.get_char(e - 1) == 'd')
    }

    /// Classifies the function (member) context from the line and cursor.
    pub fn is_function_context(&self, line: &str, position: u32) -> (b: bool)
        ensures
            b == is_function_context_spec(spec_prefix(line@, position)),
    {
        let p = clamp_to_len(line, position);
        let e = trim_end_pos(line, p);
        proof {
            relate_trimmed(line@, position, p, e);
        }
        e >= 1 && line.get_char(e - 1) == '.'
    }

    /// Classifies the module (import) context from the line and cursor.
    pub fn is_module_context(&self, line: &str, position: u32) -> (b: bool)
        ensures
            b == is_module_context_spec(spec_prefix(line@, position)),
    {
        let p = clamp_to_len(line, position);
        let e = trim_end_pos(line, p);
        proof {
            relate_trimmed(line@, position, p, e);
        }
        e >= 6 && line.get_char(e - 6) == 'i' && line.get_char(e - 5) == 'm' && line.get_char(
            e - 4,
        ) == 'p' && line.get_char(e - 3) == 'o' && line.get_char(e - 2) == 'r' && line.get_char(
            e - 1,
        ) == 't'
    }

    /// Decides whether the keyword batch is offered.
    pub fn should_show_keywords(&self, line: &str, position: u32) -> (b: bool)
        ensures
            b == show_keywords_spec(spec_prefix(line@, position)),
    {
        let p = clamp_to_len(line, position);
        let e = trim_end_pos(line, p);
        proof {
            relate_trimmed(line@, position, p, e);
            lemma_trim_all_space(spec_prefix(line@, position));
        }
        e == 0 || (p >= 1 && line.get_char(p - 1) == ' ')
    }

    /// The type-context batch: the three built-in types, then the
    /// symbol table's types.
    pub fn get_type_completions(&self, symbols: &SymbolTable) -> (r: Vec<CompletionItem>)
        ensures
            items_view(r@) == type_batch(table_view(*symbols)),
    {
        let ghost tv = table_view(*symbols).types;
        let ghost mapped = tv.map_values(|t: TypeV| user_type_item(t));
        let mut out: Vec<CompletionItem> = Vec::new();
        out.push(
            CompletionItem {
                label: "string".to_owned(),
                kind: CompletionItemKind::Type,
                detail: Some("String type".to_owned()),
                documentation: Some("Represents a string value".to_owned()),
                sort_text: None,
                insert_text: None,
            },
        );
        out.push(
            CompletionItem {
                label: "int".to_owned(),
                kind: CompletionItemKind::Type,
                detail: Some("Integer type".to_owned()),
                documentation: Some("Represents an integer value".to_owned()),
                sort_text: None,
                insert_text: None,
            },
        );
        out.push(
            CompletionItem {
                label: "boolean".to_owned(),
                kind: CompletionItemKind::Type,
                detail: Some("Boolean type".to_owned()),
                documentation: Some("Represents a boolean value".to_owned()),
                sort_text: None,
                insert_text: None,
            },
        );
        proof {
            assert(items_view(out@) =~= builtin_type_batch() + mapped.take(0));
        }
        let mut i: usize = 0;
        while i < symbols.types.len()
            invariant
                0 <= i <= symbols.types@.len(),
                tv == table_view(*symbols).types,
                mapped == tv.map_values(|t: TypeV| user_type_item(t)),
                items_view(out@) == builtin_type_batch() + mapped.take(i as int),
            decreases symbols.types@.len() - i,
        {
            let ghost before = out@;
            out.push(
                CompletionItem {
                    label: symbols.types[i].name.clone(),
                    kind: CompletionItemKind::Type,
                    detail: Some("User-defined type".to_owned()),
                    documentation: None,
                    sort_text: None,
                    insert_text: None,
                },
            );
            proof {
                assert(item_view(out@[out@.len() - 1]) == user_type_item(tv[i as int]));
                assert(items_view(out@) =~= items_view(before).push(
                    user_type_item(tv[i as int]),
                ));
                assert(builtin_type_batch() + mapped.take(i as int + 1) =~= (builtin_type_batch()
                    + mapped.take(i as int)).push(user_type_item(tv[i as int])));
            }
            i = i + 1;
        }
        proof {
            assert(mapped.take(tv.len() as int) =~= mapped);
        }
        out
    }

    /// The function-context batch: one candidate per function, its rendered
    /// signature as detail and `name()` as insert text.
    pub fn get_function_completions(&self, symbols: &SymbolTable) -> (r: Vec<CompletionItem>)
        ensures
            items_view(r@) == function_batch(table_view(*symbols)),
    {
        let ghost fv = table_view(*symbols).functions;
        let ghost mapped = fv.map_values(|f: FunctionV| function_item(f));
        let mut out: Vec<CompletionItem> = Vec::new();
        proof {
            crate::ast::lemma_functions_view_len(symbols.functions@);
            assert(items_view(out@) =~= mapped.take(0));
        }
        let mut i: usize = 0;
        while i < symbols.functions.len()
            invariant
                0 <= i <= symbols.functions@.len(),
                fv == table_view(*symbols).functions,
                fv.len() == symbols.functions@.len(),
                mapped == fv.map_values(|f: FunctionV| function_item(f)),
                items_view(out@) == mapped.take(i as int),
            decreases symbols.functions@.len() - i,
        {
            let ghost before = out@;
            let detail = render_signature(&symbols.functions[i]);
            let insert = symbols.functions[i].name.clone().concat("()");
            out.push(
                CompletionItem {
                    label: symbols.functions[i].name.clone(),
                    kind: CompletionItemKind::Function,
                    detail: Some(detail),
                    documentation: None,
                    sort_text: None,
                    insert_text: Some(insert),
                },
            );
            proof {
                lemma_functions_view_index(symbols.functions@, i as int);
                assert(item_view(out@[out@.len() - 1]) == function_item(fv[i as int]));
                assert(items_view(out@) =~= items_view(before).push(function_item(fv[i as int])));
                assert(mapped.take(i as int + 1) =~= mapped.take(i as int).push(
                    function_item(fv[i as int]),
                ));
            }
            i = i + 1;
        }
        proof {
            assert(mapped.take(fv.len() as int) =~= mapped);
        }
        out
    }

    /// The fixed module-context batch.
    pub fn get_module_completions(&self) -> (r: Vec<CompletionItem>)
        ensures
            items_view(r@) == module_batch(),
    {
        let mut out: Vec<CompletionItem> = Vec::new();
        out.push(
            CompletionItem {
                label: "ballerina/http".to_owned(),
                kind: CompletionItemKind::Module,
                detail: Some("HTTP module".to_owned()),
                documentation: Some("Provides HTTP client and server implementations".to_owned()),
                sort_text: None,
                insert_text: None,
            },
        );
        out.push(
            CompletionItem {
                label: "ballerina/io".to_owned(),
                kind: CompletionItemKind::Module,
                detail: Some("I/O module".to_owned()),
                documentation: Some("Provides I/O operations".to_owned()),
                sort_text: None,
                insert_text: None,
            },
        );
        proof {
            assert(items_view(out@) =~= module_batch());
        }
        out
    }

    /// The keyword batch: one plain candidate per keyword.
    pub fn get_keyword_completions(&self) -> (r: Vec<CompletionItem>)
        requires
            self.wf(),
        ensures
            items_view(r@) == keyword_batch(),
    {
        let ghost labels = keyword_labels();
        let mut out: Vec<CompletionItem> = Vec::new();
        let mut i: usize = 0;
        while i < self.keywords.len()
            invariant
                0 <= i <= self.keywords@.len(),
                crate::ast::strings_view(self.keywords@) == labels,
                labels == keyword_labels(),
                items_view(out@) == keyword_batch().take(i as int),
            decreases self.keywords@.len() - i,
        {
            let ghost before = out@;
            out.push(
                CompletionItem {
                    label: self.keywords[i].clone(),
                    kind: CompletionItemKind::Keyword,
                    detail: None,
                    documentation: None,
                    sort_text: None,
                    insert_text: None,
                },
            );
            proof {
                assert(self.keywords@[i as int]@ == labels[i as int]);
                assert(item_view(out@[out@.len() - 1]) == plain_item(
                    labels[i as int],
                    CompletionItemKind::Keyword,
                ));
                assert(keyword_batch()[i as int] == plain_item(
                    labels[i as int],
                    CompletionItemKind::Keyword,
                ));
                assert(items_view(out@) =~= items_view(before).push(keyword_batch()[i as int]));
                assert(keyword_batch().take(i as int + 1) =~= keyword_batch().take(i as int).push(
                    keyword_batch()[i as int],
                ));
            }
            i = i + 1;
        }
        proof {
            assert(keyword_batch().take(keyword_batch().len() as int) =~= keyword_batch());
        }
        out
    }
}

/// Renders a function's signature: `function name(p: t, ...)[ returns t]`.
fn render_signature(f: &FunctionNode) -> (r: String)
    ensures
        r@ == function_signature(function_view(*f)),
{
    let ghost fv = function_view(*f);
    let mut d = String::new();
    d.append("function ");
    d.append(f.name.as_str());
    d.append("(");
    proof {
        assert(d@ =~= "function "@ + fv.name + "("@ + params_sig_upto(fv.params, 0));
    }
    let mut i: usize = 0;
    while i < f.params.len()
        invariant
            0 <= i <= f.params@.len(),
            fv == function_view(*f),
            fv.params.len() == f.params@.len(),
            d@ == "function "@ + fv.name + "("@ + params_sig_upto(fv.params, i as int),
        decreases f.params@.len() - i,
    {
        if i > 0 {
            d.append(", ");
        }
        d.append(f.params[i].name.as_str());
        d.append(": ");
        d.append(f.params[i].param_type.name.as_str());
        proof {
            assert(fv.params[i as int] == crate::ast::parameter_view(f.params@[i as int]));
            assert(d@ =~= "function "@ + fv.name + "("@ + params_sig_upto(
                fv.params,
                i as int + 1,
            ));
        }
        i = i + 1;
    }
    d.append(")");
    match &f.return_type {
        Some(t) => {
            d.append(" returns ");
            d.append(t.name.as_str());
            proof {
                assert(d@ =~= function_signature(fv));
            }
        },
        None => {
            proof {
                assert(d@ =~= function_signature(fv));
            }
        },
    }
    d
}

/// The cursor clamped to the line's character length.
fn clamp_to_len(line: &str, position: u32) -> (p: usize)
    ensures
        p as int <= line@.len(),
        spec_prefix(line@, position) =~= line@.subrange(0, p as int),
{
    let n = line.unicode_len();
    if (position as usize) < n {
        position as usize
    } else {
        proof {
            assert(line@.subrange(0, line@.len() as int) =~= line@);
        }
        n
    }
}

/// Index of the end of `line`'s first `p` characters once trailing
/// whitespace is removed.
fn trim_end_pos(line: &str, p: usize) -> (r: usize)
    requires
        p as int <= line@.len(),
    ensures
        r as int == trim_end_len(line@.subrange(0, p as int)),
        r <= p,
{
    proof {
        lemma_trim_end_len_bounds(line@.subrange(0, p as int));
    }
    let mut e = p;
    while e > 0 && is_space(line.get_char(e - 1))
        invariant
            0 <= e <= p,
            p as int <= line@.len(),
            trim_end_len(line@.subrange(0, p as int)) == trim_end_len(
                line@.subrange(0, e as int),
            ),
        decreases e,
    {
        proof {
            assert(line@.subrange(0, e as int).drop_last() =~= line@.subrange(0, e as int - 1));
        }
        e = e - 1;
    }
    proof {
        lemma_trim_end_len_bounds(line@.subrange(0, e as int));
        if e > 0 {
            assert(line@.subrange(0, e as int)[e as int - 1] == line@[e as int - 1]);
        }
    }
    e
}

/// Ties the executable trimmed position to the spec prefix and its trim.
proof fn relate_trimmed(line: Seq<char>, position: u32, p: usize, e: usize)
    requires
        p as int <= line.len(),
        spec_prefix(line, position) == line.subrange(0, p as int),
        e as int == trim_end_len(line.subrange(0, p as int)),
        e <= p,
    ensures
        trimmed_end(spec_prefix(line, position)) =~= line.subrange(0, e as int),
        trimmed_end(spec_prefix(line, position)).len() == e as int,
{
    let prefix = spec_prefix(line, position);
    lemma_trim_end_len_bounds(prefix);
    assert(trimmed_end(prefix) =~= line.subrange(0, e as int));
}

} // verus!
