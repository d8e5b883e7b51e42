//! Recursive-descent parser: composes the grammar rules bottom-up
//! (import, declaration, function, service, variable) into a complete
//! syntax tree for a source string.
//!
//! Every rule exists twice: as a spec function over `Seq<char>` that defines
//! the grammar mathematically, and as an executable function proved to return
//! exactly what the spec rule says. A rule yields the position just past the
//! consumed text together with the parsed node, or `None` when its required
//! structure is absent. Whitespace is skipped at rule boundaries and around
//! punctuation; it is never significant.
//!
//! The parser does not recover: the first construct that cannot be matched
//! makes the whole parse fail, and the failure reports the offset of the
//! unconsumed remainder. There is no partial tree on failure.

use vstd::prelude::*;
use crate::ast::AstNode;
use crate::ast::AstV;
use crate::ast::FunctionNode;
use crate::ast::FunctionV;
use crate::ast::ImportNode;
use crate::ast::ImportV;
use crate::ast::ModuleNode;
use crate::ast::ModuleV;
use crate::ast::ParameterNode;
use crate::ast::ParameterV;
use crate::ast::ServiceNode;
use crate::ast::ServiceV;
use crate::ast::TypeNode;
use crate::ast::TypeV;
use crate::ast::VariableNode;
use crate::ast::VariableV;
use crate::ast::Visibility;
use crate::ast::ast_view;
use crate::ast::asts_view;
use crate::ast::function_view;
use crate::ast::functions_view;
use crate::ast::import_view;
use crate::ast::imports_view;
use crate::ast::module_view;
use crate::ast::parameter_view;
use crate::ast::parameters_view;
use crate::ast::strings_view;
use crate::ast::type_view;
use crate::ast::variable_view;
use crate::grammar::is_alpha_char;
use crate::grammar::is_space_char;
use crate::grammar::spec_identifier;
use crate::grammar::spec_qualified;
use crate::grammar::spec_type;
use crate::grammar::parse_identifier;
use crate::grammar::parse_qualified_identifier;
use crate::grammar::parse_type;
use crate::grammar::skip_ws;
use crate::grammar::ws_end;

verus! {

/// True when the literal `lit` stands in `s` at position `i`.
pub open spec fn lit_at(s: Seq<char>, i: int, lit: Seq<char>) -> bool {
    i >= 0 && i + lit.len() <= s.len() && s.subrange(i, i + lit.len()) == lit
}

/// True when the character `c` stands in `s` at position `i`.
pub open spec fn char_at(s: Seq<char>, i: int, c: char) -> bool {
    0 <= i < s.len() && s[i] == c
}

/// The import rule: `import`, a qualified path, an optional `as` alias,
/// then `;`.
pub open spec fn spec_import(s: Seq<char>, i: int) -> Option<(int, ImportV)> {
    let a = ws_end(s, i);
    if lit_at(s, a, "import"@) {
        let b = ws_end(s, a + "import"@.len());
        match spec_qualified(s, b) {
            Some((c, path)) => match spec_import_alias(s, c) {
                Some((d, alias)) => {
                    let e = ws_end(s, d);
                    if char_at(s, e, ';') {
                        Some((e + 1, ImportV { path, alias: Some(alias) }))
                    } else {
                        None
                    }
                },
                None => {
                    let e = ws_end(s, c);
                    if char_at(s, e, ';') {
                        Some((e + 1, ImportV { path, alias: None }))
                    } else {
                        None
                    }
                },
            },
            None => None,
        }
    } else {
        None
    }
}

/// The alias clause of an import: `as` followed by an identifier.
pub open spec fn spec_import_alias(s: Seq<char>, i: int) -> Option<(int, Seq<char>)> {
    let a = ws_end(s, i);
    if lit_at(s, a, "as"@) {
        spec_identifier(s, ws_end(s, a + "as"@.len()))
    } else {
        None
    }
}

/// The placeholder node the grammar produces for a bare-identifier
/// initializer: a variable reference whose type is the sentinel `unknown`.
pub open spec fn placeholder_var(name: Seq<char>) -> VariableV {
    VariableV {
        name: name,
        var_type: TypeV { name: "unknown"@, is_array: false, is_optional: false },
        initializer: None,
    }
}

/// The initializer rule: `=` followed by an identifier, yielded as the
/// placeholder variable-reference node.
pub open spec fn spec_initializer(s: Seq<char>, i: int) -> Option<(int, AstV)> {
    let a = ws_end(s, i);
    if char_at(s, a, '=') {
        match spec_identifier(s, ws_end(s, a + 1)) {
            Some((j, rn)) => Some((j, AstV::Variable(placeholder_var(rn)))),
            None => None,
        }
    } else {
        None
    }
}

/// The variable rule: a name, `:`, a type, and an optional initializer.
pub open spec fn spec_variable(s: Seq<char>, i: int) -> Option<(int, VariableV)> {
    let a = ws_end(s, i);
    match spec_identifier(s, a) {
        Some((j, name)) => {
            let b = ws_end(s, j);
            if char_at(s, b, ':') {
                match spec_type(s, ws_end(s, b + 1)) {
                    Some((k, t)) => match spec_initializer(s, k) {
                        Some((m, ia)) => Some(
                            (m, VariableV { name, var_type: t, initializer: Some(Box::new(ia)) }),
                        ),
                        None => Some((k, VariableV { name, var_type: t, initializer: None })),
                    },
                    None => None,
                }
            } else {
                None
            }
        },
        None => None,
    }
}

/// The parameter rule: a name, `:`, a type.
pub open spec fn spec_parameter(s: Seq<char>, i: int) -> Option<(int, ParameterV)> {
    let a = ws_end(s, i);
    match spec_identifier(s, a) {
        Some((j, name)) => {
            let b = ws_end(s, j);
            if char_at(s, b, ':') {
                match spec_type(s, ws_end(s, b + 1)) {
                    Some((k, t)) => Some((k, ParameterV { name, param_type: t })),
                    None => None,
                }
            } else {
                None
            }
        },
        None => None,
    }
}

/// Remaining `,`-separated parameters after a first one ending at `i`;
/// a comma is consumed only when a parameter follows it.
pub open spec fn spec_params_rest(s: Seq<char>, i: int) -> (int, Seq<ParameterV>)
    decreases s.len() - i,
{
    let a = ws_end(s, i);
    if char_at(s, a, ',') {
        match spec_parameter(s, a + 1) {
            Some((j, p)) => if i < j <= s.len() {
                let (k, ps) = spec_params_rest(s, j);
                (k, seq![p] + ps)
            } else {
                (i, Seq::empty())
            },
            None => (i, Seq::empty()),
        }
    } else {
        (i, Seq::empty())
    }
}

/// The parameter-list rule: `(`, zero or more `,`-separated parameters, `)`.
pub open spec fn spec_parameters(s: Seq<char>, i: int) -> Option<(int, Seq<ParameterV>)> {
    let a = ws_end(s, i);
    if char_at(s, a, '(') {
        match spec_parameter(s, a + 1) {
            Some((j, p)) => {
                let (k, ps) = spec_params_rest(s, j);
                let c = ws_end(s, k);
                if char_at(s, c, ')') {
                    Some((c + 1, seq![p] + ps))
                } else {
                    None
                }
            },
            None => {
                let c = ws_end(s, a + 1);
                if char_at(s, c, ')') {
                    Some((c + 1, Seq::empty()))
                } else {
                    None
                }
            },
        }
    } else {
        None
    }
}

/// The return clause: `returns` followed by a type.
pub open spec fn spec_return_type(s: Seq<char>, i: int) -> Option<(int, TypeV)> {
    let a = ws_end(s, i);
    if lit_at(s, a, "returns"@) {
        spec_type(s, ws_end(s, a + "returns"@.len()))
    } else {
        None
    }
}

/// The statement rule: currently exactly a variable declaration.
pub open spec fn spec_statement(s: Seq<char>, i: int) -> Option<(int, AstV)> {
    match spec_variable(s, i) {
        Some((j, v)) => Some((j, AstV::Variable(v))),
        None => None,
    }
}

/// Zero or more statements starting at `i`.
pub open spec fn spec_statements(s: Seq<char>, i: int) -> (int, Seq<AstV>)
    decreases s.len() - i,
{
    match spec_statement(s, i) {
        Some((j, st)) => if i < j <= s.len() {
            let (k, sts) = spec_statements(s, j);
            (k, seq![st] + sts)
        } else {
            (i, Seq::empty())
        },
        None => (i, Seq::empty()),
    }
}

/// The function-body rule: `{`, zero or more statements, `}`.
pub open spec fn spec_function_body(s: Seq<char>, i: int) -> Option<(int, Seq<AstV>)> {
    let a = ws_end(s, i);
    if char_at(s, a, '{') {
        let (j, sts) = spec_statements(s, a + 1);
        let b = ws_end(s, j);
        if char_at(s, b, '}') {
            Some((b + 1, sts))
        } else {
            None
        }
    } else {
        None
    }
}

/// The function rule: an optional `public` modifier, `function`, a name, a
/// parameter list, an optional return clause, and a body.
pub open spec fn spec_function(s: Seq<char>, i: int) -> Option<(int, FunctionV)> {
    let a = ws_end(s, i);
    let is_pub = lit_at(s, a, "public"@);
    let b = if is_pub {
        ws_end(s, a + "public"@.len())
    } else {
        a
    };
    if lit_at(s, b, "function"@) {
        match spec_identifier(s, ws_end(s, b + "function"@.len())) {
            Some((c, name)) => match spec_parameters(s, c) {
                Some((d, ps)) => {
                    let rt = spec_return_type(s, d);
                    let e = match rt {
                        Some((e1, t)) => e1,
                        None => d,
                    };
                    match spec_function_body(s, e) {
                        Some((g, body)) => Some(
                            (g, FunctionV {
                                name,
                                params: ps,
                                return_type: match rt {
                                    Some((e1, t)) => Some(t),
                                    None => None,
                                },
                                body,
                                visibility: if is_pub {
                                    Visibility::Public
                                } else {
                                    Visibility::Private
                                },
                            }),
                        ),
                        None => None,
                    }
                },
                None => None,
            },
            None => None,
        }
    } else {
        None
    }
}

/// Remaining `,`-separated endpoint identifiers after a first one ending at
/// `i`.
pub open spec fn spec_ident_list_rest(s: Seq<char>, i: int) -> (int, Seq<Seq<char>>)
    decreases s.len() - i,
{
    let a = ws_end(s, i);
    if char_at(s, a, ',') {
        match spec_identifier(s, ws_end(s, a + 1)) {
            Some((j, id)) => if i < j <= s.len() {
                let (k, ids) = spec_ident_list_rest(s, j);
                (k, seq![id] + ids)
            } else {
                (i, Seq::empty())
            },
            None => (i, Seq::empty()),
        }
    } else {
        (i, Seq::empty())
    }
}

/// The endpoint clause of a service: `on` followed by zero or more
/// `,`-separated identifiers.
pub open spec fn spec_service_endpoints(s: Seq<char>, i: int) -> Option<(int, Seq<Seq<char>>)> {
    let a = ws_end(s, i);
    if lit_at(s, a, "on"@) {
        let b = ws_end(s, a + "on"@.len());
        match spec_identifier(s, b) {
            Some((j, id)) => {
                let (k, ids) = spec_ident_list_rest(s, j);
                Some((k, seq![id] + ids))
            },
            None => Some((b, Seq::empty())),
        }
    } else {
        None
    }
}

/// Zero or more resource functions starting at `i`.
pub open spec fn spec_functions(s: Seq<char>, i: int) -> (int, Seq<FunctionV>)
    decreases s.len() - i,
{
    match spec_function(s, i) {
        Some((j, f1)) => if i < j <= s.len() {
            let (k, fs) = spec_functions(s, j);
            (k, seq![f1] + fs)
        } else {
            (i, Seq::empty())
        },
        None => (i, Seq::empty()),
    }
}

/// The service-body rule: `{`, zero or more functions, `}`.
pub open spec fn spec_service_body(s: Seq<char>, i: int) -> Option<(int, Seq<FunctionV>)> {
    let a = ws_end(s, i);
    if char_at(s, a, '{') {
        let (j, fs) = spec_functions(s, a + 1);
        let b = ws_end(s, j);
        if char_at(s, b, '}') {
            Some((b + 1, fs))
        } else {
            None
        }
    } else {
        None
    }
}

/// The service rule: `service`, a name, an endpoint clause, and a body of
/// resource functions.
pub open spec fn spec_service(s: Seq<char>, i: int) -> Option<(int, ServiceV)> {
    let a = ws_end(s, i);
    if lit_at(s, a, "service"@) {
        match spec_identifier(s, ws_end(s, a + "service"@.len())) {
            Some((j, name)) => match spec_service_endpoints(s, j) {
                Some((k, eps)) => match spec_service_body(s, k) {
                    Some((m, fs)) => Some((m, ServiceV { name, endpoints: eps, resources: fs })),
                    None => None,
                },
                None => None,
            },
            None => None,
        }
    } else {
        None
    }
}

/// The declaration rule: ordered alternation — function, then service, then
/// variable; the first alternative that matches wins.
pub open spec fn spec_declaration(s: Seq<char>, i: int) -> Option<(int, AstV)> {
    match spec_function(s, i) {
        Some((j, f1)) => Some((j, AstV::Function(f1))),
        None => match spec_service(s, i) {
            Some((j, sv)) => Some((j, AstV::Service(sv))),
            None => match spec_variable(s, i) {
                Some((j, v)) => Some((j, AstV::Variable(v))),
                None => None,
            },
        },
    }
}

/// Zero or more imports starting at `i`.
pub open spec fn spec_imports(s: Seq<char>, i: int) -> (int, Seq<ImportV>)
    decreases s.len() - i,
{
    match spec_import(s, i) {
        Some((j, imp)) => if i < j <= s.len() {
            let (k, imps) = spec_imports(s, j);
            (k, seq![imp] + imps)
        } else {
            (i, Seq::empty())
        },
        None => (i, Seq::empty()),
    }
}

/// Zero or more declarations starting at `i`.
pub open spec fn spec_declarations(s: Seq<char>, i: int) -> (int, Seq<AstV>)
    decreases s.len() - i,
{
    match spec_declaration(s, i) {
        Some((j, d)) => if i < j <= s.len() {
            let (k, ds) = spec_declarations(s, j);
            (k, seq![d] + ds)
        } else {
            (i, Seq::empty())
        },
        None => (i, Seq::empty()),
    }
}

/// The module rule: zero or more imports followed by zero or more
/// declarations — imports always precede declarations. This rule itself
/// never fails; unconsumed trailing input is judged by `spec_parse`.
pub open spec fn spec_module(s: Seq<char>, i: int) -> (int, ModuleV) {
    let (j, imps) = spec_imports(s, i);
    let (k, ds) = spec_declarations(s, j);
    (k, ModuleV { imports: imps, declarations: ds })
}

/// Offset of the unconsumed remainder after the module rule and trailing
/// whitespace.
pub open spec fn spec_module_end(s: Seq<char>) -> int {
    let (k, m) = spec_module(s, 0);
    ws_end(s, k)
}

/// The whole parse: the module rule applied at the start of the source,
/// succeeding exactly when nothing but whitespace remains after it.
pub open spec fn spec_parse(s: Seq<char>) -> Option<ModuleV> {
    let (k, m) = spec_module(s, 0);
    if ws_end(s, k) == s.len() {
        Some(m)
    } else {
        None
    }
}

/// For every syntactically valid single import — the literal `import`, a
/// space, any qualified path, and `;` — parsing yields a module holding
/// exactly one import with that path and no alias, and no declarations.
pub proof fn lemma_single_import_round_trip(p: Seq<char>)
    requires
        spec_qualified(p, 0) == Some((p.len() as int, p)),
    ensures
        spec_parse("import "@ + p + ";"@) == Some(
            ModuleV {
                imports: seq![ImportV { path: p, alias: None }],
                declarations: Seq::<AstV>::empty(),
            },
        ),
{
    reveal_strlit("import ");
    reveal_strlit("import");
    reveal_strlit("public");
    reveal_strlit("function");
    reveal_strlit("service");
    reveal_strlit("as");
    reveal_strlit(";");
    let s = "import "@ + p + ";"@;
    let n = s.len() as int;
    assert(n == 8 + p.len());
    assert(forall|t: int| 0 <= t < p.len() ==> s[7 + t] == p[t]);
    assert(s[7 + p.len() as int] == ';');
    assert(spec_identifier(p, 0) is Some);
    assert(0 < p.len());
    assert(is_alpha_char(p[0]));
    assert(s[7] == p[0]);
    // Leading position facts: no whitespace before or inside the keyword,
    // one space after it, then the path's first (alphabetic) character.
    assert(!is_space_char(s[0]));
    assert(ws_end(s, 0) == 0);
    assert(s.subrange(0, 6) =~= "import"@);
    assert(lit_at(s, 0, "import"@));
    assert(s[6] == ' ');
    assert(!is_space_char(s[7]));
    assert(ws_end(s, 7) == 7);
    assert(ws_end(s, 6) == 7);
    // The embedded path parses exactly as it does alone: the `;` just past
    // it can neither continue an identifier nor start a new segment.
    assert(!crate::grammar::is_ident_char(';'));
    crate::grammar::lemma_qualified_shift(s, p, 7);
    let c = 7 + p.len() as int;
    assert(spec_qualified(s, 7) == Some((c, p)));
    // No alias clause: `as` cannot fit before the end of the input.
    assert(!is_space_char(s[c]));
    assert(ws_end(s, c) == c);
    assert(!lit_at(s, c, "as"@));
    assert(spec_import_alias(s, c) is None);
    assert(char_at(s, c, ';'));
    assert(spec_import(s, 0) == Some((n, ImportV { path: p, alias: None })));
    // Past the end nothing more matches: the import loop stops, and no
    // declaration rule can start.
    assert(ws_end(s, n) == n);
    assert(!lit_at(s, n, "import"@));
    assert(spec_import(s, n) is None);
    assert(spec_imports(s, n) == ((n, Seq::<ImportV>::empty())));
    assert(spec_imports(s, 0) == ((n, seq![ImportV { path: p, alias: None }]
        + Seq::<ImportV>::empty())));
    assert(seq![ImportV { path: p, alias: None }] + Seq::<ImportV>::empty() =~= seq![
        ImportV { path: p, alias: None },
    ]);
    assert(ws_end(s, n + 6) == n + 6);
    assert(!lit_at(s, n, "function"@));
    assert(!lit_at(s, n + 6, "function"@));
    assert(spec_function(s, n) is None);
    assert(!lit_at(s, n, "service"@));
    assert(spec_service(s, n) is None);
    assert(spec_identifier(s, n) is None);
    assert(spec_variable(s, n) is None);
    assert(spec_declaration(s, n) is None);
    assert(spec_declarations(s, n) == ((n, Seq::<AstV>::empty())));
    assert(spec_module(s, 0) == ((n, ModuleV {
        imports: seq![ImportV { path: p, alias: None }],
        declarations: Seq::<AstV>::empty(),
    })));
}

/// For every syntactically valid aliased single import — `import`, any
/// qualified path, `as`, any identifier, and `;` — parsing yields a module
/// holding exactly one import with that path and that alias.
#[verifier::rlimit(60)]
pub proof fn lemma_single_import_alias_round_trip(p: Seq<char>, x: Seq<char>)
    requires
        spec_qualified(p, 0) == Some((p.len() as int, p)),
        spec_identifier(x, 0) == Some((x.len() as int, x)),
    ensures
        spec_parse("import "@ + p + " as "@ + x + ";"@) == Some(
            ModuleV {
                imports: seq![ImportV { path: p, alias: Some(x) }],
                declarations: Seq::<AstV>::empty(),
            },
        ),
{
    reveal_strlit("import ");
    reveal_strlit("import");
    reveal_strlit("public");
    reveal_strlit("function");
    reveal_strlit("service");
    reveal_strlit(" as ");
    reveal_strlit("as");
    reveal_strlit(";");
    let lp = p.len() as int;
    let lx = x.len() as int;
    let s = "import "@ + p + " as "@ + x + ";"@;
    let n = s.len() as int;
    let c = 7 + lp;
    assert(n == 12 + lp + lx);
    assert(forall|t: int| 0 <= t < lp ==> s[7 + t] == p[t]);
    assert(s[c] == ' ' && s[c + 1] == 'a' && s[c + 2] == 's' && s[c + 3] == ' ');
    assert(forall|t: int| 0 <= t < lx ==> s[c + 4 + t] == x[t]);
    assert(s[c + 4 + lx] == ';');
    assert(0 < lp && is_alpha_char(p[0]) && s[7] == p[0]);
    assert(0 < lx && is_alpha_char(x[0]) && s[c + 4] == x[0]);
    // The keyword, the space after it, and the start of the path.
    assert(ws_end(s, 0) == 0);
    assert(s.subrange(0, 6) =~= "import"@);
    assert(lit_at(s, 0, "import"@));
    assert(s[6] == ' ');
    assert(ws_end(s, 7) == 7);
    assert(ws_end(s, 6) == 7);
    // The embedded path ends at the space before `as`, which can neither
    // continue an identifier nor start a new segment.
    crate::grammar::lemma_qualified_shift(s, p, 7);
    assert(spec_qualified(s, 7) == Some((c, p)));
    // The alias clause: `as`, then the embedded identifier, bounded by `;`.
    assert(ws_end(s, c + 1) == c + 1);
    assert(ws_end(s, c) == c + 1);
    assert(s.subrange(c + 1, c + 3) =~= "as"@);
    assert(lit_at(s, c + 1, "as"@));
    assert(ws_end(s, c + 4) == c + 4);
    assert(ws_end(s, c + 3) == c + 4);
    crate::grammar::lemma_identifier_shift(s, x, c + 4, 0);
    assert(spec_import_alias(s, c) == Some((c + 4 + lx, x)));
    let d = c + 4 + lx;
    assert(ws_end(s, d) == d);
    assert(char_at(s, d, ';'));
    assert(spec_import(s, 0) == Some((n, ImportV { path: p, alias: Some(x) })));
    // Past the end nothing more matches.
    assert(ws_end(s, n) == n);
    assert(!lit_at(s, n, "import"@));
    assert(spec_import(s, n) is None);
    assert(spec_imports(s, n) == ((n, Seq::<ImportV>::empty())));
    assert(spec_imports(s, 0) == ((n, seq![ImportV { path: p, alias: Some(x) }]
        + Seq::<ImportV>::empty())));
    assert(seq![ImportV { path: p, alias: Some(x) }] + Seq::<ImportV>::empty() =~= seq![
        ImportV { path: p, alias: Some(x) },
    ]);
    assert(ws_end(s, n + 6) == n + 6);
    assert(!lit_at(s, n, "function"@));
    assert(!lit_at(s, n + 6, "function"@));
    assert(spec_function(s, n) is None);
    assert(!lit_at(s, n, "service"@));
    assert(spec_service(s, n) is None);
    assert(spec_identifier(s, n) is None);
    assert(spec_variable(s, n) is None);
    assert(spec_declaration(s, n) is None);
    assert(spec_declarations(s, n) == ((n, Seq::<AstV>::empty())));
    assert(spec_module(s, 0) == ((n, ModuleV {
        imports: seq![ImportV { path: p, alias: Some(x) }],
        declarations: Seq::<AstV>::empty(),
    })));
}

/// True when the character `c` stands at `pos`.
fn at_char(s: &str, pos: usize, c: char) -> (b: bool)
    requires
        pos as int <= s@.len(),
    ensures
        b == char_at(s@, pos as int, c),
{
    let n = s.unicode_len();
    pos < n && s.get_char(pos) == c
}

/// True when the literal `lit` stands at `pos`.
fn at_lit(s: &str, pos: usize, lit: &str) -> (b: bool)
    requires
        pos as int <= s@.len(),
    ensures
        b == lit_at(s@, pos as int, lit@),
{
    let n = s.unicode_len();
    let m = lit.unicode_len();
    if n - pos < m {
        return false;
    }
    let mut k: usize = 0;
    while k < m
        invariant
            0 <= k <= m,
            m as int == lit@.len(),
            n as int == s@.len(),
            pos + m <= n,
            forall|t: int| 0 <= t < k ==> s@[pos + t] == lit@[t],
        decreases m - k,
    {
        if s.get_char(pos + k) != lit.get_char(k) {
            proof {
                let sub = s@.subrange(pos as int, pos as int + lit@.len());
                assert(sub[k as int] == s@[pos + k as int]);
            }
            return false;
        }
        k = k + 1;
    }
    proof {
        assert(s@.subrange(pos as int, pos as int + lit@.len()) =~= lit@);
    }
    true
}

/// The import rule, executable.
pub fn parse_import(s: &str, pos: usize) -> (r: Option<(usize, ImportNode)>)
    requires
        pos as int <= s@.len(),
    ensures
        match r {
            Some((j, node)) => {
                &&& spec_import(s@, pos as int) == Some((j as int, import_view(node)))
                &&& j as int <= s@.len()
            },
            None => spec_import(s@, pos as int) is None,
        },
{
    let _n = s.unicode_len();
    let a = skip_ws(s, pos);
    if at_lit(s, a, "import") {
        let b = skip_ws(s, a + "import".unicode_len());
        match parse_qualified_identifier(s, b) {
            Some((c, path)) => match parse_import_alias(s, c) {
                Some((d, alias)) => {
                    let e = skip_ws(s, d);
                    if at_char(s, e, ';') {
                        Some((e + 1, ImportNode { path, alias: Some(alias) }))
                    } else {
                        None
                    }
                },
                None => {
                    let e = skip_ws(s, c);
                    if at_char(s, e, ';') {
                        Some((e + 1, ImportNode { path, alias: None }))
                    } else {
                        None
                    }
                },
            },
            None => None,
        }
    } else {
        None
    }
}

/// The import-alias clause, executable.
pub fn parse_import_alias(s: &str, pos: usize) -> (r: Option<(usize, String)>)
    requires
        pos as int <= s@.len(),
    ensures
        match r {
            Some((j, alias)) => {
                &&& spec_import_alias(s@, pos as int) == Some((j as int, alias@))
                &&& j as int <= s@.len()
            },
            None => spec_import_alias(s@, pos as int) is None,
        },
{
    let _n = s.unicode_len();
    let a = skip_ws(s, pos);
    if at_lit(s, a, "as") {
        parse_identifier(s, skip_ws(s, a + "as".unicode_len()))
    } else {
        None
    }
}

/// The initializer rule, executable; yields the placeholder
/// variable-reference node.
pub fn parse_initializer(s: &str, pos: usize) -> (r: Option<(usize, AstNode)>)
    requires
        pos as int <= s@.len(),
    ensures
        match r {
            Some((j, node)) => {
                &&& spec_initializer(s@, pos as int) == Some((j as int, ast_view(node)))
                &&& j as int <= s@.len()
            },
            None => spec_initializer(s@, pos as int) is None,
        },
{
    let _n = s.unicode_len();
    let a = skip_ws(s, pos);
    if at_char(s, a, '=') {
        match parse_identifier(s, skip_ws(s, a + 1)) {
            Some((j, rn)) => {
                let node = AstNode::Variable(
                    VariableNode {
                        name: rn,
                        var_type: TypeNode {
                            name: "unknown".to_owned(),
                            is_array: false,
                            is_optional: false,
                        },
                        initializer: None,
                    },
                );
                Some((j, node))
            },
            None => None,
        }
    } else {
        None
    }
}

/// The variable rule, executable.
pub fn parse_variable(s: &str, pos: usize) -> (r: Option<(usize, VariableNode)>)
    requires
        pos as int <= s@.len(),
    ensures
        match r {
            Some((j, node)) => {
                &&& spec_variable(s@, pos as int) == Some((j as int, variable_view(node)))
                &&& j as int <= s@.len()
            },
            None => spec_variable(s@, pos as int) is None,
        },
{
    let _n = s.unicode_len();
    let a = skip_ws(s, pos);
    match parse_identifier(s, a) {
        Some((j, name)) => {
            let b = skip_ws(s, j);
            if at_char(s, b, ':') {
                match parse_type(s, skip_ws(s, b + 1)) {
                    Some((k, t)) => match parse_initializer(s, k) {
                        Some((m, ia)) => Some(
                            (m, VariableNode {
                                name,
                                var_type: t,
                                initializer: Some(Box::new(ia)),
                            }),
                        ),
                        None => Some((k, VariableNode { name, var_type: t, initializer: None })),
                    },
                    None => None,
                }
            } else {
                None
            }
        },
        None => None,
    }
}

/// The parameter rule, executable.
pub fn parse_parameter(s: &str, pos: usize) -> (r: Option<(usize, ParameterNode)>)
    requires
        pos as int <= s@.len(),
    ensures
        match r {
            Some((j, node)) => {
                &&& spec_parameter(s@, pos as int) == Some((j as int, parameter_view(node)))
                &&& j as int <= s@.len()
            },
            None => spec_parameter(s@, pos as int) is None,
        },
{
    let _n = s.unicode_len();
    let a = skip_ws(s, pos);
    match parse_identifier(s, a) {
        Some((j, name)) => {
            let b = skip_ws(s, j);
            if at_char(s, b, ':') {
                match parse_type(s, skip_ws(s, b + 1)) {
                    Some((k, t)) => Some((k, ParameterNode { name, param_type: t })),
                    None => None,
                }
            } else {
                None
            }
        },
        None => None,
    }
}

/// Remaining `,`-separated parameters, executable.
fn params_rest(s: &str, pos: usize) -> (r: (usize, Vec<ParameterNode>))
    requires
        pos as int <= s@.len(),
    ensures
        spec_params_rest(s@, pos as int) == ((r.0 as int, parameters_view(r.1@))),
        pos <= r.0,
        r.0 as int <= s@.len(),
    decreases s@.len() - pos,
{
    let _n = s.unicode_len();
    let a = skip_ws(s, pos);
    if at_char(s, a, ',') {
        match parse_parameter(s, a + 1) {
            Some((j, p)) => {
                if j > pos {
                    let (k, mut ps) = params_rest(s, j);
                    let ghost rest = ps@;
                    ps.insert(0, p);
                    proof {
                        assert(ps@.subrange(1, ps@.len() as int) =~= rest);
                        assert(parameters_view(ps@) =~= seq![parameter_view(p)]
                            + parameters_view(rest));
                    }
                    (k, ps)
                } else {
                    (pos, Vec::new())
                }
            },
            None => (pos, Vec::new()),
        }
    } else {
        (pos, Vec::new())
    }
}

/// The parameter-list rule, executable.
pub fn parse_parameters(s: &str, pos: usize) -> (r: Option<(usize, Vec<ParameterNode>)>)
    requires
        pos as int <= s@.len(),
    ensures
        match r {
            Some((j, ps)) => {
                &&& spec_parameters(s@, pos as int) == Some((j as int, parameters_view(ps@)))
                &&& j as int <= s@.len()
            },
            None => spec_parameters(s@, pos as int) is None,
        },
{
    let _n = s.unicode_len();
    let a = skip_ws(s, pos);
    if at_char(s, a, '(') {
        match parse_parameter(s, a + 1) {
            Some((j, p)) => {
                let (k, mut ps) = params_rest(s, j);
                let ghost rest = ps@;
                let c = skip_ws(s, k);
                if at_char(s, c, ')') {
                    ps.insert(0, p);
                    proof {
                        assert(ps@.subrange(1, ps@.len() as int) =~= rest);
                        assert(parameters_view(ps@) =~= seq![parameter_view(p)]
                            + parameters_view(rest));
                    }
                    Some((c + 1, ps))
                } else {
                    None
                }
            },
            None => {
                let c = skip_ws(s, a + 1);
                if at_char(s, c, ')') {
                    let ps: Vec<ParameterNode> = Vec::new();
                    proof {
                        assert(parameters_view(ps@) =~= Seq::<ParameterV>::empty());
                    }
                    Some((c + 1, ps))
                } else {
                    None
                }
            },
        }
    } else {
        None
    }
}

/// The return clause, executable.
pub fn parse_return_type(s: &str, pos: usize) -> (r: Option<(usize, TypeNode)>)
    requires
        pos as int <= s@.len(),
    ensures
        match r {
            Some((j, t)) => {
                &&& spec_return_type(s@, pos as int) == Some((j as int, type_view(t)))
                &&& j as int <= s@.len()
            },
            None => spec_return_type(s@, pos as int) is None,
        },
{
    let _n = s.unicode_len();
    let a = skip_ws(s, pos);
    if at_lit(s, a, "returns") {
        parse_type(s, skip_ws(s, a + "returns".unicode_len()))
    } else {
        None
    }
}

/// The statement rule, executable: currently exactly a variable declaration.
pub fn parse_statement(s: &str, pos: usize) -> (r: Option<(usize, AstNode)>)
    requires
        pos as int <= s@.len(),
    ensures
        match r {
            Some((j, node)) => {
                &&& spec_statement(s@, pos as int) == Some((j as int, ast_view(node)))
                &&& j as int <= s@.len()
            },
            None => spec_statement(s@, pos as int) is None,
        },
{
    match parse_variable(s, pos) {
        Some((j, v)) => Some((j, AstNode::Variable(v))),
        None => None,
    }
}

/// Zero or more statements, executable.
fn statements(s: &str, pos: usize) -> (r: (usize, Vec<AstNode>))
    requires
        pos as int <= s@.len(),
    ensures
        spec_statements(s@, pos as int) == ((r.0 as int, asts_view(r.1@))),
        pos <= r.0,
        r.0 as int <= s@.len(),
    decreases s@.len() - pos,
{
    match parse_statement(s, pos) {
        Some((j, st)) => {
            if j > pos {
                let (k, mut sts) = statements(s, j);
                let ghost rest = sts@;
                sts.insert(0, st);
                proof {
                    assert(sts@.subrange(1, sts@.len() as int) =~= rest);
                }
                (k, sts)
            } else {
                (pos, Vec::new())
            }
        },
        None => (pos, Vec::new()),
    }
}

/// The function-body rule, executable.
pub fn parse_function_body(s: &str, pos: usize) -> (r: Option<(usize, Vec<AstNode>)>)
    requires
        pos as int <= s@.len(),
    ensures
        match r {
            Some((j, sts)) => {
                &&& spec_function_body(s@, pos as int) == Some((j as int, asts_view(sts@)))
                &&& j as int <= s@.len()
            },
            None => spec_function_body(s@, pos as int) is None,
        },
{
    let _n = s.unicode_len();
    let a = skip_ws(s, pos);
    if at_char(s, a, '{') {
        let (j, sts) = statements(s, a + 1);
        let b = skip_ws(s, j);
        if at_char(s, b, '}') {
            Some((b + 1, sts))
        } else {
            None
        }
    } else {
        None
    }
}

/// The function rule, executable.
pub fn parse_function(s: &str, pos: usize) -> (r: Option<(usize, FunctionNode)>)
    requires
        pos as int <= s@.len(),
    ensures
        match r {
            Some((j, node)) => {
                &&& spec_function(s@, pos as int) == Some((j as int, function_view(node)))
                &&& j as int <= s@.len()
            },
            None => spec_function(s@, pos as int) is None,
        },
{
    let _n = s.unicode_len();
    let a = skip_ws(s, pos);
    let is_pub = at_lit(s, a, "public");
    let b = if is_pub {
        skip_ws(s, a + "public".unicode_len())
    } else {
        a
    };
    if at_lit(s, b, "function") {
        match parse_identifier(s, skip_ws(s, b + "function".unicode_len())) {
            Some((c, name)) => match parse_parameters(s, c) {
                Some((d, ps)) => {
                    let rt = parse_return_type(s, d);
                    let e = match &rt {
                        Some((e1, _t)) => *e1,
                        None => d,
                    };
                    match parse_function_body(s, e) {
                        Some((g, body)) => Some(
                            (g, FunctionNode {
                                name,
                                params: ps,
                                return_type: match rt {
                                    Some((_e1, t)) => Some(t),
                                    None => None,
                                },
                                body,
                                visibility: if is_pub {
                                    Visibility::Public
                                } else {
                                    Visibility::Private
                                },
                            }),
                        ),
                        None => None,
                    }
                },
                None => None,
            },
            None => None,
        }
    } else {
        None
    }
}

/// Remaining `,`-separated endpoint identifiers, executable.
fn ident_list_rest(s: &str, pos: usize) -> (r: (usize, Vec<String>))
    requires
        pos as int <= s@.len(),
    ensures
        spec_ident_list_rest(s@, pos as int) == ((r.0 as int, strings_view(r.1@))),
        pos <= r.0,
        r.0 as int <= s@.len(),
    decreases s@.len() - pos,
{
    let _n = s.unicode_len();
    let a = skip_ws(s, pos);
    if at_char(s, a, ',') {
        match parse_identifier(s, skip_ws(s, a + 1)) {
            Some((j, id)) => {
                if j > pos {
                    let (k, mut ids) = ident_list_rest(s, j);
                    let ghost rest = ids@;
                    ids.insert(0, id);
                    proof {
                        assert(ids@.subrange(1, ids@.len() as int) =~= rest);
                        assert(strings_view(ids@) =~= seq![id@] + strings_view(rest));
                    }
                    (k, ids)
                } else {
                    (pos, Vec::new())
                }
            },
            None => (pos, Vec::new()),
        }
    } else {
        (pos, Vec::new())
    }
}

/// The endpoint clause, executable.
pub fn parse_service_endpoints(s: &str, pos: usize) -> (r: Option<(usize, Vec<String>)>)
    requires
        pos as int <= s@.len(),
    ensures
        match r {
            Some((j, ids)) => {
                &&& spec_service_endpoints(s@, pos as int) == Some((j as int, strings_view(ids@)))
                &&& j as int <= s@.len()
            },
            None => spec_service_endpoints(s@, pos as int) is None,
        },
{
    let _n = s.unicode_len();
    let a = skip_ws(s, pos);
    if at_lit(s, a, "on") {
        let b = skip_ws(s, a + "on".unicode_len());
        match parse_identifier(s, b) {
            Some((j, id)) => {
                let (k, mut ids) = ident_list_rest(s, j);
                let ghost rest = ids@;
                ids.insert(0, id);
                proof {
                    assert(ids@.subrange(1, ids@.len() as int) =~= rest);
                    assert(strings_view(ids@) =~= seq![ids@[0]@] + strings_view(rest));
                }
                Some((k, ids))
            },
            None => {
                let ids: Vec<String> = Vec::new();
                proof {
                    assert(strings_view(ids@) =~= Seq::<Seq<char>>::empty());
                }
                Some((b, ids))
            },
        }
    } else {
        None
    }
}

/// Zero or more resource functions, executable.
fn functions(s: &str, pos: usize) -> (r: (usize, Vec<FunctionNode>))
    requires
        pos as int <= s@.len(),
    ensures
        spec_functions(s@, pos as int) == ((r.0 as int, functions_view(r.1@))),
        pos <= r.0,
        r.0 as int <= s@.len(),
    decreases s@.len() - pos,
{
    match parse_function(s, pos) {
        Some((j, f1)) => {
            if j > pos {
                let (k, mut fs) = functions(s, j);
                let ghost rest = fs@;
                fs.insert(0, f1);
                proof {
                    assert(fs@.subrange(1, fs@.len() as int) =~= rest);
                }
                (k, fs)
            } else {
                (pos, Vec::new())
            }
        },
        None => (pos, Vec::new()),
    }
}

/// The service-body rule, executable.
pub fn parse_service_body(s: &str, pos: usize) -> (r: Option<(usize, Vec<FunctionNode>)>)
    requires
        pos as int <= s@.len(),
    ensures
        match r {
            Some((j, fs)) => {
                &&& spec_service_body(s@, pos as int) == Some((j as int, functions_view(fs@)))
                &&& j as int <= s@.len()
            },
            None => spec_service_body(s@, pos as int) is None,
        },
{
    let _n = s.unicode_len();
    let a = skip_ws(s, pos);
    if at_char(s, a, '{') {
        let (j, fs) = functions(s, a + 1);
        let b = skip_ws(s, j);
        if at_char(s, b, '}') {
            Some((b + 1, fs))
        } else {
            None
        }
    } else {
        None
    }
}

/// The service rule, executable.
pub fn parse_service(s: &str, pos: usize) -> (r: Option<(usize, ServiceNode)>)
    requires
        pos as int <= s@.len(),
    ensures
        match r {
            Some((j, node)) => {
                &&& spec_service(s@, pos as int) == Some((j as int, crate::ast::service_view(node)))
                &&& j as int <= s@.len()
            },
            None => spec_service(s@, pos as int) is None,
        },
{
    let _n = s.unicode_len();
    let a = skip_ws(s, pos);
    if at_lit(s, a, "service") {
        match parse_identifier(s, skip_ws(s, a + "service".unicode_len())) {
            Some((j, name)) => match parse_service_endpoints(s, j) {
                Some((k, eps)) => match parse_service_body(s, k) {
                    Some((m, fs)) => Some(
                        (m, ServiceNode { name, endpoints: eps, resources: fs }),
                    ),
                    None => None,
                },
                None => None,
            },
            None => None,
        }
    } else {
        None
    }
}

/// The declaration rule, executable.
pub fn parse_declaration(s: &str, pos: usize) -> (r: Option<(usize, AstNode)>)
    requires
        pos as int <= s@.len(),
    ensures
        match r {
            Some((j, node)) => {
                &&& spec_declaration(s@, pos as int) == Some((j as int, ast_view(node)))
                &&& j as int <= s@.len()
            },
            None => spec_declaration(s@, pos as int) is None,
        },
{
    match parse_function(s, pos) {
        Some((j, f1)) => Some((j, AstNode::Function(f1))),
        None => match parse_service(s, pos) {
            Some((j, sv)) => Some((j, AstNode::Service(sv))),
            None => match parse_variable(s, pos) {
                Some((j, v)) => Some((j, AstNode::Variable(v))),
                None => None,
            },
        },
    }
}

/// Zero or more imports, executable.
fn imports(s: &str, pos: usize) -> (r: (usize, Vec<ImportNode>))
    requires
        pos as int <= s@.len(),
    ensures
        spec_imports(s@, pos as int) == ((r.0 as int, imports_view(r.1@))),
        pos <= r.0,
        r.0 as int <= s@.len(),
    decreases s@.len() - pos,
{
    match parse_import(s, pos) {
        Some((j, imp)) => {
            if j > pos {
                let (k, mut imps) = imports(s, j);
                let ghost rest = imps@;
                imps.insert(0, imp);
                proof {
                    assert(imps@.subrange(1, imps@.len() as int) =~= rest);
                    assert(imports_view(imps@) =~= seq![import_view(imps@[0])]
                        + imports_view(rest));
                }
                (k, imps)
            } else {
                (pos, Vec::new())
            }
        },
        None => (pos, Vec::new()),
    }
}

/// Zero or more declarations, executable.
fn declarations(s: &str, pos: usize) -> (r: (usize, Vec<AstNode>))
    requires
        pos as int <= s@.len(),
    ensures
        spec_declarations(s@, pos as int) == ((r.0 as int, asts_view(r.1@))),
        pos <= r.0,
        r.0 as int <= s@.len(),
    decreases s@.len() - pos,
{
    match parse_declaration(s, pos) {
        Some((j, d)) => {
            if j > pos {
                let (k, mut ds) = declarations(s, j);
                let ghost rest = ds@;
                ds.insert(0, d);
                proof {
                    assert(ds@.subrange(1, ds@.len() as int) =~= rest);
                }
                (k, ds)
            } else {
                (pos, Vec::new())
            }
        },
        None => (pos, Vec::new()),
    }
}

/// The module rule, executable.
pub fn parse_module(s: &str, pos: usize) -> (r: (usize, ModuleNode))
    requires
        pos as int <= s@.len(),
    ensures
        spec_module(s@, pos as int) == ((r.0 as int, module_view(r.1))),
        pos <= r.0,
        r.0 as int <= s@.len(),
{
    let (j, imps) = imports(s, pos);
    let (k, ds) = declarations(s, j);
    (k, ModuleNode { imports: imps, declarations: ds })
}

/// The failure a parse reports: the offset, in characters, of the input
/// remainder that could not be matched.
#[derive(Debug, PartialEq, Eq, Structural)]
pub struct ParseFailure {
    pub offset: usize,
}

/// Holds one source string and parses it on demand.
pub struct Parser {
    source: String,
}

impl View for Parser {
    type V = Seq<char>;

    /// The view of a parser is the character sequence of its source text.
    closed spec fn view(&self) -> Seq<char> {
        self.source@
    }
}

impl Parser {
    /// Makes a parser over the given source text.
    pub fn new(source: String) -> (p: Parser)
        ensures
            p@ == source@,
    {
        Parser { source }
    }

    /// Parses the whole source: yields the module exactly when the grammar
    /// matches the entire input up to trailing whitespace, and otherwise the
    /// failure with the offset of the unconsumed remainder — never a partial
    /// module.
    pub fn parse(&self) -> (r: Result<ModuleNode, ParseFailure>)
        ensures
            match r {
                Ok(m) => spec_parse(self@) == Some(module_view(m)),
                Err(e) => {
                    &&& spec_parse(self@) is None
                    &&& e.offset as int == spec_module_end(self@)
                },
            },
            r is Ok <==> spec_parse(self@) is Some,
    {
        let s = self.source.as_str();
        let (k, m) = parse_module(s, 0);
        let e = skip_ws(s, k);
        let n = s.unicode_len();
        if e == n {
            Ok(m)
        } else {
            Err(ParseFailure { offset: e })
        }
    }
}

} // verus!
