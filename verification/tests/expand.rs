use bpaf_derive::codegen::expand;
use bpaf_derive::model::{ParseError, Parsed};
use bpaf_derive::tokens::{Code, Delimiter, Lit, Spacing, TokenTree};

fn id(s: &str) -> TokenTree {
    TokenTree::Ident(s.to_string())
}

fn p(c: char) -> TokenTree {
    TokenTree::Punct(c, Spacing::Alone)
}

fn pj(c: char) -> TokenTree {
    TokenTree::Punct(c, Spacing::Joint)
}

fn s(x: &str) -> TokenTree {
    TokenTree::Literal(Lit::Str(x.to_string()))
}

fn ch(c: char) -> TokenTree {
    TokenTree::Literal(Lit::Char(c))
}

fn paren(v: Vec<TokenTree>) -> TokenTree {
    TokenTree::Group(Delimiter::Parenthesis, v)
}

fn brace(v: Vec<TokenTree>) -> TokenTree {
    TokenTree::Group(Delimiter::Brace, v)
}

fn bracket(v: Vec<TokenTree>) -> TokenTree {
    TokenTree::Group(Delimiter::Bracket, v)
}

/// `#[bpaf(args)]`
fn bpaf(args: Vec<TokenTree>) -> Vec<TokenTree> {
    vec![p('#'), bracket(vec![id("bpaf"), paren(args)])]
}

/// `#[doc = "text"]`, what `///text` becomes.
fn doc(text: &str) -> Vec<TokenTree> {
    vec![p('#'), bracket(vec![id("doc"), p('='), s(text)])]
}

fn cat(parts: Vec<Vec<TokenTree>>) -> Vec<TokenTree> {
    parts.into_iter().flatten().collect()
}

fn render_tree(t: &TokenTree) -> (String, bool) {
    match t {
        TokenTree::Ident(x) => (x.clone(), false),
        TokenTree::Punct(c, sp) => (c.to_string(), *sp == Spacing::Joint),
        TokenTree::Literal(Lit::Str(x)) => (format!("{:?}", x), false),
        TokenTree::Literal(Lit::Char(c)) => (format!("{:?}", c), false),
        TokenTree::Literal(Lit::Other(x)) => (x.clone(), false),
        TokenTree::Group(d, xs) => {
            let inner: Vec<(String, bool)> = xs.iter().map(render_tree).collect();
            (wrap(*d, join(inner)), false)
        }
    }
}

fn wrap(d: Delimiter, inner: String) -> String {
    match d {
        Delimiter::Parenthesis => format!("({})", inner),
        Delimiter::Brace => format!("{{{}}}", inner),
        Delimiter::Bracket => format!("[{}]", inner),
        Delimiter::Invisible => inner,
    }
}

fn join(pieces: Vec<(String, bool)>) -> String {
    let mut out = String::new();
    let mut glued = true;
    for (piece, joint) in pieces {
        if !glued {
            out.push(' ');
        }
        out.push_str(&piece);
        glued = joint;
    }
    out
}

fn render_code(c: &Code) -> (String, bool) {
    match c {
        Code::Tt(t) => render_tree(t),
        Code::Group(d, xs) => {
            let inner: Vec<(String, bool)> = xs.iter().map(render_code).collect();
            (wrap(*d, join(inner)), false)
        }
        Code::FieldVar(_, ix) => (format!("<var{}>", ix), false),
        Code::FieldParser(f) => {
            let inner: Vec<(String, bool)> = f.iter().map(render_tree).collect();
            (format!("<field {}>", join(inner)), false)
        }
    }
}

fn render(code: &[Code]) -> String {
    join(code.iter().map(render_code).collect())
}

fn generated(input: Vec<TokenTree>) -> String {
    match expand(&input) {
        Parsed::Done(code) => render(&code),
        Parsed::Failed(e) => panic!("refused: {:?}", e),
        Parsed::Unimplemented => panic!("not implemented"),
    }
}

fn refused(input: Vec<TokenTree>) -> ParseError {
    match expand(&input) {
        Parsed::Failed(e) => e,
        Parsed::Done(code) => panic!("accepted: {}", render(&code)),
        Parsed::Unimplemented => panic!("not implemented"),
    }
}

const PRELUDE: &str = "# [allow (unused_imports)] use :: bpaf :: Parser ;";

#[test]
fn enum_of_flags_with_options() {
    let input = cat(vec![
        bpaf(vec![id("options")]),
        vec![
            id("enum"),
            id("Opts"),
            brace(cat(vec![
                vec![id("Llvm"), p(','), id("Att"), p(',')],
                bpaf(vec![id("hide")]),
                vec![id("Dummy")],
            ])),
        ],
    ]);
    let expected = format!(
        "fn opts () -> :: bpaf :: OptionParser < Opts > {{{} {{let alt0 = :: bpaf :: long (\"llvm\") . req_flag (Opts :: Llvm) ; let alt1 = :: bpaf :: long (\"att\") . req_flag (Opts :: Att) ; let alt2 = :: bpaf :: long (\"dummy\") . req_flag (Opts :: Dummy) . hide () ; :: bpaf :: construct ! ([alt0 , alt1 , alt2])}} . to_options ()}}",
        PRELUDE
    );
    assert_eq!(generated(input), expected);
}

#[test]
fn command_variant_with_named_fields() {
    let field = cat(vec![bpaf(vec![id("long")]), vec![id("oneline"), p(':'), id("bool")]]);
    let input = cat(vec![
        bpaf(vec![id("options")]),
        vec![
            id("enum"),
            id("Cmd"),
            brace(cat(vec![bpaf(vec![id("command")]), vec![id("Log"), brace(field)]])),
        ],
    ]);
    let expected = format!(
        "fn cmd () -> :: bpaf :: OptionParser < Cmd > {{{} {{let inner_cmd = {{let <var0> = <field # [bpaf (long)] oneline : bool> ; :: bpaf :: construct ! (Cmd :: Log {{<var0>}})}} . to_options () ; :: bpaf :: command (\"log\" , inner_cmd)}} . to_options ()}}",
        PRELUDE
    );
    assert_eq!(generated(input), expected);
}

#[test]
fn commands_with_help_and_tuple_fields() {
    let arg = cat(vec![bpaf(vec![id("external"), paren(vec![id("arguments")])]), vec![id("Arguments")]]);
    let input = cat(vec![
        bpaf(vec![id("options")]),
        vec![
            id("enum"),
            id("Commands"),
            brace(cat(vec![
                doc(" Multi"),
                doc("  Line"),
                doc("  Comment"),
                bpaf(vec![id("command")]),
                vec![id("Lines"), brace(vec![]), p(',')],
                bpaf(vec![id("command")]),
                vec![id("Arguments"), paren(arg), p(',')],
            ])),
        ],
    ]);
    let help = format!("{:?}", "Multi\nLine\nComment");
    let expected = format!(
        "fn commands () -> :: bpaf :: OptionParser < Commands > {{{} {{let alt0 = {{let inner_cmd = {{:: bpaf :: construct ! (Commands :: Lines {{}})}} . to_options () . descr ({}) ; :: bpaf :: command (\"lines\" , inner_cmd) . help ({})}} ; let alt1 = {{let inner_cmd = {{let <var0> = <field # [bpaf (external (arguments))] Arguments> ; :: bpaf :: construct ! (Commands :: Arguments (<var0>))}} . to_options () ; :: bpaf :: command (\"arguments\" , inner_cmd)}} ; :: bpaf :: construct ! ([alt0 , alt1])}} . to_options ()}}",
        PRELUDE, help, help
    );
    assert_eq!(generated(input), expected);
}

#[test]
fn plain_struct_gives_plain_parser() {
    let input = vec![
        id("pub"),
        id("struct"),
        id("Opts"),
        brace(vec![id("a"), p(':'), id("bool"), p(','), id("b"), p(':'), id("u8")]),
    ];
    let expected = format!(
        "pub fn opts () -> impl :: bpaf :: Parser < Opts > {{{} {{let <var0> = <field a : bool> ; let <var1> = <field b : u8> ; :: bpaf :: construct ! (Opts {{<var0> , <var1>}})}}}}",
        PRELUDE
    );
    assert_eq!(generated(input), expected);
}

#[test]
fn tuple_struct_with_decoration_and_version() {
    let input = cat(vec![
        doc(" Descr"),
        doc(""),
        doc(""),
        doc(" Header"),
        doc(""),
        doc(""),
        doc(" Footer"),
        bpaf(vec![
            id("options"),
            p(','),
            id("version"),
            p(','),
            id("generate"),
            paren(vec![id("make_it")]),
        ]),
        vec![id("pub"), paren(vec![id("crate")]), id("struct"), id("Opts"), paren(vec![id("u32")]), p(';')],
    ]);
    let expected = format!(
        "pub (crate) fn make_it () -> :: bpaf :: OptionParser < Opts > {{{} {{let <var0> = <field u32> ; :: bpaf :: construct ! (Opts (<var0>))}} . to_options () . descr (\"Descr\") . header (\"Header\") . footer (\"Footer\") . version (env ! (\"CARGO_PKG_VERSION\"))}}",
        PRELUDE
    );
    assert_eq!(generated(input), expected);
}

#[test]
fn struct_as_command_with_aliases() {
    let input = cat(vec![
        bpaf(vec![
            id("command"),
            paren(vec![s("run")]),
            p(','),
            id("short"),
            paren(vec![ch('r')]),
            p(','),
            id("long"),
            paren(vec![s("go")]),
        ]),
        vec![id("struct"), id("Run"), brace(vec![])],
    ]);
    let expected = format!(
        "fn run () -> impl :: bpaf :: Parser < Run > {{{} {{let inner_cmd = {{:: bpaf :: construct ! (Run {{}})}} . to_options () ; :: bpaf :: command (\"run\" , inner_cmd) . short ('r') . long (\"go\")}}}}",
        PRELUDE
    );
    assert_eq!(generated(input), expected);
}

#[test]
fn completion_style_wraps_the_flags() {
    let input = cat(vec![
        bpaf(vec![id("complete_style"), paren(vec![id("Style"), pj(':'), p(':'), id("X")])]),
        vec![
            id("enum"),
            id("E"),
            brace(cat(vec![
                vec![id("A"), p(',')],
                doc(" Use the b"),
                bpaf(vec![
                    id("short"),
                    paren(vec![ch('b')]),
                    p(','),
                    id("env"),
                    paren(vec![s("B")]),
                    p(','),
                    id("default"),
                ]),
                vec![id("Bee")],
            ])),
        ],
    ]);
    let expected = format!(
        "fn e () -> impl :: bpaf :: Parser < E > {{{} {{let alt0 = :: bpaf :: short ('a') . req_flag (E :: A) ; let alt1 = :: bpaf :: short ('b') . env (\"B\") . help (\"Use the b\") . flag (E :: Bee , E :: Bee) ; :: bpaf :: construct ! ([alt0 , alt1])}} . complete_style (Style :: X)}}",
        PRELUDE
    );
    assert_eq!(generated(input), expected);
}

#[test]
fn cargo_helper_around_struct() {
    let input = cat(vec![
        bpaf(vec![id("options"), paren(vec![s("thing")])]),
        vec![id("struct"), id("T"), brace(vec![id("x"), p(':'), id("u8")])],
    ]);
    let expected = format!(
        "fn t () -> :: bpaf :: OptionParser < T > {{{} {{:: bpaf :: cargo_helper (\"thing\" , {{let <var0> = <field x : u8> ; :: bpaf :: construct ! (T {{<var0>}})}})}} . to_options ()}}",
        PRELUDE
    );
    assert_eq!(generated(input), expected);
}

#[test]
fn single_variant_enum_is_its_flag() {
    let input = vec![id("enum"), id("Mode"), brace(vec![id("FastMode")])];
    let expected = format!(
        "fn mode () -> impl :: bpaf :: Parser < Mode > {{{} :: bpaf :: long (\"fast-mode\") . req_flag (Mode :: FastMode)}}",
        PRELUDE
    );
    assert_eq!(generated(input), expected);
}

#[test]
fn many_alternatives_have_distinct_names() {
    let mut variants = Vec::new();
    for i in 0..12 {
        if i > 0 {
            variants.push(p(','));
        }
        variants.push(id(&format!("V{}x", i)));
    }
    let input = vec![id("enum"), id("Many"), brace(variants)];
    let out = generated(input);
    let names: Vec<String> = (0..12).map(|i| format!("alt{}", i)).collect();
    assert!(out.contains(&format!("construct ! ([{}])", names.join(" , "))));
    for i in 0..12 {
        assert_eq!(out.matches(&format!("let alt{} =", i)).count(), 1);
    }
}

#[test]
fn enum_without_variants_is_not_implemented() {
    let input = vec![id("enum"), id("E"), brace(vec![])];
    assert!(matches!(expand(&input), Parsed::Unimplemented));
}

#[test]
fn names_on_a_plain_struct_are_not_implemented() {
    let input = cat(vec![
        bpaf(vec![id("short"), paren(vec![ch('x')])]),
        vec![id("struct"), id("T"), brace(vec![])],
    ]);
    assert!(matches!(expand(&input), Parsed::Unimplemented));
}

#[test]
fn refuses_other_items() {
    assert_eq!(refused(vec![id("fn"), id("f"), paren(vec![]), brace(vec![])]), ParseError::UnsupportedItem);
}

#[test]
fn refuses_missing_name() {
    assert_eq!(refused(vec![id("struct"), brace(vec![])]), ParseError::ExpectedIdent);
}

#[test]
fn refuses_tuple_struct_without_semicolon() {
    assert_eq!(refused(vec![id("struct"), id("T"), paren(vec![id("u8")])]), ParseError::ExpectedSemi);
}

#[test]
fn refuses_trailing_tokens() {
    assert_eq!(refused(vec![id("struct"), id("T"), brace(vec![]), id("x")]), ParseError::UnexpectedToken);
}

#[test]
fn refuses_enum_without_braces() {
    assert_eq!(refused(vec![id("enum"), id("E"), paren(vec![])]), ParseError::ExpectedBraces);
}

#[test]
fn refuses_variants_without_comma() {
    assert_eq!(refused(vec![id("enum"), id("E"), brace(vec![id("A"), id("B")])]), ParseError::ExpectedComma);
}

#[test]
fn refuses_unit_struct() {
    assert_eq!(refused(vec![id("struct"), id("T"), p(';')]), ParseError::ExpectedFields);
}

#[test]
fn refuses_unknown_variant_keyword() {
    let body = cat(vec![bpaf(vec![id("bogus")]), vec![id("A")]]);
    assert_eq!(refused(vec![id("enum"), id("E"), brace(body)]), ParseError::InvalidInnerAttribute);
}

#[test]
fn refuses_unknown_type_keyword() {
    let input = cat(vec![bpaf(vec![id("bogus")]), vec![id("struct"), id("T"), brace(vec![])]]);
    assert_eq!(refused(input), ParseError::UnexpectedAttribute);
}

#[test]
fn refuses_bpaf_attribute_without_arguments() {
    let input = vec![p('#'), bracket(vec![id("bpaf")]), id("struct"), id("T"), brace(vec![])];
    assert_eq!(refused(input), ParseError::ExpectedAttrArgs);
}

#[test]
fn refuses_doc_attribute_of_another_shape() {
    let input = vec![
        p('#'),
        bracket(vec![id("doc"), paren(vec![id("hidden")])]),
        id("struct"),
        id("T"),
        brace(vec![]),
    ];
    assert_eq!(refused(input), ParseError::ExpectedDoc);
}

#[test]
fn refuses_hash_without_brackets() {
    assert_eq!(refused(vec![p('#'), id("struct"), id("T"), brace(vec![])]), ParseError::ExpectedBrackets);
}

#[test]
fn refuses_options_name_that_is_not_a_string() {
    let input = cat(vec![
        bpaf(vec![id("options"), paren(vec![id("x")])]),
        vec![id("struct"), id("T"), brace(vec![])],
    ]);
    assert_eq!(refused(input), ParseError::ExpectedStrLit);
}

#[test]
fn refuses_short_name_that_is_not_a_char() {
    let body = cat(vec![bpaf(vec![id("short"), paren(vec![s("x")])]), vec![id("A")]]);
    assert_eq!(refused(vec![id("enum"), id("E"), brace(body)]), ParseError::ExpectedCharLit);
}

#[test]
fn refuses_empty_completion_style() {
    let input = cat(vec![
        bpaf(vec![id("complete_style"), paren(vec![])]),
        vec![id("struct"), id("T"), brace(vec![])],
    ]);
    assert_eq!(refused(input), ParseError::ExpectedExpr);
}

#[test]
fn refuses_generate_without_name() {
    let input = cat(vec![bpaf(vec![id("generate")]), vec![id("struct"), id("T"), brace(vec![])]]);
    assert_eq!(refused(input), ParseError::ExpectedParens);
}

#[test]
fn refuses_empty_field() {
    assert_eq!(refused(vec![id("struct"), id("T"), brace(vec![p(',')])]), ParseError::ExpectedField);
}

#[test]
fn refuses_type_keywords_without_comma() {
    let input = cat(vec![
        bpaf(vec![id("options"), id("construct")]),
        vec![id("struct"), id("T"), brace(vec![])],
    ]);
    assert_eq!(refused(input), ParseError::ExpectedComma);
}

fn dummy_path() -> Vec<TokenTree> {
    vec![id("Opts"), pj(':'), p(':'), id("Dummy")]
}

fn three_flags() -> TokenTree {
    brace(vec![id("Llvm"), p(','), id("Att"), p(','), id("Dummy")])
}

const THREE_ALTS: &str = "{let alt0 = :: bpaf :: long (\"llvm\") . req_flag (Opts :: Llvm) ; let alt1 = :: bpaf :: long (\"att\") . req_flag (Opts :: Att) ; let alt2 = :: bpaf :: long (\"dummy\") . req_flag (Opts :: Dummy) ; :: bpaf :: construct ! ([alt0 , alt1 , alt2])}";

#[test]
fn fallback_on_a_plain_enum() {
    let input = cat(vec![
        bpaf(vec![id("fallback"), paren(dummy_path())]),
        vec![id("enum"), id("Opts"), three_flags()],
    ]);
    let expected = format!(
        "fn opts () -> impl :: bpaf :: Parser < Opts > {{{} {} . fallback (Opts :: Dummy)}}",
        PRELUDE, THREE_ALTS
    );
    assert_eq!(generated(input), expected);
}

#[test]
fn fallback_with_options() {
    let input = cat(vec![
        bpaf(vec![id("options"), p(','), id("fallback"), paren(dummy_path())]),
        vec![id("enum"), id("Opts"), three_flags()],
    ]);
    let expected = format!(
        "fn opts () -> :: bpaf :: OptionParser < Opts > {{{} {} . fallback (Opts :: Dummy) . to_options ()}}",
        PRELUDE, THREE_ALTS
    );
    assert_eq!(generated(input), expected);
}

#[test]
fn adjacent_struct() {
    let fields = cat(vec![
        bpaf(vec![id("long"), paren(vec![s("setBool")])]),
        vec![id("set_bool"), p(':'), paren(vec![]), p(',')],
        bpaf(vec![id("positional"), paren(vec![s("key")])]),
        vec![id("key"), p(':'), id("String"), p(',')],
        bpaf(vec![id("positional"), paren(vec![s("bool")])]),
        vec![id("value"), p(':'), id("bool"), p(',')],
    ]);
    let input = cat(vec![
        bpaf(vec![id("adjacent")]),
        vec![id("pub"), id("struct"), id("ConfigSetBool"), brace(fields)],
    ]);
    let expected = format!(
        "pub fn config_set_bool () -> impl :: bpaf :: Parser < ConfigSetBool > {{{} {{let <var0> = <field # [bpaf (long (\"setBool\"))] set_bool : ()> ; let <var1> = <field # [bpaf (positional (\"key\"))] key : String> ; let <var2> = <field # [bpaf (positional (\"bool\"))] value : bool> ; :: bpaf :: construct ! (ConfigSetBool {{<var0> , <var1> , <var2>}})}} . adjacent ()}}",
        PRELUDE
    );
    assert_eq!(generated(input), expected);
}

#[test]
fn refuses_empty_fallback() {
    let input = cat(vec![
        bpaf(vec![id("fallback"), paren(vec![])]),
        vec![id("struct"), id("T"), brace(vec![])],
    ]);
    assert_eq!(refused(input), ParseError::ExpectedExpr);
}

#[test]
fn refuses_version_that_is_no_expression() {
    let input = cat(vec![
        bpaf(vec![id("version"), paren(vec![p('+')])]),
        vec![id("struct"), id("T"), brace(vec![])],
    ]);
    assert_eq!(refused(input), ParseError::ExpectedExpr);
}

#[test]
fn refuses_env_with_two_expressions() {
    let body = cat(vec![bpaf(vec![id("env"), paren(vec![s("A"), s("B")])]), vec![id("A")]]);
    assert_eq!(refused(vec![id("enum"), id("E"), brace(body)]), ParseError::ExpectedExpr);
}

#[test]
fn refuses_keyword_as_type_name() {
    assert_eq!(refused(vec![id("struct"), id("fn"), brace(vec![])]), ParseError::ExpectedIdent);
}

#[test]
fn refuses_keyword_as_variant_name() {
    assert_eq!(refused(vec![id("enum"), id("E"), brace(vec![id("Self")])]), ParseError::ExpectedIdent);
}

#[test]
fn refuses_keyword_as_generated_name() {
    let input = cat(vec![
        bpaf(vec![id("generate"), paren(vec![id("fn")])]),
        vec![id("struct"), id("T"), brace(vec![])],
    ]);
    assert_eq!(refused(input), ParseError::ExpectedIdent);
}

#[test]
fn refuses_keyword_in_attribute() {
    let input = cat(vec![bpaf(vec![id("_")]), vec![id("struct"), id("T"), brace(vec![])]]);
    assert_eq!(refused(input), ParseError::ExpectedIdent);
}

#[test]
fn other_attributes_change_nothing() {
    let allow = || vec![p('#'), bracket(vec![id("allow"), paren(vec![id("dead_code")])])];
    let plain = vec![id("enum"), id("E"), brace(vec![id("Abc")])];
    let with_other = cat(vec![
        allow(),
        vec![id("enum"), id("E"), brace(cat(vec![allow(), vec![id("Abc")]]))],
    ]);
    assert_eq!(generated(with_other), generated(plain));
}
