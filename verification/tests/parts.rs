use bpaf_derive::model::{
    Attribute, ConstrName, Decor, Fields, Inner, InnerAttr, Name, OuterKind, Parsed, ParseError,
    ReqFlag,
};
use bpaf_derive::model::Outer;
use bpaf_derive::attrs::split_help_and;
use bpaf_derive::text::{help_sections, push_decimal, to_kebab_case, to_snake_case};
use bpaf_derive::source::{ask_syn, expr_in, lookup, render_seq, ExprAnswer};
use bpaf_derive::tokens::{copy_trees, Delimiter, Lit, Spacing, TokenTree};

fn id(s: &str) -> TokenTree {
    TokenTree::Ident(s.to_string())
}

fn p(c: char) -> TokenTree {
    TokenTree::Punct(c, Spacing::Alone)
}

fn s(x: &str) -> TokenTree {
    TokenTree::Literal(Lit::Str(x.to_string()))
}

fn ch(c: char) -> TokenTree {
    TokenTree::Literal(Lit::Char(c))
}

fn paren(v: Vec<TokenTree>) -> TokenTree {
    TokenTree::Group(Delimiter::Parenthesis, v)
}

fn bpaf_attr(args: Vec<TokenTree>) -> Attribute {
    Attribute { path: vec!["bpaf".to_string()], tokens: vec![paren(args)] }
}

fn doc_attr(text: &str) -> Attribute {
    Attribute { path: vec!["doc".to_string()], tokens: vec![p('='), s(text)] }
}

/// What `syn` says of the parenthesized groups in the attributes.
fn answers_for(attrs: &[Attribute]) -> Vec<ExprAnswer> {
    attrs.iter().flat_map(|a| ask_syn(&a.tokens)).collect()
}

fn strings(v: &[&str]) -> Vec<String> {
    v.iter().map(|x| x.to_string()).collect()
}

fn empty_inner() -> Inner {
    Inner {
        command: None,
        help: Vec::new(),
        shorts: Vec::new(),
        longs: Vec::new(),
        envs: Vec::new(),
        is_hidden: false,
        is_default: false,
    }
}

fn variant(name: &str) -> ConstrName {
    ConstrName { namespace: Some("Opts".to_string()), constr: name.to_string() }
}

fn longs_of(f: &ReqFlag) -> Vec<String> {
    f.naming
        .iter()
        .filter_map(|n| match n {
            Name::Long(l) => Some(l.clone()),
            Name::Short(_) => None,
        })
        .collect()
}

fn shorts_of(f: &ReqFlag) -> Vec<char> {
    f.naming
        .iter()
        .filter_map(|n| match n {
            Name::Long(_) => None,
            Name::Short(c) => Some(*c),
        })
        .collect()
}

#[test]
fn snake_case_of_type_names() {
    assert_eq!(to_snake_case("FooBar"), "foo_bar");
    assert_eq!(to_snake_case("Opts"), "opts");
    assert_eq!(to_snake_case("HTTPServer"), "h_t_t_p_server");
    assert_eq!(to_snake_case("already_snake"), "already_snake");
    assert_eq!(to_snake_case("with-dash"), "with_dash");
    assert_eq!(to_snake_case(""), "");
}

#[test]
fn kebab_case_of_variant_names() {
    assert_eq!(to_kebab_case("FastMode"), "fast-mode");
    assert_eq!(to_kebab_case("Llvm"), "llvm");
    assert_eq!(to_kebab_case("under_score"), "under-score");
}

#[test]
fn default_names_have_no_upper_case() {
    for name in ["FooBar", "ABC", "mixedCaseName", "X"] {
        assert!(!to_snake_case(name).chars().any(|c| c.is_ascii_uppercase()));
        assert!(!to_kebab_case(name).chars().any(|c| c.is_ascii_uppercase()));
    }
}

#[test]
fn decimal_numbers() {
    let mut t = "alt".to_string();
    push_decimal(&mut t, 0);
    assert_eq!(t, "alt0");
    let mut u = String::new();
    push_decimal(&mut u, 1207);
    assert_eq!(u, "1207");
    let mut a = String::new();
    let mut b = String::new();
    push_decimal(&mut a, 1);
    push_decimal(&mut b, 10);
    assert_ne!(a, b);
}

#[test]
fn help_sections_split_on_two_blank_lines() {
    let lines = strings(&["a", "b", "", "c", "", "", "d", "", "", "", "", "e"]);
    assert_eq!(help_sections(&lines), strings(&["a\nb\n\nc", "d", "e"]));
    assert_eq!(help_sections(&strings(&["", ""])), Vec::<String>::new());
    assert_eq!(help_sections(&Vec::new()), Vec::<String>::new());
}

#[test]
fn decor_takes_three_sections_and_the_version() {
    let help = strings(&["descr", "", "", "header", "", "", "footer", "", "", "more"]);
    let d = Decor::new(&help, Some(vec![s("1.0")]));
    assert_eq!(d.descr.as_deref(), Some("descr"));
    assert_eq!(d.header.as_deref(), Some("header"));
    assert_eq!(d.footer.as_deref(), Some("footer"));
    assert_eq!(d.version.map(|v| v.len()), Some(1));
    let e = Decor::new(&strings(&["only"]), None);
    assert_eq!(e.descr.as_deref(), Some("only"));
    assert!(e.header.is_none() && e.footer.is_none() && e.version.is_none());
}

#[test]
fn flag_gets_long_name_from_variant() {
    let f = ReqFlag::make2(variant("FastMode"), empty_inner()).unwrap();
    assert_eq!(longs_of(&f), strings(&["fast-mode"]));
    assert!(shorts_of(&f).is_empty());
    assert!(f.help.is_none() && !f.is_hidden && !f.is_default);
}

#[test]
fn flag_gets_short_name_from_one_letter_variant() {
    let f = ReqFlag::make2(variant("V"), empty_inner()).unwrap();
    assert!(longs_of(&f).is_empty());
    assert_eq!(shorts_of(&f), vec!['v']);
}

#[test]
fn flag_keeps_given_names_longs_first() {
    let mut inner = empty_inner();
    inner.shorts = vec!['x', 'y'];
    inner.longs = strings(&["ex"]);
    inner.help = strings(&["first", "second"]);
    inner.is_default = true;
    let f = ReqFlag::make2(variant("Thing"), inner).unwrap();
    assert_eq!(f.naming.len(), 3);
    assert!(matches!(&f.naming[0], Name::Long(l) if l == "ex"));
    assert!(matches!(f.naming[1], Name::Short('x')));
    assert!(matches!(f.naming[2], Name::Short('y')));
    assert_eq!(f.help.as_deref(), Some("first"));
    assert!(f.is_default);
}

#[test]
fn command_variant_takes_its_aliases() {
    let attrs = vec![
        doc_attr("Runs it"),
        bpaf_attr(vec![
            id("short"),
            p(','),
            id("command"),
            p(','),
            id("long"),
            paren(vec![s("go")]),
            p(','),
            id("short"),
            paren(vec![ch('g')]),
        ]),
    ];
    let inner = Inner::make(&"RunIt".to_string(), &attrs, &answers_for(&attrs)).unwrap();
    let cmd = inner.command.unwrap();
    assert_eq!(cmd.name, "run_it");
    assert_eq!(cmd.shorts, vec!['r', 'g']);
    assert_eq!(cmd.longs, strings(&["go"]));
    assert!(inner.shorts.is_empty() && inner.longs.is_empty());
    assert_eq!(inner.help, strings(&["Runs it"]));
}

#[test]
fn variant_keywords_without_command() {
    let attrs = vec![bpaf_attr(vec![
        id("long"),
        p(','),
        id("env"),
        paren(vec![s("VAR")]),
        p(','),
        id("hide"),
        p(','),
        id("default"),
        p(','),
    ])];
    let inner = Inner::make(&"Verbose".to_string(), &attrs, &answers_for(&attrs)).unwrap();
    assert!(inner.command.is_none());
    assert_eq!(inner.longs, strings(&["verbose"]));
    assert_eq!(inner.envs.len(), 1);
    assert!(inner.is_hidden && inner.is_default);
}

#[test]
fn variant_keyword_errors() {
    let bad = vec![bpaf_attr(vec![id("nope")])];
    assert_eq!(Inner::make(&"A".to_string(), &bad, &answers_for(&bad)).unwrap_err(), ParseError::InvalidInnerAttribute);
    let no_comma = vec![bpaf_attr(vec![id("hide"), id("default")])];
    assert_eq!(Inner::make(&"A".to_string(), &no_comma, &answers_for(&no_comma)).unwrap_err(), ParseError::ExpectedComma);
    let not_ident = vec![bpaf_attr(vec![s("x")])];
    assert_eq!(Inner::make(&"A".to_string(), &not_ident, &answers_for(&not_ident)).unwrap_err(), ParseError::ExpectedIdent);
}

#[test]
fn outer_moves_version_into_decoration() {
    let attrs = vec![
        doc_attr("About"),
        bpaf_attr(vec![id("options"), p(','), id("version"), paren(vec![s("2.0")])]),
    ];
    let outer = Outer::make(&"Opts".to_string(), vec![id("pub")], &attrs, &answers_for(&attrs)).unwrap();
    assert!(outer.version.is_none());
    assert_eq!(outer.decor.descr.as_deref(), Some("About"));
    assert!(matches!(&outer.decor.version, Some(v) if v.len() == 1));
    assert!(matches!(outer.kind, Some(OuterKind::Options(None))));
    assert_eq!(outer.vis.len(), 1);
}

#[test]
fn outer_command_takes_aliases_and_private_drops_visibility() {
    let attrs = vec![bpaf_attr(vec![
        id("short"),
        paren(vec![ch('c')]),
        p(','),
        id("command"),
        p(','),
        id("private"),
        p(','),
        id("long"),
        paren(vec![s("cc")]),
    ])];
    let outer = Outer::make(&"MyCmd".to_string(), vec![id("pub")], &attrs, &answers_for(&attrs)).unwrap();
    match outer.kind {
        Some(OuterKind::Command(cmd)) => {
            assert_eq!(cmd.name, "my_cmd");
            assert_eq!(cmd.shorts, vec!['c']);
            assert_eq!(cmd.longs, strings(&["cc"]));
        }
        _ => panic!("not a command"),
    }
    assert!(outer.shorts.is_empty() && outer.longs.is_empty());
    assert!(outer.vis.is_empty());
}

#[test]
fn split_help_and_command_items() {
    let attrs = vec![
        doc_attr("one"),
        bpaf_attr(vec![id("command"), p(','), id("command"), paren(vec![s("x")]), p(',')]),
        Attribute { path: vec!["other".to_string()], tokens: vec![] },
        doc_attr("two"),
    ];
    let (help, items) = split_help_and(&attrs).unwrap();
    assert_eq!(help, strings(&["one", "two"]));
    assert_eq!(items.len(), 2);
    assert!(items[0].0.is_none());
    assert_eq!(items[1].0.as_deref(), Some("x"));
    let bad = vec![bpaf_attr(vec![id("long")])];
    assert_eq!(split_help_and(&bad).unwrap_err(), ParseError::UnexpectedAttribute);
}

#[test]
fn inner_attr_reads_one_command() {
    let c = vec![id("command"), paren(vec![s("name")]), p(',')];
    let (a, j) = InnerAttr::parse(&c, 0).unwrap();
    assert_eq!(a.0.as_deref(), Some("name"));
    assert_eq!(j, 2);
    assert!(InnerAttr::parse(&c, 2).is_err());
}

#[test]
fn fields_and_semicolon() {
    let input = vec![paren(vec![id("u8"), p(','), id("Vec"), p('<'), id("u8"), p('>')])];
    let f = Fields::parse(&input, 0).unwrap();
    match &f {
        Fields::Unnamed(v) => {
            assert_eq!(v.len(), 2);
            assert_eq!(v[1].len(), 4);
        }
        _ => panic!("not unnamed"),
    }
    assert!(f.struct_definition_followed_by_semi());
    let named = Fields::parse(&vec![TokenTree::Group(Delimiter::Brace, vec![])], 0).unwrap();
    assert!(!named.struct_definition_followed_by_semi());
    assert!(!Fields::NoFields.struct_definition_followed_by_semi());
    assert_eq!(Fields::parse(&vec![id("x")], 0).unwrap_err(), ParseError::ExpectedFields);
}

#[test]
fn field_split_ignores_commas_in_angle_brackets() {
    let input = vec![TokenTree::Group(
        Delimiter::Brace,
        vec![
            id("m"),
            p(':'),
            id("HashMap"),
            p('<'),
            id("u8"),
            p(','),
            id("u8"),
            p('>'),
            p(','),
            id("f"),
            p(':'),
            id("fn"),
            paren(vec![]),
            TokenTree::Punct('-', Spacing::Joint),
            p('>'),
            id("u8"),
            p(','),
        ],
    )];
    match Fields::parse(&input, 0).unwrap() {
        Fields::Named(v) => {
            assert_eq!(v.len(), 2);
            assert_eq!(v[0].len(), 8);
            assert_eq!(v[1].len(), 7);
        }
        _ => panic!("not named"),
    }
}

#[test]
fn doc_lines_lose_leading_white_space() {
    let attrs = vec![doc_attr("  \t indented"), doc_attr("\u{3000}wide"), doc_attr("   "), doc_attr("kept  ")];
    let inner = Inner::make(&"A".to_string(), &attrs, &answers_for(&attrs)).unwrap();
    assert_eq!(inner.help, strings(&["indented", "wide", "", "kept  "]));
}

#[test]
fn outer_keeps_fallback_and_adjacent() {
    let attrs = vec![bpaf_attr(vec![
        id("options"),
        p(','),
        id("fallback"),
        paren(vec![id("Opts"), TokenTree::Punct(':', Spacing::Joint), p(':'), id("Dummy")]),
        p(','),
        id("adjacent"),
    ])];
    let outer = Outer::make(&"Opts".to_string(), vec![], &attrs, &answers_for(&attrs)).unwrap();
    assert!(matches!(outer.kind, Some(OuterKind::Options(None))));
    assert_eq!(outer.fallback.map(|v| v.len()), Some(4));
    assert!(outer.adjacent);
}

#[test]
fn outer_read_reports_names_outside_a_command() {
    let attrs = vec![bpaf_attr(vec![id("short"), paren(vec![ch('x')])])];
    assert!(matches!(Outer::read(&"T".to_string(), vec![], &attrs, &answers_for(&attrs)), Parsed::Unimplemented));
}

#[test]
fn tokens_as_source_text() {
    let ts = vec![
        id("f"),
        paren(vec![s("a\"b\\c"), p(','), ch('\''), p(','), TokenTree::Literal(Lit::Other("1u8".to_string()))]),
        TokenTree::Punct(':', Spacing::Joint),
        p(':'),
        id("x"),
    ];
    let mut out = String::new();
    render_seq(&ts, &mut out);
    assert_eq!(out, "f (\"a\\\"b\\\\c\" , '\\'' , 1u8 ) :: x ");
}

#[test]
fn expressions_are_checked() {
    let ok = vec![id("Opts"), TokenTree::Punct(':', Spacing::Joint), p(':'), id("Dummy")];
    let plus = vec![p('+')];
    let call = vec![id("env"), p('!'), paren(vec![s("X")])];
    let answers = ask_syn(&vec![paren(copy_trees(&ok)), paren(copy_trees(&plus)), paren(copy_trees(&call))]);
    assert_eq!(answers.len(), 4);
    assert!(lookup(&answers, &ok) && !lookup(&answers, &plus) && lookup(&answers, &call));
    assert_eq!(expr_in(&ok, &answers).unwrap().len(), 4);
    assert_eq!(expr_in(&plus, &answers).unwrap_err(), ParseError::ExpectedExpr);
    assert_eq!(expr_in(&vec![], &answers).unwrap_err(), ParseError::ExpectedExpr);
    let never_asked = vec![id("y")];
    assert_eq!(expr_in(&never_asked, &answers).unwrap_err(), ParseError::ExpectedExpr);
    assert!(expr_in(&call, &answers).is_ok());
}

#[test]
fn other_attributes_do_not_change_a_variant() {
    let allow = Attribute { path: vec!["allow".to_string()], tokens: vec![paren(vec![id("x")])] };
    let a = vec![doc_attr("help"), allow, bpaf_attr(vec![id("hide")])];
    let b = vec![doc_attr("help"), bpaf_attr(vec![id("hide")])];
    let x = Inner::make(&"Name".to_string(), &a, &answers_for(&a)).unwrap();
    let y = Inner::make(&"Name".to_string(), &b, &answers_for(&b)).unwrap();
    assert_eq!(x.help, y.help);
    assert_eq!(x.is_hidden, y.is_hidden);
    assert!(x.command.is_none() && y.command.is_none());
}
