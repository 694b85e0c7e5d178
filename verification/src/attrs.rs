//! What the `doc` and `bpaf` attributes of a type and of its variants say.
use crate::model::{
    inner_attrs_of, opt_text, texts_of, tvss, Attribute, AttributeV, CommandAttr, CommandAttrV,
    Decor, DecorV, Inner, InnerAttr, InnerV, Outcome, Outer, OuterKind, OuterKindV, OuterV, Parsed,
    ParseError,
};
use crate::source::{answers_of, expr_in, expr_of, AnswerV, ExprAnswer};
use crate::syntax::{
    body, group_at, ident_in, ident_of, is_group, is_name, is_punct, is_word, keyword_at,
    lit_char_in, lit_char_of, lit_str_in, lit_str_of, name_at, opt_paren, punct_at, word, word_at,
};
use crate::text::{
    help_sections, lemma_custom_case_len, sections, snake_case, to_snake_case, trim_start, trim_start_text,
};
use crate::tokens::{
    ident, lemma_tv_group, lemma_tvs_push, punct, same_text, text, tvs, Delimiter, Lit, Spacing,
    TokV, TokenTree,
};
use vstd::prelude::*;

verus! {

// ---------------------------------------------------------------- attribute shapes

pub open spec fn is_path(a: AttributeV, x: Seq<char>) -> bool {
    a.path == seq![x]
}

/// A doc attribute's tokens: `= "text"`; the help line is the text without
/// the white space it starts with.
pub open spec fn spec_doc(t: Seq<TokV>) -> Result<Seq<char>, ParseError> {
    if t.len() == 2 && is_punct(t[0], '=') && t[1] is Str {
        Ok(trim_start(t[1]->Str_0))
    } else {
        Err(ParseError::ExpectedDoc)
    }
}

/// A `bpaf` attribute's tokens: its arguments in parentheses.
pub open spec fn spec_args(t: Seq<TokV>) -> Result<Seq<TokV>, ParseError> {
    if t.len() == 1 && is_group(t[0], Delimiter::Parenthesis) {
        Ok(body(t[0]))
    } else {
        Err(ParseError::ExpectedAttrArgs)
    }
}

/// Whether the path of `a` is the single identifier `x`.
pub fn attr_is(a: &Attribute, x: &str) -> (r: bool)
    ensures
        r == is_path(a@, x@),
{
    if a.path.len() == 1 {
        let r = same_text(&a.path[0], x);
        proof {
            if r {
                assert(a@.path =~= seq![x@]);
            } else {
                assert(a@.path[0] == a.path@[0]@);
                assert(seq![x@][0] == x@);
            }
        }
        r
    } else {
        assert(a@.path.len() != seq![x@].len());
        false
    }
}

/// The text of a doc attribute.
pub fn doc_of(a: &Attribute) -> (r: Result<String, ParseError>)
    ensures
        spec_doc(a@.tokens) == (match r {
            Ok(v) => Ok(v@),
            Err(e) => Err::<Seq<char>, ParseError>(e),
        }),
{
    if a.tokens.len() == 2 && punct_at(&a.tokens, 0, '=') {
        match &a.tokens[1] {
            TokenTree::Literal(Lit::Str(v)) => Ok(trim_start_text(v)),
            _ => Err(ParseError::ExpectedDoc),
        }
    } else {
        Err(ParseError::ExpectedDoc)
    }
}

/// The arguments of a `bpaf` attribute.
pub fn args_of(a: &Attribute) -> (r: Result<&Vec<TokenTree>, ParseError>)
    ensures
        spec_args(a@.tokens) == (match r {
            Ok(v) => Ok(tvs(v@)),
            Err(e) => Err::<Seq<TokV>, ParseError>(e),
        }),
{
    if a.tokens.len() == 1 {
        match group_at(&a.tokens, 0, Delimiter::Parenthesis) {
            Some(b) => Ok(b),
            None => Err(ParseError::ExpectedAttrArgs),
        }
    } else {
        Err(ParseError::ExpectedAttrArgs)
    }
}

// ---------------------------------------------------------------- keyword arguments

/// An optional string literal in parentheses at `j`.
pub open spec fn spec_opt_str(c: Seq<TokV>, j: int) -> Result<(Option<Seq<char>>, int), ParseError> {
    match opt_paren(c, j) {
        Some(b) => match lit_str_of(b) {
            Ok(v) => Ok((Some(v), j + 1)),
            Err(e) => Err(e),
        },
        None => Ok((None, j)),
    }
}

/// An optional char literal in parentheses at `j`.
pub open spec fn spec_opt_char(c: Seq<TokV>, j: int) -> Result<(Option<char>, int), ParseError> {
    match opt_paren(c, j) {
        Some(b) => match lit_char_of(b) {
            Ok(v) => Ok((Some(v), j + 1)),
            Err(e) => Err(e),
        },
        None => Ok((None, j)),
    }
}

/// An optional expression in parentheses at `j`.
pub open spec fn spec_opt_expr(c: Seq<TokV>, j: int, ex: Seq<AnswerV>) -> Result<(Option<Seq<TokV>>, int), ParseError> {
    match opt_paren(c, j) {
        Some(b) => match expr_of(b, ex) {
            Ok(v) => Ok((Some(v), j + 1)),
            Err(e) => Err(e),
        },
        None => Ok((None, j)),
    }
}

/// A required argument in parentheses at `j`, read by `f`.
pub open spec fn spec_req<T>(c: Seq<TokV>, j: int, f: spec_fn(Seq<TokV>) -> Result<T, ParseError>) -> Result<T, ParseError> {
    match opt_paren(c, j) {
        Some(b) => f(b),
        None => Err(ParseError::ExpectedParens),
    }
}

fn opt_str(c: &Vec<TokenTree>, j: usize) -> (r: Result<(Option<String>, usize), ParseError>)
    requires
        j <= c@.len(),
    ensures
        spec_opt_str(tvs(c@), j as int) == (match r {
            Ok((o, k)) => Ok((opt_text(o), k as int)),
            Err(e) => Err::<(Option<Seq<char>>, int), ParseError>(e),
        }),
{
    match group_at(c, j, Delimiter::Parenthesis) {
        Some(b) => match lit_str_in(b) {
            Ok(v) => Ok((Some(v), j + 1)),
            Err(e) => Err(e),
        },
        None => Ok((None, j)),
    }
}

fn opt_char(c: &Vec<TokenTree>, j: usize) -> (r: Result<(Option<char>, usize), ParseError>)
    requires
        j <= c@.len(),
    ensures
        spec_opt_char(tvs(c@), j as int) == (match r {
            Ok((o, k)) => Ok((o, k as int)),
            Err(e) => Err::<(Option<char>, int), ParseError>(e),
        }),
{
    match group_at(c, j, Delimiter::Parenthesis) {
        Some(b) => match lit_char_in(b) {
            Ok(v) => Ok((Some(v), j + 1)),
            Err(e) => Err(e),
        },
        None => Ok((None, j)),
    }
}

fn opt_expr(c: &Vec<TokenTree>, j: usize, answers: &Vec<ExprAnswer>) -> (r: Result<(Option<Vec<TokenTree>>, usize), ParseError>)
    requires
        j <= c@.len(),
    ensures
        spec_opt_expr(tvs(c@), j as int, answers_of(answers@)) == (match r {
            Ok((o, k)) => Ok((crate::model::opt_toks(o), k as int)),
            Err(e) => Err::<(Option<Seq<TokV>>, int), ParseError>(e),
        }),
{
    match group_at(c, j, Delimiter::Parenthesis) {
        Some(b) => match expr_in(b, answers) {
            Ok(v) => Ok((Some(v), j + 1)),
            Err(e) => Err(e),
        },
        None => Ok((None, j)),
    }
}

fn req_expr(c: &Vec<TokenTree>, j: usize, answers: &Vec<ExprAnswer>) -> (r: Result<Vec<TokenTree>, ParseError>)
    requires
        j <= c@.len(),
    ensures
        r is Ok ==> j < c.len(),
        spec_req(tvs(c@), j as int, |b: Seq<TokV>| expr_of(b, answers_of(answers@))) == (match r {
            Ok(v) => Ok(tvs(v@)),
            Err(e) => Err::<Seq<TokV>, ParseError>(e),
        }),
{
    match group_at(c, j, Delimiter::Parenthesis) {
        Some(b) => expr_in(b, answers),
        None => Err(ParseError::ExpectedParens),
    }
}

fn req_ident(c: &Vec<TokenTree>, j: usize) -> (r: Result<String, ParseError>)
    requires
        j <= c@.len(),
    ensures
        r is Ok ==> j < c.len(),
        spec_req(tvs(c@), j as int, |b: Seq<TokV>| ident_of(b)) == (match r {
            Ok(v) => Ok(v@),
            Err(e) => Err::<Seq<char>, ParseError>(e),
        }),
{
    match group_at(c, j, Delimiter::Parenthesis) {
        Some(b) => ident_in(b),
        None => Err(ParseError::ExpectedParens),
    }
}

fn req_str(c: &Vec<TokenTree>, j: usize) -> (r: Result<String, ParseError>)
    requires
        j <= c@.len(),
    ensures
        r is Ok ==> j < c.len(),
        spec_req(tvs(c@), j as int, |b: Seq<TokV>| lit_str_of(b)) == (match r {
            Ok(v) => Ok(v@),
            Err(e) => Err::<Seq<char>, ParseError>(e),
        }),
{
    match group_at(c, j, Delimiter::Parenthesis) {
        Some(b) => lit_str_in(b),
        None => Err(ParseError::ExpectedParens),
    }
}

fn req_char(c: &Vec<TokenTree>, j: usize) -> (r: Result<char, ParseError>)
    requires
        j <= c@.len(),
    ensures
        r is Ok ==> j < c.len(),
        spec_req(tvs(c@), j as int, |b: Seq<TokV>| lit_char_of(b)) == r,
{
    match group_at(c, j, Delimiter::Parenthesis) {
        Some(b) => lit_char_in(b),
        None => Err(ParseError::ExpectedParens),
    }
}


// ---------------------------------------------------------------- variants

pub open spec fn empty_inner() -> InnerV {
    InnerV {
        command: None,
        help: seq![],
        shorts: seq![],
        longs: seq![],
        envs: seq![],
        is_hidden: false,
        is_default: false,
    }
}

/// What the keyword `k` of a variant's `bpaf` attribute does, its arguments
/// starting at `j`; gives the new state and the index after the arguments.
/// `ty` is the variant's name, which gives the default names.
pub open spec fn inner_step(c: Seq<TokV>, j: int, k: Seq<char>, st: InnerV, ty: Seq<char>, ex: Seq<AnswerV>) -> Result<
    (InnerV, int),
    ParseError,
> {
    if k == "command"@ {
        match spec_opt_str(c, j) {
            Ok((o, j2)) => Ok(
                (
                    InnerV {
                        command: Some(
                            CommandAttrV {
                                name: match o {
                                    Some(v) => v,
                                    None => snake_case(ty),
                                },
                                shorts: seq![],
                                longs: seq![],
                            },
                        ),
                        ..st
                    },
                    j2,
                ),
            ),
            Err(e) => Err(e),
        }
    } else if k == "short"@ {
        match spec_opt_char(c, j) {
            Ok((o, j2)) => Ok(
                (
                    InnerV {
                        shorts: st.shorts.push(
                            match o {
                                Some(v) => v,
                                None => snake_case(ty)[0],
                            },
                        ),
                        ..st
                    },
                    j2,
                ),
            ),
            Err(e) => Err(e),
        }
    } else if k == "long"@ {
        match spec_opt_str(c, j) {
            Ok((o, j2)) => Ok(
                (
                    InnerV {
                        longs: st.longs.push(
                            match o {
                                Some(v) => v,
                                None => snake_case(ty),
                            },
                        ),
                        ..st
                    },
                    j2,
                ),
            ),
            Err(e) => Err(e),
        }
    } else if k == "env"@ {
        match spec_req(c, j, |b: Seq<TokV>| expr_of(b, ex)) {
            Ok(e) => Ok((InnerV { envs: st.envs.push(e), ..st }, j + 1)),
            Err(e) => Err(e),
        }
    } else if k == "hide"@ {
        Ok((InnerV { is_hidden: true, ..st }, j))
    } else if k == "default"@ {
        Ok((InnerV { is_default: true, ..st }, j))
    } else {
        Err(ParseError::InvalidInnerAttribute)
    }
}

/// The arguments of a variant's `bpaf` attribute from `i` on: keywords with
/// their arguments, separated by commas, with an optional comma at the end.
pub open spec fn spec_inner_args(c: Seq<TokV>, i: int, st: InnerV, ty: Seq<char>, ex: Seq<AnswerV>) -> Result<
    InnerV,
    ParseError,
>
    decreases c.len() - i,
{
    if i < 0 || i >= c.len() {
        Ok(st)
    } else if !is_name(c[i]) {
        Err(ParseError::ExpectedIdent)
    } else {
        match inner_step(c, i + 1, word(c[i]), st, ty, ex) {
            Err(e) => Err(e),
            Ok((st2, j)) => if j <= i || j >= c.len() {
                Ok(st2)
            } else if is_punct(c[j], ',') {
                spec_inner_args(c, j + 1, st2, ty, ex)
            } else {
                Err(ParseError::ExpectedComma)
            },
        }
    }
}

/// The attributes of a variant from `k` on: doc lines add to the help, the
/// `bpaf` attributes are read in order, others are skipped.
pub open spec fn spec_inner_attrs(attrs: Seq<AttributeV>, k: int, st: InnerV, ty: Seq<char>, ex: Seq<AnswerV>) -> Result<
    InnerV,
    ParseError,
>
    decreases attrs.len() - k,
{
    if k < 0 || k >= attrs.len() {
        Ok(st)
    } else {
        let a = attrs[k];
        if is_path(a, "doc"@) {
            match spec_doc(a.tokens) {
                Ok(d) => spec_inner_attrs(attrs, k + 1, InnerV { help: st.help.push(d), ..st }, ty, ex),
                Err(e) => Err(e),
            }
        } else if is_path(a, "bpaf"@) {
            match spec_args(a.tokens) {
                Ok(c) => match spec_inner_args(c, 0, st, ty, ex) {
                    Ok(st2) => spec_inner_attrs(attrs, k + 1, st2, ty, ex),
                    Err(e) => Err(e),
                },
                Err(e) => Err(e),
            }
        } else {
            spec_inner_attrs(attrs, k + 1, st, ty, ex)
        }
    }
}

/// A variant that is a command takes the short and long names given to it
/// as the command's aliases, after those the command already has.
pub open spec fn merge_inner(st: InnerV) -> InnerV {
    match st.command {
        Some(cmd) => InnerV {
            command: Some(
                CommandAttrV {
                    name: cmd.name,
                    shorts: cmd.shorts + st.shorts,
                    longs: cmd.longs + st.longs,
                },
            ),
            shorts: seq![],
            longs: seq![],
            ..st
        },
        None => st,
    }
}

/// What the attributes `attrs` of the variant `ty` say.
pub open spec fn spec_inner_make(ty: Seq<char>, attrs: Seq<AttributeV>, ex: Seq<AnswerV>) -> Result<InnerV, ParseError> {
    match spec_inner_attrs(attrs, 0, empty_inner(), ty, ex) {
        Ok(st) => Ok(merge_inner(st)),
        Err(e) => Err(e),
    }
}

/// The first character of the snake case name of `ty`.
fn first_snake_char(ty: &String) -> (c: char)
    requires
        ty@.len() > 0,
    ensures
        c == snake_case(ty@)[0],
{
    let s = to_snake_case(ty.as_str());
    proof {
        lemma_custom_case_len(ty@, '_');
    }
    s.as_str().get_char(0)
}

impl Inner {
    fn keyword(
        &mut self,
        c: &Vec<TokenTree>,
        j: usize,
        k: &String,
        ty: &String,
        answers: &Vec<ExprAnswer>,
    ) -> (r: Result<usize, ParseError>)
        requires
            j <= c@.len(),
            ty@.len() > 0,
        ensures
            match inner_step(tvs(c@), j as int, k@, old(self)@, ty@, answers_of(answers@)) {
                Ok((st, j2)) => r == Ok::<usize, ParseError>(j2 as usize) && final(self)@ == st && j2 <= c@.len()
                    && j <= j2,
                Err(e) => r == Err::<usize, ParseError>(e),
            },
    {
        let ghost st = self@;
        if same_text(k, "command") {
            match opt_str(c, j) {
                Ok((o, j2)) => {
                    let name = match o {
                        Some(v) => v,
                        None => to_snake_case(ty.as_str()),
                    };
                    let cmd = CommandAttr { name, shorts: Vec::new(), longs: Vec::new() };
                    proof {
                        assert(texts_of(cmd.longs@) =~= seq![]);
                    }
                    self.command = Some(cmd);
                    proof {
                        assert(self@ == InnerV {
                            command: Some(CommandAttrV { name: name@, shorts: seq![], longs: seq![] }),
                            ..st
                        });
                    }
                    Ok(j2)
                },
                Err(e) => Err(e),
            }
        } else if same_text(k, "short") {
            match opt_char(c, j) {
                Ok((o, j2)) => {
                    let v = match o {
                        Some(v) => v,
                        None => first_snake_char(ty),
                    };
                    self.shorts.push(v);
                    Ok(j2)
                },
                Err(e) => Err(e),
            }
        } else if same_text(k, "long") {
            match opt_str(c, j) {
                Ok((o, j2)) => {
                    let v = match o {
                        Some(v) => v,
                        None => to_snake_case(ty.as_str()),
                    };
                    let ghost old_longs = texts_of(self.longs@);
                    self.longs.push(v);
                    proof {
                        assert(texts_of(self.longs@) =~= old_longs.push(v@));
                    }
                    Ok(j2)
                },
                Err(e) => Err(e),
            }
        } else if same_text(k, "env") {
            match req_expr(c, j, answers) {
                Ok(e) => {
                    let ghost old_envs = tvss(self.envs@);
                    self.envs.push(e);
                    proof {
                        assert(tvss(self.envs@) =~= old_envs.push(tvs(e@)));
                    }
                    Ok(j + 1)
                },
                Err(e) => Err(e),
            }
        } else if same_text(k, "hide") {
            self.is_hidden = true;
            Ok(j)
        } else if same_text(k, "default") {
            self.is_default = true;
            Ok(j)
        } else {
            Err(ParseError::InvalidInnerAttribute)
        }
    }

    fn args(&mut self, c: &Vec<TokenTree>, ty: &String, answers: &Vec<ExprAnswer>) -> (r: Result<(), ParseError>)
        requires
            ty@.len() > 0,
        ensures
            spec_inner_args(tvs(c@), 0, old(self)@, ty@, answers_of(answers@)) == (match r {
                Ok(_) => Ok(final(self)@),
                Err(e) => Err::<InnerV, ParseError>(e),
            }),
    {
        let ghost cs = tvs(c@);
        let mut i: usize = 0;
        while i < c.len()
            invariant
                cs == tvs(c@),
                i <= c@.len(),
                ty@.len() > 0,
                spec_inner_args(cs, 0, old(self)@, ty@, answers_of(answers@)) == spec_inner_args(cs, i as int, self@, ty@, answers_of(answers@)),
            decreases c@.len() - i,
        {
            match name_at(c, i) {
                Some(k) => {
                    let j = self.keyword(c, i + 1, k, ty, answers)?;
                    if j >= c.len() {
                        return Ok(());
                    }
                    if punct_at(c, j, ',') {
                        i = j + 1;
                    } else {
                        return Err(ParseError::ExpectedComma);
                    }
                },
                None => {
                    return Err(ParseError::ExpectedIdent);
                },
            }
        }
        Ok(())
    }

    /// Reads the attributes `attrs` of the enum variant `inner_ty`; which
    /// arguments are expressions is decided by `answers`.
    pub fn make(inner_ty: &String, attrs: &Vec<Attribute>, answers: &Vec<ExprAnswer>) -> (r: Result<Self, ParseError>)
        requires
            inner_ty@.len() > 0,
        ensures
            spec_inner_make(inner_ty@, crate::model::attrs_of(attrs@), answers_of(answers@)) == (match r {
                Ok(v) => Ok(v@),
                Err(e) => Err::<InnerV, ParseError>(e),
            }),
    {
        let ghost av = crate::model::attrs_of(attrs@);
        let mut res = Inner {
            command: None,
            help: Vec::new(),
            shorts: Vec::new(),
            longs: Vec::new(),
            envs: Vec::new(),
            is_hidden: false,
            is_default: false,
        };
        proof {
            assert(res@ =~= empty_inner());
        }
        let mut k: usize = 0;
        while k < attrs.len()
            invariant
                av == crate::model::attrs_of(attrs@),
                k <= attrs@.len(),
                inner_ty@.len() > 0,
                spec_inner_attrs(av, 0, empty_inner(), inner_ty@, answers_of(answers@)) == spec_inner_attrs(av, k as int, res@, inner_ty@, answers_of(answers@)),
            decreases attrs@.len() - k,
        {
            let attr = &attrs[k];
            if attr_is(attr, "doc") {
                let d = doc_of(attr)?;
                let ghost old_help = texts_of(res.help@);
                res.help.push(d);
                proof {
                    assert(texts_of(res.help@) =~= old_help.push(d@));
                }
            } else if attr_is(attr, "bpaf") {
                let c = args_of(attr)?;
                res.args(c, inner_ty, answers)?;
            }
            k = k + 1;
        }
        let ghost before = res@;
        match res.command {
            Some(mut cmd) => {
                let ghost cs = cmd@;
                let mut shorts = res.shorts;
                let mut longs = res.longs;
                cmd.shorts.append(&mut shorts);
                cmd.longs.append(&mut longs);
                proof {
                    assert(texts_of(cmd.longs@) =~= cs.longs + before.longs);
                    assert(texts_of(longs@) =~= seq![]);
                }
                let out = Inner {
                    command: Some(cmd),
                    help: res.help,
                    shorts,
                    longs,
                    envs: res.envs,
                    is_hidden: res.is_hidden,
                    is_default: res.is_default,
                };
                proof {
                    assert(out@ =~= merge_inner(before));
                }
                Ok(out)
            },
            None => Ok(res),
        }
    }
}


// ---------------------------------------------------------------- decoration

pub open spec fn nth_section(ss: Seq<Seq<char>>, n: int) -> Option<Seq<char>> {
    if 0 <= n < ss.len() {
        Some(ss[n])
    } else {
        None
    }
}

/// The decoration given by doc lines: the first three sections of the help
/// text are the description, the header and the footer.
pub open spec fn decor_new(help: Seq<Seq<char>>, version: Option<Seq<TokV>>) -> DecorV {
    let ss = sections(help);
    DecorV {
        descr: nth_section(ss, 0),
        header: nth_section(ss, 1),
        footer: nth_section(ss, 2),
        version,
    }
}

fn nth_section_of(ss: &Vec<String>, n: usize) -> (r: Option<String>)
    ensures
        opt_text(r) == nth_section(texts_of(ss@), n as int),
{
    if n < ss.len() {
        Some(ss[n].clone())
    } else {
        None
    }
}

impl Decor {
    /// The decoration given by the doc lines `help` and the version.
    pub fn new(help: &Vec<String>, version: Option<Vec<TokenTree>>) -> (r: Self)
        ensures
            r@ == decor_new(texts_of(help@), crate::model::opt_toks(version)),
    {
        let ss = help_sections(help);
        let descr = nth_section_of(&ss, 0);
        let header = nth_section_of(&ss, 1);
        let footer = nth_section_of(&ss, 2);
        Decor { descr, header, footer, version }
    }
}

// ---------------------------------------------------------------- the type

/// `env!("CARGO_PKG_VERSION")`: the version when `version` has no argument.
pub open spec fn default_version() -> Seq<TokV> {
    seq![
        TokV::Ident("env"@),
        TokV::Punct('!', Spacing::Alone),
        TokV::Group(Delimiter::Parenthesis, seq![TokV::Str("CARGO_PKG_VERSION"@)]),
    ]
}

fn make_default_version() -> (r: Vec<TokenTree>)
    ensures
        tvs(r@) == default_version(),
{
    let mut args: Vec<TokenTree> = Vec::new();
    args.push(TokenTree::Literal(Lit::Str(text("CARGO_PKG_VERSION"))));
    let mut r: Vec<TokenTree> = Vec::new();
    r.push(ident("env"));
    r.push(punct('!', Spacing::Alone));
    proof {
        assert(tvs(args@) =~= seq![TokV::Str("CARGO_PKG_VERSION"@)]);
        lemma_tv_group(Delimiter::Parenthesis, args);
    }
    r.push(TokenTree::Group(Delimiter::Parenthesis, args));
    proof {
        assert(tvs(r@) =~= default_version());
    }
    r
}

pub open spec fn init_outer(vis: Seq<TokV>) -> OuterV {
    OuterV {
        kind: None,
        version: None,
        vis,
        comp_style: None,
        fallback: None,
        adjacent: false,
        generate: None,
        decor: DecorV { descr: None, header: None, footer: None, version: None },
        longs: seq![],
        shorts: seq![],
    }
}

/// What the keyword `k` of the type's `bpaf` attribute does, its arguments
/// starting at `j`; gives the new state and the index after the arguments.
/// `ty` is the type's name, which gives the default command name.
pub open spec fn outer_step(c: Seq<TokV>, j: int, k: Seq<char>, st: OuterV, ty: Seq<char>, ex: Seq<AnswerV>) -> Result<
    (OuterV, int),
    ParseError,
> {
    if k == "generate"@ {
        match spec_req(c, j, |b: Seq<TokV>| ident_of(b)) {
            Ok(v) => Ok((OuterV { generate: Some(v), ..st }, j + 1)),
            Err(e) => Err(e),
        }
    } else if k == "options"@ {
        match spec_opt_str(c, j) {
            Ok((o, j2)) => Ok((OuterV { kind: Some(OuterKindV::Options(o)), ..st }, j2)),
            Err(e) => Err(e),
        }
    } else if k == "complete_style"@ {
        match spec_req(c, j, |b: Seq<TokV>| expr_of(b, ex)) {
            Ok(v) => Ok((OuterV { comp_style: Some(v), ..st }, j + 1)),
            Err(e) => Err(e),
        }
    } else if k == "construct"@ {
        Ok((OuterV { kind: Some(OuterKindV::Construct), ..st }, j))
    } else if k == "version"@ {
        match spec_opt_expr(c, j, ex) {
            Ok((o, j2)) => Ok(
                (
                    OuterV {
                        version: Some(
                            match o {
                                Some(v) => v,
                                None => default_version(),
                            },
                        ),
                        ..st
                    },
                    j2,
                ),
            ),
            Err(e) => Err(e),
        }
    } else if k == "command"@ {
        match spec_opt_str(c, j) {
            Ok((o, j2)) => Ok(
                (
                    OuterV {
                        kind: Some(
                            OuterKindV::Command(
                                CommandAttrV {
                                    name: match o {
                                        Some(v) => v,
                                        None => snake_case(ty),
                                    },
                                    shorts: seq![],
                                    longs: seq![],
                                },
                            ),
                        ),
                        ..st
                    },
                    j2,
                ),
            ),
            Err(e) => Err(e),
        }
    } else if k == "short"@ {
        match spec_req(c, j, |b: Seq<TokV>| lit_char_of(b)) {
            Ok(v) => Ok((OuterV { shorts: st.shorts.push(v), ..st }, j + 1)),
            Err(e) => Err(e),
        }
    } else if k == "long"@ {
        match spec_req(c, j, |b: Seq<TokV>| lit_str_of(b)) {
            Ok(v) => Ok((OuterV { longs: st.longs.push(v), ..st }, j + 1)),
            Err(e) => Err(e),
        }
    } else if k == "private"@ {
        Ok((OuterV { vis: seq![], ..st }, j))
    } else if k == "fallback"@ {
        match spec_req(c, j, |b: Seq<TokV>| expr_of(b, ex)) {
            Ok(v) => Ok((OuterV { fallback: Some(v), ..st }, j + 1)),
            Err(e) => Err(e),
        }
    } else if k == "adjacent"@ {
        Ok((OuterV { adjacent: true, ..st }, j))
    } else {
        Err(ParseError::UnexpectedAttribute)
    }
}

/// The arguments of the type's `bpaf` attribute from `i` on.
pub open spec fn spec_outer_args(c: Seq<TokV>, i: int, st: OuterV, ty: Seq<char>, ex: Seq<AnswerV>) -> Result<
    OuterV,
    ParseError,
>
    decreases c.len() - i,
{
    if i < 0 || i >= c.len() {
        Ok(st)
    } else if !is_name(c[i]) {
        Err(ParseError::ExpectedIdent)
    } else {
        match outer_step(c, i + 1, word(c[i]), st, ty, ex) {
            Err(e) => Err(e),
            Ok((st2, j)) => if j <= i || j >= c.len() {
                Ok(st2)
            } else if is_punct(c[j], ',') {
                spec_outer_args(c, j + 1, st2, ty, ex)
            } else {
                Err(ParseError::ExpectedComma)
            },
        }
    }
}

/// The attributes of the type from `k` on: doc lines go to `help`, the
/// `bpaf` attributes are read in order, others are skipped.
pub open spec fn spec_outer_attrs(
    attrs: Seq<AttributeV>,
    k: int,
    st: OuterV,
    help: Seq<Seq<char>>,
    ty: Seq<char>, ex: Seq<AnswerV>,
) -> Result<(OuterV, Seq<Seq<char>>), ParseError>
    decreases attrs.len() - k,
{
    if k < 0 || k >= attrs.len() {
        Ok((st, help))
    } else {
        let a = attrs[k];
        if is_path(a, "doc"@) {
            match spec_doc(a.tokens) {
                Ok(d) => spec_outer_attrs(attrs, k + 1, st, help.push(d), ty, ex),
                Err(e) => Err(e),
            }
        } else if is_path(a, "bpaf"@) {
            match spec_args(a.tokens) {
                Ok(c) => match spec_outer_args(c, 0, st, ty, ex) {
                    Ok(st2) => spec_outer_attrs(attrs, k + 1, st2, help, ty, ex),
                    Err(e) => Err(e),
                },
                Err(e) => Err(e),
            }
        } else {
            spec_outer_attrs(attrs, k + 1, st, help, ty, ex)
        }
    }
}

/// A type that is a command takes the short and long names given to it as
/// the command's aliases.
pub open spec fn merge_outer(st: OuterV) -> OuterV {
    match st.kind {
        Some(OuterKindV::Command(cmd)) => OuterV {
            kind: Some(
                OuterKindV::Command(
                    CommandAttrV {
                        name: cmd.name,
                        shorts: cmd.shorts + st.shorts,
                        longs: cmd.longs + st.longs,
                    },
                ),
            ),
            shorts: seq![],
            longs: seq![],
            ..st
        },
        _ => st,
    }
}

/// The version moves into the decoration, with the help text.
pub open spec fn finish_outer(st: OuterV, help: Seq<Seq<char>>) -> OuterV {
    OuterV { decor: decor_new(help, st.version), version: None, ..st }
}

/// What the attributes `attrs` of the type `ty` with visibility `vis` say.
/// Short and long names on a type that is not a command are not implemented.
pub open spec fn spec_outer_make(ty: Seq<char>, vis: Seq<TokV>, attrs: Seq<AttributeV>, ex: Seq<AnswerV>) -> Outcome<OuterV> {
    match spec_outer_attrs(attrs, 0, init_outer(vis), seq![], ty, ex) {
        Err(e) => Outcome::Failed(e),
        Ok((st, help)) => if st.kind matches Some(OuterKindV::Command(_)) {
            Outcome::Done(finish_outer(merge_outer(st), help))
        } else if st.shorts.len() > 0 || st.longs.len() > 0 {
            Outcome::Unimplemented
        } else {
            Outcome::Done(finish_outer(st, help))
        },
    }
}

impl Outer {
    fn keyword(
        &mut self,
        c: &Vec<TokenTree>,
        j: usize,
        k: &String,
        ty: &String,
        answers: &Vec<ExprAnswer>,
    ) -> (r: Result<usize, ParseError>)
        requires
            j <= c@.len(),
        ensures
            match outer_step(tvs(c@), j as int, k@, old(self)@, ty@, answers_of(answers@)) {
                Ok((st, j2)) => r == Ok::<usize, ParseError>(j2 as usize) && final(self)@ == st && j2 <= c@.len()
                    && j <= j2,
                Err(e) => r == Err::<usize, ParseError>(e),
            },
    {
        let ghost st = self@;
        if same_text(k, "generate") {
            match req_ident(c, j) {
                Ok(v) => {
                    self.generate = Some(v);
                    Ok(j + 1)
                },
                Err(e) => Err(e),
            }
        } else if same_text(k, "options") {
            match opt_str(c, j) {
                Ok((o, j2)) => {
                    self.kind = Some(OuterKind::Options(o));
                    Ok(j2)
                },
                Err(e) => Err(e),
            }
        } else if same_text(k, "complete_style") {
            match req_expr(c, j, answers) {
                Ok(v) => {
                    self.comp_style = Some(v);
                    Ok(j + 1)
                },
                Err(e) => Err(e),
            }
        } else if same_text(k, "construct") {
            self.kind = Some(OuterKind::Construct);
            Ok(j)
        } else if same_text(k, "version") {
            match opt_expr(c, j, answers) {
                Ok((o, j2)) => {
                    let v = match o {
                        Some(v) => v,
                        None => make_default_version(),
                    };
                    self.version = Some(v);
                    Ok(j2)
                },
                Err(e) => Err(e),
            }
        } else if same_text(k, "command") {
            match opt_str(c, j) {
                Ok((o, j2)) => {
                    let name = match o {
                        Some(v) => v,
                        None => to_snake_case(ty.as_str()),
                    };
                    let cmd = CommandAttr { name, shorts: Vec::new(), longs: Vec::new() };
                    proof {
                        assert(texts_of(cmd.longs@) =~= seq![]);
                    }
                    self.kind = Some(OuterKind::Command(cmd));
                    Ok(j2)
                },
                Err(e) => Err(e),
            }
        } else if same_text(k, "short") {
            match req_char(c, j) {
                Ok(v) => {
                    self.shorts.push(v);
                    Ok(j + 1)
                },
                Err(e) => Err(e),
            }
        } else if same_text(k, "long") {
            match req_str(c, j) {
                Ok(v) => {
                    let ghost old_longs = texts_of(self.longs@);
                    self.longs.push(v);
                    proof {
                        assert(texts_of(self.longs@) =~= old_longs.push(v@));
                    }
                    Ok(j + 1)
                },
                Err(e) => Err(e),
            }
        } else if same_text(k, "private") {
            self.vis = Vec::new();
            proof {
                assert(tvs(self.vis@) =~= seq![]);
            }
            Ok(j)
        } else if same_text(k, "fallback") {
            match req_expr(c, j, answers) {
                Ok(v) => {
                    self.fallback = Some(v);
                    Ok(j + 1)
                },
                Err(e) => Err(e),
            }
        } else if same_text(k, "adjacent") {
            self.adjacent = true;
            Ok(j)
        } else {
            Err(ParseError::UnexpectedAttribute)
        }
    }

    fn args(&mut self, c: &Vec<TokenTree>, ty: &String, answers: &Vec<ExprAnswer>) -> (r: Result<(), ParseError>)
        ensures
            spec_outer_args(tvs(c@), 0, old(self)@, ty@, answers_of(answers@)) == (match r {
                Ok(_) => Ok(final(self)@),
                Err(e) => Err::<OuterV, ParseError>(e),
            }),
    {
        let ghost cs = tvs(c@);
        let mut i: usize = 0;
        while i < c.len()
            invariant
                cs == tvs(c@),
                i <= c@.len(),
                spec_outer_args(cs, 0, old(self)@, ty@, answers_of(answers@)) == spec_outer_args(cs, i as int, self@, ty@, answers_of(answers@)),
            decreases c@.len() - i,
        {
            match name_at(c, i) {
                Some(k) => {
                    let j = self.keyword(c, i + 1, k, ty, answers)?;
                    if j >= c.len() {
                        return Ok(());
                    }
                    if punct_at(c, j, ',') {
                        i = j + 1;
                    } else {
                        return Err(ParseError::ExpectedComma);
                    }
                },
                None => {
                    return Err(ParseError::ExpectedIdent);
                },
            }
        }
        Ok(())
    }

    /// Reads the attributes `attrs` of the type `outer_ty`, declared with the
    /// visibility `vis`; an input on which the derive is not implemented
    /// (`short` or `long` on a type that is not a command) is left out.
    pub fn make(outer_ty: &String, vis: Vec<TokenTree>, attrs: &Vec<Attribute>, answers: &Vec<ExprAnswer>) -> (r: Result<Self, ParseError>)
        requires
            !(spec_outer_make(outer_ty@, tvs(vis@), crate::model::attrs_of(attrs@), answers_of(answers@)) is Unimplemented),
        ensures
            match spec_outer_make(outer_ty@, tvs(vis@), crate::model::attrs_of(attrs@), answers_of(answers@)) {
                Outcome::Done(o) => r matches Ok(x) && x@ == o,
                Outcome::Failed(e) => r == Err::<Outer, ParseError>(e),
                Outcome::Unimplemented => false,
            },
    {
        match Outer::read(outer_ty, vis, attrs, answers) {
            Parsed::Done(o) => Ok(o),
            Parsed::Failed(e) => Err(e),
            Parsed::Unimplemented => Err(ParseError::UnexpectedAttribute),
        }
    }

    /// Reads the attributes `attrs` of the type `outer_ty`, declared with the
    /// visibility `vis`, on every input: where the derive is not implemented
    /// it says so.
    pub fn read(outer_ty: &String, vis: Vec<TokenTree>, attrs: &Vec<Attribute>, answers: &Vec<ExprAnswer>) -> (r: Parsed<Self>)
        ensures
            r@ == spec_outer_make(outer_ty@, tvs(vis@), crate::model::attrs_of(attrs@), answers_of(answers@)),
    {
        let ghost av = crate::model::attrs_of(attrs@);
        let ghost vv = tvs(vis@);
        let mut res = Outer {
            kind: None,
            version: None,
            vis,
            comp_style: None,
            fallback: None,
            adjacent: false,
            generate: None,
            decor: Decor { descr: None, header: None, footer: None, version: None },
            longs: Vec::new(),
            shorts: Vec::new(),
        };
        let mut help: Vec<String> = Vec::new();
        proof {
            assert(res@ =~= init_outer(vv));
            assert(texts_of(help@) =~= seq![]);
        }
        let mut k: usize = 0;
        while k < attrs.len()
            invariant
                av == crate::model::attrs_of(attrs@),
                vv == tvs(vis@),
                k <= attrs@.len(),
                spec_outer_attrs(av, 0, init_outer(vv), seq![], outer_ty@, answers_of(answers@)) == spec_outer_attrs(
                    av,
                    k as int,
                    res@,
                    texts_of(help@),
                    outer_ty@, answers_of(answers@),
                ),
            decreases attrs@.len() - k,
        {
            let attr = &attrs[k];
            if attr_is(attr, "doc") {
                match doc_of(attr) {
                    Ok(d) => {
                        let ghost old_help = texts_of(help@);
                        help.push(d);
                        proof {
                            assert(texts_of(help@) =~= old_help.push(d@));
                        }
                    },
                    Err(e) => {
                        return Parsed::Failed(e);
                    },
                }
            } else if attr_is(attr, "bpaf") {
                match args_of(attr) {
                    Ok(c) => match res.args(c, outer_ty, answers) {
                        Ok(()) => {},
                        Err(e) => {
                            return Parsed::Failed(e);
                        },
                    },
                    Err(e) => {
                        return Parsed::Failed(e);
                    },
                }
            }
            k = k + 1;
        }
        let ghost before = res@;
        let Outer {
            kind,
            version,
            vis,
            comp_style,
            fallback,
            adjacent,
            generate,
            decor: _,
            mut longs,
            mut shorts,
        } = res;
        let kind = match kind {
            Some(OuterKind::Command(mut cmd)) => {
                let ghost cs = cmd@;
                cmd.shorts.append(&mut shorts);
                cmd.longs.append(&mut longs);
                proof {
                    assert(texts_of(cmd.longs@) =~= cs.longs + before.longs);
                    assert(texts_of(longs@) =~= seq![]);
                }
                Some(OuterKind::Command(cmd))
            },
            other => {
                if shorts.len() > 0 || longs.len() > 0 {
                    return Parsed::Unimplemented;
                }
                other
            },
        };
        let decor = Decor::new(&help, version);
        let out = Outer {
            kind,
            version: None,
            vis,
            comp_style,
            fallback,
            adjacent,
            generate,
            decor,
            longs,
            shorts,
        };
        proof {
            if before.kind matches Some(OuterKindV::Command(_)) {
                assert(out@ =~= finish_outer(merge_outer(before), texts_of(help@)));
            } else {
                assert(out@ =~= finish_outer(before, texts_of(help@)));
            }
        }
        Parsed::Done(out)
    }
}

// ---------------------------------------------------------------- `command` items

/// `command` or `command("name")`.
pub open spec fn spec_inner_attr(c: Seq<TokV>, i: int) -> Result<(Option<Seq<char>>, int), ParseError> {
    if 0 <= i < c.len() && c[i] == TokV::Ident("command"@) {
        spec_opt_str(c, i + 1)
    } else {
        Err(ParseError::UnexpectedAttribute)
    }
}

/// `command` items from `i` on, separated by commas, with an optional comma
/// at the end.
pub open spec fn spec_terminated(c: Seq<TokV>, i: int, acc: Seq<Option<Seq<char>>>) -> Result<
    Seq<Option<Seq<char>>>,
    ParseError,
>
    decreases c.len() - i,
{
    if i < 0 || i >= c.len() {
        Ok(acc)
    } else {
        match spec_inner_attr(c, i) {
            Err(e) => Err(e),
            Ok((a, j)) => {
                let acc2 = acc.push(a);
                if j <= i || j >= c.len() {
                    Ok(acc2)
                } else if is_punct(c[j], ',') {
                    spec_terminated(c, j + 1, acc2)
                } else {
                    Err(ParseError::ExpectedComma)
                }
            },
        }
    }
}

/// The doc lines and the `command` items of attributes from `k` on.
pub open spec fn spec_split(
    attrs: Seq<AttributeV>,
    k: int,
    help: Seq<Seq<char>>,
    items: Seq<Option<Seq<char>>>,
) -> Result<(Seq<Seq<char>>, Seq<Option<Seq<char>>>), ParseError>
    decreases attrs.len() - k,
{
    if k < 0 || k >= attrs.len() {
        Ok((help, items))
    } else {
        let a = attrs[k];
        if is_path(a, "doc"@) {
            match spec_doc(a.tokens) {
                Ok(d) => spec_split(attrs, k + 1, help.push(d), items),
                Err(e) => Err(e),
            }
        } else if is_path(a, "bpaf"@) {
            match spec_args(a.tokens) {
                Ok(c) => match spec_terminated(c, 0, seq![]) {
                    Ok(more) => spec_split(attrs, k + 1, help, items + more),
                    Err(e) => Err(e),
                },
                Err(e) => Err(e),
            }
        } else {
            spec_split(attrs, k + 1, help, items)
        }
    }
}

impl InnerAttr {
    /// Reads `command` or `command("name")` at `i` in `c`; gives it and the
    /// index after it.
    pub fn parse(c: &Vec<TokenTree>, i: usize) -> (r: Result<(Self, usize), ParseError>)
        requires
            i <= c@.len(),
        ensures
            spec_inner_attr(tvs(c@), i as int) == (match r {
                Ok((a, j)) => Ok((a@, j as int)),
                Err(e) => Err::<(Option<Seq<char>>, int), ParseError>(e),
            }),
            r matches Ok((a, j)) ==> i < j <= c@.len(),
    {
        if i < c.len() && keyword_at(c, i, "command") {
            match opt_str(c, i + 1) {
                Ok((o, j)) => Ok((InnerAttr(o), j)),
                Err(e) => Err(e),
            }
        } else {
            Err(ParseError::UnexpectedAttribute)
        }
    }
}

fn parse_terminated(c: &Vec<TokenTree>) -> (r: Result<Vec<InnerAttr>, ParseError>)
    ensures
        spec_terminated(tvs(c@), 0, seq![]) == (match r {
            Ok(v) => Ok(inner_attrs_of(v@)),
            Err(e) => Err::<Seq<Option<Seq<char>>>, ParseError>(e),
        }),
{
    let ghost cs = tvs(c@);
    let mut out: Vec<InnerAttr> = Vec::new();
    let mut i: usize = 0;
    proof {
        assert(inner_attrs_of(out@) =~= seq![]);
    }
    while i < c.len()
        invariant
            cs == tvs(c@),
            i <= c@.len(),
            spec_terminated(cs, 0, seq![]) == spec_terminated(cs, i as int, inner_attrs_of(out@)),
        decreases c@.len() - i,
    {
        let (a, j) = InnerAttr::parse(c, i)?;
        let ghost old_out = inner_attrs_of(out@);
        out.push(a);
        proof {
            assert(inner_attrs_of(out@) =~= old_out.push(a@));
        }
        if j >= c.len() {
            return Ok(out);
        }
        if punct_at(c, j, ',') {
            i = j + 1;
        } else {
            return Err(ParseError::ExpectedComma);
        }
    }
    Ok(out)
}

/// The doc lines of `attrs` and the `command` items of their `bpaf`
/// attributes.
pub fn split_help_and(attrs: &Vec<Attribute>) -> (r: Result<(Vec<String>, Vec<InnerAttr>), ParseError>)
    ensures
        spec_split(crate::model::attrs_of(attrs@), 0, seq![], seq![]) == (match r {
            Ok((h, v)) => Ok((texts_of(h@), inner_attrs_of(v@))),
            Err(e) => Err::<(Seq<Seq<char>>, Seq<Option<Seq<char>>>), ParseError>(e),
        }),
{
    let ghost av = crate::model::attrs_of(attrs@);
    let mut help: Vec<String> = Vec::new();
    let mut res: Vec<InnerAttr> = Vec::new();
    proof {
        assert(texts_of(help@) =~= seq![]);
        assert(inner_attrs_of(res@) =~= seq![]);
    }
    let mut k: usize = 0;
    while k < attrs.len()
        invariant
            av == crate::model::attrs_of(attrs@),
            k <= attrs@.len(),
            spec_split(av, 0, seq![], seq![]) == spec_split(
                av,
                k as int,
                texts_of(help@),
                inner_attrs_of(res@),
            ),
        decreases attrs@.len() - k,
    {
        let attr = &attrs[k];
        if attr_is(attr, "doc") {
            let d = doc_of(attr)?;
            let ghost old_help = texts_of(help@);
            help.push(d);
            proof {
                assert(texts_of(help@) =~= old_help.push(d@));
            }
        } else if attr_is(attr, "bpaf") {
            let c = args_of(attr)?;
            let mut more = parse_terminated(c)?;
            let ghost old_res = inner_attrs_of(res@);
            let ghost m = inner_attrs_of(more@);
            res.append(&mut more);
            proof {
                assert(inner_attrs_of(res@) =~= old_res + m);
            }
        }
        k = k + 1;
    }
    Ok((help, res))
}

} // verus!
