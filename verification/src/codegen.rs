//! The generated function: the code that builds the parser for the type,
//! as a mathematical value of the parsed input, and the functions that
//! write it.
use crate::model::{
    bv, lemma_push, opt_text, ov, texts_of, tvss, BParser, BParserV, CommandAttr,
    CommandAttrV, ConstrName, ConstrNameV, Decor, DecorV, Fields, FieldsV, Name, NameV, OParser,
    OParserV, Outcome, Parsed, ParserKind, ParserKindV, ReqFlag, ReqFlagV, Top, TopV,
};
use crate::source::{answers_of, asked, ask_syn, paren_bodies, AnswerV, ExprAnswer};
use crate::top::{parse_top, spec_top};
use crate::text::{decimal, push_decimal};
use crate::tokens::{
    copy_tree, copy_trees, cv, cvs, ident, lemma_cv_group, lemma_cvs_push, str_lit, text, tv, tvs,
    Code, CodeV, Delimiter, Lit, Spacing, TokV, TokenTree,
};
use vstd::prelude::*;

verus! {

// ---------------------------------------------------------------- pieces

pub open spec fn id(s: Seq<char>) -> CodeV {
    CodeV::Tt(TokV::Ident(s))
}

pub open spec fn pa(c: char) -> CodeV {
    CodeV::Tt(TokV::Punct(c, Spacing::Alone))
}

pub open spec fn pj(c: char) -> CodeV {
    CodeV::Tt(TokV::Punct(c, Spacing::Joint))
}

pub open spec fn grp(d: Delimiter, xs: Seq<CodeV>) -> CodeV {
    CodeV::Group(d, xs)
}

pub open spec fn lit_str(s: Seq<char>) -> CodeV {
    CodeV::Tt(TokV::Str(s))
}

pub open spec fn lit_char(c: char) -> CodeV {
    CodeV::Tt(TokV::Char(c))
}

/// `::`
pub open spec fn colons() -> Seq<CodeV> {
    seq![pj(':'), pa(':')]
}

/// `::bpaf::`
pub open spec fn bpaf_path() -> Seq<CodeV> {
    colons() + seq![id("bpaf"@)] + colons()
}

/// `.name(args)`
pub open spec fn method(name: Seq<char>, args: Seq<CodeV>) -> Seq<CodeV> {
    seq![pa('.'), id(name), grp(Delimiter::Parenthesis, args)]
}

/// Tokens of the input, as they are.
pub open spec fn toks_code(ts: Seq<TokV>) -> Seq<CodeV>
    decreases ts.len(),
{
    if ts.len() == 0 {
        seq![]
    } else {
        toks_code(ts.drop_last()).push(CodeV::Tt(ts.last()))
    }
}

fn push(v: &mut Vec<Code>, x: Code)
    ensures
        cvs(final(v)@) == cvs(old(v)@).push(cv(x)),
{
    let ghost before = v@;
    v.push(x);
    proof {
        lemma_cvs_push(before, x);
    }
}

fn extend(v: &mut Vec<Code>, more: Vec<Code>)
    ensures
        cvs(final(v)@) == cvs(old(v)@) + cvs(more@),
{
    let ghost before = v@;
    let mut m = more;
    let ghost mv = m@;
    v.append(&mut m);
    proof {
        assert(cvs(before + mv) =~= cvs(before) + cvs(mv));
    }
}

fn c_ident(s: &str) -> (r: Code)
    ensures
        cv(r) == id(s@),
{
    Code::Tt(ident(s))
}

fn c_punct(c: char, sp: Spacing) -> (r: Code)
    ensures
        cv(r) == CodeV::Tt(TokV::Punct(c, sp)),
{
    Code::Tt(TokenTree::Punct(c, sp))
}

fn c_str(s: &String) -> (r: Code)
    ensures
        cv(r) == lit_str(s@),
{
    Code::Tt(str_lit(s))
}

fn c_char(c: char) -> (r: Code)
    ensures
        cv(r) == lit_char(c),
{
    Code::Tt(TokenTree::Literal(Lit::Char(c)))
}

fn c_group(d: Delimiter, xs: Vec<Code>) -> (r: Code)
    ensures
        cv(r) == grp(d, cvs(xs@)),
{
    proof {
        lemma_cv_group(d, xs);
    }
    Code::Group(d, xs)
}

fn push_colons(v: &mut Vec<Code>)
    ensures
        cvs(final(v)@) == cvs(old(v)@) + colons(),
{
    let ghost before = cvs(v@);
    push(v, c_punct(':', Spacing::Joint));
    push(v, c_punct(':', Spacing::Alone));
    proof {
        assert(cvs(v@) =~= before + colons());
    }
}

fn push_bpaf_path(v: &mut Vec<Code>)
    ensures
        cvs(final(v)@) == cvs(old(v)@) + bpaf_path(),
{
    let ghost before = cvs(v@);
    push_colons(v);
    push(v, c_ident("bpaf"));
    push_colons(v);
    proof {
        assert(cvs(v@) =~= before + bpaf_path());
    }
}

fn push_method(v: &mut Vec<Code>, name: &str, args: Vec<Code>)
    ensures
        cvs(final(v)@) == cvs(old(v)@) + method(name@, cvs(args@)),
{
    let ghost before = cvs(v@);
    let ghost av = cvs(args@);
    push(v, c_punct('.', Spacing::Alone));
    push(v, c_ident(name));
    push(v, c_group(Delimiter::Parenthesis, args));
    proof {
        assert(cvs(v@) =~= before + method(name@, av));
    }
}

/// The input tokens `ts`, copied, as generated code.
fn push_tokens(v: &mut Vec<Code>, ts: &Vec<TokenTree>)
    ensures
        cvs(final(v)@) == cvs(old(v)@) + toks_code(tvs(ts@)),
{
    let ghost before = cvs(v@);
    let ghost tsv = tvs(ts@);
    let mut i: usize = 0;
    proof {
        assert(tsv.subrange(0, 0) =~= seq![]);
        assert(cvs(v@) =~= before + toks_code(tsv.subrange(0, 0)));
    }
    while i < ts.len()
        invariant
            i <= ts@.len(),
            tsv == tvs(ts@),
            cvs(v@) == before + toks_code(tsv.subrange(0, i as int)),
        decreases ts@.len() - i,
    {
        let t = copy_tree(&ts[i]);
        let ghost mid = cvs(v@);
        push(v, Code::Tt(t));
        proof {
            let sub = tsv.subrange(0, i + 1);
            assert(sub.drop_last() =~= tsv.subrange(0, i as int));
            assert(sub.last() == tv(t));
            assert(cvs(v@) =~= before + toks_code(sub));
        }
        i = i + 1;
    }
    proof {
        assert(tsv.subrange(0, ts@.len() as int) =~= tsv);
    }
}

fn tokens_code(ts: &Vec<TokenTree>) -> (r: Vec<Code>)
    ensures
        cvs(r@) == toks_code(tvs(ts@)),
{
    let mut v: Vec<Code> = Vec::new();
    proof {
        assert(cvs(v@) =~= seq![]);
    }
    push_tokens(&mut v, ts);
    proof {
        assert(cvs(v@) =~= toks_code(tvs(ts@)));
    }
    v
}

fn empty_code() -> (r: Vec<Code>)
    ensures
        cvs(r@) == Seq::<CodeV>::empty(),
{
    let v: Vec<Code> = Vec::new();
    proof {
        assert(cvs(v@) =~= seq![]);
    }
    v
}

fn one_code(x: Code) -> (r: Vec<Code>)
    ensures
        cvs(r@) == seq![cv(x)],
{
    let mut v = empty_code();
    push(&mut v, x);
    proof {
        assert(cvs(v@) =~= seq![cv(x)]);
    }
    v
}

// ---------------------------------------------------------------- decoration

/// `.name("text")` for a text that is there and not empty.
pub open spec fn text_method(name: Seq<char>, o: Option<Seq<char>>) -> Seq<CodeV> {
    match o {
        Some(s) => if s.len() > 0 {
            method(name, seq![lit_str(s)])
        } else {
            seq![]
        },
        None => seq![],
    }
}

/// The calls that decorate a parser with options: description, header,
/// footer (each when it is there and not empty) and version.
pub open spec fn decor_code(d: DecorV) -> Seq<CodeV> {
    text_method("descr"@, d.descr) + text_method("header"@, d.header) + text_method("footer"@, d.footer)
        + match d.version {
        Some(v) => method("version"@, toks_code(v)),
        None => seq![],
    }
}

fn push_text_method(v: &mut Vec<Code>, name: &str, o: &Option<String>)
    ensures
        cvs(final(v)@) == cvs(old(v)@) + text_method(name@, opt_text(*o)),
{
    match o {
        Some(s) => {
            if s.unicode_len() > 0 {
                push_method(v, name, one_code(c_str(s)));
            } else {
                proof {
                    assert(cvs(v@) + Seq::<CodeV>::empty() =~= cvs(v@));
                }
            }
        },
        None => {
            proof {
                assert(cvs(v@) + Seq::<CodeV>::empty() =~= cvs(v@));
            }
        },
    }
}

impl Decor {
    /// Writes the calls that decorate a parser with options.
    pub fn to_tokens(&self, tokens: &mut Vec<Code>)
        ensures
            cvs(final(tokens)@) == cvs(old(tokens)@) + decor_code(self@),
    {
        let ghost before = cvs(tokens@);
        push_text_method(tokens, "descr", &self.descr);
        let ghost a = cvs(tokens@);
        push_text_method(tokens, "header", &self.header);
        let ghost b = cvs(tokens@);
        push_text_method(tokens, "footer", &self.footer);
        let ghost c = cvs(tokens@);
        match &self.version {
            Some(ver) => {
                push_method(tokens, "version", tokens_code(ver));
            },
            None => {
                proof {
                    assert(cvs(tokens@) + Seq::<CodeV>::empty() =~= cvs(tokens@));
                }
            },
        }
        proof {
            assert(cvs(tokens@) =~= before + decor_code(self@));
        }
    }
}

// ---------------------------------------------------------------- names

/// `Enum::Variant`, or `Struct`.
pub open spec fn constr_code(c: ConstrNameV) -> Seq<CodeV> {
    match c.namespace {
        Some(ns) => seq![id(ns)] + colons() + seq![id(c.constr)],
        None => seq![id(c.constr)],
    }
}

impl ConstrName {
    /// Writes the constructor's path.
    pub fn to_tokens(&self, tokens: &mut Vec<Code>)
        ensures
            cvs(final(tokens)@) == cvs(old(tokens)@) + constr_code(self@),
    {
        let ghost before = cvs(tokens@);
        match &self.namespace {
            Some(ns) => {
                push(tokens, Code::Tt(TokenTree::Ident(ns.clone())));
                push_colons(tokens);
                push(tokens, Code::Tt(TokenTree::Ident(self.constr.clone())));
            },
            None => {
                push(tokens, Code::Tt(TokenTree::Ident(self.constr.clone())));
            },
        }
        proof {
            assert(cvs(tokens@) =~= before + constr_code(self@));
        }
    }
}

fn constr_tokens(c: &ConstrName) -> (r: Vec<Code>)
    ensures
        cvs(r@) == constr_code(c@),
{
    let mut v = empty_code();
    c.to_tokens(&mut v);
    proof {
        assert(cvs(v@) =~= constr_code(c@));
    }
    v
}

/// `long("name")` or `short('n')`.
pub open spec fn name_code(n: NameV) -> Seq<CodeV> {
    match n {
        NameV::Long(l) => seq![id("long"@), grp(Delimiter::Parenthesis, seq![lit_str(l)])],
        NameV::Short(c) => seq![id("short"@), grp(Delimiter::Parenthesis, seq![lit_char(c)])],
    }
}

impl Name {
    /// Writes the call that names a flag.
    pub fn to_tokens(&self, tokens: &mut Vec<Code>)
        ensures
            cvs(final(tokens)@) == cvs(old(tokens)@) + name_code(self@),
    {
        let ghost before = cvs(tokens@);
        match self {
            Name::Long(l) => {
                push(tokens, c_ident("long"));
                push(tokens, c_group(Delimiter::Parenthesis, one_code(c_str(l))));
            },
            Name::Short(c) => {
                push(tokens, c_ident("short"));
                push(tokens, c_group(Delimiter::Parenthesis, one_code(c_char(*c))));
            },
        }
        proof {
            assert(cvs(tokens@) =~= before + name_code(self@));
        }
    }
}

// ---------------------------------------------------------------- flags

/// The names of a flag: the first after `::bpaf::`, the others after `.`.
pub open spec fn names_code(ns: Seq<NameV>) -> Seq<CodeV>
    decreases ns.len(),
{
    if ns.len() == 0 {
        seq![]
    } else {
        names_code(ns.drop_last()) + (if ns.len() == 1 {
            bpaf_path()
        } else {
            seq![pa('.')]
        }) + name_code(ns.last())
    }
}

/// `.env(..)` for each environment variable.
pub open spec fn envs_code(es: Seq<Seq<TokV>>) -> Seq<CodeV>
    decreases es.len(),
{
    if es.len() == 0 {
        seq![]
    } else {
        envs_code(es.drop_last()) + method("env"@, toks_code(es.last()))
    }
}

/// The help, which only a flag with a name gets.
pub open spec fn flag_help_code(f: ReqFlagV) -> Seq<CodeV> {
    match f.help {
        Some(h) => if f.naming.len() > 0 {
            method("help"@, seq![lit_str(h)])
        } else {
            seq![]
        },
        None => seq![],
    }
}

/// The parser of a flag: its names, environment variables and help, then
/// `.flag(v, v)` for the default variant or `.req_flag(v)` for another, and
/// `.hide()` when it is hidden.
pub open spec fn reqflag_code(f: ReqFlagV) -> Seq<CodeV> {
    names_code(f.naming) + envs_code(f.env) + flag_help_code(f) + (if f.is_default {
        method("flag"@, constr_code(f.value) + seq![pa(',')] + constr_code(f.value))
    } else {
        method("req_flag"@, constr_code(f.value))
    }) + (if f.is_hidden {
        method("hide"@, seq![])
    } else {
        seq![]
    })
}

impl ReqFlag {
    /// Writes the parser of the flag.
    pub fn to_tokens(&self, tokens: &mut Vec<Code>)
        ensures
            cvs(final(tokens)@) == cvs(old(tokens)@) + reqflag_code(self@),
    {
        let ghost before = cvs(tokens@);
        let ghost ns = crate::model::names_of(self.naming@);
        let mut first = true;
        let mut i: usize = 0;
        proof {
            assert(self.naming@.subrange(0, 0) =~= seq![]);
            assert(crate::model::names_of(self.naming@.subrange(0, 0)) =~= seq![]);
            assert(cvs(tokens@) =~= before + names_code(seq![]));
        }
        while i < self.naming.len()
            invariant
                i <= self.naming@.len(),
                first == (i == 0),
                ns == crate::model::names_of(self.naming@),
                cvs(tokens@) == before + names_code(crate::model::names_of(self.naming@.subrange(0, i as int))),
            decreases self.naming@.len() - i,
        {
            let ghost mid = cvs(tokens@);
            if first {
                push_bpaf_path(tokens);
            } else {
                push(tokens, c_punct('.', Spacing::Alone));
            }
            self.naming[i].to_tokens(tokens);
            first = false;
            proof {
                let sub = self.naming@.subrange(0, i + 1);
                let prev = self.naming@.subrange(0, i as int);
                assert(sub.drop_last() =~= prev);
                assert(sub.last() == self.naming@[i as int]);
                lemma_names_len(sub);
                lemma_names_len(prev);
                let nsub = crate::model::names_of(sub);
                assert(nsub == crate::model::names_of(prev).push(self.naming@[i as int]@));
                lemma_push(crate::model::names_of(prev), self.naming@[i as int]@);
                assert(nsub.drop_last() == crate::model::names_of(prev));
                assert(nsub.last() == self.naming@[i as int]@);
                assert(names_code(nsub) == names_code(crate::model::names_of(prev)) + (if nsub.len() == 1 {
                    bpaf_path()
                } else {
                    seq![pa('.')]
                }) + name_code(self.naming@[i as int]@));
                assert(cvs(tokens@) =~= before + names_code(nsub));
            }
            i = i + 1;
        }
        proof {
            assert(self.naming@.subrange(0, self.naming@.len() as int) =~= self.naming@);
        }
        let ghost after_names = cvs(tokens@);
        let mut k: usize = 0;
        proof {
            assert(self@.env.subrange(0, 0) =~= seq![]);
            assert(cvs(tokens@) =~= after_names + envs_code(self@.env.subrange(0, 0)));
        }
        while k < self.env.len()
            invariant
                k <= self.env@.len(),
                cvs(tokens@) == after_names + envs_code(tvss(self.env@).subrange(0, k as int)),
            decreases self.env@.len() - k,
        {
            push_method(tokens, "env", tokens_code(&self.env[k]));
            proof {
                let sub = tvss(self.env@).subrange(0, k + 1);
                assert(sub.drop_last() =~= tvss(self.env@).subrange(0, k as int));
                assert(cvs(tokens@) =~= after_names + envs_code(sub));
            }
            k = k + 1;
        }
        proof {
            assert(tvss(self.env@).subrange(0, self.env@.len() as int) =~= tvss(self.env@));
        }
        let ghost after_envs = cvs(tokens@);
        match &self.help {
            Some(help) => {
                if !first {
                    push_method(tokens, "help", one_code(c_str(help)));
                } else {
                    proof {
                        assert(cvs(tokens@) + Seq::<CodeV>::empty() =~= cvs(tokens@));
                    }
                }
            },
            None => {
                proof {
                    assert(cvs(tokens@) + Seq::<CodeV>::empty() =~= cvs(tokens@));
                }
            },
        }
        proof {
            lemma_names_len(self.naming@);
        }
        let ghost after_help = cvs(tokens@);
        let ghost value_piece = if self.is_default {
            method("flag"@, constr_code(self@.value) + seq![pa(',')] + constr_code(self@.value))
        } else {
            method("req_flag"@, constr_code(self@.value))
        };
        if self.is_default {
            let mut args = constr_tokens(&self.value);
            push(&mut args, c_punct(',', Spacing::Alone));
            let more = constr_tokens(&self.value);
            extend(&mut args, more);
            proof {
                assert(cvs(args@) =~= constr_code(self@.value) + seq![pa(',')] + constr_code(self@.value));
            }
            push_method(tokens, "flag", args);
        } else {
            push_method(tokens, "req_flag", constr_tokens(&self.value));
        }
        let ghost after_value = cvs(tokens@);
        assert(after_value == after_help + value_piece);
        if self.is_hidden {
            push_method(tokens, "hide", empty_code());
        } else {
            proof {
                assert(cvs(tokens@) + Seq::<CodeV>::empty() =~= cvs(tokens@));
            }
        }
        proof {
            let f = self@;
            assert(after_names == before + names_code(f.naming));
            assert(after_envs == after_names + envs_code(f.env));
            assert(after_help == after_envs + flag_help_code(f));
            let hide_piece = if f.is_hidden {
                method("hide"@, seq![])
            } else {
                seq![]
            };
            assert(cvs(tokens@) == after_value + hide_piece);
            assert(cvs(tokens@) =~= before + reqflag_code(self@));
        }
    }
}

/// The names of a list of flag names are as many as the list.
pub proof fn lemma_names_len(v: Seq<Name>)
    ensures
        crate::model::names_of(v).len() == v.len(),
        forall|i: int| 0 <= i < v.len() ==> crate::model::names_of(v)[i] == #[trigger] v[i]@,
    decreases v.len(),
{
    if v.len() > 0 {
        lemma_names_len(v.drop_last());
        lemma_push(crate::model::names_of(v.drop_last()), v.last()@);
        assert forall|i: int| 0 <= i < v.len() implies crate::model::names_of(v)[i] == #[trigger] v[i]@ by {
            if i < v.len() - 1 {
                assert(v.drop_last()[i] == v[i]);
            }
        }
    }
}


// ---------------------------------------------------------------- fields

/// The variables that hold the fields' parsers, separated by commas.
pub open spec fn var_list(fs: Seq<Seq<TokV>>, n: nat) -> Seq<CodeV>
    decreases n,
{
    if n == 0 || n > fs.len() {
        seq![]
    } else {
        var_list(fs, (n - 1) as nat) + (if n > 1 {
            seq![pa(',')]
        } else {
            seq![]
        }) + seq![CodeV::FieldVar(fs[n - 1], (n - 1) as nat)]
    }
}

/// The fields as the constructor takes them: `{ a, b }` or `(a, b)`.
pub open spec fn fields_code(f: FieldsV) -> Seq<CodeV> {
    match f {
        FieldsV::Named(fs) => seq![grp(Delimiter::Brace, var_list(fs, fs.len()))],
        FieldsV::Unnamed(fs) => seq![grp(Delimiter::Parenthesis, var_list(fs, fs.len()))],
        FieldsV::NoFields => seq![],
    }
}

/// `let v = parser;` for the field `f` at `ix`.
pub open spec fn decl(f: Seq<TokV>, ix: nat) -> Seq<CodeV> {
    seq![id("let"@), CodeV::FieldVar(f, ix), pa('='), CodeV::FieldParser(f), pa(';')]
}

pub open spec fn decls_code(fs: Seq<Seq<TokV>>, n: nat) -> Seq<Seq<CodeV>>
    decreases n,
{
    if n == 0 || n > fs.len() {
        seq![]
    } else {
        decls_code(fs, (n - 1) as nat).push(decl(fs[n - 1], (n - 1) as nat))
    }
}

/// The declarations of the fields' parsers, one for each field.
pub open spec fn parser_decls_code(f: FieldsV) -> Seq<Seq<CodeV>> {
    match f {
        FieldsV::Named(fs) => decls_code(fs, fs.len()),
        FieldsV::Unnamed(fs) => decls_code(fs, fs.len()),
        FieldsV::NoFields => seq![],
    }
}

/// Pieces of code one after the other.
pub open spec fn flat(ss: Seq<Seq<CodeV>>) -> Seq<CodeV>
    decreases ss.len(),
{
    if ss.len() == 0 {
        seq![]
    } else {
        flat(ss.drop_last()) + ss.last()
    }
}

pub open spec fn cvss(v: Seq<Vec<Code>>) -> Seq<Seq<CodeV>> {
    Seq::new(v.len(), |i: int| cvs(v[i]@))
}

fn push_var_list(v: &mut Vec<Code>, fs: &Vec<Vec<TokenTree>>)
    ensures
        cvs(final(v)@) == cvs(old(v)@) + var_list(tvss(fs@), fs@.len() as nat),
{
    let ghost before = cvs(v@);
    let ghost fsv = tvss(fs@);
    let mut i: usize = 0;
    proof {
        assert(cvs(v@) =~= before + var_list(fsv, 0));
    }
    while i < fs.len()
        invariant
            i <= fs@.len(),
            fsv == tvss(fs@),
            cvs(v@) == before + var_list(fsv, i as nat),
        decreases fs@.len() - i,
    {
        let ghost mid = cvs(v@);
        if i > 0 {
            push(v, c_punct(',', Spacing::Alone));
        }
        push(v, Code::FieldVar(copy_trees(&fs[i]), i));
        proof {
            assert(cvs(v@) =~= before + var_list(fsv, (i + 1) as nat));
        }
        i = i + 1;
    }
}

impl Fields {
    /// The declarations of the fields' parsers: `let v = parser;` for each
    /// field.
    pub fn parser_decls(&self) -> (r: Vec<Vec<Code>>)
        ensures
            cvss(r@) == parser_decls_code(self@),
    {
        let mut out: Vec<Vec<Code>> = Vec::new();
        match self {
            Fields::Named(fs) | Fields::Unnamed(fs) => {
                let ghost fsv = tvss(fs@);
                let mut i: usize = 0;
                proof {
                    assert(cvss(out@) =~= decls_code(fsv, 0));
                }
                while i < fs.len()
                    invariant
                        i <= fs@.len(),
                        fsv == tvss(fs@),
                        cvss(out@) == decls_code(fsv, i as nat),
                    decreases fs@.len() - i,
                {
                    let mut d = one_code(c_ident("let"));
                    push(&mut d, Code::FieldVar(copy_trees(&fs[i]), i));
                    push(&mut d, c_punct('=', Spacing::Alone));
                    push(&mut d, Code::FieldParser(copy_trees(&fs[i])));
                    push(&mut d, c_punct(';', Spacing::Alone));
                    let ghost dv = cvs(d@);
                    let ghost before = cvss(out@);
                    out.push(d);
                    proof {
                        assert(dv =~= decl(fsv[i as int], i as nat));
                        assert(cvss(out@) =~= before.push(dv));
                    }
                    i = i + 1;
                }
                proof {
                    assert(cvss(out@) =~= parser_decls_code(self@));
                }
                out
            },
            Fields::NoFields => {
                proof {
                    assert(cvss(out@) =~= seq![]);
                }
                out
            },
        }
    }

    /// Writes the fields as the constructor takes them.
    pub fn to_tokens(&self, tokens: &mut Vec<Code>)
        ensures
            cvs(final(tokens)@) == cvs(old(tokens)@) + fields_code(self@),
    {
        let ghost before = cvs(tokens@);
        match self {
            Fields::Named(fs) => {
                let mut names = empty_code();
                push_var_list(&mut names, fs);
                push(tokens, c_group(Delimiter::Brace, names));
            },
            Fields::Unnamed(fs) => {
                let mut names = empty_code();
                push_var_list(&mut names, fs);
                push(tokens, c_group(Delimiter::Parenthesis, names));
            },
            Fields::NoFields => {},
        }
        proof {
            assert(cvs(tokens@) =~= before + fields_code(self@));
        }
    }
}

fn push_flat(v: &mut Vec<Code>, ss: Vec<Vec<Code>>)
    ensures
        cvs(final(v)@) == cvs(old(v)@) + flat(cvss(ss@)),
{
    let ghost before = cvs(v@);
    let ghost ssv = cvss(ss@);
    let mut rest = ss;
    let mut done: Vec<Vec<Code>> = Vec::new();
    let ghost all = ss@;
    let mut i: usize = 0;
    proof {
        assert(ssv.subrange(0, 0) =~= seq![]);
        assert(cvs(v@) =~= before + flat(ssv.subrange(0, 0)));
    }
    let n = rest.len();
    while i < n
        invariant
            n == all.len(),
            i <= n,
            ssv == cvss(all),
            rest@ == all.subrange(i as int, n as int),
            cvs(v@) == before + flat(ssv.subrange(0, i as int)),
        decreases n - i,
    {
        let piece = rest.remove(0);
        let ghost pv = cvs(piece@);
        extend(v, piece);
        proof {
            assert(pv == ssv[i as int]);
            let sub = ssv.subrange(0, i + 1);
            assert(sub.drop_last() =~= ssv.subrange(0, i as int));
            assert(rest@ =~= all.subrange(i + 1, n as int));
            assert(cvs(v@) =~= before + flat(sub));
        }
        i = i + 1;
    }
    proof {
        assert(ssv.subrange(0, n as int) =~= ssv);
    }
}

// ---------------------------------------------------------------- parsers

/// The name of the variable that holds the `i`-th alternative.
pub open spec fn alt_name(i: nat) -> Seq<char> {
    "alt"@ + decimal(i)
}

/// The variables of the first `n` alternatives, separated by commas.
pub open spec fn alt_names(n: nat) -> Seq<CodeV>
    decreases n,
{
    if n == 0 {
        seq![]
    } else {
        alt_names((n - 1) as nat) + (if n > 1 {
            seq![pa(',')]
        } else {
            seq![]
        }) + seq![id(alt_name((n - 1) as nat))]
    }
}

/// `let alt<i> = parser;`
pub open spec fn alt_decl(i: nat, p: Seq<CodeV>) -> Seq<CodeV> {
    seq![id("let"@), id(alt_name(i)), pa('=')] + p + seq![pa(';')]
}

/// `.short('c')` for each short alias of a command.
pub open spec fn short_calls(cs: Seq<char>) -> Seq<CodeV>
    decreases cs.len(),
{
    if cs.len() == 0 {
        seq![]
    } else {
        short_calls(cs.drop_last()) + method("short"@, seq![lit_char(cs.last())])
    }
}

/// `.long("name")` for each long alias of a command.
pub open spec fn long_calls(ls: Seq<Seq<char>>) -> Seq<CodeV>
    decreases ls.len(),
{
    if ls.len() == 0 {
        seq![]
    } else {
        long_calls(ls.drop_last()) + method("long"@, seq![lit_str(ls.last())])
    }
}

/// `{ let inner_cmd = <parser>; ::bpaf::command("name", inner_cmd) .help("descr") .short(..) .long(..) }`
pub open spec fn command_code(c: CommandAttrV, o: OParserV, inner: Seq<CodeV>) -> Seq<CodeV> {
    seq![
        grp(
            Delimiter::Brace,
            seq![id("let"@), id("inner_cmd"@), pa('=')] + inner + seq![pa(';')] + bpaf_path() + seq![
                id("command"@),
                grp(Delimiter::Parenthesis, seq![lit_str(c.name), pa(','), id("inner_cmd"@)]),
            ] + match o.decor.descr {
                Some(msg) => method("help"@, seq![lit_str(msg)]),
                None => seq![],
            } + short_calls(c.shorts) + long_calls(c.longs),
        ),
    ]
}

/// `::bpaf::construct!(args)`
pub open spec fn construct_code(args: Seq<CodeV>) -> Seq<CodeV> {
    bpaf_path() + seq![id("construct"@), pa('!'), grp(Delimiter::Parenthesis, args)]
}

/// The code of a parser.
pub open spec fn bparser_code(b: BParserV) -> Seq<CodeV>
    decreases b,
{
    match b {
        BParserV::Command(c, o) => command_code(c, *o, oparser_code(*o)),
        BParserV::CargoHelper(name, inner) => seq![
            grp(
                Delimiter::Brace,
                bpaf_path() + seq![
                    id("cargo_helper"@),
                    grp(Delimiter::Parenthesis, seq![lit_str(name), pa(',')] + bparser_code(*inner)),
                ],
            ),
        ],
        BParserV::CompStyle(style, inner) => bparser_code(*inner) + method(
            "complete_style"@,
            toks_code(style),
        ),
        BParserV::Fallback(value, inner) => bparser_code(*inner) + method("fallback"@, toks_code(value)),
        BParserV::Adjacent(inner) => bparser_code(*inner) + method("adjacent"@, seq![]),
        BParserV::Constructor(con, f) => match f {
            FieldsV::NoFields => bpaf_path() + seq![
                id("pure"@),
                grp(Delimiter::Parenthesis, constr_code(con)),
            ],
            _ => seq![
                grp(
                    Delimiter::Brace,
                    flat(parser_decls_code(f)) + construct_code(constr_code(con) + fields_code(f)),
                ),
            ],
        },
        BParserV::Singleton(f) => reqflag_code(f),
        BParserV::Fold(xs) => if xs.len() == 1 {
            bparser_code(xs[0])
        } else {
            seq![
                grp(
                    Delimiter::Brace,
                    flat(alt_decls(xs)) + construct_code(
                        seq![grp(Delimiter::Bracket, alt_names(xs.len()))],
                    ),
                ),
            ]
        },
    }
}

/// `let alt<i> = <parser>;` for each alternative.
pub open spec fn alt_decls(xs: Seq<BParserV>) -> Seq<Seq<CodeV>>
    decreases xs,
{
    Seq::new(
        xs.len(),
        |i: int|
            alt_decl(
                i as nat,
                if 0 <= i < xs.len() {
                    bparser_code(xs[i])
                } else {
                    seq![]
                },
            ),
    )
}

/// The code of a parser with options: `<parser>.to_options()` and its
/// decoration.
pub open spec fn oparser_code(o: OParserV) -> Seq<CodeV>
    decreases o,
{
    bparser_code(*o.inner) + method("to_options"@, seq![]) + decor_code(o.decor)
}

fn alt_ident(i: usize) -> (r: Code)
    ensures
        cv(r) == id(alt_name(i as nat)),
{
    let mut s = text("alt");
    push_decimal(&mut s, i);
    Code::Tt(TokenTree::Ident(s))
}

fn push_short_calls(v: &mut Vec<Code>, cs: &Vec<char>)
    ensures
        cvs(final(v)@) == cvs(old(v)@) + short_calls(cs@),
{
    let ghost before = cvs(v@);
    let mut i: usize = 0;
    proof {
        assert(cs@.subrange(0, 0) =~= seq![]);
        assert(cvs(v@) =~= before + short_calls(cs@.subrange(0, 0)));
    }
    while i < cs.len()
        invariant
            i <= cs@.len(),
            cvs(v@) == before + short_calls(cs@.subrange(0, i as int)),
        decreases cs@.len() - i,
    {
        push_method(v, "short", one_code(c_char(cs[i])));
        proof {
            let sub = cs@.subrange(0, i + 1);
            assert(sub.drop_last() =~= cs@.subrange(0, i as int));
            assert(cvs(v@) =~= before + short_calls(sub));
        }
        i = i + 1;
    }
    proof {
        assert(cs@.subrange(0, cs@.len() as int) =~= cs@);
    }
}

fn push_long_calls(v: &mut Vec<Code>, ls: &Vec<String>)
    ensures
        cvs(final(v)@) == cvs(old(v)@) + long_calls(texts_of(ls@)),
{
    let ghost before = cvs(v@);
    let ghost lv = texts_of(ls@);
    let mut i: usize = 0;
    proof {
        assert(lv.subrange(0, 0) =~= seq![]);
        assert(cvs(v@) =~= before + long_calls(lv.subrange(0, 0)));
    }
    while i < ls.len()
        invariant
            i <= ls@.len(),
            lv == texts_of(ls@),
            cvs(v@) == before + long_calls(lv.subrange(0, i as int)),
        decreases ls@.len() - i,
    {
        push_method(v, "long", one_code(c_str(&ls[i])));
        proof {
            let sub = lv.subrange(0, i + 1);
            assert(sub.drop_last() =~= lv.subrange(0, i as int));
            assert(sub.last() == ls@[i as int]@);
            assert(cvs(v@) =~= before + long_calls(sub));
        }
        i = i + 1;
    }
    proof {
        assert(lv.subrange(0, ls@.len() as int) =~= lv);
    }
}

fn push_construct(v: &mut Vec<Code>, args: Vec<Code>)
    ensures
        cvs(final(v)@) == cvs(old(v)@) + construct_code(cvs(args@)),
{
    let ghost before = cvs(v@);
    let ghost av = cvs(args@);
    push_bpaf_path(v);
    push(v, c_ident("construct"));
    push(v, c_punct('!', Spacing::Alone));
    push(v, c_group(Delimiter::Parenthesis, args));
    proof {
        assert(cvs(v@) =~= before + construct_code(av));
    }
}

fn command_tokens(cmd_attr: &CommandAttr, oparser: &Box<OParser>, tokens: &mut Vec<Code>)
    ensures
        cvs(final(tokens)@) == cvs(old(tokens)@) + command_code(
            cmd_attr@,
            ov(**oparser),
            oparser_code(ov(**oparser)),
        ),
    decreases oparser, 2nat,
{
    let ghost before = cvs(tokens@);
    let ghost o = ov(**oparser);
    let mut body = empty_code();
    push(&mut body, c_ident("let"));
    push(&mut body, c_ident("inner_cmd"));
    push(&mut body, c_punct('=', Spacing::Alone));
    let ghost b0 = cvs(body@);
    oparser.to_tokens(&mut body);
    push(&mut body, c_punct(';', Spacing::Alone));
    push_bpaf_path(&mut body);
    push(&mut body, c_ident("command"));
    let mut args = one_code(c_str(&cmd_attr.name));
    push(&mut args, c_punct(',', Spacing::Alone));
    push(&mut args, c_ident("inner_cmd"));
    let ghost av = cvs(args@);
    push(&mut body, c_group(Delimiter::Parenthesis, args));
    let ghost b1 = cvs(body@);
    proof {
        assert(b0 =~= seq![id("let"@), id("inner_cmd"@), pa('=')]);
        assert(av =~= seq![lit_str(cmd_attr@.name), pa(','), id("inner_cmd"@)]);
        assert(b1 =~= b0 + oparser_code(o) + seq![pa(';')] + bpaf_path() + seq![
            id("command"@),
            grp(Delimiter::Parenthesis, av),
        ]);
    }
    match &oparser.decor.descr {
        Some(msg) => {
            push_method(&mut body, "help", one_code(c_str(msg)));
        },
        None => {
            proof {
                assert(cvs(body@) + Seq::<CodeV>::empty() =~= cvs(body@));
            }
        },
    }
    let ghost b2 = cvs(body@);
    proof {
        assert(b2 == b1 + match o.decor.descr {
            Some(msg) => method("help"@, seq![lit_str(msg)]),
            None => seq![],
        });
    }
    push_short_calls(&mut body, &cmd_attr.shorts);
    push_long_calls(&mut body, &cmd_attr.longs);
    let ghost bodyv = cvs(body@);
    push(tokens, c_group(Delimiter::Brace, body));
    proof {
        assert(bodyv =~= seq![id("let"@), id("inner_cmd"@), pa('=')] + oparser_code(o) + seq![pa(';')]
            + bpaf_path() + seq![
            id("command"@),
            grp(Delimiter::Parenthesis, seq![lit_str(cmd_attr@.name), pa(','), id("inner_cmd"@)]),
        ] + match o.decor.descr {
            Some(msg) => method("help"@, seq![lit_str(msg)]),
            None => seq![],
        } + short_calls(cmd_attr@.shorts) + long_calls(cmd_attr@.longs));
        assert(cvs(tokens@) =~= before + command_code(cmd_attr@, o, oparser_code(o)));
    }
}

fn constructor_tokens(con: &ConstrName, fields: &Fields, tokens: &mut Vec<Code>)
    ensures
        cvs(final(tokens)@) == cvs(old(tokens)@) + bparser_code(
            BParserV::Constructor(con@, fields@),
        ),
{
    let ghost before = cvs(tokens@);
    match fields {
        Fields::NoFields => {
            push_bpaf_path(tokens);
            push(tokens, c_ident("pure"));
            push(tokens, c_group(Delimiter::Parenthesis, constr_tokens(con)));
        },
        _ => {
            let mut body = empty_code();
            push_flat(&mut body, fields.parser_decls());
            let mut args = constr_tokens(con);
            fields.to_tokens(&mut args);
            push_construct(&mut body, args);
            push(tokens, c_group(Delimiter::Brace, body));
        },
    }
    proof {
        assert(cvs(tokens@) =~= before + bparser_code(BParserV::Constructor(con@, fields@)));
    }
}

fn alt_names_tokens(n: usize) -> (r: Vec<Code>)
    ensures
        cvs(r@) == alt_names(n as nat),
{
    let mut names = empty_code();
    let mut k: usize = 0;
    while k < n
        invariant
            k <= n,
            cvs(names@) == alt_names(k as nat),
        decreases n - k,
    {
        if k > 0 {
            push(&mut names, c_punct(',', Spacing::Alone));
        }
        push(&mut names, alt_ident(k));
        proof {
            assert(cvs(names@) =~= alt_names((k + 1) as nat));
        }
        k = k + 1;
    }
    names
}

fn fold_tokens(xs: &Vec<BParser>, tokens: &mut Vec<Code>)
    ensures
        cvs(final(tokens)@) == cvs(old(tokens)@) + bparser_code(
            BParserV::Fold(crate::model::bvs(xs@)),
        ),
    decreases xs, 2nat,
{
    let ghost before = cvs(tokens@);
    let ghost xsv = crate::model::bvs(xs@);
    if xs.len() == 1 {
        proof {
            assert(decreases_to!(xs => xs@[0]));
        }
        xs[0].to_tokens(tokens);
    } else {
        let ghost pieces = alt_decls(xsv);
        let mut body = empty_code();
        let mut i: usize = 0;
        proof {
            assert(pieces.subrange(0, 0) =~= seq![]);
            assert(cvs(body@) =~= flat(pieces.subrange(0, 0)));
        }
        while i < xs.len()
            invariant
                i <= xs@.len(),
                xsv == crate::model::bvs(xs@),
                pieces.len() == xsv.len(),
                forall|j: int|
                    0 <= j < xsv.len() ==> #[trigger] pieces[j] == alt_decl(
                        j as nat,
                        bparser_code(xsv[j]),
                    ),
                cvs(body@) == flat(pieces.subrange(0, i as int)),
            decreases xs@.len() - i,
        {
            let ghost mid = cvs(body@);
            push(&mut body, c_ident("let"));
            push(&mut body, alt_ident(i));
            push(&mut body, c_punct('=', Spacing::Alone));
            proof {
                assert(decreases_to!(xs => xs@[i as int]));
            }
            xs[i].to_tokens(&mut body);
            push(&mut body, c_punct(';', Spacing::Alone));
            proof {
                assert(pieces[i as int] == alt_decl(i as nat, bparser_code(xsv[i as int])));
                assert(cvs(body@) =~= mid + pieces[i as int]);
                let sub = pieces.subrange(0, i + 1);
                assert(sub.drop_last() =~= pieces.subrange(0, i as int));
                assert(cvs(body@) =~= flat(sub));
            }
            i = i + 1;
        }
        proof {
            assert(pieces.subrange(0, xs@.len() as int) =~= pieces);
        }
        push_construct(&mut body, one_code(c_group(Delimiter::Bracket, alt_names_tokens(xs.len()))));
        push(tokens, c_group(Delimiter::Brace, body));
        proof {
            assert(cvs(tokens@) =~= before + bparser_code(BParserV::Fold(xsv)));
        }
    }
}

fn cargo_helper_tokens(name: &String, inner: &Box<BParser>, tokens: &mut Vec<Code>)
    ensures
        cvs(final(tokens)@) == cvs(old(tokens)@) + bparser_code(
            BParserV::CargoHelper(name@, Box::new(bv(**inner))),
        ),
    decreases inner, 2nat,
{
    let ghost before = cvs(tokens@);
    let mut body = empty_code();
    push_bpaf_path(&mut body);
    push(&mut body, c_ident("cargo_helper"));
    let mut args = one_code(c_str(name));
    push(&mut args, c_punct(',', Spacing::Alone));
    let ghost a0 = cvs(args@);
    inner.to_tokens(&mut args);
    let ghost av = cvs(args@);
    let ghost b0 = cvs(body@);
    push(&mut body, c_group(Delimiter::Parenthesis, args));
    let ghost bodyv = cvs(body@);
    push(tokens, c_group(Delimiter::Brace, body));
    proof {
        assert(a0 =~= seq![lit_str(name@), pa(',')]);
        assert(av == a0 + bparser_code(bv(**inner)));
        assert(b0 =~= bpaf_path() + seq![id("cargo_helper"@)]);
        assert(bodyv =~= bpaf_path() + seq![
            id("cargo_helper"@),
            grp(Delimiter::Parenthesis, seq![lit_str(name@), pa(',')] + bparser_code(bv(**inner))),
        ]);
        assert(cvs(tokens@) =~= before + bparser_code(BParserV::CargoHelper(name@, Box::new(bv(**inner)))));
    }
}

fn comp_style_tokens(style: &Vec<TokenTree>, inner: &Box<BParser>, tokens: &mut Vec<Code>)
    ensures
        cvs(final(tokens)@) == cvs(old(tokens)@) + bparser_code(
            BParserV::CompStyle(tvs(style@), Box::new(bv(**inner))),
        ),
    decreases inner, 2nat,
{
    let ghost before = cvs(tokens@);
    inner.to_tokens(tokens);
    push_method(tokens, "complete_style", tokens_code(style));
    proof {
        assert(cvs(tokens@) =~= before + bparser_code(BParserV::CompStyle(tvs(style@), Box::new(bv(**inner)))));
    }
}

fn fallback_tokens(value: &Vec<TokenTree>, inner: &Box<BParser>, tokens: &mut Vec<Code>)
    ensures
        cvs(final(tokens)@) == cvs(old(tokens)@) + bparser_code(
            BParserV::Fallback(tvs(value@), Box::new(bv(**inner))),
        ),
    decreases inner, 2nat,
{
    let ghost before = cvs(tokens@);
    inner.to_tokens(tokens);
    push_method(tokens, "fallback", tokens_code(value));
    proof {
        assert(cvs(tokens@) =~= before + bparser_code(BParserV::Fallback(tvs(value@), Box::new(bv(**inner)))));
    }
}

fn adjacent_tokens(inner: &Box<BParser>, tokens: &mut Vec<Code>)
    ensures
        cvs(final(tokens)@) == cvs(old(tokens)@) + bparser_code(BParserV::Adjacent(Box::new(bv(**inner)))),
    decreases inner, 2nat,
{
    let ghost before = cvs(tokens@);
    inner.to_tokens(tokens);
    push_method(tokens, "adjacent", empty_code());
    proof {
        assert(cvs(tokens@) =~= before + bparser_code(BParserV::Adjacent(Box::new(bv(**inner)))));
    }
}

impl BParser {
    /// Writes the code of the parser.
    pub fn to_tokens(&self, tokens: &mut Vec<Code>)
        ensures
            cvs(final(tokens)@) == cvs(old(tokens)@) + bparser_code(self@),
        decreases self, 1nat,
    {
        let ghost before = cvs(tokens@);
        match self {
            BParser::Command(cmd_attr, oparser) => {
                command_tokens(cmd_attr, oparser, tokens);
            },
            BParser::CargoHelper(name, inner) => {
                cargo_helper_tokens(name, inner, tokens);
            },
            BParser::CompStyle(style, inner) => {
                comp_style_tokens(style, inner, tokens);
            },
            BParser::Fallback(value, inner) => {
                fallback_tokens(value, inner, tokens);
            },
            BParser::Adjacent(inner) => {
                adjacent_tokens(inner, tokens);
            },
            BParser::Constructor(con, fields) => {
                constructor_tokens(con, fields, tokens);
            },
            BParser::Singleton(field) => {
                field.to_tokens(tokens);
            },
            BParser::Fold(xs) => {
                proof {
                    crate::model::lemma_bv_fold(*xs);
                }
                fold_tokens(xs, tokens);
            },
        }
    }
}

impl OParser {
    /// Writes the code of the parser with options.
    pub fn to_tokens(&self, tokens: &mut Vec<Code>)
        ensures
            cvs(final(tokens)@) == cvs(old(tokens)@) + oparser_code(self@),
        decreases self, 1nat,
    {
        let ghost before = cvs(tokens@);
        self.inner.to_tokens(tokens);
        push_method(tokens, "to_options", empty_code());
        self.decor.to_tokens(tokens);
        proof {
            assert(cvs(tokens@) =~= before + oparser_code(self@));
        }
    }
}

// ---------------------------------------------------------------- the function

/// The code of the parser that the generated function returns.
pub open spec fn kind_code(k: ParserKindV) -> Seq<CodeV> {
    match k {
        ParserKindV::BParser(b) => bparser_code(b),
        ParserKindV::OParser(o) => oparser_code(o),
    }
}

/// The return type of the generated function: `impl ::bpaf::Parser<T>` or
/// `::bpaf::OptionParser<T>`.
pub open spec fn kind_type(k: ParserKindV, ty: Seq<char>) -> Seq<CodeV> {
    match k {
        ParserKindV::BParser(_) => seq![id("impl"@)] + bpaf_path() + seq![
            id("Parser"@),
            pa('<'),
            id(ty),
            pa('>'),
        ],
        ParserKindV::OParser(_) => bpaf_path() + seq![id("OptionParser"@), pa('<'), id(ty), pa('>')],
    }
}

/// The generated function:
/// `vis fn name() -> type { #[allow(unused_imports)] use ::bpaf::Parser; <parser> }`.
pub open spec fn top_code(t: TopV) -> Seq<CodeV> {
    toks_code(t.vis) + seq![
        id("fn"@),
        id(t.name),
        grp(Delimiter::Parenthesis, seq![]),
        pj('-'),
        pa('>'),
    ] + kind_type(t.kind, t.outer_ty) + seq![
        grp(
            Delimiter::Brace,
            seq![
                pa('#'),
                grp(
                    Delimiter::Bracket,
                    seq![id("allow"@), grp(Delimiter::Parenthesis, seq![id("unused_imports"@)])],
                ),
                id("use"@),
            ] + bpaf_path() + seq![id("Parser"@), pa(';')] + kind_code(t.kind),
        ),
    ]
}

impl ParserKind {
    /// Writes the code of the parser.
    pub fn to_tokens(&self, tokens: &mut Vec<Code>)
        ensures
            cvs(final(tokens)@) == cvs(old(tokens)@) + kind_code(self@),
    {
        match self {
            ParserKind::BParser(bp) => bp.to_tokens(tokens),
            ParserKind::OParser(op) => op.to_tokens(tokens),
        }
    }
}

fn push_kind_type(v: &mut Vec<Code>, k: &ParserKind, ty: &String)
    ensures
        cvs(final(v)@) == cvs(old(v)@) + kind_type(k@, ty@),
{
    let ghost before = cvs(v@);
    match k {
        ParserKind::BParser(_) => {
            push(v, c_ident("impl"));
            push_bpaf_path(v);
            push(v, c_ident("Parser"));
        },
        ParserKind::OParser(_) => {
            push_bpaf_path(v);
            push(v, c_ident("OptionParser"));
        },
    }
    push(v, c_punct('<', Spacing::Alone));
    push(v, Code::Tt(TokenTree::Ident(ty.clone())));
    push(v, c_punct('>', Spacing::Alone));
    proof {
        assert(cvs(v@) =~= before + kind_type(k@, ty@));
    }
}

impl Top {
    /// Writes the generated function.
    pub fn to_tokens(&self, tokens: &mut Vec<Code>)
        ensures
            cvs(final(tokens)@) == cvs(old(tokens)@) + top_code(self@),
    {
        let ghost before = cvs(tokens@);
        push_tokens(tokens, &self.vis);
        push(tokens, c_ident("fn"));
        push(tokens, Code::Tt(TokenTree::Ident(self.name.clone())));
        push(tokens, c_group(Delimiter::Parenthesis, empty_code()));
        push(tokens, c_punct('-', Spacing::Joint));
        push(tokens, c_punct('>', Spacing::Alone));
        let ghost t0 = cvs(tokens@);
        push_kind_type(tokens, &self.kind, &self.outer_ty);
        let ghost t1 = cvs(tokens@);
        let mut body = empty_code();
        push(&mut body, c_punct('#', Spacing::Alone));
        let mut attr = one_code(c_ident("allow"));
        let unused = one_code(c_ident("unused_imports"));
        proof {
            assert(cvs(unused@) =~= seq![id("unused_imports"@)]);
        }
        push(&mut attr, c_group(Delimiter::Parenthesis, unused));
        proof {
            assert(cvs(attr@) =~= seq![id("allow"@), grp(Delimiter::Parenthesis, seq![id("unused_imports"@)])]);
        }
        push(&mut body, c_group(Delimiter::Bracket, attr));
        push(&mut body, c_ident("use"));
        push_bpaf_path(&mut body);
        push(&mut body, c_ident("Parser"));
        push(&mut body, c_punct(';', Spacing::Alone));
        let ghost b0 = cvs(body@);
        self.kind.to_tokens(&mut body);
        let ghost bodyv = cvs(body@);
        push(tokens, c_group(Delimiter::Brace, body));
        proof {
            assert(t0 =~= before + toks_code(tvs(self.vis@)) + seq![
                id("fn"@),
                id(self.name@),
                grp(Delimiter::Parenthesis, seq![]),
                pj('-'),
                pa('>'),
            ]);
            assert(b0 =~= seq![
                pa('#'),
                grp(
                    Delimiter::Bracket,
                    seq![id("allow"@), grp(Delimiter::Parenthesis, seq![id("unused_imports"@)])],
                ),
                id("use"@),
            ] + bpaf_path() + seq![id("Parser"@), pa(';')]);
            assert(cvs(tokens@) =~= before + top_code(self@));
        }
    }
}

/// The whole derive, by the answers `answers` on which token sequences are
/// expressions: reads the input and writes the generated function; an input
/// that is refused gives its error, and one on which the derive is not
/// implemented gives `Unimplemented`.
pub fn expand_with(input: &Vec<TokenTree>, answers: &Vec<ExprAnswer>) -> (r: Parsed<Vec<Code>>)
    ensures
        match spec_top(tvs(input@), answers_of(answers@)) {
            Outcome::Done(t) => r matches Parsed::Done(c) && cvs(c@) == top_code(t),
            Outcome::Failed(e) => r matches Parsed::Failed(e2) && e2 == e,
            Outcome::Unimplemented => r is Unimplemented,
        },
{
    match parse_top(input, answers) {
        Parsed::Done(top) => {
            let mut out = empty_code();
            top.to_tokens(&mut out);
            proof {
                assert(cvs(out@) =~= top_code(top@));
            }
            Parsed::Done(out)
        },
        Parsed::Failed(e) => Parsed::Failed(e),
        Parsed::Unimplemented => Parsed::Unimplemented,
    }
}

/// The whole derive: asks `syn` which parenthesized groups of the input are
/// expressions, then reads the input and writes the generated function by
/// those answers (see `expand_with`). Whatever `syn` answered, the outcome is
/// the one that some answers for exactly those groups give.
pub fn expand(input: &Vec<TokenTree>) -> (r: Parsed<Vec<Code>>)
    ensures
        exists|ex: Seq<AnswerV>|
            #[trigger] asked(ex) == paren_bodies(tvs(input@)) && match spec_top(tvs(input@), ex) {
                Outcome::Done(t) => r matches Parsed::Done(c) && cvs(c@) == top_code(t),
                Outcome::Failed(e) => r matches Parsed::Failed(e2) && e2 == e,
                Outcome::Unimplemented => r is Unimplemented,
            },
{
    let answers = ask_syn(input);
    let r = expand_with(input, &answers);
    proof {
        let ex = answers_of(answers@);
        assert(asked(ex) == paren_bodies(tvs(input@)));
    }
    r
}

} // verus!
