//! Reading the whole derive input: a struct or an enum with its attributes,
//! into the tree of parsers that the generated function builds.
use crate::attrs::{decor_new, spec_inner_make, spec_outer_make};
use crate::source::{answers_of, AnswerV, ExprAnswer};
use crate::model::{
    attrs_of, bv, bvs, lemma_bv_fold, opt_text, texts_of, tvss, AttributeV, BParser, BParserV,
    CommandAttr, ConstrName, ConstrNameV, Decor, Fields, FieldsV, Inner, InnerV, NameV, OParser,
    OParserV, Outcome, Outer, OuterKind, OuterKindV, OuterV, Parsed, ParseError, ParserKind,
    ParserKindV, ReqFlag, ReqFlagV, Top, TopV, Name, Attribute,
};
use crate::syntax::{
    body, group_at, is_group, is_name, is_punct, is_word, keyword_at, name_at, parse_attrs, parse_field_list,
    punct_at, spec_attrs, spec_fields_from, spec_vis_end, vis_end, word, word_at, copy_range,
};
use crate::text::{kebab_case, lemma_custom_case_len, snake_case, to_kebab_case, to_snake_case};
use crate::tokens::{tvs, Delimiter, TokV, TokenTree};
use vstd::prelude::*;

verus! {

// ---------------------------------------------------------------- flags

pub open spec fn long_names(ls: Seq<Seq<char>>) -> Seq<NameV> {
    Seq::new(ls.len(), |i: int| NameV::Long(ls[i]))
}

/// The short name given by the `i`-th character of `cs`.
pub open spec fn short_name_at(cs: Seq<char>, i: int) -> NameV {
    NameV::Short(cs[i])
}

pub open spec fn short_flag_names(cs: Seq<char>) -> Seq<NameV> {
    Seq::new(cs.len(), |i: int| short_name_at(cs, i))
}

pub open spec fn first_help(help: Seq<Seq<char>>) -> Option<Seq<char>> {
    if help.len() > 0 {
        Some(help[0])
    } else {
        None
    }
}

/// The flag that selects the variant `value`: its long names, then its
/// short names; without any, the variant's name in kebab case is the long
/// name if it has two characters or more, and its first character the short
/// name otherwise. The first help line is the flag's help.
pub open spec fn spec_make2(value: ConstrNameV, inner: InnerV) -> ReqFlagV {
    let no_names = inner.longs.len() == 0 && inner.shorts.len() == 0;
    let longs = if no_names && value.constr.len() >= 2 {
        seq![kebab_case(value.constr)]
    } else {
        inner.longs
    };
    let shorts = if no_names && value.constr.len() < 2 {
        seq![kebab_case(value.constr)[0]]
    } else {
        inner.shorts
    };
    ReqFlagV {
        value,
        naming: long_names(longs) + short_flag_names(shorts),
        env: inner.envs,
        help: first_help(inner.help),
        is_hidden: inner.is_hidden,
        is_default: inner.is_default,
    }
}

/// The default long name of a variant.
fn as_long_name(constr: &String) -> (r: String)
    ensures
        r@ == kebab_case(constr@),
{
    to_kebab_case(constr.as_str())
}

/// The default short name of a variant.
fn as_short_name(constr: &String) -> (r: char)
    requires
        constr@.len() > 0,
    ensures
        r == kebab_case(constr@)[0],
{
    let s = to_kebab_case(constr.as_str());
    proof {
        lemma_custom_case_len(constr@, '-');
    }
    s.as_str().get_char(0)
}

fn long_name_list(longs: &Vec<String>) -> (r: Vec<Name>)
    ensures
        crate::model::names_of(r@) == long_names(texts_of(longs@)),
{
    let ghost ls = texts_of(longs@);
    let mut naming: Vec<Name> = Vec::new();
    let mut i: usize = 0;
    proof {
        assert(crate::model::names_of(naming@) =~= seq![]);
        assert(long_names(ls.subrange(0, 0)) =~= seq![]);
    }
    while i < longs.len()
        invariant
            i <= longs@.len(),
            ls == texts_of(longs@),
            crate::model::names_of(naming@) =~= long_names(ls.subrange(0, i as int)),
        decreases longs@.len() - i,
    {
        let l = longs[i].clone();
        let ghost before = crate::model::names_of(naming@);
        let ghost old_naming = naming@;
        naming.push(Name::Long(l));
        proof {
            let a = ls.subrange(0, i as int);
            let b = ls.subrange(0, i + 1);
            assert(a.len() == i);
            assert(b.len() == i + 1);
            assert(b =~= a.push(l@));
            assert(long_names(b) =~= long_names(a).push(NameV::Long(l@)));
            assert(naming@.drop_last() =~= old_naming);
            assert(crate::model::names_of(naming@) =~= before.push(NameV::Long(l@)));
        }
        i = i + 1;
    }
    proof {
        assert(ls.subrange(0, ls.len() as int) =~= ls);
    }
    naming
}

fn short_name_list(shorts: &Vec<char>) -> (r: Vec<Name>)
    ensures
        crate::model::names_of(r@) == short_flag_names(shorts@),
{
    let mut acc: Vec<Name> = Vec::new();
    let mut k: usize = 0;
    proof {
        assert(shorts@.subrange(0, 0) =~= seq![]);
        assert(crate::model::names_of(acc@) =~= seq![]);
    }
    while k < shorts.len()
        invariant
            k <= shorts@.len(),
            crate::model::names_of(acc@) == short_flag_names(shorts@.subrange(0, k as int)),
        decreases shorts@.len() - k,
    {
        let ghost old_acc = acc@;
        let c = shorts[k];
        let n = Name::Short(c);
        acc.push(n);
        proof {
            crate::model::lemma_push(old_acc, n);
            let sub = shorts@.subrange(0, k + 1);
            let prev = shorts@.subrange(0, k as int);
            assert(acc@.drop_last() =~= old_acc);
            assert(crate::model::names_of(acc@) == crate::model::names_of(old_acc).push(n@));
            crate::model::lemma_push(short_flag_names(prev), NameV::Short(c));
            assert(short_flag_names(sub) =~= short_flag_names(prev).push(NameV::Short(c)));
        }
        k = k + 1;
    }
    proof {
        assert(shorts@.subrange(0, shorts@.len() as int) =~= shorts@);
    }
    acc
}

/// The names of two lists one after the other are the names of the one,
/// then those of the other.
proof fn lemma_names_concat(a: Seq<Name>, b: Seq<Name>)
    ensures
        crate::model::names_of(a + b) == crate::model::names_of(a) + crate::model::names_of(b),
    decreases b.len(),
{
    if b.len() == 0 {
        assert(a + b =~= a);
        assert(crate::model::names_of(a) + crate::model::names_of(b) =~= crate::model::names_of(a));
    } else {
        lemma_names_concat(a, b.drop_last());
        assert((a + b).drop_last() =~= a + b.drop_last());
        assert(crate::model::names_of(a) + crate::model::names_of(b) =~= (crate::model::names_of(a)
            + crate::model::names_of(b.drop_last())).push(b.last()@));
    }
}

impl ReqFlag {
    /// The flag that selects the variant `value`, from what the variant's
    /// attributes say (see `spec_make2`).
    pub fn make2(value: ConstrName, inner: Inner) -> (r: Result<Self, ParseError>)
        requires
            value.constr@.len() > 0,
        ensures
            r matches Ok(f) && f@ == spec_make2(value@, inner@) && f@.naming.len() > 0,
    {
        let ghost iv = inner@;
        proof {
            crate::laws::law_flag_has_name(value@, inner@);
        }
        let Inner { command: _, help, mut shorts, mut longs, envs, is_hidden, is_default } = inner;
        if longs.len() == 0 && shorts.len() == 0 {
            if value.constr.unicode_len() >= 2 {
                let l = as_long_name(&value.constr);
                longs.push(l);
                proof {
                    assert(texts_of(longs@) =~= seq![kebab_case(value.constr@)]);
                }
            } else {
                shorts.push(as_short_name(&value.constr));
                proof {
                    assert(shorts@ =~= seq![kebab_case(value.constr@)[0]]);
                }
            }
        }
        let mut naming = long_name_list(&longs);
        let mut more = short_name_list(&shorts);
        let ghost a = naming@;
        let ghost b = more@;
        naming.append(&mut more);
        proof {
            lemma_names_concat(a, b);
        }
        let first = if help.len() > 0 {
            Some(help[0].clone())
        } else {
            None
        };
        let r = ReqFlag { value, naming, env: envs, help: first, is_hidden, is_default };
        proof {
            assert(r@ =~= spec_make2(value@, iv));
        }
        Ok(r)
    }
}

// ---------------------------------------------------------------- decoration

/// The parser `inner` with what the type's attributes add to it, in this
/// order: `adjacent`, then the fallback value, then the completion style.
pub open spec fn spec_wrap(outer: OuterV, inner: BParserV) -> BParserV {
    let a = if outer.adjacent {
        BParserV::Adjacent(Box::new(inner))
    } else {
        inner
    };
    let f = match outer.fallback {
        Some(e) => BParserV::Fallback(e, Box::new(a)),
        None => a,
    };
    match outer.comp_style {
        Some(s) => BParserV::CompStyle(s, Box::new(f)),
        None => f,
    }
}

/// The parser kind given by the type's attributes around the parser `inner`:
/// `adjacent`, a fallback value and a completion style wrap it first (see
/// `spec_wrap`); then a command becomes a command
/// parser around a parser with options, `options` becomes a parser with
/// options (around a cargo helper when it names one), and anything else
/// stays a plain parser.
pub open spec fn spec_decorate(outer: OuterV, inner: BParserV) -> ParserKindV {
    let inner = spec_wrap(outer, inner);
    match outer.kind {
        Some(OuterKindV::Options(m)) => ParserKindV::OParser(
            OParserV {
                inner: Box::new(
                    match m {
                        Some(c) => BParserV::CargoHelper(c, Box::new(inner)),
                        None => inner,
                    },
                ),
                decor: outer.decor,
            },
        ),
        Some(OuterKindV::Command(cmd)) => ParserKindV::BParser(
            BParserV::Command(cmd, Box::new(OParserV { inner: Box::new(inner), decor: outer.decor })),
        ),
        _ => ParserKindV::BParser(inner),
    }
}

/// The parser kind given by the type's attributes `outer` around `inner`.
pub fn decorate_with_kind(outer: Outer, inner: BParser) -> (r: ParserKind)
    ensures
        r@ == spec_decorate(outer@, inner@),
{
    let ghost ov0 = outer@;
    let ghost iv0 = inner@;
    let Outer {
        kind,
        version: _,
        vis: _,
        comp_style,
        fallback,
        adjacent,
        generate: _,
        decor,
        longs: _,
        shorts: _,
    } = outer;
    let ghost a = if ov0.adjacent {
        BParserV::Adjacent(Box::new(iv0))
    } else {
        iv0
    };
    let ghost f = match ov0.fallback {
        Some(e) => BParserV::Fallback(e, Box::new(a)),
        None => a,
    };
    let inner = if adjacent {
        BParser::Adjacent(Box::new(inner))
    } else {
        inner
    };
    assert(inner@ == a);
    let inner = match fallback {
        Some(e) => BParser::Fallback(e, Box::new(inner)),
        None => inner,
    };
    assert(inner@ == f);
    let inner = match comp_style {
        Some(s) => BParser::CompStyle(s, Box::new(inner)),
        None => inner,
    };
    let ghost mid = spec_wrap(ov0, iv0);
    assert(inner@ == mid);
    match kind {
        Some(OuterKind::Options(m)) => {
            let ghost mv = opt_text(m);
            let inner = match m {
                Some(cargo) => BParser::CargoHelper(cargo, Box::new(inner)),
                None => inner,
            };
            let ghost in2 = match mv {
                Some(c) => BParserV::CargoHelper(c, Box::new(mid)),
                None => mid,
            };
            assert(inner@ == in2);
            let o = OParser { inner: Box::new(inner), decor };
            assert(o@ == OParserV { inner: Box::new(in2), decor: ov0.decor });
            ParserKind::OParser(o)
        },
        Some(OuterKind::Command(cmd_attr)) => {
            let oparser = OParser { inner: Box::new(inner), decor };
            assert(oparser@ == OParserV { inner: Box::new(mid), decor: ov0.decor });
            let b = BParser::Command(cmd_attr, Box::new(oparser));
            assert(b@ == BParserV::Command(cmd_attr@, Box::new(OParserV { inner: Box::new(mid), decor: ov0.decor })));
            ParserKind::BParser(b)
        },
        _ => ParserKind::BParser(inner),
    }
}

// ---------------------------------------------------------------- fields

/// The fields at `i`: named in braces, unnamed in parentheses.
pub open spec fn spec_fields(s: Seq<TokV>, i: int) -> Result<FieldsV, ParseError> {
    if 0 <= i < s.len() && is_group(s[i], Delimiter::Brace) {
        match spec_fields_from(body(s[i]), 0, seq![]) {
            Ok(v) => Ok(FieldsV::Named(v)),
            Err(e) => Err(e),
        }
    } else if 0 <= i < s.len() && is_group(s[i], Delimiter::Parenthesis) {
        match spec_fields_from(body(s[i]), 0, seq![]) {
            Ok(v) => Ok(FieldsV::Unnamed(v)),
            Err(e) => Err(e),
        }
    } else {
        Err(ParseError::ExpectedFields)
    }
}

impl Fields {
    /// Reads the fields at `i` in `input`: named fields in braces or unnamed
    /// fields in parentheses.
    pub fn parse(input: &Vec<TokenTree>, i: usize) -> (r: Result<Self, ParseError>)
        ensures
            spec_fields(tvs(input@), i as int) == (match r {
                Ok(f) => Ok(f@),
                Err(e) => Err::<FieldsV, ParseError>(e),
            }),
            r is Ok ==> i < input.len(),
    {
        match group_at(input, i, Delimiter::Brace) {
            Some(b) => {
                let v = parse_field_list(b)?;
                Ok(Fields::Named(v))
            },
            None => match group_at(input, i, Delimiter::Parenthesis) {
                Some(b) => {
                    let v = parse_field_list(b)?;
                    Ok(Fields::Unnamed(v))
                },
                None => Err(ParseError::ExpectedFields),
            },
        }
    }

    /// Whether a struct with these fields ends with `;`: only a tuple struct
    /// does.
    pub fn struct_definition_followed_by_semi(&self) -> (r: bool)
        ensures
            r == (self@ is Unnamed),
    {
        match self {
            Fields::Named(_) | Fields::NoFields => false,
            Fields::Unnamed(_) => true,
        }
    }
}

// ---------------------------------------------------------------- the type

/// The name of the generated function: the one `generate` gives, or the
/// type's name in snake case.
pub open spec fn fn_name(outer: OuterV, ty: Seq<char>) -> Seq<char> {
    match outer.generate {
        Some(g) => g,
        None => snake_case(ty),
    }
}

/// A struct named at `i`: its fields, `;` after a tuple struct, and nothing
/// after that.
pub open spec fn spec_struct(attrs: Seq<AttributeV>, vis: Seq<TokV>, s: Seq<TokV>, i: int, ex: Seq<AnswerV>) -> Outcome<
    TopV,
> {
    if !(0 <= i < s.len() && is_name(s[i])) {
        Outcome::Failed(ParseError::ExpectedIdent)
    } else {
        let ty = word(s[i]);
        match spec_outer_make(ty, vis, attrs, ex) {
            Outcome::Failed(e) => Outcome::Failed(e),
            Outcome::Unimplemented => Outcome::Unimplemented,
            Outcome::Done(outer) => match spec_fields(s, i + 1) {
                Err(e) => Outcome::Failed(e),
                Ok(f) => {
                    let k = i + 2;
                    if f is Unnamed && !(k < s.len() && is_punct(s[k], ';')) {
                        Outcome::Failed(ParseError::ExpectedSemi)
                    } else {
                        let k2 = if f is Unnamed {
                            k + 1
                        } else {
                            k
                        };
                        if k2 != s.len() {
                            Outcome::Failed(ParseError::UnexpectedToken)
                        } else {
                            Outcome::Done(
                                TopV {
                                    name: fn_name(outer, ty),
                                    vis: outer.vis,
                                    outer_ty: ty,
                                    kind: spec_decorate(
                                        outer,
                                        BParserV::Constructor(ConstrNameV { namespace: None, constr: ty }, f),
                                    ),
                                },
                            )
                        }
                    }
                },
            },
        }
    }
}

/// The parser of a variant `ty` of the enum `oty`, whose attributes say
/// `inner`, with what follows its name at `k`; gives it and the index after
/// it. A variant with fields builds them; a command without fields builds
/// the variant; any other variant is a flag. A command wraps its parser.
pub open spec fn spec_variant(c: Seq<TokV>, k: int, oty: Seq<char>, ty: Seq<char>, inner: InnerV) -> Result<
    (BParserV, int),
    ParseError,
> {
    let constr = ConstrNameV { namespace: Some(oty), constr: ty };
    let fr = if 0 <= k < c.len() && (is_group(c[k], Delimiter::Parenthesis) || is_group(
        c[k],
        Delimiter::Brace,
    )) {
        match spec_fields(c, k) {
            Ok(f) => Ok((BParserV::Constructor(constr, f), k + 1)),
            Err(e) => Err(e),
        }
    } else if inner.command is Some {
        Ok((BParserV::Constructor(constr, FieldsV::NoFields), k))
    } else {
        Ok((BParserV::Singleton(spec_make2(constr, inner)), k))
    };
    match fr {
        Err(e) => Err(e),
        Ok((b, k2)) => Ok(
            (
                match inner.command {
                    Some(cmd) => BParserV::Command(
                        cmd,
                        Box::new(OParserV { inner: Box::new(b), decor: decor_new(inner.help, None) }),
                    ),
                    None => b,
                },
                k2,
            ),
        ),
    }
}

/// The variants of the enum `oty` from `i` on, separated by commas, with an
/// optional comma at the end.
pub open spec fn spec_variants(c: Seq<TokV>, i: int, oty: Seq<char>, acc: Seq<BParserV>, ex: Seq<AnswerV>) -> Result<
    Seq<BParserV>,
    ParseError,
>
    decreases c.len() - i,
{
    if i < 0 || i >= c.len() {
        Ok(acc)
    } else {
        match spec_attrs(c, i, seq![]) {
            Err(e) => Err(e),
            Ok((attrs, j)) => if !(i <= j < c.len() && is_name(c[j])) {
                Err(ParseError::ExpectedIdent)
            } else {
                match spec_inner_make(word(c[j]), attrs, ex) {
                    Err(e) => Err(e),
                    Ok(inner) => match spec_variant(c, j + 1, oty, word(c[j]), inner) {
                        Err(e) => Err(e),
                        Ok((b, k2)) => {
                            let acc2 = acc.push(b);
                            if k2 <= i || k2 >= c.len() {
                                Ok(acc2)
                            } else if is_punct(c[k2], ',') {
                                spec_variants(c, k2 + 1, oty, acc2, ex)
                            } else {
                                Err(ParseError::ExpectedComma)
                            }
                        },
                    },
                }
            },
        }
    }
}

/// An enum named at `i`: its variants in braces, and nothing after them. An
/// enum without variants is not implemented.
pub open spec fn spec_enum(attrs: Seq<AttributeV>, vis: Seq<TokV>, s: Seq<TokV>, i: int, ex: Seq<AnswerV>) -> Outcome<
    TopV,
> {
    if !(0 <= i < s.len() && is_name(s[i])) {
        Outcome::Failed(ParseError::ExpectedIdent)
    } else {
        let ty = word(s[i]);
        match spec_outer_make(ty, vis, attrs, ex) {
            Outcome::Failed(e) => Outcome::Failed(e),
            Outcome::Unimplemented => Outcome::Unimplemented,
            Outcome::Done(outer) => if !(i + 1 < s.len() && is_group(s[i + 1], Delimiter::Brace)) {
                Outcome::Failed(ParseError::ExpectedBraces)
            } else {
                match spec_variants(body(s[i + 1]), 0, ty, seq![], ex) {
                    Err(e) => Outcome::Failed(e),
                    Ok(bs) => if bs.len() == 0 {
                        Outcome::Unimplemented
                    } else if i + 2 != s.len() {
                        Outcome::Failed(ParseError::UnexpectedToken)
                    } else {
                        Outcome::Done(
                            TopV {
                                name: fn_name(outer, ty),
                                vis: outer.vis,
                                outer_ty: ty,
                                kind: spec_decorate(
                                    outer,
                                    if bs.len() == 1 {
                                        bs[0]
                                    } else {
                                        BParserV::Fold(bs)
                                    },
                                ),
                            },
                        )
                    },
                }
            },
        }
    }
}

/// The derive input: attributes, visibility, then a struct or an enum.
pub open spec fn spec_top(s: Seq<TokV>, ex: Seq<AnswerV>) -> Outcome<TopV> {
    match spec_attrs(s, 0, seq![]) {
        Err(e) => Outcome::Failed(e),
        Ok((attrs, i)) => {
            let j = spec_vis_end(s, i);
            let vis = s.subrange(i, j);
            if 0 <= j < s.len() && s[j] == TokV::Ident("struct"@) {
                spec_struct(attrs, vis, s, j + 1, ex)
            } else if 0 <= j < s.len() && s[j] == TokV::Ident("enum"@) {
                spec_enum(attrs, vis, s, j + 1, ex)
            } else {
                Outcome::Failed(ParseError::UnsupportedItem)
            }
        },
    }
}


/// The name of the generated function.
fn make_fn_name(generate: &Option<String>, ty: &String) -> (r: String)
    ensures
        r@ == match opt_text(*generate) {
            Some(g) => g,
            None => snake_case(ty@),
        },
{
    match generate {
        Some(g) => g.clone(),
        None => to_snake_case(ty.as_str()),
    }
}

/// Reads the variant named `ty` of the enum `oty`, whose attributes say
/// `inner`, with what follows its name at `k` in `c`.
fn parse_variant(c: &Vec<TokenTree>, k: usize, oty: &String, ty: String, inner: Inner) -> (r: Result<
    (BParser, usize),
    ParseError,
>)
    requires
        k <= c@.len(),
        ty@.len() > 0,
    ensures
        spec_variant(tvs(c@), k as int, oty@, ty@, inner@) == (match r {
            Ok((b, k2)) => Ok((b@, k2 as int)),
            Err(e) => Err::<(BParserV, int), ParseError>(e),
        }),
        r matches Ok((b, k2)) ==> k <= k2 <= c@.len(),
{
    let ghost iv = inner@;
    let constr = ConstrName { namespace: Some(oty.clone()), constr: ty };
    let has_fields = group_at(c, k, Delimiter::Parenthesis).is_some() || group_at(
        c,
        k,
        Delimiter::Brace,
    ).is_some();
    let Inner { command, help, shorts, longs, envs, is_hidden, is_default } = inner;
    match command {
        Some(cmd) => {
            let (b, k2) = if has_fields {
                let f = Fields::parse(c, k)?;
                (BParser::Constructor(constr, f), k + 1)
            } else {
                (BParser::Constructor(constr, Fields::NoFields), k)
            };
            let decor = Decor::new(&help, None);
            let o = OParser { inner: Box::new(b), decor };
            let ghost cv = cmd@;
            let r = BParser::Command(cmd, Box::new(o));
            proof {
                assert(r@ == BParserV::Command(cv, Box::new(o@)));
            }
            Ok((r, k2))
        },
        None => {
            if has_fields {
                let f = Fields::parse(c, k)?;
                Ok((BParser::Constructor(constr, f), k + 1))
            } else {
                let inner = Inner { command: None, help, shorts, longs, envs, is_hidden, is_default };
                proof {
                    assert(inner@ =~= iv);
                }
                let f = ReqFlag::make2(constr, inner)?;
                Ok((BParser::Singleton(Box::new(f)), k))
            }
        },
    }
}

/// Reads the variants of the enum `oty` in the body `c` of its braces.
fn parse_variants(c: &Vec<TokenTree>, oty: &String, answers: &Vec<ExprAnswer>) -> (r: Result<Vec<BParser>, ParseError>)
    ensures
        spec_variants(tvs(c@), 0, oty@, seq![], answers_of(answers@)) == (match r {
            Ok(v) => Ok(bvs(v@)),
            Err(e) => Err::<Seq<BParserV>, ParseError>(e),
        }),
{
    let ghost cs = tvs(c@);
    let mut acc: Vec<BParser> = Vec::new();
    let mut i: usize = 0;
    proof {
        assert(bvs(acc@) =~= seq![]);
    }
    while i < c.len()
        invariant
            cs == tvs(c@),
            i <= c@.len(),
            spec_variants(cs, 0, oty@, seq![], answers_of(answers@)) == spec_variants(cs, i as int, oty@, bvs(acc@), answers_of(answers@)),
        decreases c@.len() - i,
    {
        let (attrs, j) = parse_attrs(c, i)?;
        let ty = match name_at(c, j) {
            Some(w) => w.clone(),
            None => {
                return Err(ParseError::ExpectedIdent);
            },
        };
        let inner = Inner::make(&ty, &attrs, answers)?;
        let (b, k2) = parse_variant(c, j + 1, oty, ty, inner)?;
        let ghost before = bvs(acc@);
        let ghost bb = b@;
        acc.push(b);
        proof {
            assert(bvs(acc@) =~= before.push(bb));
        }
        if k2 >= c.len() {
            return Ok(acc);
        }
        if punct_at(c, k2, ',') {
            i = k2 + 1;
        } else {
            return Err(ParseError::ExpectedComma);
        }
    }
    Ok(acc)
}

impl Top {
    /// Reads the struct named at `i` in `input`, whose attributes are
    /// `attrs` and visibility `vis`; an input on which the derive is not
    /// implemented is left out.
    pub fn parse_struct(attrs: &Vec<Attribute>, vis: Vec<TokenTree>, input: &Vec<TokenTree>, i: usize, answers: &Vec<ExprAnswer>) -> (r:
        Result<Self, ParseError>)
        requires
            i <= input@.len(),
            !(spec_struct(attrs_of(attrs@), tvs(vis@), tvs(input@), i as int, answers_of(answers@)) is Unimplemented),
        ensures
            match spec_struct(attrs_of(attrs@), tvs(vis@), tvs(input@), i as int, answers_of(answers@)) {
                Outcome::Done(t) => r matches Ok(top) && top@ == t,
                Outcome::Failed(e) => r == Err::<Top, ParseError>(e),
                Outcome::Unimplemented => false,
            },
    {
        match Top::read_struct(attrs, vis, input, i, answers) {
            Parsed::Done(t) => Ok(t),
            Parsed::Failed(e) => Err(e),
            Parsed::Unimplemented => Err(ParseError::UnexpectedAttribute),
        }
    }

    /// Reads the enum named at `i` in `input`, whose attributes are `attrs`
    /// and visibility `vis`; an input on which the derive is not implemented
    /// is left out.
    pub fn parse_enum(attrs: &Vec<Attribute>, vis: Vec<TokenTree>, input: &Vec<TokenTree>, i: usize, answers: &Vec<ExprAnswer>) -> (r:
        Result<Self, ParseError>)
        requires
            i <= input@.len(),
            !(spec_enum(attrs_of(attrs@), tvs(vis@), tvs(input@), i as int, answers_of(answers@)) is Unimplemented),
        ensures
            match spec_enum(attrs_of(attrs@), tvs(vis@), tvs(input@), i as int, answers_of(answers@)) {
                Outcome::Done(t) => r matches Ok(top) && top@ == t,
                Outcome::Failed(e) => r == Err::<Top, ParseError>(e),
                Outcome::Unimplemented => false,
            },
    {
        match Top::read_enum(attrs, vis, input, i, answers) {
            Parsed::Done(t) => Ok(t),
            Parsed::Failed(e) => Err(e),
            Parsed::Unimplemented => Err(ParseError::UnexpectedAttribute),
        }
    }

    /// Reads the struct named at `i` in `input`, whose attributes are
    /// `attrs` and visibility `vis`, on every input.
    pub fn read_struct(attrs: &Vec<Attribute>, vis: Vec<TokenTree>, input: &Vec<TokenTree>, i: usize, answers: &Vec<ExprAnswer>) -> (r:
        Parsed<Self>)
        requires
            i <= input@.len(),
        ensures
            r@ == spec_struct(attrs_of(attrs@), tvs(vis@), tvs(input@), i as int, answers_of(answers@)),
    {
        let outer_ty = match name_at(input, i) {
            Some(w) => w.clone(),
            None => {
                return Parsed::Failed(ParseError::ExpectedIdent);
            },
        };
        let outer = match Outer::read(&outer_ty, vis, attrs, answers) {
            Parsed::Done(o) => o,
            Parsed::Failed(e) => {
                return Parsed::Failed(e);
            },
            Parsed::Unimplemented => {
                return Parsed::Unimplemented;
            },
        };
        let fields = match Fields::parse(input, i + 1) {
            Ok(f) => f,
            Err(e) => {
                return Parsed::Failed(e);
            },
        };
        let mut k = i + 2;
        if fields.struct_definition_followed_by_semi() {
            if punct_at(input, k, ';') {
                k = k + 1;
            } else {
                return Parsed::Failed(ParseError::ExpectedSemi);
            }
        }
        if k != input.len() {
            return Parsed::Failed(ParseError::UnexpectedToken);
        }
        let constr = ConstrName { namespace: None, constr: outer_ty.clone() };
        let inner = BParser::Constructor(constr, fields);
        let name = make_fn_name(&outer.generate, &outer_ty);
        let vis = crate::tokens::copy_trees(&outer.vis);
        let kind = decorate_with_kind(outer, inner);
        Parsed::Done(Top { name, vis, outer_ty, kind })
    }

    /// Reads the enum named at `i` in `input`, whose attributes are `attrs`
    /// and visibility `vis`, on every input.
    pub fn read_enum(attrs: &Vec<Attribute>, vis: Vec<TokenTree>, input: &Vec<TokenTree>, i: usize, answers: &Vec<ExprAnswer>) -> (r:
        Parsed<Self>)
        requires
            i <= input@.len(),
        ensures
            r@ == spec_enum(attrs_of(attrs@), tvs(vis@), tvs(input@), i as int, answers_of(answers@)),
    {
        let outer_ty = match name_at(input, i) {
            Some(w) => w.clone(),
            None => {
                return Parsed::Failed(ParseError::ExpectedIdent);
            },
        };
        let outer = match Outer::read(&outer_ty, vis, attrs, answers) {
            Parsed::Done(o) => o,
            Parsed::Failed(e) => {
                return Parsed::Failed(e);
            },
            Parsed::Unimplemented => {
                return Parsed::Unimplemented;
            },
        };
        let c = match group_at(input, i + 1, Delimiter::Brace) {
            Some(b) => b,
            None => {
                return Parsed::Failed(ParseError::ExpectedBraces);
            },
        };
        let mut branches = match parse_variants(c, &outer_ty, answers) {
            Ok(b) => b,
            Err(e) => {
                return Parsed::Failed(e);
            },
        };
        if branches.len() == 0 {
            return Parsed::Unimplemented;
        }
        if i + 2 != input.len() {
            return Parsed::Failed(ParseError::UnexpectedToken);
        }
        let ghost bs = bvs(branches@);
        let inner = if branches.len() == 1 {
            branches.remove(0)
        } else {
            proof {
                lemma_bv_fold(branches);
            }
            BParser::Fold(branches)
        };
        proof {
            assert(inner@ == if bs.len() == 1 {
                bs[0]
            } else {
                BParserV::Fold(bs)
            });
        }
        let name = make_fn_name(&outer.generate, &outer_ty);
        let vis = crate::tokens::copy_trees(&outer.vis);
        let kind = decorate_with_kind(outer, inner);
        Parsed::Done(Top { name, vis, outer_ty, kind })
    }

    /// Reads the derive input (see `spec_top`), by the answers `answers` on
    /// which token sequences are expressions; an input on which the derive
    /// is not implemented is left out.
    pub fn parse(input: &Vec<TokenTree>, answers: &Vec<ExprAnswer>) -> (r: Result<Self, ParseError>)
        requires
            !(spec_top(tvs(input@), answers_of(answers@)) is Unimplemented),
        ensures
            match spec_top(tvs(input@), answers_of(answers@)) {
                Outcome::Done(t) => r matches Ok(top) && top@ == t,
                Outcome::Failed(e) => r == Err::<Top, ParseError>(e),
                Outcome::Unimplemented => false,
            },
    {
        match parse_top(input, answers) {
            Parsed::Done(t) => Ok(t),
            Parsed::Failed(e) => Err(e),
            Parsed::Unimplemented => Err(ParseError::UnsupportedItem),
        }
    }
}

/// Reads the derive input: attributes, visibility, then a struct or an
/// enum (see `spec_top`), by the answers `answers` on which token sequences
/// are expressions.
pub fn parse_top(input: &Vec<TokenTree>, answers: &Vec<ExprAnswer>) -> (r: Parsed<Top>)
    ensures
        r@ == spec_top(tvs(input@), answers_of(answers@)),
{
    let (attrs, i) = match parse_attrs(input, 0) {
        Ok(p) => p,
        Err(e) => {
            return Parsed::Failed(e);
        },
    };
    let j = vis_end(input, i);
    let vis = copy_range(input, i, j);
    if j < input.len() && keyword_at(input, j, "struct") {
        Top::read_struct(&attrs, vis, input, j + 1, answers)
    } else if j < input.len() && keyword_at(input, j, "enum") {
        Top::read_enum(&attrs, vis, input, j + 1, answers)
    } else {
        Parsed::Failed(ParseError::UnsupportedItem)
    }
}

} // verus!
