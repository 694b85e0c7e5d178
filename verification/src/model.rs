//! The parsed derive input: what the attributes say, and the tree of parsers
//! that the generated function builds. Each type has a mathematical value
//! (its view) over which the contracts are stated.
use crate::tokens::{tvs, TokV, TokenTree};
use vstd::prelude::*;

verus! {

/// Why the derive input was refused.
#[derive(Clone, Copy, Debug, PartialEq, Eq, Structural)]
pub enum ParseError {
    /// An identifier was expected.
    ExpectedIdent,
    /// A comma was expected.
    ExpectedComma,
    /// A semicolon was expected after a tuple struct.
    ExpectedSemi,
    /// A parenthesized argument was expected.
    ExpectedParens,
    /// Curly braces were expected around the variants of an enum.
    ExpectedBraces,
    /// Square brackets were expected after `#`.
    ExpectedBrackets,
    /// A string literal was expected.
    ExpectedStrLit,
    /// A char literal was expected.
    ExpectedCharLit,
    /// An expression was expected.
    ExpectedExpr,
    /// `bpaf` attribute arguments were expected in parentheses.
    ExpectedAttrArgs,
    /// A doc attribute must be `doc = "text"`.
    ExpectedDoc,
    /// A field declaration was expected.
    ExpectedField,
    /// A token was left over.
    UnexpectedToken,
    /// An unknown keyword in the attribute of a variant.
    InvalidInnerAttribute,
    /// An unknown keyword in the attribute of the type.
    UnexpectedAttribute,
    /// Neither named nor unnamed fields.
    ExpectedFields,
    /// Neither a struct nor an enum.
    UnsupportedItem,
}

/// What parsing gives: a value, an error, or an input that the derive does
/// not implement (an enum without variants, or `short`/`long` on a type that
/// is not a command).
pub enum Parsed<T> {
    Done(T),
    Failed(ParseError),
    Unimplemented,
}

/// A constructor: the variant (with its enum) or the struct that a parser
/// builds.
#[derive(Debug)]
pub struct ConstrName {
    pub namespace: Option<String>,
    pub constr: String,
}

#[verifier::ext_equal]
pub struct ConstrNameV {
    pub namespace: Option<Seq<char>>,
    pub constr: Seq<char>,
}

pub open spec fn opt_text(o: Option<String>) -> Option<Seq<char>> {
    match o {
        Some(s) => Some(s@),
        None => None,
    }
}

pub open spec fn opt_toks(o: Option<Vec<TokenTree>>) -> Option<Seq<TokV>> {
    match o {
        Some(v) => Some(tvs(v@)),
        None => None,
    }
}

/// The values of a sequence of token sequences.
pub open spec fn tvss(v: Seq<Vec<TokenTree>>) -> Seq<Seq<TokV>> {
    Seq::new(v.len(), |i: int| tvs(v[i]@))
}

pub open spec fn texts_of(v: Seq<String>) -> Seq<Seq<char>> {
    Seq::new(v.len(), |i: int| v[i]@)
}

impl View for ConstrName {
    type V = ConstrNameV;

    open spec fn view(&self) -> ConstrNameV {
        ConstrNameV { namespace: opt_text(self.namespace), constr: self.constr@ }
    }
}

/// A name of a flag: long (`--name`) or short (`-n`).
#[derive(Debug)]
pub enum Name {
    Long(String),
    Short(char),
}

#[verifier::ext_equal]
pub enum NameV {
    Long(Seq<char>),
    Short(char),
}

impl View for Name {
    type V = NameV;

    open spec fn view(&self) -> NameV {
        match self {
            Name::Long(s) => NameV::Long(s@),
            Name::Short(c) => NameV::Short(*c),
        }
    }
}

pub open spec fn names_of(v: Seq<Name>) -> Seq<NameV>
    decreases v.len(),
{
    if v.len() == 0 {
        seq![]
    } else {
        names_of(v.drop_last()).push(v.last()@)
    }
}

/// A command: its name and its aliases.
#[derive(Debug)]
pub struct CommandAttr {
    pub name: String,
    pub shorts: Vec<char>,
    pub longs: Vec<String>,
}

#[verifier::ext_equal]
pub struct CommandAttrV {
    pub name: Seq<char>,
    pub shorts: Seq<char>,
    pub longs: Seq<Seq<char>>,
}

impl View for CommandAttr {
    type V = CommandAttrV;

    open spec fn view(&self) -> CommandAttrV {
        CommandAttrV { name: self.name@, shorts: self.shorts@, longs: texts_of(self.longs@) }
    }
}

pub open spec fn opt_cmd(o: Option<CommandAttr>) -> Option<CommandAttrV> {
    match o {
        Some(c) => Some(c@),
        None => None,
    }
}

/// What the attributes of an enum variant say.
#[derive(Debug)]
pub struct Inner {
    pub command: Option<CommandAttr>,
    pub help: Vec<String>,
    pub shorts: Vec<char>,
    pub longs: Vec<String>,
    pub envs: Vec<Vec<TokenTree>>,
    pub is_hidden: bool,
    pub is_default: bool,
}

#[verifier::ext_equal]
pub struct InnerV {
    pub command: Option<CommandAttrV>,
    pub help: Seq<Seq<char>>,
    pub shorts: Seq<char>,
    pub longs: Seq<Seq<char>>,
    pub envs: Seq<Seq<TokV>>,
    pub is_hidden: bool,
    pub is_default: bool,
}

impl View for Inner {
    type V = InnerV;

    open spec fn view(&self) -> InnerV {
        InnerV {
            command: opt_cmd(self.command),
            help: texts_of(self.help@),
            shorts: self.shorts@,
            longs: texts_of(self.longs@),
            envs: tvss(self.envs@),
            is_hidden: self.is_hidden,
            is_default: self.is_default,
        }
    }
}

/// Description, header, footer and version of a parser with options.
#[derive(Debug)]
pub struct Decor {
    pub descr: Option<String>,
    pub header: Option<String>,
    pub footer: Option<String>,
    pub version: Option<Vec<TokenTree>>,
}

#[verifier::ext_equal]
pub struct DecorV {
    pub descr: Option<Seq<char>>,
    pub header: Option<Seq<char>>,
    pub footer: Option<Seq<char>>,
    pub version: Option<Seq<TokV>>,
}

impl View for Decor {
    type V = DecorV;

    open spec fn view(&self) -> DecorV {
        DecorV {
            descr: opt_text(self.descr),
            header: opt_text(self.header),
            footer: opt_text(self.footer),
            version: opt_toks(self.version),
        }
    }
}

/// What the type's attributes ask it to become.
#[derive(Debug)]
pub enum OuterKind {
    Construct,
    Options(Option<String>),
    Command(CommandAttr),
}

#[verifier::ext_equal]
pub enum OuterKindV {
    Construct,
    Options(Option<Seq<char>>),
    Command(CommandAttrV),
}

impl View for OuterKind {
    type V = OuterKindV;

    open spec fn view(&self) -> OuterKindV {
        match self {
            OuterKind::Construct => OuterKindV::Construct,
            OuterKind::Options(o) => OuterKindV::Options(opt_text(*o)),
            OuterKind::Command(c) => OuterKindV::Command(c@),
        }
    }
}

pub open spec fn opt_kind(o: Option<OuterKind>) -> Option<OuterKindV> {
    match o {
        Some(k) => Some(k@),
        None => None,
    }
}

/// What the attributes of the type say.
#[derive(Debug)]
pub struct Outer {
    pub kind: Option<OuterKind>,
    pub version: Option<Vec<TokenTree>>,
    pub vis: Vec<TokenTree>,
    pub comp_style: Option<Vec<TokenTree>>,
    pub fallback: Option<Vec<TokenTree>>,
    pub adjacent: bool,
    pub generate: Option<String>,
    pub decor: Decor,
    pub longs: Vec<String>,
    pub shorts: Vec<char>,
}

#[verifier::ext_equal]
pub struct OuterV {
    pub kind: Option<OuterKindV>,
    pub version: Option<Seq<TokV>>,
    pub vis: Seq<TokV>,
    pub comp_style: Option<Seq<TokV>>,
    pub fallback: Option<Seq<TokV>>,
    pub adjacent: bool,
    pub generate: Option<Seq<char>>,
    pub decor: DecorV,
    pub longs: Seq<Seq<char>>,
    pub shorts: Seq<char>,
}

impl View for Outer {
    type V = OuterV;

    open spec fn view(&self) -> OuterV {
        OuterV {
            kind: opt_kind(self.kind),
            version: opt_toks(self.version),
            vis: tvs(self.vis@),
            comp_style: opt_toks(self.comp_style),
            fallback: opt_toks(self.fallback),
            adjacent: self.adjacent,
            generate: opt_text(self.generate),
            decor: self.decor@,
            longs: texts_of(self.longs@),
            shorts: self.shorts@,
        }
    }
}

/// A variant without fields that a flag selects.
#[derive(Debug)]
pub struct ReqFlag {
    pub value: ConstrName,
    pub naming: Vec<Name>,
    pub env: Vec<Vec<TokenTree>>,
    pub help: Option<String>,
    pub is_hidden: bool,
    pub is_default: bool,
}

#[verifier::ext_equal]
pub struct ReqFlagV {
    pub value: ConstrNameV,
    pub naming: Seq<NameV>,
    pub env: Seq<Seq<TokV>>,
    pub help: Option<Seq<char>>,
    pub is_hidden: bool,
    pub is_default: bool,
}

impl View for ReqFlag {
    type V = ReqFlagV;

    open spec fn view(&self) -> ReqFlagV {
        ReqFlagV {
            value: self.value@,
            naming: names_of(self.naming@),
            env: tvss(self.env@),
            help: opt_text(self.help),
            is_hidden: self.is_hidden,
            is_default: self.is_default,
        }
    }
}

/// The fields of a struct or of a variant, each as the tokens of its
/// declaration (what the field generator reads).
#[derive(Debug)]
pub enum Fields {
    Named(Vec<Vec<TokenTree>>),
    Unnamed(Vec<Vec<TokenTree>>),
    NoFields,
}

#[verifier::ext_equal]
pub enum FieldsV {
    Named(Seq<Seq<TokV>>),
    Unnamed(Seq<Seq<TokV>>),
    NoFields,
}

impl View for Fields {
    type V = FieldsV;

    open spec fn view(&self) -> FieldsV {
        match self {
            Fields::Named(v) => FieldsV::Named(tvss(v@)),
            Fields::Unnamed(v) => FieldsV::Unnamed(tvss(v@)),
            Fields::NoFields => FieldsV::NoFields,
        }
    }
}

/// A parser.
#[derive(Debug)]
pub enum BParser {
    Command(CommandAttr, Box<OParser>),
    CargoHelper(String, Box<BParser>),
    CompStyle(Vec<TokenTree>, Box<BParser>),
    Fallback(Vec<TokenTree>, Box<BParser>),
    Adjacent(Box<BParser>),
    Constructor(ConstrName, Fields),
    Singleton(Box<ReqFlag>),
    Fold(Vec<BParser>),
}

/// A parser with options.
#[derive(Debug)]
pub struct OParser {
    pub inner: Box<BParser>,
    pub decor: Decor,
}

#[verifier::ext_equal]
pub enum BParserV {
    Command(CommandAttrV, Box<OParserV>),
    CargoHelper(Seq<char>, Box<BParserV>),
    CompStyle(Seq<TokV>, Box<BParserV>),
    Fallback(Seq<TokV>, Box<BParserV>),
    Adjacent(Box<BParserV>),
    Constructor(ConstrNameV, FieldsV),
    Singleton(ReqFlagV),
    Fold(Seq<BParserV>),
}

#[verifier::ext_equal]
pub struct OParserV {
    pub inner: Box<BParserV>,
    pub decor: DecorV,
}

pub open spec fn bv(b: BParser) -> BParserV
    decreases b,
{
    match b {
        BParser::Command(c, o) => BParserV::Command(c@, Box::new(ov(*o))),
        BParser::CargoHelper(s, i) => BParserV::CargoHelper(s@, Box::new(bv(*i))),
        BParser::CompStyle(e, i) => BParserV::CompStyle(tvs(e@), Box::new(bv(*i))),
        BParser::Fallback(e, i) => BParserV::Fallback(tvs(e@), Box::new(bv(*i))),
        BParser::Adjacent(i) => BParserV::Adjacent(Box::new(bv(*i))),
        BParser::Constructor(c, f) => BParserV::Constructor(c@, f@),
        BParser::Singleton(r) => BParserV::Singleton((*r)@),
        BParser::Fold(xs) => BParserV::Fold(
            Seq::new(
                xs@.len(),
                |i: int| if 0 <= i < xs@.len() { bv(xs@[i]) } else { BParserV::Fold(seq![]) },
            ),
        ),
    }
}

pub open spec fn ov(o: OParser) -> OParserV
    decreases o,
{
    OParserV { inner: Box::new(bv(*o.inner)), decor: o.decor@ }
}

pub open spec fn bvs(xs: Seq<BParser>) -> Seq<BParserV> {
    Seq::new(xs.len(), |i: int| bv(xs[i]))
}

/// A fold's value holds the values of its parsers.
pub proof fn lemma_bv_fold(xs: Vec<BParser>)
    ensures
        bv(BParser::Fold(xs)) == BParserV::Fold(bvs(xs@)),
{
    let g = bv(BParser::Fold(xs));
    assert(g->Fold_0 =~= bvs(xs@));
}

impl View for BParser {
    type V = BParserV;

    open spec fn view(&self) -> BParserV {
        bv(*self)
    }
}

impl View for OParser {
    type V = OParserV;

    open spec fn view(&self) -> OParserV {
        ov(*self)
    }
}

/// The parser the generated function returns: a plain parser, or a parser
/// with options.
#[derive(Debug)]
pub enum ParserKind {
    BParser(BParser),
    OParser(OParser),
}

#[verifier::ext_equal]
pub enum ParserKindV {
    BParser(BParserV),
    OParser(OParserV),
}

impl View for ParserKind {
    type V = ParserKindV;

    open spec fn view(&self) -> ParserKindV {
        match self {
            ParserKind::BParser(b) => ParserKindV::BParser(b@),
            ParserKind::OParser(o) => ParserKindV::OParser(o@),
        }
    }
}

/// The parsed derive input: the generated function's name and visibility,
/// the type it parses, and its parser.
#[derive(Debug)]
pub struct Top {
    pub name: String,
    pub vis: Vec<TokenTree>,
    pub outer_ty: String,
    pub kind: ParserKind,
}

#[verifier::ext_equal]
pub struct TopV {
    pub name: Seq<char>,
    pub vis: Seq<TokV>,
    pub outer_ty: Seq<char>,
    pub kind: ParserKindV,
}

impl View for Top {
    type V = TopV;

    open spec fn view(&self) -> TopV {
        TopV { name: self.name@, vis: tvs(self.vis@), outer_ty: self.outer_ty@, kind: self.kind@ }
    }
}

/// An attribute: its path and the tokens after the path.
#[derive(Debug)]
pub struct Attribute {
    pub path: Vec<String>,
    pub tokens: Vec<TokenTree>,
}

#[verifier::ext_equal]
pub struct AttributeV {
    pub path: Seq<Seq<char>>,
    pub tokens: Seq<TokV>,
}

impl View for Attribute {
    type V = AttributeV;

    open spec fn view(&self) -> AttributeV {
        AttributeV { path: texts_of(self.path@), tokens: tvs(self.tokens@) }
    }
}

pub open spec fn attrs_of(v: Seq<Attribute>) -> Seq<AttributeV> {
    Seq::new(v.len(), |i: int| v[i]@)
}

/// The argument of `#[bpaf(command(..))]` on a variant.
#[derive(Debug)]
pub struct InnerAttr(pub Option<String>);

/// Pushing onto a sequence: its length, its last element, and what comes
/// before it.
pub proof fn lemma_push<A>(s: Seq<A>, a: A)
    ensures
        s.push(a).len() == s.len() + 1,
        s.push(a).last() == a,
        s.push(a).drop_last() == s,
{
    vstd::seq::axiom_seq_push_len(s, a);
    vstd::seq::axiom_seq_push_index_same(s, a, s.len() as int);
    assert(s.push(a).drop_last() =~= s);
}

/// The mathematical value of what parsing gives.
#[verifier::ext_equal]
pub enum Outcome<V> {
    Done(V),
    Failed(ParseError),
    Unimplemented,
}

impl<T: View> View for Parsed<T> {
    type V = Outcome<T::V>;

    open spec fn view(&self) -> Outcome<T::V> {
        match self {
            Parsed::Done(t) => Outcome::Done(t@),
            Parsed::Failed(e) => Outcome::Failed(*e),
            Parsed::Unimplemented => Outcome::Unimplemented,
        }
    }
}

impl View for InnerAttr {
    type V = Option<Seq<char>>;

    open spec fn view(&self) -> Option<Seq<char>> {
        opt_text(self.0)
    }
}

pub open spec fn inner_attrs_of(v: Seq<InnerAttr>) -> Seq<Option<Seq<char>>> {
    Seq::new(v.len(), |i: int| v[i]@)
}

} // verus!
