//! The token model the library reads and writes: token trees as a proc-macro
//! receives them, and generated code, whose leaves may stand for a field's
//! own code (produced by the field generator, see `Code::FieldVar`).
use vstd::prelude::*;
use vstd::string::*;

verus! {

/// How a group of tokens is delimited.
#[derive(Clone, Copy, Debug, PartialEq, Eq, Structural)]
pub enum Delimiter {
    Parenthesis,
    Brace,
    Bracket,
    Invisible,
}

/// Whether a punctuation character is followed at once by another one.
#[derive(Clone, Copy, Debug, PartialEq, Eq, Structural)]
pub enum Spacing {
    Alone,
    Joint,
}

/// A literal token: a string or char literal by its value, any other
/// literal by its source text.
#[derive(Debug)]
pub enum Lit {
    Str(String),
    Char(char),
    Other(String),
}

/// A token tree.
#[derive(Debug)]
pub enum TokenTree {
    Group(Delimiter, Vec<TokenTree>),
    Ident(String),
    Punct(char, Spacing),
    Literal(Lit),
}

/// The mathematical value of a token tree.
pub enum TokV {
    Group(Delimiter, Seq<TokV>),
    Ident(Seq<char>),
    Punct(char, Spacing),
    Str(Seq<char>),
    Char(char),
    Other(Seq<char>),
}

pub open spec fn tv(t: TokenTree) -> TokV
    decreases t,
{
    match t {
        TokenTree::Group(d, xs) => TokV::Group(
            d,
            Seq::new(xs@.len(), |i: int| if 0 <= i < xs@.len() { tv(xs@[i]) } else { TokV::Char(' ') }),
        ),
        TokenTree::Ident(s) => TokV::Ident(s@),
        TokenTree::Punct(c, sp) => TokV::Punct(c, sp),
        TokenTree::Literal(Lit::Str(s)) => TokV::Str(s@),
        TokenTree::Literal(Lit::Char(c)) => TokV::Char(c),
        TokenTree::Literal(Lit::Other(s)) => TokV::Other(s@),
    }
}

/// The values of a sequence of token trees.
pub open spec fn tvs(xs: Seq<TokenTree>) -> Seq<TokV> {
    Seq::new(xs.len(), |i: int| tv(xs[i]))
}

impl View for TokenTree {
    type V = TokV;

    open spec fn view(&self) -> TokV {
        tv(*self)
    }
}

/// Generated code: token trees, groups of generated code, and two kinds of
/// leaves that stand for what the field generator produces for a field: the
/// name of the variable that holds its parser (given the field's position),
/// and the parser itself.
#[derive(Debug)]
pub enum Code {
    Tt(TokenTree),
    Group(Delimiter, Vec<Code>),
    FieldVar(Vec<TokenTree>, usize),
    FieldParser(Vec<TokenTree>),
}

/// The mathematical value of generated code.
pub enum CodeV {
    Tt(TokV),
    Group(Delimiter, Seq<CodeV>),
    FieldVar(Seq<TokV>, nat),
    FieldParser(Seq<TokV>),
}

pub open spec fn cv(c: Code) -> CodeV
    decreases c,
{
    match c {
        Code::Tt(t) => CodeV::Tt(tv(t)),
        Code::Group(d, xs) => CodeV::Group(
            d,
            Seq::new(xs@.len(), |i: int| if 0 <= i < xs@.len() { cv(xs@[i]) } else { CodeV::Tt(TokV::Char(' ')) }),
        ),
        Code::FieldVar(f, ix) => CodeV::FieldVar(tvs(f@), ix as nat),
        Code::FieldParser(f) => CodeV::FieldParser(tvs(f@)),
    }
}

/// The values of a sequence of generated code.
pub open spec fn cvs(xs: Seq<Code>) -> Seq<CodeV> {
    Seq::new(xs.len(), |i: int| cv(xs[i]))
}

impl View for Code {
    type V = CodeV;

    open spec fn view(&self) -> CodeV {
        cv(*self)
    }
}

/// A group's value holds the values of its trees.
pub proof fn lemma_tv_group(d: Delimiter, xs: Vec<TokenTree>)
    ensures
        tv(TokenTree::Group(d, xs)) == TokV::Group(d, tvs(xs@)),
{
    let g = tv(TokenTree::Group(d, xs));
    assert(g->Group_0 == d);
    assert(g->Group_1 =~= tvs(xs@));
}

/// A group's value holds the values of its code.
pub proof fn lemma_cv_group(d: Delimiter, xs: Vec<Code>)
    ensures
        cv(Code::Group(d, xs)) == CodeV::Group(d, cvs(xs@)),
{
    let g = cv(Code::Group(d, xs));
    assert(g->Group_0 == d);
    assert(g->Group_1 =~= cvs(xs@));
}

pub proof fn lemma_tvs_push(xs: Seq<TokenTree>, x: TokenTree)
    ensures
        tvs(xs.push(x)) == tvs(xs).push(tv(x)),
{
    assert(tvs(xs.push(x)) =~= tvs(xs).push(tv(x)));
}

pub proof fn lemma_cvs_push(xs: Seq<Code>, x: Code)
    ensures
        cvs(xs.push(x)) == cvs(xs).push(cv(x)),
{
    assert(cvs(xs.push(x)) =~= cvs(xs).push(cv(x)));
}

/// A copy of a token tree.
pub fn copy_tree(t: &TokenTree) -> (r: TokenTree)
    ensures
        tv(r) == tv(*t),
    decreases t, 0nat,
{
    match t {
        TokenTree::Group(d, xs) => {
            let ys = copy_trees(xs);
            proof {
                lemma_tv_group(*d, ys);
                lemma_tv_group(*d, *xs);
            }
            TokenTree::Group(*d, ys)
        },
        TokenTree::Ident(s) => TokenTree::Ident(s.clone()),
        TokenTree::Punct(c, sp) => TokenTree::Punct(*c, *sp),
        TokenTree::Literal(Lit::Str(s)) => TokenTree::Literal(Lit::Str(s.clone())),
        TokenTree::Literal(Lit::Char(c)) => TokenTree::Literal(Lit::Char(*c)),
        TokenTree::Literal(Lit::Other(s)) => TokenTree::Literal(Lit::Other(s.clone())),
    }
}

/// A copy of a sequence of token trees.
pub fn copy_trees(xs: &Vec<TokenTree>) -> (r: Vec<TokenTree>)
    ensures
        tvs(r@) == tvs(xs@),
    decreases xs, 1nat,
{
    let mut r: Vec<TokenTree> = Vec::new();
    let mut i: usize = 0;
    while i < xs.len()
        invariant
            i <= xs@.len(),
            tvs(r@) == tvs(xs@.subrange(0, i as int)),
        decreases xs@.len() - i,
    {
        proof {
            assert(decreases_to!(xs => xs@[i as int]));
        }
        let c = copy_tree(&xs[i]);
        proof {
            lemma_tvs_push(r@, c);
            assert(xs@.subrange(0, i + 1) =~= xs@.subrange(0, i as int).push(xs@[i as int]));
            lemma_tvs_push(xs@.subrange(0, i as int), xs@[i as int]);
        }
        r.push(c);
        i = i + 1;
    }
    proof {
        assert(xs@.subrange(0, xs@.len() as int) =~= xs@);
    }
    r
}

/// Whether two token trees are the same.
pub fn same_tree(a: &TokenTree, b: &TokenTree) -> (r: bool)
    ensures
        r == (tv(*a) == tv(*b)),
    decreases a, 0nat,
{
    match (a, b) {
        (TokenTree::Group(d1, xs), TokenTree::Group(d2, ys)) => {
            proof {
                lemma_tv_group(*d1, *xs);
                lemma_tv_group(*d2, *ys);
            }
            *d1 == *d2 && same_trees(xs, ys)
        },
        (TokenTree::Ident(x), TokenTree::Ident(y)) => *x == *y,
        (TokenTree::Punct(c1, s1), TokenTree::Punct(c2, s2)) => *c1 == *c2 && *s1 == *s2,
        (TokenTree::Literal(Lit::Str(x)), TokenTree::Literal(Lit::Str(y))) => *x == *y,
        (TokenTree::Literal(Lit::Char(x)), TokenTree::Literal(Lit::Char(y))) => *x == *y,
        (TokenTree::Literal(Lit::Other(x)), TokenTree::Literal(Lit::Other(y))) => *x == *y,
        _ => false,
    }
}

/// Whether two sequences of token trees are the same.
pub fn same_trees(a: &Vec<TokenTree>, b: &Vec<TokenTree>) -> (r: bool)
    ensures
        r == (tvs(a@) == tvs(b@)),
    decreases a, 1nat,
{
    if a.len() != b.len() {
        proof {
            assert(tvs(a@).len() != tvs(b@).len());
        }
        return false;
    }
    let mut i: usize = 0;
    while i < a.len()
        invariant
            i <= a@.len(),
            a@.len() == b@.len(),
            forall|k: int| 0 <= k < i ==> tv(#[trigger] a@[k]) == tv(b@[k]),
        decreases a@.len() - i,
    {
        proof {
            assert(decreases_to!(a => a@[i as int]));
        }
        if !same_tree(&a[i], &b[i]) {
            proof {
                assert(tvs(a@)[i as int] != tvs(b@)[i as int]);
            }
            return false;
        }
        i = i + 1;
    }
    proof {
        assert(tvs(a@) =~= tvs(b@));
    }
    true
}

/// A string with the characters of `s`.
pub fn text(s: &str) -> (r: String)
    ensures
        r@ == s@,
{
    String::from_str(s)
}

/// Whether two strings hold the same characters.
pub fn same_text(a: &String, b: &str) -> (r: bool)
    ensures
        r == (a@ == b@),
{
    let bb = String::from_str(b);
    *a == bb
}

/// An identifier token.
pub fn ident(s: &str) -> (r: TokenTree)
    ensures
        tv(r) == TokV::Ident(s@),
{
    TokenTree::Ident(text(s))
}

/// A punctuation token.
pub fn punct(c: char, sp: Spacing) -> (r: TokenTree)
    ensures
        tv(r) == TokV::Punct(c, sp),
{
    TokenTree::Punct(c, sp)
}

/// A string literal token.
pub fn str_lit(s: &String) -> (r: TokenTree)
    ensures
        tv(r) == TokV::Str(s@),
{
    TokenTree::Literal(Lit::Str(s.clone()))
}

} // verus!
