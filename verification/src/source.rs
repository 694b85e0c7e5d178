//! Tokens as Rust source text, and whether that text is an expression.
use crate::model::ParseError;
use crate::text::{append_text, push_char};
use crate::tokens::{copy_trees, same_trees, tv, tvs, Delimiter, Lit, Spacing, TokV, TokenTree};
use vstd::prelude::*;

verus! {

pub open spec fn open_of(d: Delimiter) -> Seq<char> {
    match d {
        Delimiter::Parenthesis => seq!['('],
        Delimiter::Brace => seq!['{'],
        Delimiter::Bracket => seq!['['],
        Delimiter::Invisible => seq![],
    }
}

pub open spec fn close_of(d: Delimiter) -> Seq<char> {
    match d {
        Delimiter::Parenthesis => seq![')'],
        Delimiter::Brace => seq!['}'],
        Delimiter::Bracket => seq![']'],
        Delimiter::Invisible => seq![],
    }
}

/// A character inside a string literal: `\`, `"` and a carriage return are
/// escaped.
pub open spec fn escape_in_str(c: char) -> Seq<char> {
    if c == '\\' {
        seq!['\\', '\\']
    } else if c == '"' {
        seq!['\\', '"']
    } else if c == '\r' {
        seq!['\\', 'r']
    } else {
        seq![c]
    }
}

/// The characters of a string literal's value, escaped.
pub open spec fn escape_str(s: Seq<char>) -> Seq<char>
    decreases s.len(),
{
    if s.len() == 0 {
        seq![]
    } else {
        escape_str(s.drop_last()) + escape_in_str(s.last())
    }
}

/// A character literal's value, escaped: `\`, `'`, newline, carriage return
/// and tab.
pub open spec fn escape_char(c: char) -> Seq<char> {
    if c == '\\' {
        seq!['\\', '\\']
    } else if c == '\'' {
        seq!['\\', '\'']
    } else if c == '\n' {
        seq!['\\', 'n']
    } else if c == '\r' {
        seq!['\\', 'r']
    } else if c == '\t' {
        seq!['\\', 't']
    } else {
        seq![c]
    }
}

/// The source text of a token tree.
pub open spec fn source_tree(t: TokV) -> Seq<char>
    decreases t, 0nat,
{
    match t {
        TokV::Group(d, xs) => open_of(d) + source_seq(xs, xs.len()) + close_of(d),
        TokV::Ident(s) => s,
        TokV::Punct(c, _) => seq![c],
        TokV::Str(s) => seq!['"'] + escape_str(s) + seq!['"'],
        TokV::Char(c) => seq!['\''] + escape_char(c) + seq!['\''],
        TokV::Other(s) => s,
    }
}

/// The source text of the first `n` tokens of `xs`: each token, then a
/// space unless it is punctuation joined to the next one.
pub open spec fn source_seq(xs: Seq<TokV>, n: nat) -> Seq<char>
    decreases xs, n,
{
    if n == 0 || n > xs.len() {
        seq![]
    } else {
        source_seq(xs, (n - 1) as nat) + source_tree(xs[n - 1]) + (if xs[n - 1] matches TokV::Punct(
            _,
            Spacing::Joint,
        ) {
            seq![]
        } else {
            seq![' ']
        })
    }
}

/// The source text of a sequence of tokens.
pub open spec fn source(xs: Seq<TokV>) -> Seq<char> {
    source_seq(xs, xs.len())
}

fn push_escaped_str(out: &mut String, s: &String)
    ensures
        final(out)@ == old(out)@ + escape_str(s@),
{
    let ghost before = out@;
    let n = s.as_str().unicode_len();
    let mut i: usize = 0;
    proof {
        assert(s@.subrange(0, 0) =~= seq![]);
        assert(out@ =~= before + escape_str(s@.subrange(0, 0)));
    }
    while i < n
        invariant
            n == s@.len(),
            i <= n,
            out@ == before + escape_str(s@.subrange(0, i as int)),
        decreases n - i,
    {
        let c = s.as_str().get_char(i);
        let ghost mid = out@;
        if c == '\\' {
            push_char(out, '\\');
            push_char(out, '\\');
        } else if c == '"' {
            push_char(out, '\\');
            push_char(out, '"');
        } else if c == '\r' {
            push_char(out, '\\');
            push_char(out, 'r');
        } else {
            push_char(out, c);
        }
        proof {
            let sub = s@.subrange(0, i + 1);
            assert(sub.drop_last() =~= s@.subrange(0, i as int));
            assert(sub.last() == c);
            assert(out@ =~= mid + escape_in_str(c));
            assert(out@ =~= before + escape_str(sub));
        }
        i = i + 1;
    }
    proof {
        assert(s@.subrange(0, n as int) =~= s@);
    }
}

fn push_escaped_char(out: &mut String, c: char)
    ensures
        final(out)@ == old(out)@ + escape_char(c),
{
    let ghost before = out@;
    if c == '\\' {
        push_char(out, '\\');
        push_char(out, '\\');
    } else if c == '\'' {
        push_char(out, '\\');
        push_char(out, '\'');
    } else if c == '\n' {
        push_char(out, '\\');
        push_char(out, 'n');
    } else if c == '\r' {
        push_char(out, '\\');
        push_char(out, 'r');
    } else if c == '\t' {
        push_char(out, '\\');
        push_char(out, 't');
    } else {
        push_char(out, c);
    }
    proof {
        assert(out@ =~= before + escape_char(c));
    }
}

fn push_open(out: &mut String, d: Delimiter)
    ensures
        final(out)@ == old(out)@ + open_of(d),
{
    let ghost before = out@;
    match d {
        Delimiter::Parenthesis => push_char(out, '('),
        Delimiter::Brace => push_char(out, '{'),
        Delimiter::Bracket => push_char(out, '['),
        Delimiter::Invisible => {},
    }
    proof {
        assert(out@ =~= before + open_of(d));
    }
}

fn push_close(out: &mut String, d: Delimiter)
    ensures
        final(out)@ == old(out)@ + close_of(d),
{
    let ghost before = out@;
    match d {
        Delimiter::Parenthesis => push_char(out, ')'),
        Delimiter::Brace => push_char(out, '}'),
        Delimiter::Bracket => push_char(out, ']'),
        Delimiter::Invisible => {},
    }
    proof {
        assert(out@ =~= before + close_of(d));
    }
}

/// Writes the source text of a token tree.
pub fn render_tree(t: &TokenTree, out: &mut String)
    ensures
        final(out)@ == old(out)@ + source_tree(tv(*t)),
    decreases t, 0nat,
{
    let ghost before = out@;
    match t {
        TokenTree::Group(d, xs) => {
            push_open(out, *d);
            render_seq(xs, out);
            push_close(out, *d);
            proof {
                crate::tokens::lemma_tv_group(*d, *xs);
                assert(out@ =~= before + source_tree(tv(*t)));
            }
        },
        TokenTree::Ident(s) => {
            append_text(out, s);
        },
        TokenTree::Punct(c, _) => {
            push_char(out, *c);
            proof {
                assert(out@ =~= before + source_tree(tv(*t)));
            }
        },
        TokenTree::Literal(Lit::Str(s)) => {
            push_char(out, '"');
            push_escaped_str(out, s);
            push_char(out, '"');
            proof {
                assert(out@ =~= before + source_tree(tv(*t)));
            }
        },
        TokenTree::Literal(Lit::Char(c)) => {
            push_char(out, '\'');
            push_escaped_char(out, *c);
            push_char(out, '\'');
            proof {
                assert(out@ =~= before + source_tree(tv(*t)));
            }
        },
        TokenTree::Literal(Lit::Other(s)) => {
            append_text(out, s);
        },
    }
}

/// Writes the source text of a sequence of token trees.
pub fn render_seq(xs: &Vec<TokenTree>, out: &mut String)
    ensures
        final(out)@ == old(out)@ + source(tvs(xs@)),
    decreases xs, 1nat,
{
    let ghost before = out@;
    let ghost xsv = tvs(xs@);
    let mut i: usize = 0;
    proof {
        assert(out@ =~= before + source_seq(xsv, 0));
    }
    while i < xs.len()
        invariant
            i <= xs@.len(),
            xsv == tvs(xs@),
            out@ == before + source_seq(xsv, i as nat),
        decreases xs@.len() - i,
    {
        proof {
            assert(decreases_to!(xs => xs@[i as int]));
        }
        let ghost mid = out@;
        render_tree(&xs[i], out);
        let ghost after_tree = out@;
        match &xs[i] {
            TokenTree::Punct(_, Spacing::Joint) => {},
            _ => push_char(out, ' '),
        }
        proof {
            assert(xsv[i as int] == tv(xs@[i as int]));
            assert(out@ =~= before + source_seq(xsv, (i + 1) as nat));
        }
        i = i + 1;
    }
}

// ---------------------------------------------------------------- expressions

/// Whether `text` parses as one expression with `syn::parse_str::<syn::Expr>`.
/// Nothing is claimed of the answer: `syn` lexes the text again, with the
/// compiler's lexer inside a procedural macro and with its own elsewhere, so
/// the answer depends on the process as well as on the text.
#[verifier::external_body]
fn syn_parses_expr(text: &String) -> (r: bool) {
    syn::parse_str::<syn::Expr>(text.as_str()).is_ok()
}

/// The answer that was given for one expression: its tokens, and whether
/// they parse as one expression.
#[derive(Debug)]
pub struct ExprAnswer {
    pub tokens: Vec<TokenTree>,
    pub parses: bool,
}

#[verifier::ext_equal]
pub struct AnswerV {
    pub tokens: Seq<TokV>,
    pub parses: bool,
}

impl View for ExprAnswer {
    type V = AnswerV;

    open spec fn view(&self) -> AnswerV {
        AnswerV { tokens: tvs(self.tokens@), parses: self.parses }
    }
}

pub open spec fn answers_of(v: Seq<ExprAnswer>) -> Seq<AnswerV> {
    Seq::new(v.len(), |i: int| v[i]@)
}

/// The tokens that were asked about, in order.
pub open spec fn asked(ex: Seq<AnswerV>) -> Seq<Seq<TokV>> {
    Seq::new(ex.len(), |i: int| ex[i].tokens)
}

/// The answer for the tokens `b`: the first one given for them from `i`
/// on; tokens that were never asked about do not parse.
pub open spec fn answer_from(ex: Seq<AnswerV>, i: int, b: Seq<TokV>) -> bool
    decreases ex.len() - i,
{
    if i < 0 || i >= ex.len() {
        false
    } else if ex[i].tokens == b {
        ex[i].parses
    } else {
        answer_from(ex, i + 1, b)
    }
}

pub open spec fn answer(ex: Seq<AnswerV>, b: Seq<TokV>) -> bool {
    answer_from(ex, 0, b)
}

/// The answer given in `answers` for the tokens `b`.
pub fn lookup(answers: &Vec<ExprAnswer>, b: &Vec<TokenTree>) -> (r: bool)
    ensures
        r == answer(answers_of(answers@), tvs(b@)),
{
    let ghost ex = answers_of(answers@);
    let mut i: usize = 0;
    while i < answers.len()
        invariant
            i <= answers@.len(),
            ex == answers_of(answers@),
            answer(ex, tvs(b@)) == answer_from(ex, i as int, tvs(b@)),
        decreases answers@.len() - i,
    {
        if same_trees(&answers[i].tokens, b) {
            return answers[i].parses;
        }
        i = i + 1;
    }
    false
}

/// The expression `b`, given whether its text parses: tokens that are there
/// and parse.
pub open spec fn expr_result(b: Seq<TokV>, parses: bool) -> Result<Seq<TokV>, ParseError> {
    if b.len() > 0 && parses {
        Ok(b)
    } else {
        Err(ParseError::ExpectedExpr)
    }
}

/// An expression: tokens that are there and that, by the answers `ex`,
/// parse as one expression.
pub open spec fn expr_of(b: Seq<TokV>, ex: Seq<AnswerV>) -> Result<Seq<TokV>, ParseError> {
    expr_result(b, answer(ex, b))
}

/// The expression `b`, given whether its text parses as one.
pub fn expr_checked(b: &Vec<TokenTree>, parses: bool) -> (r: Result<Vec<TokenTree>, ParseError>)
    ensures
        expr_result(tvs(b@), parses) == (match r {
            Ok(v) => Ok(tvs(v@)),
            Err(e) => Err::<Seq<TokV>, ParseError>(e),
        }),
{
    if b.len() > 0 && parses {
        Ok(copy_trees(b))
    } else {
        Err(ParseError::ExpectedExpr)
    }
}

/// Reads the tokens `b` as an expression, by the answers given.
pub fn expr_in(b: &Vec<TokenTree>, answers: &Vec<ExprAnswer>) -> (r: Result<Vec<TokenTree>, ParseError>)
    ensures
        expr_of(tvs(b@), answers_of(answers@)) == (match r {
            Ok(v) => Ok(tvs(v@)),
            Err(e) => Err::<Seq<TokV>, ParseError>(e),
        }),
{
    let parses = lookup(answers, b);
    expr_checked(b, parses)
}

// ---------------------------------------------------------------- asking

/// The bodies of the parenthesized groups in a token tree, outer ones first,
/// in order: every place where an expression argument may stand.
pub open spec fn paren_bodies_tree(t: TokV) -> Seq<Seq<TokV>>
    decreases t, 0nat,
{
    match t {
        TokV::Group(d, xs) => if d == Delimiter::Parenthesis {
            seq![xs] + paren_bodies_seq(xs, xs.len())
        } else {
            paren_bodies_seq(xs, xs.len())
        },
        _ => seq![],
    }
}

pub open spec fn paren_bodies_seq(xs: Seq<TokV>, n: nat) -> Seq<Seq<TokV>>
    decreases xs, n,
{
    if n == 0 || n > xs.len() {
        seq![]
    } else {
        paren_bodies_seq(xs, (n - 1) as nat) + paren_bodies_tree(xs[n - 1])
    }
}

pub open spec fn paren_bodies(xs: Seq<TokV>) -> Seq<Seq<TokV>> {
    paren_bodies_seq(xs, xs.len())
}

fn push_answer(out: &mut Vec<ExprAnswer>, b: &Vec<TokenTree>)
    ensures
        asked(answers_of(final(out)@)) == asked(answers_of(old(out)@)).push(tvs(b@)),
{
    let mut text = String::new();
    render_seq(b, &mut text);
    let parses = syn_parses_expr(&text);
    let ghost before = out@;
    out.push(ExprAnswer { tokens: copy_trees(b), parses });
    proof {
        assert(asked(answers_of(out@)) =~= asked(answers_of(before)).push(tvs(b@)));
    }
}

fn ask_tree(t: &TokenTree, out: &mut Vec<ExprAnswer>)
    ensures
        asked(answers_of(final(out)@)) == asked(answers_of(old(out)@)) + paren_bodies_tree(tv(*t)),
    decreases t, 0nat,
{
    let ghost before = asked(answers_of(out@));
    match t {
        TokenTree::Group(d, xs) => {
            proof {
                crate::tokens::lemma_tv_group(*d, *xs);
            }
            if *d == Delimiter::Parenthesis {
                push_answer(out, xs);
            }
            ask_seq(xs, out);
            proof {
                assert(asked(answers_of(out@)) =~= before + paren_bodies_tree(tv(*t)));
            }
        },
        _ => {
            proof {
                assert(asked(answers_of(out@)) =~= before + paren_bodies_tree(tv(*t)));
            }
        },
    }
}

fn ask_seq(xs: &Vec<TokenTree>, out: &mut Vec<ExprAnswer>)
    ensures
        asked(answers_of(final(out)@)) == asked(answers_of(old(out)@)) + paren_bodies(tvs(xs@)),
    decreases xs, 1nat,
{
    let ghost before = asked(answers_of(out@));
    let ghost xsv = tvs(xs@);
    let mut i: usize = 0;
    proof {
        assert(asked(answers_of(out@)) =~= before + paren_bodies_seq(xsv, 0));
    }
    while i < xs.len()
        invariant
            i <= xs@.len(),
            xsv == tvs(xs@),
            asked(answers_of(out@)) == before + paren_bodies_seq(xsv, i as nat),
        decreases xs@.len() - i,
    {
        proof {
            assert(decreases_to!(xs => xs@[i as int]));
        }
        ask_tree(&xs[i], out);
        proof {
            assert(xsv[i as int] == tv(xs@[i as int]));
            assert(asked(answers_of(out@)) =~= before + paren_bodies_seq(xsv, (i + 1) as nat));
        }
        i = i + 1;
    }
}

/// Asks `syn`, for the body of each parenthesized group in `input`, whether
/// its source text parses as one expression. The tokens asked about are
/// stated; the answers are what `syn` gave.
pub fn ask_syn(input: &Vec<TokenTree>) -> (r: Vec<ExprAnswer>)
    ensures
        asked(answers_of(r@)) == paren_bodies(tvs(input@)),
{
    let mut out: Vec<ExprAnswer> = Vec::new();
    proof {
        assert(asked(answers_of(out@)) =~= seq![]);
    }
    ask_seq(input, &mut out);
    proof {
        assert(asked(answers_of(out@)) =~= paren_bodies(tvs(input@)));
    }
    out
}

} // verus!
