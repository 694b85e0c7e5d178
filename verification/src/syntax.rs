//! The token-level grammar of the derive input: attributes, visibility,
//! attribute arguments and field lists. Each reader is a spec function over
//! token values with a cursor, and an executable function that meets it.
use crate::model::{attrs_of, texts_of, tvss, Attribute, AttributeV, ParseError};
use crate::tokens::{
    lemma_tv_group, same_text, tv, tvs, Delimiter, Lit, Spacing, TokV, TokenTree,
};
use crate::text::push_char;
use vstd::prelude::*;

verus! {

pub open spec fn is_punct(t: TokV, c: char) -> bool {
    t matches TokV::Punct(c2, _) && c2 == c
}

pub open spec fn is_group(t: TokV, d: Delimiter) -> bool {
    t matches TokV::Group(d2, _) && d2 == d
}

pub open spec fn body(t: TokV) -> Seq<TokV> {
    t->Group_1
}

/// An identifier: an `Ident` token with a name.
pub open spec fn is_word(t: TokV) -> bool {
    t matches TokV::Ident(x) && x.len() > 0
}

pub open spec fn word(t: TokV) -> Seq<char> {
    t->Ident_0
}

/// Whether `s` holds, at `i`, the punctuation `c`.
pub fn punct_at(s: &Vec<TokenTree>, i: usize, c: char) -> (r: bool)
    ensures
        r == (i < s@.len() && is_punct(tvs(s@)[i as int], c)),
{
    if i < s.len() {
        match &s[i] {
            TokenTree::Punct(ch, _) => *ch == c,
            _ => false,
        }
    } else {
        false
    }
}

/// Whether `s` holds, at `i`, the punctuation `c` joined to the next one.
pub fn joint_punct_at(s: &Vec<TokenTree>, i: usize, c: char) -> (r: bool)
    ensures
        r == (i < s@.len() && tvs(s@)[i as int] == TokV::Punct(c, Spacing::Joint)),
{
    if i < s.len() {
        match &s[i] {
            TokenTree::Punct(ch, Spacing::Joint) => *ch == c,
            _ => false,
        }
    } else {
        false
    }
}

/// The body of the group delimited by `d` at `i` in `s`, if there is one.
pub fn group_at<'a>(s: &'a Vec<TokenTree>, i: usize, d: Delimiter) -> (r: Option<&'a Vec<TokenTree>>)
    ensures
        r is Some <==> (i < s@.len() && is_group(tvs(s@)[i as int], d)),
        r is Some ==> i < s.len(),
        r matches Some(b) ==> tvs(b@) == body(tvs(s@)[i as int]),
{
    if i < s.len() {
        match &s[i] {
            TokenTree::Group(d2, b) => {
                proof {
                    lemma_tv_group(*d2, *b);
                }
                if *d2 == d {
                    Some(b)
                } else {
                    None
                }
            },
            _ => None,
        }
    } else {
        None
    }
}

/// The identifier at `i` in `s`, if there is one.
pub fn word_at<'a>(s: &'a Vec<TokenTree>, i: usize) -> (r: Option<&'a String>)
    ensures
        r is Some <==> (i < s@.len() && is_word(tvs(s@)[i as int])),
        r is Some ==> i < s.len(),
        r matches Some(w) ==> w@ == word(tvs(s@)[i as int]),
{
    if i < s.len() {
        match &s[i] {
            TokenTree::Ident(w) => {
                if w.unicode_len() > 0 {
                    Some(w)
                } else {
                    None
                }
            },
            _ => None,
        }
    } else {
        None
    }
}

/// The words that cannot be an identifier: `_`, and the keywords, strict and
/// reserved, that `syn` refuses where it reads an identifier.
pub open spec fn is_keyword(s: Seq<char>) -> bool {
    ||| s == "_"@
    ||| s == "abstract"@
    ||| s == "as"@
    ||| s == "become"@
    ||| s == "box"@
    ||| s == "break"@
    ||| s == "const"@
    ||| s == "continue"@
    ||| s == "crate"@
    ||| s == "do"@
    ||| s == "else"@
    ||| s == "enum"@
    ||| s == "extern"@
    ||| s == "false"@
    ||| s == "final"@
    ||| s == "fn"@
    ||| s == "for"@
    ||| s == "if"@
    ||| s == "impl"@
    ||| s == "in"@
    ||| s == "let"@
    ||| s == "loop"@
    ||| s == "macro"@
    ||| s == "match"@
    ||| s == "mod"@
    ||| s == "move"@
    ||| s == "mut"@
    ||| s == "override"@
    ||| s == "priv"@
    ||| s == "pub"@
    ||| s == "ref"@
    ||| s == "return"@
    ||| s == "Self"@
    ||| s == "self"@
    ||| s == "static"@
    ||| s == "struct"@
    ||| s == "super"@
    ||| s == "trait"@
    ||| s == "true"@
    ||| s == "type"@
    ||| s == "typeof"@
    ||| s == "unsafe"@
    ||| s == "unsized"@
    ||| s == "use"@
    ||| s == "virtual"@
    ||| s == "where"@
    ||| s == "while"@
    ||| s == "yield"@
}

/// An identifier that is no keyword: what may name a type, a variant, an
/// attribute's keyword or a generated function.
pub open spec fn is_name(t: TokV) -> bool {
    is_word(t) && !is_keyword(word(t))
}

fn keyword_text(s: &String) -> (r: bool)
    ensures
        r == is_keyword(s@),
{
    same_text(s, "_") || same_text(s, "abstract") || same_text(s, "as")
        || same_text(s, "become") || same_text(s, "box") || same_text(s, "break")
        || same_text(s, "const") || same_text(s, "continue") || same_text(s, "crate")
        || same_text(s, "do") || same_text(s, "else") || same_text(s, "enum")
        || same_text(s, "extern") || same_text(s, "false") || same_text(s, "final")
        || same_text(s, "fn") || same_text(s, "for") || same_text(s, "if")
        || same_text(s, "impl") || same_text(s, "in") || same_text(s, "let")
        || same_text(s, "loop") || same_text(s, "macro") || same_text(s, "match")
        || same_text(s, "mod") || same_text(s, "move") || same_text(s, "mut")
        || same_text(s, "override") || same_text(s, "priv") || same_text(s, "pub")
        || same_text(s, "ref") || same_text(s, "return") || same_text(s, "Self")
        || same_text(s, "self") || same_text(s, "static") || same_text(s, "struct")
        || same_text(s, "super") || same_text(s, "trait") || same_text(s, "true")
        || same_text(s, "type") || same_text(s, "typeof") || same_text(s, "unsafe")
        || same_text(s, "unsized") || same_text(s, "use") || same_text(s, "virtual")
        || same_text(s, "where") || same_text(s, "while") || same_text(s, "yield")
}

/// The identifier at `i` in `s` that is no keyword, if there is one.
pub fn name_at<'a>(s: &'a Vec<TokenTree>, i: usize) -> (r: Option<&'a String>)
    ensures
        r is Some <==> (i < s@.len() && is_name(tvs(s@)[i as int])),
        r is Some ==> i < s.len(),
        r matches Some(w) ==> w@ == word(tvs(s@)[i as int]),
{
    match word_at(s, i) {
        Some(w) => {
            if keyword_text(w) {
                None
            } else {
                Some(w)
            }
        },
        None => None,
    }
}

/// Whether `s` holds, at `i`, the identifier `k`.
pub fn keyword_at(s: &Vec<TokenTree>, i: usize, k: &str) -> (r: bool)
    ensures
        r == (i < s@.len() && tvs(s@)[i as int] == TokV::Ident(k@)),
{
    if i < s.len() {
        match &s[i] {
            TokenTree::Ident(w) => crate::tokens::same_text(w, k),
            _ => false,
        }
    } else {
        false
    }
}

/// The tokens of `s` from `i` to `j`.
pub fn copy_range(s: &Vec<TokenTree>, i: usize, j: usize) -> (r: Vec<TokenTree>)
    requires
        i <= j <= s@.len(),
    ensures
        tvs(r@) == tvs(s@).subrange(i as int, j as int),
{
    let mut r: Vec<TokenTree> = Vec::new();
    let mut k = i;
    while k < j
        invariant
            i <= k <= j <= s@.len(),
            tvs(r@) == tvs(s@).subrange(i as int, k as int),
        decreases j - k,
    {
        let t = crate::tokens::copy_tree(&s[k]);
        proof {
            crate::tokens::lemma_tvs_push(r@, t);
            assert(tvs(s@).subrange(i as int, k + 1) =~= tvs(s@).subrange(i as int, k as int).push(
                tv(s@[k as int]),
            ));
        }
        r.push(t);
        k = k + 1;
    }
    r
}

// ---------------------------------------------------------------- attributes

/// A path: identifiers separated by `::`.
pub open spec fn spec_path(c: Seq<TokV>, j: int, acc: Seq<Seq<char>>) -> Result<
    (Seq<Seq<char>>, int),
    ParseError,
>
    decreases c.len() - j,
{
    if 0 <= j < c.len() && is_word(c[j]) {
        let acc2 = acc.push(word(c[j]));
        if j + 3 < c.len() && c[j + 1] == TokV::Punct(':', Spacing::Joint) && is_punct(c[j + 2], ':') {
            spec_path(c, j + 3, acc2)
        } else {
            Ok((acc2, j + 1))
        }
    } else {
        Err(ParseError::ExpectedIdent)
    }
}

/// The content of `#[..]`: a path, then the attribute's tokens.
pub open spec fn spec_attr_body(c: Seq<TokV>) -> Result<AttributeV, ParseError> {
    match spec_path(c, 0, seq![]) {
        Ok((p, j)) => Ok(AttributeV { path: p, tokens: c.subrange(j, c.len() as int) }),
        Err(e) => Err(e),
    }
}

/// The outer attributes `#[..]` from `i` on.
pub open spec fn spec_attrs(s: Seq<TokV>, i: int, acc: Seq<AttributeV>) -> Result<
    (Seq<AttributeV>, int),
    ParseError,
>
    decreases s.len() - i,
{
    if 0 <= i < s.len() && is_punct(s[i], '#') {
        if i + 1 < s.len() && is_group(s[i + 1], Delimiter::Bracket) {
            match spec_attr_body(body(s[i + 1])) {
                Ok(a) => spec_attrs(s, i + 2, acc.push(a)),
                Err(e) => Err(e),
            }
        } else {
            Err(ParseError::ExpectedBrackets)
        }
    } else {
        Ok((acc, i))
    }
}

fn parse_attr_body(c: &Vec<TokenTree>) -> (r: Result<Attribute, ParseError>)
    ensures
        spec_attr_body(tvs(c@)) == (match r {
            Ok(a) => Ok(a@),
            Err(e) => Err::<AttributeV, ParseError>(e),
        }),
{
    let ghost cs = tvs(c@);
    let mut path: Vec<String> = Vec::new();
    let mut j: usize = 0;
    proof {
        assert(texts_of(path@) =~= seq![]);
    }
    loop
        invariant
            cs == tvs(c@),
            j <= c@.len(),
            spec_path(cs, 0, seq![]) == spec_path(cs, j as int, texts_of(path@)),
        decreases c@.len() - j,
    {
        match word_at(c, j) {
            Some(w) => {
                let ghost old_path = texts_of(path@);
                path.push(w.clone());
                proof {
                    assert(texts_of(path@) =~= old_path.push(w@));
                }
                if c.len() - j > 3 && joint_punct_at(c, j + 1, ':') && punct_at(c, j + 2, ':') {
                    j = j + 3;
                } else {
                    let tokens = copy_range(c, j + 1, c.len());
                    return Ok(Attribute { path, tokens });
                }
            },
            None => {
                return Err(ParseError::ExpectedIdent);
            },
        }
    }
}

/// Reads the outer attributes `#[..]` from `i` on; gives them and the index
/// after them.
pub fn parse_attrs(s: &Vec<TokenTree>, i: usize) -> (r: Result<(Vec<Attribute>, usize), ParseError>)
    requires
        i <= s@.len(),
    ensures
        spec_attrs(tvs(s@), i as int, seq![]) == (match r {
            Ok((v, j)) => Ok((attrs_of(v@), j as int)),
            Err(e) => Err::<(Seq<AttributeV>, int), ParseError>(e),
        }),
        r matches Ok((v, j)) ==> i <= j <= s@.len(),
{
    let ghost ss = tvs(s@);
    let mut out: Vec<Attribute> = Vec::new();
    let mut k = i;
    proof {
        assert(attrs_of(out@) =~= seq![]);
    }
    while k < s.len() && punct_at(s, k, '#')
        invariant
            ss == tvs(s@),
            i <= k <= s@.len(),
            spec_attrs(ss, i as int, seq![]) == spec_attrs(ss, k as int, attrs_of(out@)),
        decreases s@.len() - k,
    {
        match group_at(s, k + 1, Delimiter::Bracket) {
            Some(b) => {
                match parse_attr_body(b) {
                    Ok(a) => {
                        let ghost old_out = attrs_of(out@);
                        out.push(a);
                        proof {
                            assert(attrs_of(out@) =~= old_out.push(a@));
                        }
                        k = k + 2;
                    },
                    Err(e) => {
                        return Err(e);
                    },
                }
            },
            None => {
                return Err(ParseError::ExpectedBrackets);
            },
        }
    }
    Ok((out, k))
}

// ---------------------------------------------------------------- visibility

/// A restricted visibility's parentheses: `(crate)`, `(self)`, `(super)` or
/// `(in path)`.
pub open spec fn is_restriction(b: Seq<TokV>) -> bool {
    b.len() >= 1 && (b[0] == TokV::Ident("in"@) || (b.len() == 1 && (b[0] == TokV::Ident("crate"@)
        || b[0] == TokV::Ident("self"@) || b[0] == TokV::Ident("super"@))))
}

/// The end of the visibility that starts at `i`: `pub`, `pub(..)`, `crate`,
/// or nothing.
pub open spec fn spec_vis_end(s: Seq<TokV>, i: int) -> int {
    if 0 <= i < s.len() && s[i] == TokV::Ident("pub"@) {
        if i + 1 < s.len() && is_group(s[i + 1], Delimiter::Parenthesis) && is_restriction(
            body(s[i + 1]),
        ) {
            i + 2
        } else {
            i + 1
        }
    } else if 0 <= i < s.len() && s[i] == TokV::Ident("crate"@) && !(i + 1 < s.len() && is_punct(
        s[i + 1],
        ':',
    )) {
        i + 1
    } else {
        i
    }
}

/// The end of the visibility that starts at `i` in `s`.
pub fn vis_end(s: &Vec<TokenTree>, i: usize) -> (j: usize)
    requires
        i <= s@.len(),
    ensures
        j as int == spec_vis_end(tvs(s@), i as int),
        i <= j <= s@.len(),
{
    if i < s.len() && keyword_at(s, i, "pub") {
        match group_at(s, i + 1, Delimiter::Parenthesis) {
            Some(b) => {
                let restricted = keyword_at(b, 0, "in") || (b.len() == 1 && (keyword_at(b, 0, "crate")
                    || keyword_at(b, 0, "self") || keyword_at(b, 0, "super")));
                if restricted {
                    i + 2
                } else {
                    i + 1
                }
            },
            None => i + 1,
        }
    } else if i < s.len() && keyword_at(s, i, "crate") && !punct_at(s, i + 1, ':') {
        i + 1
    } else {
        i
    }
}

// ---------------------------------------------------------------- arguments

/// A string literal alone.
pub open spec fn lit_str_of(b: Seq<TokV>) -> Result<Seq<char>, ParseError> {
    if b.len() > 0 && b[0] is Str {
        if b.len() == 1 {
            Ok(b[0]->Str_0)
        } else {
            Err(ParseError::UnexpectedToken)
        }
    } else {
        Err(ParseError::ExpectedStrLit)
    }
}

/// A char literal alone.
pub open spec fn lit_char_of(b: Seq<TokV>) -> Result<char, ParseError> {
    if b.len() > 0 && b[0] is Char {
        if b.len() == 1 {
            Ok(b[0]->Char_0)
        } else {
            Err(ParseError::UnexpectedToken)
        }
    } else {
        Err(ParseError::ExpectedCharLit)
    }
}

/// An identifier alone.
pub open spec fn ident_of(b: Seq<TokV>) -> Result<Seq<char>, ParseError> {
    if b.len() > 0 && is_name(b[0]) {
        if b.len() == 1 {
            Ok(word(b[0]))
        } else {
            Err(ParseError::UnexpectedToken)
        }
    } else {
        Err(ParseError::ExpectedIdent)
    }
}


/// The body of the parentheses at `j`, if there are any.
pub open spec fn opt_paren(c: Seq<TokV>, j: int) -> Option<Seq<TokV>> {
    if 0 <= j < c.len() && is_group(c[j], Delimiter::Parenthesis) {
        Some(body(c[j]))
    } else {
        None
    }
}

pub fn lit_str_in(b: &Vec<TokenTree>) -> (r: Result<String, ParseError>)
    ensures
        lit_str_of(tvs(b@)) == (match r {
            Ok(v) => Ok(v@),
            Err(e) => Err::<Seq<char>, ParseError>(e),
        }),
{
    if b.len() > 0 {
        match &b[0] {
            TokenTree::Literal(Lit::Str(v)) => {
                if b.len() == 1 {
                    Ok(v.clone())
                } else {
                    Err(ParseError::UnexpectedToken)
                }
            },
            _ => Err(ParseError::ExpectedStrLit),
        }
    } else {
        Err(ParseError::ExpectedStrLit)
    }
}

pub fn lit_char_in(b: &Vec<TokenTree>) -> (r: Result<char, ParseError>)
    ensures
        lit_char_of(tvs(b@)) == r,
{
    if b.len() > 0 {
        match &b[0] {
            TokenTree::Literal(Lit::Char(v)) => {
                if b.len() == 1 {
                    Ok(*v)
                } else {
                    Err(ParseError::UnexpectedToken)
                }
            },
            _ => Err(ParseError::ExpectedCharLit),
        }
    } else {
        Err(ParseError::ExpectedCharLit)
    }
}

pub fn ident_in(b: &Vec<TokenTree>) -> (r: Result<String, ParseError>)
    ensures
        ident_of(tvs(b@)) == (match r {
            Ok(v) => Ok(v@),
            Err(e) => Err::<Seq<char>, ParseError>(e),
        }),
{
    match name_at(b, 0) {
        Some(w) => {
            if b.len() == 1 {
                Ok(w.clone())
            } else {
                Err(ParseError::UnexpectedToken)
            }
        },
        None => Err(ParseError::ExpectedIdent),
    }
}


// ---------------------------------------------------------------- fields

/// Where the field declaration that starts at `j` ends: at the first comma
/// outside angle brackets (a `>` that closes `->` is no angle bracket), or
/// at the end.
pub open spec fn field_end(c: Seq<TokV>, j: int, depth: int) -> int
    decreases c.len() - j,
{
    if j < 0 || j >= c.len() {
        c.len() as int
    } else if is_punct(c[j], ',') && depth <= 0 {
        j
    } else if is_punct(c[j], '<') {
        field_end(c, j + 1, depth + 1)
    } else if is_punct(c[j], '>') && !(j > 0 && c[j - 1] == TokV::Punct('-', Spacing::Joint)) {
        field_end(c, j + 1, depth - 1)
    } else {
        field_end(c, j + 1, depth)
    }
}

pub proof fn lemma_field_end(c: Seq<TokV>, j: int, depth: int)
    requires
        0 <= j <= c.len(),
    ensures
        j <= field_end(c, j, depth) <= c.len(),
        field_end(c, j, depth) < c.len() ==> is_punct(c[field_end(c, j, depth)], ','),
    decreases c.len() - j,
{
    if j < c.len() {
        if is_punct(c[j], ',') && depth <= 0 {
        } else if is_punct(c[j], '<') {
            lemma_field_end(c, j + 1, depth + 1);
        } else if is_punct(c[j], '>') && !(j > 0 && c[j - 1] == TokV::Punct('-', Spacing::Joint)) {
            lemma_field_end(c, j + 1, depth - 1);
        } else {
            lemma_field_end(c, j + 1, depth);
        }
    }
}

/// The field declarations from `j` on, separated by commas, with an
/// optional comma at the end.
pub open spec fn spec_fields_from(c: Seq<TokV>, j: int, acc: Seq<Seq<TokV>>) -> Result<
    Seq<Seq<TokV>>,
    ParseError,
>
    decreases c.len() - j,
{
    if j < 0 || j >= c.len() {
        Ok(acc)
    } else {
        let e = field_end(c, j, 0);
        if e <= j || e > c.len() {
            Err(ParseError::ExpectedField)
        } else {
            let acc2 = acc.push(c.subrange(j, e));
            if e >= c.len() {
                Ok(acc2)
            } else {
                spec_fields_from(c, e + 1, acc2)
            }
        }
    }
}

fn find_field_end(c: &Vec<TokenTree>, j: usize) -> (e: usize)
    requires
        j <= c@.len(),
    ensures
        e as int == field_end(tvs(c@), j as int, 0),
{
    let ghost cs = tvs(c@);
    let mut k = j;
    let mut depth: i128 = 0;
    while k < c.len()
        invariant
            cs == tvs(c@),
            j <= k <= c@.len(),
            -(k as int) <= depth <= k as int,
            field_end(cs, j as int, 0) == field_end(cs, k as int, depth as int),
        decreases c@.len() - k,
    {
        if punct_at(c, k, ',') && depth <= 0 {
            return k;
        } else if punct_at(c, k, '<') {
            depth = depth + 1;
        } else if punct_at(c, k, '>') && !(k > 0 && joint_punct_at(c, k - 1, '-')) {
            depth = depth - 1;
        }
        k = k + 1;
    }
    k
}

/// Reads the field declarations of the body `c` of a brace or parenthesis
/// group.
pub fn parse_field_list(c: &Vec<TokenTree>) -> (r: Result<Vec<Vec<TokenTree>>, ParseError>)
    ensures
        spec_fields_from(tvs(c@), 0, seq![]) == (match r {
            Ok(v) => Ok(tvss(v@)),
            Err(e) => Err::<Seq<Seq<TokV>>, ParseError>(e),
        }),
{
    let ghost cs = tvs(c@);
    let mut out: Vec<Vec<TokenTree>> = Vec::new();
    let mut j: usize = 0;
    proof {
        assert(tvss(out@) =~= seq![]);
    }
    while j < c.len()
        invariant
            cs == tvs(c@),
            j <= c@.len(),
            spec_fields_from(cs, 0, seq![]) == spec_fields_from(cs, j as int, tvss(out@)),
        decreases c@.len() - j,
    {
        let e = find_field_end(c, j);
        proof {
            lemma_field_end(cs, j as int, 0);
        }
        if e <= j {
            return Err(ParseError::ExpectedField);
        }
        let f = copy_range(c, j, e);
        let ghost old_out = tvss(out@);
        out.push(f);
        proof {
            assert(tvss(out@) =~= old_out.push(cs.subrange(j as int, e as int)));
        }
        if e >= c.len() {
            return Ok(out);
        }
        j = e + 1;
    }
    Ok(out)
}

} // verus!
