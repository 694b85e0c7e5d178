//! Text helpers: the default names derived from a type or variant name,
//! splitting doc comment lines into description, header and footer, and
//! decimal numbers.
use vstd::prelude::*;
use crate::model::texts_of;
use vstd::string::*;

verus! {

/// Appends `c` to `s` with `String::push`; the contract claims that the
/// text afterwards is the text before followed by `c`.
#[verifier::external_body]
pub(crate) fn push_char(s: &mut String, c: char)
    ensures
        final(s)@ == old(s)@.push(c),
{
    s.push(c)
}

pub open spec fn is_upper(c: char) -> bool {
    'A' <= c && c <= 'Z'
}

pub open spec fn to_lower(c: char) -> char {
    if is_upper(c) {
        ((c as u8) + 32u8) as char
    } else {
        c
    }
}

/// The name `s` with words separated by `sep`: an ASCII upper case letter
/// starts a new word (it is lowered, and `sep` goes before it unless it is
/// the first character), and `-` and `_` become `sep`.
pub open spec fn custom_case(s: Seq<char>, sep: char) -> Seq<char>
    decreases s.len(),
{
    if s.len() == 0 {
        seq![]
    } else {
        let prev = custom_case(s.drop_last(), sep);
        let c = s.last();
        if is_upper(c) {
            if prev.len() == 0 {
                seq![to_lower(c)]
            } else {
                prev.push(sep).push(to_lower(c))
            }
        } else if c == '-' || c == '_' {
            prev.push(sep)
        } else {
            prev.push(c)
        }
    }
}

pub open spec fn snake_case(s: Seq<char>) -> Seq<char> {
    custom_case(s, '_')
}

pub open spec fn kebab_case(s: Seq<char>) -> Seq<char> {
    custom_case(s, '-')
}

/// Each character of the name gives at least one character.
pub proof fn lemma_custom_case_len(s: Seq<char>, sep: char)
    ensures
        custom_case(s, sep).len() >= s.len(),
    decreases s.len(),
{
    if s.len() > 0 {
        lemma_custom_case_len(s.drop_last(), sep);
    }
}

fn lower_char(c: char) -> (r: char)
    requires
        is_upper(c),
    ensures
        r == to_lower(c),
{
    ((c as u8) + 32u8) as char
}

/// `custom_case` of `input`.
pub fn to_custom_case(input: &str, sep: char) -> (r: String)
    ensures
        r@ == custom_case(input@, sep),
{
    let n = input.unicode_len();
    let mut res = String::new();
    let mut i: usize = 0;
    while i < n
        invariant
            n == input@.len(),
            i <= n,
            res@ == custom_case(input@.subrange(0, i as int), sep),
        decreases n - i,
    {
        let c = input.get_char(i);
        proof {
            let pre = input@.subrange(0, i + 1);
            assert(pre.drop_last() =~= input@.subrange(0, i as int));
            assert(pre.last() == c);
        }
        if 'A' <= c && c <= 'Z' {
            if res.unicode_len() != 0 {
                push_char(&mut res, sep);
            }
            push_char(&mut res, lower_char(c));
        } else if c == '-' || c == '_' {
            push_char(&mut res, sep);
        } else {
            push_char(&mut res, c);
        }
        i = i + 1;
    }
    proof {
        assert(input@.subrange(0, n as int) =~= input@);
    }
    res
}

/// `snake_case` of `input`: the default name of a command, of a long name
/// and of the generated function.
pub fn to_snake_case(input: &str) -> (r: String)
    ensures
        r@ == snake_case(input@),
{
    to_custom_case(input, '_')
}

/// `kebab_case` of `input`: the default long name of a flag.
pub fn to_kebab_case(input: &str) -> (r: String)
    ensures
        r@ == kebab_case(input@),
{
    to_custom_case(input, '-')
}

/// The help text held by doc comment lines, in sections: consecutive lines
/// are joined with a newline, a single empty line is kept as a blank line
/// inside a section, and two consecutive empty lines end a section. Empty
/// sections are dropped.
pub open spec fn sections_from(
    lines: Seq<Seq<char>>,
    i: int,
    cur: Seq<char>,
    prev_empty: bool,
    out: Seq<Seq<char>>,
) -> Seq<Seq<char>>
    decreases lines.len() - i,
{
    if i >= lines.len() || i < 0 {
        if cur.len() > 0 {
            out.push(cur)
        } else {
            out
        }
    } else {
        let line = lines[i];
        if line.len() == 0 {
            if prev_empty {
                sections_from(lines, i + 1, seq![], false, if cur.len() > 0 { out.push(cur) } else { out })
            } else {
                sections_from(lines, i + 1, cur, true, out)
            }
        } else {
            let sep = if cur.len() == 0 {
                seq![]
            } else if prev_empty {
                seq!['\n', '\n']
            } else {
                seq!['\n']
            };
            sections_from(lines, i + 1, cur + sep + line, false, out)
        }
    }
}

pub open spec fn sections(lines: Seq<Seq<char>>) -> Seq<Seq<char>> {
    sections_from(lines, 0, seq![], false, seq![])
}

/// Appends the characters of `b` to `a`.
pub(crate) fn append_text(a: &mut String, b: &String)
    ensures
        final(a)@ == old(a)@ + b@,
{
    a.append(b.as_str());
}

/// The sections of the help text held by `lines` (see `sections_from`).
pub fn help_sections(lines: &Vec<String>) -> (r: Vec<String>)
    ensures
        texts_of(r@) == sections(texts_of(lines@)),
{
    let ghost ls = texts_of(lines@);
    let mut out: Vec<String> = Vec::new();
    let mut cur = String::new();
    let mut prev_empty = false;
    let mut i: usize = 0;
    proof {
        assert(cur@ =~= seq![]);
        assert(texts_of(out@) =~= seq![]);
    }
    while i < lines.len()
        invariant
            i <= lines@.len(),
            ls == texts_of(lines@),
            sections(ls) == sections_from(ls, i as int, cur@, prev_empty, texts_of(out@)),
        decreases lines@.len() - i,
    {
        let line = &lines[i];
        if line.unicode_len() == 0 {
            if prev_empty {
                if cur.unicode_len() > 0 {
                    let done = cur;
                    proof {
                        assert(texts_of(out@.push(done)) =~= texts_of(out@).push(done@));
                    }
                    out.push(done);
                }
                cur = String::new();
                proof {
                    assert(cur@ =~= seq![]);
                }
                prev_empty = false;
            } else {
                prev_empty = true;
            }
        } else {
            let ghost old_cur = cur@;
            if cur.unicode_len() != 0 {
                push_char(&mut cur, '\n');
                if prev_empty {
                    push_char(&mut cur, '\n');
                }
            }
            append_text(&mut cur, line);
            proof {
                if old_cur.len() == 0 {
                    assert(cur@ =~= old_cur + seq![] + line@);
                } else if prev_empty {
                    assert(cur@ =~= old_cur + seq!['\n', '\n'] + line@);
                } else {
                    assert(cur@ =~= old_cur + seq!['\n'] + line@);
                }
            }
            prev_empty = false;
        }
        i = i + 1;
    }
    if cur.unicode_len() > 0 {
        proof {
            assert(texts_of(out@.push(cur)) =~= texts_of(out@).push(cur@));
        }
        out.push(cur);
    }
    out
}

pub open spec fn digit(d: nat) -> char {
    (48 + d) as char
}

/// The decimal digits of `n`.
pub open spec fn decimal(n: nat) -> Seq<char>
    decreases n,
{
    if n < 10 {
        seq![digit(n)]
    } else {
        decimal(n / 10).push(digit(n % 10))
    }
}

fn digit_char(d: usize) -> (c: char)
    requires
        d < 10,
    ensures
        c == digit(d as nat),
{
    ((48u8 + (d as u8)) as char)
}

/// Appends the decimal digits of `n` to `s`.
pub fn push_decimal(s: &mut String, n: usize)
    ensures
        final(s)@ == old(s)@ + decimal(n as nat),
    decreases n,
{
    if n >= 10 {
        push_decimal(s, n / 10);
    }
    push_char(s, digit_char(n % 10));
    proof {
        if n < 10 {
            assert(final(s)@ =~= old(s)@ + decimal(n as nat));
        } else {
            assert(final(s)@ =~= old(s)@ + decimal(n as nat));
        }
    }
}

// ---------------------------------------------------------------- white space

/// Whether `c` is white space (`char::is_whitespace`: the characters with
/// the Unicode `White_Space` property).
pub open spec fn is_white(c: char) -> bool {
    ||| c == ' '
    ||| ('\t' <= c && c <= '\r')
    ||| c == '\u{85}'
    ||| c == '\u{A0}'
    ||| c == '\u{1680}'
    ||| ('\u{2000}' <= c && c <= '\u{200A}')
    ||| c == '\u{2028}'
    ||| c == '\u{2029}'
    ||| c == '\u{202F}'
    ||| c == '\u{205F}'
    ||| c == '\u{3000}'
}

/// `s` without the white space it starts with.
pub open spec fn trim_start(s: Seq<char>) -> Seq<char>
    decreases s.len(),
{
    if s.len() > 0 && is_white(s[0]) {
        trim_start(s.drop_first())
    } else {
        s
    }
}

fn white(c: char) -> (r: bool)
    ensures
        r == is_white(c),
{
    c == ' ' || ('\t' <= c && c <= '\r') || c == '\u{85}' || c == '\u{A0}' || c == '\u{1680}' || ('\u{2000}'
        <= c && c <= '\u{200A}') || c == '\u{2028}' || c == '\u{2029}' || c == '\u{202F}' || c == '\u{205F}'
        || c == '\u{3000}'
}

/// The text of `s` without the white space it starts with.
pub fn trim_start_text(s: &String) -> (r: String)
    ensures
        r@ == trim_start(s@),
{
    let n = s.as_str().unicode_len();
    let mut i: usize = 0;
    proof {
        assert(s@.subrange(0, n as int) =~= s@);
    }
    while i < n && white(s.as_str().get_char(i))
        invariant
            n == s@.len(),
            i <= n,
            trim_start(s@) == trim_start(s@.subrange(i as int, n as int)),
        decreases n - i,
    {
        proof {
            let rest = s@.subrange(i as int, n as int);
            assert(rest.drop_first() =~= s@.subrange(i + 1, n as int));
        }
        i = i + 1;
    }
    let mut r = String::new();
    let mut k: usize = i;
    proof {
        assert(r@ =~= s@.subrange(i as int, i as int));
    }
    while k < n
        invariant
            n == s@.len(),
            i <= k <= n,
            r@ == s@.subrange(i as int, k as int),
        decreases n - k,
    {
        push_char(&mut r, s.as_str().get_char(k));
        proof {
            assert(r@ =~= s@.subrange(i as int, k + 1));
        }
        k = k + 1;
    }
    proof {
        let rest = s@.subrange(i as int, n as int);
        assert(r@ == rest);
        if i < n {
            assert(rest[0] == s@[i as int]);
        }
    }
    r
}

} // verus!
