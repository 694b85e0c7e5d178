//! What holds of every input: properties of the naming rules, of the
//! attributes once read, and of the generated code.
use crate::attrs::{
    empty_inner, init_outer, is_path, spec_args, spec_doc, spec_inner_args, spec_inner_attrs,
    spec_inner_make, spec_outer_args, spec_outer_attrs, spec_outer_make,
};
use crate::codegen::{alt_name, alt_names, bparser_code, id, pa};
use crate::model::{lemma_push, AttributeV, BParserV, ConstrNameV, InnerV, Outcome, OuterKindV, OuterV, ParserKindV};
use crate::text::{custom_case, decimal, digit, is_upper, kebab_case, snake_case, to_lower};
use crate::top::{long_names, short_flag_names, spec_decorate, spec_make2};
use crate::source::AnswerV;
use crate::attrs::{decor_new, inner_step, outer_step};
use crate::codegen::{constr_code, name_code, names_code, reqflag_code};
use crate::model::{CommandAttrV, FieldsV, NameV, OParserV, ParseError, ReqFlagV};
use crate::syntax::{body, field_end, is_group, is_punct};
use crate::top::spec_variant;
use crate::tokens::{Delimiter, Spacing, TokV};
use vstd::prelude::*;

verus! {

// ---------------------------------------------------------------- names

proof fn lemma_decimal_len(n: nat)
    ensures
        decimal(n).len() >= 1,
        n >= 10 ==> decimal(n).len() >= 2,
    decreases n,
{
    if n >= 10 {
        lemma_decimal_len(n / 10);
    }
}

proof fn lemma_digit_injective(a: nat, b: nat)
    requires
        a < 10,
        b < 10,
        digit(a) == digit(b),
    ensures
        a == b,
{
    assert(digit(a) as int == 48 + a);
    assert(digit(b) as int == 48 + b);
}

proof fn lemma_decimal_injective(a: nat, b: nat)
    requires
        decimal(a) == decimal(b),
    ensures
        a == b,
    decreases a,
{
    lemma_decimal_len(a);
    lemma_decimal_len(b);
    if a < 10 && b < 10 {
        assert(decimal(a)[0] == digit(a));
        assert(decimal(b)[0] == digit(b));
        lemma_digit_injective(a, b);
    } else if a >= 10 && b >= 10 {
        let da = decimal(a / 10);
        let db = decimal(b / 10);
        assert(decimal(a).drop_last() =~= da);
        assert(decimal(b).drop_last() =~= db);
        lemma_decimal_injective(a / 10, b / 10);
        assert(decimal(a).last() == digit(a % 10));
        assert(decimal(b).last() == digit(b % 10));
        lemma_digit_injective(a % 10, b % 10);
    }
}

/// The alternatives of an enum are bound to variables with distinct names,
/// so that none hides another.
pub proof fn law_alternatives_distinct(i: nat, j: nat)
    requires
        i != j,
    ensures
        alt_name(i) != alt_name(j),
{
    reveal_strlit("alt");
    if alt_name(i) == alt_name(j) {
        let a = alt_name(i);
        let b = alt_name(j);
        assert(a.subrange(3, a.len() as int) =~= decimal(i));
        assert(b.subrange(3, b.len() as int) =~= decimal(j));
        lemma_decimal_injective(i, j);
    }
}

/// The alternatives listed in `construct!([..])` are all the variables
/// `alt0` to `alt<n-1>`, in order, separated by commas.
pub proof fn law_alternatives_in_order(n: nat)
    requires
        n > 0,
    ensures
        alt_names(n).len() == 2 * n - 1,
        forall|k: int| 0 <= k < n ==> #[trigger] alt_names(n)[2 * k] == id(alt_name(k as nat)),
        forall|k: int| 0 <= k < n - 1 ==> #[trigger] alt_names(n)[2 * k + 1] == pa(','),
    decreases n,
{
    if n > 1 {
        law_alternatives_in_order((n - 1) as nat);
        let prev = alt_names((n - 1) as nat);
        assert(alt_names(n) == prev + seq![pa(',')] + seq![id(alt_name((n - 1) as nat))]);
        assert forall|k: int| 0 <= k < n implies #[trigger] alt_names(n)[2 * k] == id(alt_name(k as nat)) by {
            if k < n - 1 {
                assert(alt_names(n)[2 * k] == prev[2 * k]);
            }
        }
        assert forall|k: int| 0 <= k < n - 1 implies #[trigger] alt_names(n)[2 * k + 1] == pa(',') by {
            if k < n - 2 {
                assert(alt_names(n)[2 * k + 1] == prev[2 * k + 1]);
            }
        }
    } else {
        assert(alt_names(0) =~= seq![]);
        assert(alt_names(1) =~= seq![id(alt_name(0))]);
    }
}

proof fn lemma_lower_is_lower(c: char)
    requires
        is_upper(c),
    ensures
        !is_upper(to_lower(c)),
{
    assert(65 <= c as int <= 90);
    assert(c as u8 as int == c as int);
}

/// A name in snake or kebab case (`sep` being `_` or `-`) has no ASCII
/// upper case letter.
pub proof fn law_case_is_lower(s: Seq<char>, sep: char)
    requires
        !is_upper(sep),
    ensures
        forall|i: int| 0 <= i < custom_case(s, sep).len() ==> !is_upper(#[trigger] custom_case(s, sep)[i]),
    decreases s.len(),
{
    if s.len() > 0 {
        law_case_is_lower(s.drop_last(), sep);
        let prev = custom_case(s.drop_last(), sep);
        let c = s.last();
        let r = custom_case(s, sep);
        if is_upper(c) {
            lemma_lower_is_lower(c);
            if prev.len() > 0 {
                lemma_push(prev, sep);
                lemma_push(prev.push(sep), to_lower(c));
                assert forall|i: int| 0 <= i < r.len() implies !is_upper(#[trigger] r[i]) by {
                    if i < prev.len() {
                        assert(r[i] == prev[i]);
                    }
                }
            }
        } else {
            let x = if c == '-' || c == '_' { sep } else { c };
            lemma_push(prev, x);
            assert(r == prev.push(x));
            assert forall|i: int| 0 <= i < r.len() implies !is_upper(#[trigger] r[i]) by {
                if i < prev.len() {
                    assert(r[i] == prev[i]);
                }
            }
        }
    }
}

/// The default names are lower case: the function's name and a command's
/// (snake case), and a flag's long name (kebab case).
pub proof fn law_default_names_lower(s: Seq<char>)
    ensures
        forall|i: int| 0 <= i < snake_case(s).len() ==> !is_upper(#[trigger] snake_case(s)[i]),
        forall|i: int| 0 <= i < kebab_case(s).len() ==> !is_upper(#[trigger] kebab_case(s)[i]),
{
    law_case_is_lower(s, '_');
    law_case_is_lower(s, '-');
}

// ---------------------------------------------------------------- attributes

/// Once a variant's attributes are read (whatever the answers on which
/// arguments are expressions), the short and long names of a command variant
/// are all on the command: none is left on the variant.
pub proof fn law_command_variant_takes_aliases(ty: Seq<char>, attrs: Seq<crate::model::AttributeV>, ex: Seq<AnswerV>)
    ensures
        spec_inner_make(ty, attrs, ex) matches Ok(inner) ==> (inner.command is Some ==> inner.shorts.len() == 0
            && inner.longs.len() == 0),
{
}

/// Once a type's attributes are read, its version is in the decoration and
/// no short or long name is left outside a command.
pub proof fn law_outer_settled(ty: Seq<char>, vis: Seq<TokV>, attrs: Seq<crate::model::AttributeV>, ex: Seq<AnswerV>)
    ensures
        spec_outer_make(ty, vis, attrs, ex) matches Outcome::Done(o) ==> o.version is None && o.shorts.len() == 0
            && o.longs.len() == 0,
{
}

// ---------------------------------------------------------------- other attributes

/// Whether the derive reads the attribute `a`: a doc line or `bpaf`.
pub open spec fn is_read(a: AttributeV) -> bool {
    is_path(a, "doc"@) || is_path(a, "bpaf"@)
}

/// The attributes of `attrs` that the derive reads, in order.
pub open spec fn read_attrs(attrs: Seq<AttributeV>) -> Seq<AttributeV>
    decreases attrs.len(),
{
    if attrs.len() == 0 {
        seq![]
    } else if is_read(attrs[0]) {
        seq![attrs[0]] + read_attrs(attrs.drop_first())
    } else {
        read_attrs(attrs.drop_first())
    }
}

proof fn lemma_inner_attrs_shift(s: Seq<AttributeV>, k: int, st: InnerV, ty: Seq<char>, ex: Seq<AnswerV>)
    requires
        0 <= k <= s.len(),
    ensures
        spec_inner_attrs(s, k, st, ty, ex) == spec_inner_attrs(s.subrange(k, s.len() as int), 0, st, ty, ex),
    decreases s.len() - k, 0int,
{
    let sub = s.subrange(k, s.len() as int);
    if k < s.len() {
        assert(sub[0] == s[k]);
        assert(sub.subrange(1, sub.len() as int) =~= s.subrange(k + 1, s.len() as int));
        let a = s[k];
        if is_path(a, "doc"@) {
            if let Ok(d) = spec_doc(a.tokens) {
                let st2 = InnerV { help: st.help.push(d), ..st };
                lemma_inner_attrs_shift(s, k + 1, st2, ty, ex);
                lemma_inner_attrs_shift(sub, 1, st2, ty, ex);
            }
        } else if is_path(a, "bpaf"@) {
            if let Ok(c) = spec_args(a.tokens) {
                if let Ok(st2) = spec_inner_args(c, 0, st, ty, ex) {
                    lemma_inner_attrs_shift(s, k + 1, st2, ty, ex);
                    lemma_inner_attrs_shift(sub, 1, st2, ty, ex);
                }
            }
        } else {
            lemma_inner_attrs_shift(s, k + 1, st, ty, ex);
            lemma_inner_attrs_shift(sub, 1, st, ty, ex);
        }
    }
}

proof fn lemma_inner_attrs_read(attrs: Seq<AttributeV>, st: InnerV, ty: Seq<char>, ex: Seq<AnswerV>)
    ensures
        spec_inner_attrs(attrs, 0, st, ty, ex) == spec_inner_attrs(read_attrs(attrs), 0, st, ty, ex),
    decreases attrs.len(),
{
    if attrs.len() > 0 {
        let a = attrs[0];
        let rest = attrs.drop_first();
        assert(attrs.subrange(1, attrs.len() as int) =~= rest);
        if is_read(a) {
            let r = seq![a] + read_attrs(rest);
            assert(r[0] == a);
            assert(r.subrange(1, r.len() as int) =~= read_attrs(rest));
            if is_path(a, "doc"@) {
                if let Ok(d) = spec_doc(a.tokens) {
                    let st2 = InnerV { help: st.help.push(d), ..st };
                    lemma_inner_attrs_shift(attrs, 1, st2, ty, ex);
                    lemma_inner_attrs_shift(r, 1, st2, ty, ex);
                    lemma_inner_attrs_read(rest, st2, ty, ex);
                }
            } else {
                if let Ok(c) = spec_args(a.tokens) {
                    if let Ok(st2) = spec_inner_args(c, 0, st, ty, ex) {
                        lemma_inner_attrs_shift(attrs, 1, st2, ty, ex);
                        lemma_inner_attrs_shift(r, 1, st2, ty, ex);
                        lemma_inner_attrs_read(rest, st2, ty, ex);
                    }
                }
            }
        } else {
            lemma_inner_attrs_shift(attrs, 1, st, ty, ex);
            lemma_inner_attrs_read(rest, st, ty, ex);
        }
    }
}

/// A variant's attributes other than doc lines and `bpaf` change nothing:
/// reading all of them gives what reading only those two kinds gives.
pub proof fn law_variant_other_attributes_ignored(ty: Seq<char>, attrs: Seq<AttributeV>, ex: Seq<AnswerV>)
    ensures
        spec_inner_make(ty, attrs, ex) == spec_inner_make(ty, read_attrs(attrs), ex),
{
    lemma_inner_attrs_read(attrs, empty_inner(), ty, ex);
}

proof fn lemma_outer_attrs_shift(
    s: Seq<AttributeV>,
    k: int,
    st: OuterV,
    help: Seq<Seq<char>>,
    ty: Seq<char>,
    ex: Seq<AnswerV>,
)
    requires
        0 <= k <= s.len(),
    ensures
        spec_outer_attrs(s, k, st, help, ty, ex) == spec_outer_attrs(s.subrange(k, s.len() as int), 0, st, help, ty, ex),
    decreases s.len() - k, 0int,
{
    let sub = s.subrange(k, s.len() as int);
    if k < s.len() {
        assert(sub[0] == s[k]);
        assert(sub.subrange(1, sub.len() as int) =~= s.subrange(k + 1, s.len() as int));
        let a = s[k];
        if is_path(a, "doc"@) {
            if let Ok(d) = spec_doc(a.tokens) {
                lemma_outer_attrs_shift(s, k + 1, st, help.push(d), ty, ex);
                lemma_outer_attrs_shift(sub, 1, st, help.push(d), ty, ex);
            }
        } else if is_path(a, "bpaf"@) {
            if let Ok(c) = spec_args(a.tokens) {
                if let Ok(st2) = spec_outer_args(c, 0, st, ty, ex) {
                    lemma_outer_attrs_shift(s, k + 1, st2, help, ty, ex);
                    lemma_outer_attrs_shift(sub, 1, st2, help, ty, ex);
                }
            }
        } else {
            lemma_outer_attrs_shift(s, k + 1, st, help, ty, ex);
            lemma_outer_attrs_shift(sub, 1, st, help, ty, ex);
        }
    }
}

proof fn lemma_outer_attrs_read(attrs: Seq<AttributeV>, st: OuterV, help: Seq<Seq<char>>, ty: Seq<char>, ex: Seq<AnswerV>)
    ensures
        spec_outer_attrs(attrs, 0, st, help, ty, ex) == spec_outer_attrs(read_attrs(attrs), 0, st, help, ty, ex),
    decreases attrs.len(),
{
    if attrs.len() > 0 {
        let a = attrs[0];
        let rest = attrs.drop_first();
        assert(attrs.subrange(1, attrs.len() as int) =~= rest);
        if is_read(a) {
            let r = seq![a] + read_attrs(rest);
            assert(r[0] == a);
            assert(r.subrange(1, r.len() as int) =~= read_attrs(rest));
            if is_path(a, "doc"@) {
                if let Ok(d) = spec_doc(a.tokens) {
                    lemma_outer_attrs_shift(attrs, 1, st, help.push(d), ty, ex);
                    lemma_outer_attrs_shift(r, 1, st, help.push(d), ty, ex);
                    lemma_outer_attrs_read(rest, st, help.push(d), ty, ex);
                }
            } else {
                if let Ok(c) = spec_args(a.tokens) {
                    if let Ok(st2) = spec_outer_args(c, 0, st, ty, ex) {
                        lemma_outer_attrs_shift(attrs, 1, st2, help, ty, ex);
                        lemma_outer_attrs_shift(r, 1, st2, help, ty, ex);
                        lemma_outer_attrs_read(rest, st2, help, ty, ex);
                    }
                }
            }
        } else {
            lemma_outer_attrs_shift(attrs, 1, st, help, ty, ex);
            lemma_outer_attrs_read(rest, st, help, ty, ex);
        }
    }
}

/// The type's attributes other than doc lines and `bpaf` change nothing.
pub proof fn law_type_other_attributes_ignored(ty: Seq<char>, vis: Seq<TokV>, attrs: Seq<AttributeV>, ex: Seq<AnswerV>)
    ensures
        spec_outer_make(ty, vis, attrs, ex) == spec_outer_make(ty, vis, read_attrs(attrs), ex),
{
    lemma_outer_attrs_read(attrs, init_outer(vis), seq![], ty, ex);
}

// ---------------------------------------------------------------- parsers

/// Every flag that a variant becomes has a name, given or derived from the
/// variant's name.
pub proof fn law_flag_has_name(value: ConstrNameV, inner: InnerV)
    requires
        value.constr.len() > 0,
    ensures
        spec_make2(value, inner).naming.len() > 0,
{
    crate::text::lemma_custom_case_len(value.constr, '-');
    let no_names = inner.longs.len() == 0 && inner.shorts.len() == 0;
    let longs = if no_names && value.constr.len() >= 2 {
        seq![kebab_case(value.constr)]
    } else {
        inner.longs
    };
    let shorts = if no_names && value.constr.len() < 2 {
        seq![kebab_case(value.constr)[0]]
    } else {
        inner.shorts
    };
    assert(long_names(longs).len() == longs.len());
    assert(spec_make2(value, inner).naming == long_names(longs) + short_flag_names(shorts));
}

/// The generated function returns a parser with options exactly when the
/// type asks for `options`.
pub proof fn law_options_give_option_parser(outer: OuterV, inner: BParserV)
    ensures
        (spec_decorate(outer, inner) is OParser) <==> (outer.kind matches Some(OuterKindV::Options(_))),
{
}

/// An enum of one variant generates the code of that variant's parser alone.
pub proof fn law_single_alternative(b: BParserV)
    ensures
        bparser_code(BParserV::Fold(seq![b])) == bparser_code(b),
{
    assert(seq![b][0] == b);
}

// ---------------------------------------------------------------- variants and commands

/// `::bpaf::` as tokens.
pub open spec fn bpaf_prefix() -> Seq<crate::tokens::CodeV> {
    seq![
        crate::codegen::pj(':'),
        pa(':'),
        id("bpaf"@),
        crate::codegen::pj(':'),
        pa(':'),
    ]
}

/// A variant marked `command` that has no fields becomes a command whose
/// parser builds the variant as it is, never a flag: the command's parser
/// is the constructor of the variant without fields, decorated by the
/// variant's doc lines.
pub proof fn law_command_variant_without_fields(
    c: Seq<TokV>,
    k: int,
    oty: Seq<char>,
    ty: Seq<char>,
    inner: InnerV,
)
    requires
        inner.command is Some,
        !(0 <= k < c.len() && (is_group(c[k], Delimiter::Parenthesis) || is_group(c[k], Delimiter::Brace))),
    ensures
        spec_variant(c, k, oty, ty, inner) == Ok::<(BParserV, int), ParseError>(
            (
                BParserV::Command(
                    inner.command->Some_0,
                    Box::new(
                        OParserV {
                            inner: Box::new(
                                BParserV::Constructor(
                                    ConstrNameV { namespace: Some(oty), constr: ty },
                                    FieldsV::NoFields,
                                ),
                            ),
                            decor: decor_new(inner.help, None),
                        },
                    ),
                ),
                k,
            ),
        ),
{
}

/// Whatever follows its name, a variant marked `command` becomes a command
/// (given by its attributes), and the parser inside it is never a flag.
pub proof fn law_command_variant_is_command(c: Seq<TokV>, k: int, oty: Seq<char>, ty: Seq<char>, inner: InnerV)
    requires
        inner.command is Some,
    ensures
        spec_variant(c, k, oty, ty, inner) matches Ok((b, _)) ==> (b matches BParserV::Command(cmd, o) && Some(cmd)
            == inner.command && !(*o.inner is Singleton)),
{
}

/// A constructor without fields is written `::bpaf::pure(Constructor)`.
pub proof fn law_constructor_without_fields_is_pure(con: ConstrNameV)
    ensures
        bparser_code(BParserV::Constructor(con, FieldsV::NoFields)) == bpaf_prefix() + seq![
            id("pure"@),
            crate::codegen::grp(Delimiter::Parenthesis, constr_code(con)),
        ],
{
    assert(crate::codegen::bpaf_path() =~= bpaf_prefix());
}

// ---------------------------------------------------------------- flag names

/// Adding a name to a flag adds one call for it at the end of the names'
/// code: `::bpaf::` before the first name, `.` before every other one.
pub proof fn law_flag_names_each_written(ns: Seq<NameV>, n: NameV)
    ensures
        names_code(ns.push(n)) == names_code(ns) + (if ns.len() == 0 {
            bpaf_prefix()
        } else {
            seq![pa('.')]
        }) + name_code(n),
{
    lemma_push(ns, n);
    assert(ns.push(n).drop_last() =~= ns);
    assert(crate::codegen::bpaf_path() =~= bpaf_prefix());
}

/// The names' calls are `long("name")` and `short('c')`.
pub proof fn law_name_calls(l: Seq<char>, ch: char)
    ensures
        name_code(NameV::Long(l)) == seq![
            id("long"@),
            crate::codegen::grp(Delimiter::Parenthesis, seq![crate::codegen::lit_str(l)]),
        ],
        name_code(NameV::Short(ch)) == seq![
            id("short"@),
            crate::codegen::grp(Delimiter::Parenthesis, seq![crate::codegen::lit_char(ch)]),
        ],
{
}

/// The code of a flag starts with the calls for all its names.
pub proof fn law_flag_code_starts_with_names(f: ReqFlagV)
    ensures
        reqflag_code(f).len() >= names_code(f.naming).len(),
        reqflag_code(f).subrange(0, names_code(f.naming).len() as int) == names_code(f.naming),
{
    let p = names_code(f.naming);
    let r = reqflag_code(f);
    assert(r.subrange(0, p.len() as int) =~= p);
}

// ---------------------------------------------------------------- command names

/// `command("s")` on a variant names the command `s`; its aliases start
/// empty and the rest of the state is kept.
pub proof fn law_variant_command_given_name(
    c: Seq<TokV>,
    j: int,
    st: InnerV,
    ty: Seq<char>,
    ex: Seq<AnswerV>,
    s: Seq<char>,
)
    requires
        0 <= j < c.len(),
        c[j] == TokV::Group(Delimiter::Parenthesis, seq![TokV::Str(s)]),
    ensures
        inner_step(c, j, "command"@, st, ty, ex) == Ok::<(InnerV, int), ParseError>(
            (InnerV { command: Some(CommandAttrV { name: s, shorts: seq![], longs: seq![] }), ..st }, j + 1),
        ),
{
    assert(body(c[j]) == seq![TokV::Str(s)]);
}

/// `command` without an argument on a variant names the command after the
/// variant, in snake case.
pub proof fn law_variant_command_default_name(c: Seq<TokV>, j: int, st: InnerV, ty: Seq<char>, ex: Seq<AnswerV>)
    requires
        !(0 <= j < c.len() && is_group(c[j], Delimiter::Parenthesis)),
    ensures
        inner_step(c, j, "command"@, st, ty, ex) == Ok::<(InnerV, int), ParseError>(
            (
                InnerV {
                    command: Some(CommandAttrV { name: snake_case(ty), shorts: seq![], longs: seq![] }),
                    ..st
                },
                j,
            ),
        ),
{
}

/// `command("s")` on the type names the command `s`.
pub proof fn law_type_command_given_name(
    c: Seq<TokV>,
    j: int,
    st: OuterV,
    ty: Seq<char>,
    ex: Seq<AnswerV>,
    s: Seq<char>,
)
    requires
        0 <= j < c.len(),
        c[j] == TokV::Group(Delimiter::Parenthesis, seq![TokV::Str(s)]),
    ensures
        outer_step(c, j, "command"@, st, ty, ex) == Ok::<(OuterV, int), ParseError>(
            (
                OuterV {
                    kind: Some(OuterKindV::Command(CommandAttrV { name: s, shorts: seq![], longs: seq![] })),
                    ..st
                },
                j + 1,
            ),
        ),
{
    reveal_strlit("command");
    reveal_strlit("generate");
    reveal_strlit("options");
    reveal_strlit("complete_style");
    reveal_strlit("construct");
    reveal_strlit("version");
    assert("command"@[0] != "generate"@[0]);
    assert("command"@[0] != "options"@[0]);
    assert("command"@[3] != "complete_style"@[3]);
    assert("command"@[2] != "construct"@[2]);
    assert("command"@[0] != "version"@[0]);
    assert(body(c[j]) == seq![TokV::Str(s)]);
}

/// `command` without an argument on the type names the command after the
/// type, in snake case.
pub proof fn law_type_command_default_name(c: Seq<TokV>, j: int, st: OuterV, ty: Seq<char>, ex: Seq<AnswerV>)
    requires
        !(0 <= j < c.len() && is_group(c[j], Delimiter::Parenthesis)),
    ensures
        outer_step(c, j, "command"@, st, ty, ex) == Ok::<(OuterV, int), ParseError>(
            (
                OuterV {
                    kind: Some(
                        OuterKindV::Command(CommandAttrV { name: snake_case(ty), shorts: seq![], longs: seq![] }),
                    ),
                    ..st
                },
                j,
            ),
        ),
{
    reveal_strlit("command");
    reveal_strlit("generate");
    reveal_strlit("options");
    reveal_strlit("complete_style");
    reveal_strlit("construct");
    reveal_strlit("version");
    assert("command"@[0] != "generate"@[0]);
    assert("command"@[0] != "options"@[0]);
    assert("command"@[3] != "complete_style"@[3]);
    assert("command"@[2] != "construct"@[2]);
    assert("command"@[0] != "version"@[0]);
}

// ---------------------------------------------------------------- decoration

/// A type that is a command keeps its decoration (description, header,
/// footer and version from its doc lines and attributes) on the command's
/// parser with options.
pub proof fn law_command_type_keeps_decoration(outer: OuterV, inner: BParserV)
    requires
        outer.kind matches Some(OuterKindV::Command(_)),
    ensures
        spec_decorate(outer, inner) matches ParserKindV::BParser(BParserV::Command(cmd, o)) && outer.kind == Some(
            OuterKindV::Command(cmd),
        ) && o.decor == outer.decor,
{
}

/// A type with `options` keeps its decoration on the parser with options.
pub proof fn law_options_type_keeps_decoration(outer: OuterV, inner: BParserV)
    requires
        outer.kind matches Some(OuterKindV::Options(_)),
    ensures
        spec_decorate(outer, inner) matches ParserKindV::OParser(o) && o.decor == outer.decor,
{
}

/// A command with a description is given it as its help.
pub proof fn law_command_help_from_description(cmd: CommandAttrV, o: OParserV, m: Seq<char>)
    requires
        o.decor.descr == Some(m),
    ensures
        exists|body: Seq<crate::tokens::CodeV>, i: int|
            bparser_code(BParserV::Command(cmd, Box::new(o))) == seq![crate::codegen::grp(Delimiter::Brace, body)]
                && 0 <= i && i + 3 <= body.len() && #[trigger] body.subrange(i, i + 3) == crate::codegen::method(
                "help"@,
                seq![crate::codegen::lit_str(m)],
            ),
{
    let inner = crate::codegen::oparser_code(o);
    let pre = seq![id("let"@), id("inner_cmd"@), pa('=')] + inner + seq![pa(';')] + crate::codegen::bpaf_path()
        + seq![
        id("command"@),
        crate::codegen::grp(
            Delimiter::Parenthesis,
            seq![crate::codegen::lit_str(cmd.name), pa(','), id("inner_cmd"@)],
        ),
    ];
    let h = crate::codegen::method("help"@, seq![crate::codegen::lit_str(m)]);
    let body = pre + h + crate::codegen::short_calls(cmd.shorts) + crate::codegen::long_calls(cmd.longs);
    assert(bparser_code(BParserV::Command(cmd, Box::new(o))) == seq![
        crate::codegen::grp(Delimiter::Brace, body),
    ]);
    let i = pre.len() as int;
    assert(body.subrange(i, i + 3) =~= h);
    assert(bparser_code(BParserV::Command(cmd, Box::new(o))) == seq![crate::codegen::grp(Delimiter::Brace, body)]
        && 0 <= i && i + 3 <= body.len() && body.subrange(i, i + 3) == h);
}

// ---------------------------------------------------------------- fields

/// Every `<` opens a level of generics inside a field's type.
pub proof fn law_field_end_opening(c: Seq<TokV>, j: int, depth: int)
    requires
        0 <= j < c.len(),
        is_punct(c[j], '<'),
    ensures
        field_end(c, j, depth) == field_end(c, j + 1, depth + 1),
{
}

/// Every `>` closes a level of generics, wherever it stands (after another
/// `>` too, as in `Option<Vec<String>>`), except the `>` of an arrow `->`.
pub proof fn law_field_end_closing(c: Seq<TokV>, j: int, depth: int)
    requires
        0 <= j < c.len(),
        is_punct(c[j], '>'),
        !(j > 0 && c[j - 1] == TokV::Punct('-', Spacing::Joint)),
    ensures
        field_end(c, j, depth) == field_end(c, j + 1, depth - 1),
{
}

/// A comma ends the field outside generics, and only there.
pub proof fn law_field_end_comma(c: Seq<TokV>, j: int, depth: int)
    requires
        0 <= j < c.len(),
        is_punct(c[j], ','),
    ensures
        depth <= 0 ==> field_end(c, j, depth) == j,
        depth > 0 ==> field_end(c, j, depth) == field_end(c, j + 1, depth),
{
}

/// Other tokens leave the depth as it is.
pub proof fn law_field_end_other(c: Seq<TokV>, j: int, depth: int)
    requires
        0 <= j < c.len(),
        !is_punct(c[j], ','),
        !is_punct(c[j], '<'),
        !is_punct(c[j], '>'),
    ensures
        field_end(c, j, depth) == field_end(c, j + 1, depth),
{
}

// ---------------------------------------------------------------- more on flags

/// A hidden flag's code ends with `.hide()`; the code of a flag that is not
/// hidden ends with the call that selects the variant: `.flag(V, V)` for the
/// default variant, `.req_flag(V)` for another.
pub proof fn law_flag_code_ends(f: ReqFlagV)
    ensures
        f.is_hidden ==> reqflag_code(f).len() >= 3 && reqflag_code(f).subrange(
            reqflag_code(f).len() - 3,
            reqflag_code(f).len() as int,
        ) == seq![pa('.'), id("hide"@), crate::codegen::grp(Delimiter::Parenthesis, seq![])],
        !f.is_hidden && f.is_default ==> reqflag_code(f).len() >= 3 && reqflag_code(f).subrange(
            reqflag_code(f).len() - 3,
            reqflag_code(f).len() as int,
        ) == seq![
            pa('.'),
            id("flag"@),
            crate::codegen::grp(
                Delimiter::Parenthesis,
                constr_code(f.value) + seq![pa(',')] + constr_code(f.value),
            ),
        ],
        !f.is_hidden && !f.is_default ==> reqflag_code(f).len() >= 3 && reqflag_code(f).subrange(
            reqflag_code(f).len() - 3,
            reqflag_code(f).len() as int,
        ) == seq![pa('.'), id("req_flag"@), crate::codegen::grp(Delimiter::Parenthesis, constr_code(f.value))],
{
    let r = reqflag_code(f);
    assert(r.subrange(r.len() - 3, r.len() as int) =~= r.subrange(r.len() - 3, r.len() as int));
    if f.is_hidden {
        assert(r.subrange(r.len() - 3, r.len() as int) =~= seq![
            pa('.'),
            id("hide"@),
            crate::codegen::grp(Delimiter::Parenthesis, seq![]),
        ]);
    } else if f.is_default {
        assert(r.subrange(r.len() - 3, r.len() as int) =~= seq![
            pa('.'),
            id("flag"@),
            crate::codegen::grp(
                Delimiter::Parenthesis,
                constr_code(f.value) + seq![pa(',')] + constr_code(f.value),
            ),
        ]);
    } else {
        assert(r.subrange(r.len() - 3, r.len() as int) =~= seq![
            pa('.'),
            id("req_flag"@),
            crate::codegen::grp(Delimiter::Parenthesis, constr_code(f.value)),
        ]);
    }
}

/// A flag whose variant was given names has exactly those names: the long
/// ones first, then the short ones, each in the order given.
pub proof fn law_flag_given_names(value: ConstrNameV, inner: InnerV)
    requires
        inner.longs.len() > 0 || inner.shorts.len() > 0,
    ensures
        spec_make2(value, inner).naming.len() == inner.longs.len() + inner.shorts.len(),
        forall|i: int|
            0 <= i < inner.longs.len() ==> #[trigger] spec_make2(value, inner).naming[i] == NameV::Long(
                inner.longs[i],
            ),
        forall|i: int|
            0 <= i < inner.shorts.len() ==> spec_make2(value, inner).naming[inner.longs.len() + i]
                == crate::top::short_name_at(inner.shorts, i),
{
    let n = spec_make2(value, inner).naming;
    assert(n == long_names(inner.longs) + short_flag_names(inner.shorts));
    assert forall|i: int| 0 <= i < inner.shorts.len() implies n[inner.longs.len() + i]
        == crate::top::short_name_at(inner.shorts, i) by {
        assert(short_flag_names(inner.shorts)[i] == crate::top::short_name_at(inner.shorts, i));
    }
}

/// A short name at position `i` is the character at `i`.
pub proof fn law_short_name_at(cs: Seq<char>, i: int)
    ensures
        crate::top::short_name_at(cs, i) == NameV::Short(cs[i]),
{
}

/// `short` and `long` without an argument on a variant name it after the
/// variant in snake case: its first character, and the whole name.
pub proof fn law_variant_default_short_long(c: Seq<TokV>, j: int, st: InnerV, ty: Seq<char>, ex: Seq<AnswerV>)
    requires
        !(0 <= j < c.len() && is_group(c[j], Delimiter::Parenthesis)),
    ensures
        inner_step(c, j, "short"@, st, ty, ex) == Ok::<(InnerV, int), ParseError>(
            (InnerV { shorts: st.shorts.push(snake_case(ty)[0]), ..st }, j),
        ),
        inner_step(c, j, "long"@, st, ty, ex) == Ok::<(InnerV, int), ParseError>(
            (InnerV { longs: st.longs.push(snake_case(ty)), ..st }, j),
        ),
{
    reveal_strlit("command");
    reveal_strlit("short");
    reveal_strlit("long");
    assert("short"@[0] != "command"@[0]);
    assert("long"@[0] != "command"@[0]);
    assert("long"@[0] != "short"@[0]);
}

} // verus!
