//! The canonical textual form of a type (`i64`, `&mut Vec<T>`, `fn(i64) -> bool`, ...),
//! used in diagnostics, in instance keys of generic functions and as the input of
//! the run-time type identity.
use vstd::prelude::*;
use vstd::string::StringExecFns;
use crate::ty::{Mutability, Ty, Type, group_view_types, view_types};

verus! {

broadcast use vstd::std_specs::vec::group_vec_axioms, group_view_types;

pub open spec fn digit_text(d: nat) -> Seq<char> {
    if d == 0 {
        "0"@
    } else if d == 1 {
        "1"@
    } else if d == 2 {
        "2"@
    } else if d == 3 {
        "3"@
    } else if d == 4 {
        "4"@
    } else if d == 5 {
        "5"@
    } else if d == 6 {
        "6"@
    } else if d == 7 {
        "7"@
    } else if d == 8 {
        "8"@
    } else {
        "9"@
    }
}

/// Decimal notation of a natural number, without leading zeros.
pub open spec fn decimal(n: nat) -> Seq<char>
    decreases n,
{
    if n < 10 {
        digit_text(n)
    } else {
        decimal(n / 10) + digit_text(n % 10)
    }
}

/// The texts of a list of types separated by `sep`.
pub open spec fn render_list(s: Seq<Ty>, sep: Seq<char>) -> Seq<char>
    decreases s,
{
    if s.len() == 0 {
        Seq::empty()
    } else if s.len() == 1 {
        render(s[0])
    } else {
        render_list(s.subrange(0, s.len() - 1), sep) + sep + render(s[s.len() - 1])
    }
}

/// The canonical text of a type.
pub open spec fn render(t: Ty) -> Seq<char>
    decreases t,
{
    match t {
        Ty::Infer => "_"@,
        Ty::Unit => "()"@,
        Ty::Never => "!"@,
        Ty::Bool => "bool"@,
        Ty::Char => "char"@,
        Ty::I8 => "i8"@,
        Ty::I16 => "i16"@,
        Ty::I32 => "i32"@,
        Ty::I64 => "i64"@,
        Ty::ISize => "isize"@,
        Ty::U8 => "u8"@,
        Ty::U16 => "u16"@,
        Ty::U32 => "u32"@,
        Ty::U64 => "u64"@,
        Ty::USize => "usize"@,
        Ty::F32 => "f32"@,
        Ty::F64 => "f64"@,
        Ty::Str => "str"@,
        Ty::Array(e, n) => "["@ + render(*e) + "; "@ + decimal(n) + "]"@,
        Ty::Slice(e) => "["@ + render(*e) + "]"@,
        Ty::Named(n, args) => if args.len() == 0 {
            n
        } else {
            n + "<"@ + render_list(args, ", "@) + ">"@
        },
        Ty::Ref(e, m) => match m {
            Mutability::Immutable => "&"@ + render(*e),
            Mutability::Mutable => "&mut "@ + render(*e),
        },
        Ty::RawPtr(e, m) => if m {
            "*mut "@ + render(*e)
        } else {
            "*const "@ + render(*e)
        },
        Ty::Fn(ps, r) => "fn("@ + render_list(ps, ", "@) + ") -> "@ + render(*r),
        Ty::Closure { params, ret, .. } => "|"@ + render_list(params, ", "@) + "| -> "@ + render(*ret),
        Ty::Tuple(ts) => "("@ + render_list(ts, ", "@) + ")"@,
        Ty::Generic(n) => n,
        Ty::ScalarEnum(n) => n,
        Ty::Dyn(n) => "dyn "@ + n,
        Ty::Union(ts) => render_list(ts, " | "@),
        Ty::AssocProjection { base, assoc } => render(*base) + "::"@ + assoc,
    }
}

fn push_digit(out: &mut String, d: usize)
    requires
        d < 10,
    ensures
        final(out)@ == old(out)@ + digit_text(d as nat),
{
    if d == 0 {
        out.append("0");
    } else if d == 1 {
        out.append("1");
    } else if d == 2 {
        out.append("2");
    } else if d == 3 {
        out.append("3");
    } else if d == 4 {
        out.append("4");
    } else if d == 5 {
        out.append("5");
    } else if d == 6 {
        out.append("6");
    } else if d == 7 {
        out.append("7");
    } else if d == 8 {
        out.append("8");
    } else {
        out.append("9");
    }
}

/// Appends the decimal notation of `n`.
pub fn push_decimal(out: &mut String, n: usize)
    ensures
        final(out)@ == old(out)@ + decimal(n as nat),
    decreases n,
{
    if n < 10 {
        push_digit(out, n);
    } else {
        push_decimal(out, n / 10);
        push_digit(out, n % 10);
        assert(final(out)@ =~= old(out)@ + decimal(n as nat));
    }
}

/// Appends the texts of `ts` separated by `sep`.
fn push_list(out: &mut String, ts: &Vec<Type>, sep: &str)
    ensures
        final(out)@ == old(out)@ + render_list(view_types(ts@), sep@),
    decreases ts,
{
    let ghost start = out@;
    let mut i: usize = 0;
    while i < ts.len()
        invariant
            i <= ts.len(),
            out@ == start + render_list(view_types(ts@).subrange(0, i as int), sep@),
        decreases ts.len() - i,
    {
        let ghost vs = view_types(ts@);
        assert(vs.subrange(0, i + 1).subrange(0, i as int) =~= vs.subrange(0, i as int));
        if i > 0 {
            out.append(sep);
        }
        push_type(out, &ts[i]);
        i += 1;
        assert(out@ =~= start + render_list(vs.subrange(0, i as int), sep@));
    }
    assert(view_types(ts@).subrange(0, ts.len() as int) =~= view_types(ts@));
}

/// Appends the canonical text of `t`.
pub fn push_type(out: &mut String, t: &Type)
    ensures
        final(out)@ == old(out)@ + render(t@),
    decreases t,
{
    let ghost start = out@;
    match t {
        Type::Infer => out.append("_"),
        Type::Unit => out.append("()"),
        Type::Never => out.append("!"),
        Type::Bool => out.append("bool"),
        Type::Char => out.append("char"),
        Type::I8 => out.append("i8"),
        Type::I16 => out.append("i16"),
        Type::I32 => out.append("i32"),
        Type::I64 => out.append("i64"),
        Type::ISize => out.append("isize"),
        Type::U8 => out.append("u8"),
        Type::U16 => out.append("u16"),
        Type::U32 => out.append("u32"),
        Type::U64 => out.append("u64"),
        Type::USize => out.append("usize"),
        Type::F32 => out.append("f32"),
        Type::F64 => out.append("f64"),
        Type::Str => out.append("str"),
        Type::Array(e, n) => {
            out.append("[");
            push_type(out, e);
            out.append("; ");
            push_decimal(out, *n);
            out.append("]");
            assert(out@ =~= start + render(t@));
        },
        Type::Slice(e) => {
            out.append("[");
            push_type(out, e);
            out.append("]");
            assert(out@ =~= start + render(t@));
        },
        Type::Named(n, args) => {
            assert(view_types(args@).len() == args@.len());
            out.append(n.as_str());
            if args.len() > 0 {
                out.append("<");
                push_list(out, args, ", ");
                out.append(">");
            }
            assert(out@ =~= start + render(t@));
        },
        Type::Ref(e, m) => {
            match m {
                Mutability::Immutable => out.append("&"),
                Mutability::Mutable => out.append("&mut "),
            }
            push_type(out, e);
            assert(out@ =~= start + render(t@));
        },
        Type::RawPtr(e, m) => {
            if *m {
                out.append("*mut ");
            } else {
                out.append("*const ");
            }
            push_type(out, e);
            assert(out@ =~= start + render(t@));
        },
        Type::Fn(sig) => {
            out.append("fn(");
            push_list(out, &sig.params, ", ");
            out.append(") -> ");
            push_type(out, &sig.return_type);
            assert(out@ =~= start + render(t@));
        },
        Type::Closure { params, ret, .. } => {
            out.append("|");
            push_list(out, params, ", ");
            out.append("| -> ");
            push_type(out, ret);
            assert(out@ =~= start + render(t@));
        },
        Type::Tuple(ts) => {
            out.append("(");
            push_list(out, ts, ", ");
            out.append(")");
            assert(out@ =~= start + render(t@));
        },
        Type::Generic(n) => out.append(n.as_str()),
        Type::ScalarEnum(n) => out.append(n.as_str()),
        Type::Dyn(n) => {
            out.append("dyn ");
            out.append(n.as_str());
            assert(out@ =~= start + render(t@));
        },
        Type::Union(ts) => push_list(out, ts, " | "),
        Type::AssocProjection { base, assoc } => {
            push_type(out, base);
            out.append("::");
            out.append(assoc.as_str());
            assert(out@ =~= start + render(t@));
        },
    }
}

/// The canonical text of a type.
pub fn type_to_string(t: &Type) -> (r: String)
    ensures
        r@ == render(t@),
{
    let mut out = String::new();
    push_type(&mut out, t);
    assert(out@ =~= render(t@));
    out
}

proof fn lemma_digit_text(d: nat)
    requires
        d < 10,
    ensures
        digit_text(d).len() == 1,
        digit_text(d)[0] == (48 + d) as char,
{
    reveal_strlit("0");
    reveal_strlit("1");
    reveal_strlit("2");
    reveal_strlit("3");
    reveal_strlit("4");
    reveal_strlit("5");
    reveal_strlit("6");
    reveal_strlit("7");
    reveal_strlit("8");
    reveal_strlit("9");
}

proof fn lemma_decimal_len(n: nat)
    ensures
        decimal(n).len() >= 1,
        n >= 10 ==> decimal(n).len() >= 2,
    decreases n,
{
    if n < 10 {
        lemma_digit_text(n);
    } else {
        lemma_decimal_len(n / 10);
        lemma_digit_text(n % 10);
    }
}

/// Distinct numbers have distinct decimal notations.
pub proof fn lemma_decimal_injective(n: nat, m: nat)
    requires
        decimal(n) == decimal(m),
    ensures
        n == m,
    decreases n,
{
    lemma_decimal_len(n);
    lemma_decimal_len(m);
    if n < 10 && m < 10 {
        lemma_digit_text(n);
        lemma_digit_text(m);
        assert(decimal(n)[0] == decimal(m)[0]);
    } else if n >= 10 && m >= 10 {
        lemma_digit_text(n % 10);
        lemma_digit_text(m % 10);
        let dn = decimal(n);
        let dm = decimal(m);
        assert(dn[dn.len() - 1] == digit_text(n % 10)[0]);
        assert(dm[dm.len() - 1] == digit_text(m % 10)[0]);
        assert(n % 10 == m % 10);
        assert(decimal(n / 10) =~= dn.subrange(0, dn.len() - 1));
        assert(decimal(m / 10) =~= dm.subrange(0, dm.len() - 1));
        lemma_decimal_injective(n / 10, m / 10);
    } else {
        if n < 10 {
            lemma_digit_text(n);
        } else {
            lemma_digit_text(m);
        }
    }
}

} // verus!
