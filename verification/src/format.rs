//! Parsing of format strings (`"x = {}, y = {:?}, z = {:*>8}"`) into literal
//! segments and value placeholders.
use vstd::prelude::*;
use crate::error::{Span, TypeError};
use crate::text::{chars_of, push_char};
use vstd::string::StrSliceExecFns;

verus! {

broadcast use vstd::string::group_string_axioms;

/// One segment of a parsed format string: either literal text, or a value
/// placeholder with its display options.
#[derive(Debug)]
pub struct FormatSeg {
    pub text: String,
    pub is_value: bool,
    /// `{:?}` (debug form) rather than `{}` (display form).
    pub is_debug: bool,
    /// `<`, `>` or `^`; `'\0'` when absent.
    pub align: char,
    /// Minimum width; 0 when absent.
    pub width: i64,
    /// Fill byte; a space when absent.
    pub fill: u8,
}

/// The model of a `FormatSeg`.
pub struct Seg {
    pub text: Seq<char>,
    pub is_value: bool,
    pub is_debug: bool,
    pub align: char,
    pub width: int,
    pub fill: u8,
}

impl View for FormatSeg {
    type V = Seg;

    open spec fn view(&self) -> Seg {
        Seg {
            text: self.text@,
            is_value: self.is_value,
            is_debug: self.is_debug,
            align: self.align,
            width: self.width as int,
            fill: self.fill,
        }
    }
}

pub open spec fn segs_view(s: Seq<FormatSeg>) -> Seq<Seg> {
    s.map_values(|x: FormatSeg| x@)
}

/// Why a format string is malformed.
pub enum FormatFailure {
    /// A `{` that neither starts `{{` nor a closed placeholder.
    Unclosed,
    /// A `}` that does not start `}}`.
    Unpaired,
}

pub open spec fn text_seg(t: Seq<char>) -> Seg {
    Seg { text: t, is_value: false, is_debug: false, align: '\0', width: 0, fill: 32 }
}

pub open spec fn value_seg(is_debug: bool, align: char, width: int, fill: u8) -> Seg {
    Seg { text: Seq::empty(), is_value: true, is_debug, align, width, fill }
}

pub open spec fn is_digit(c: char) -> bool {
    '0' <= c && c <= '9'
}

pub open spec fn is_align(c: char) -> bool {
    c == '<' || c == '>' || c == '^'
}

/// A character that may serve as the fill of a placeholder: not `}`, not a
/// digit, not an alignment mark.
pub open spec fn is_fill_candidate(c: char) -> bool {
    c != '}' && !is_digit(c) && !is_align(c)
}

/// The end of the run of digits that starts at `j`.
pub open spec fn digit_run_end(s: Seq<char>, j: int) -> int
    decreases s.len() - j,
{
    if 0 <= j < s.len() && is_digit(s[j]) {
        digit_run_end(s, j + 1)
    } else {
        j
    }
}

pub proof fn lemma_digit_run_end(s: Seq<char>, j: int)
    requires
        0 <= j <= s.len(),
    ensures
        j <= digit_run_end(s, j) <= s.len(),
        forall|k: int| j <= k < digit_run_end(s, j) ==> is_digit(#[trigger] s[k]),
        digit_run_end(s, j) < s.len() ==> !is_digit(s[digit_run_end(s, j)]),
    decreases s.len() - j,
{
    if j < s.len() && is_digit(s[j]) {
        lemma_digit_run_end(s, j + 1);
    }
}

/// The value of a string of decimal digits.
pub open spec fn digits_value(d: Seq<char>) -> nat
    decreases d.len(),
{
    if d.len() == 0 {
        0
    } else {
        digits_value(d.drop_last()) * 10 + ((d.last() as u32) - ('0' as u32)) as nat
    }
}

/// The width given by the digits `s[j..e]`: their value, or 0 when there are
/// none or the value does not fit in an `i64`.
pub open spec fn width_of(s: Seq<char>, j: int, e: int) -> int {
    if e > j {
        let v = digits_value(s.subrange(j, e));
        if v <= i64::MAX {
            v as int
        } else {
            0
        }
    } else {
        0
    }
}

/// The options of a placeholder whose text starts at `j` (just after `{`):
/// (debug, align, width, fill, index of the expected `}`).
pub open spec fn placeholder(s: Seq<char>, j: int) -> (bool, char, int, u8, int) {
    if j < s.len() && s[j] == ':' {
        let j1 = j + 1;
        if j1 < s.len() && s[j1] == '?' {
            (true, '\0', 0, 32u8, j1 + 1)
        } else {
            let fill_taken = j1 < s.len() && is_fill_candidate(s[j1]) && (s[j1] as u32) < 128;
            let fill: u8 = if fill_taken { (s[j1] as u32) as u8 } else { 32u8 };
            let j2 = if fill_taken { j1 + 1 } else { j1 };
            let align_taken = j2 < s.len() && is_align(s[j2]);
            let align = if align_taken { s[j2] } else { '\0' };
            let j3 = if align_taken { j2 + 1 } else { j2 };
            let e = digit_run_end(s, j3);
            (false, align, width_of(s, j3, e), fill, e)
        }
    } else {
        (false, '\0', 0, 32u8, j)
    }
}

pub proof fn lemma_placeholder_end(s: Seq<char>, j: int)
    requires
        0 <= j <= s.len(),
    ensures
        j <= placeholder(s, j).4 <= s.len(),
{
    if j < s.len() && s[j] == ':' {
        let j1 = j + 1;
        if !(j1 < s.len() && s[j1] == '?') {
            let fill_taken = j1 < s.len() && is_fill_candidate(s[j1]) && (s[j1] as u32) < 128;
            let j2 = if fill_taken { j1 + 1 } else { j1 };
            let align_taken = j2 < s.len() && is_align(s[j2]);
            let j3 = if align_taken { j2 + 1 } else { j2 };
            lemma_digit_run_end(s, j3);
        }
    }
}

/// `segs` followed by the pending literal text, if any.
pub open spec fn flush(cur: Seq<char>, segs: Seq<Seg>) -> Seq<Seg> {
    if cur.len() > 0 {
        segs.push(text_seg(cur))
    } else {
        segs
    }
}

/// The segments of `s[i..]`, given the literal text `cur` pending and the
/// segments `segs` already produced. `{{` and `}}` stand for `{` and `}`; an empty
/// result becomes one empty literal segment.
pub open spec fn parse_from(s: Seq<char>, i: int, cur: Seq<char>, segs: Seq<Seg>) -> Result<Seq<Seg>, FormatFailure>
    decreases s.len() - i,
{
    if i < 0 || i >= s.len() {
        let out = flush(cur, segs);
        if out.len() == 0 {
            Ok(seq![text_seg(Seq::empty())])
        } else {
            Ok(out)
        }
    } else if s[i] == '{' {
        if i + 1 < s.len() && s[i + 1] == '{' {
            parse_from(s, i + 2, cur.push('{'), segs)
        } else {
            let p = placeholder(s, i + 1);
            proof {
                lemma_placeholder_end(s, i + 1);
            }
            if p.4 < s.len() && s[p.4] == '}' {
                parse_from(s, p.4 + 1, Seq::empty(), flush(cur, segs).push(value_seg(p.0, p.1, p.2, p.3)))
            } else {
                Err(FormatFailure::Unclosed)
            }
        }
    } else if s[i] == '}' {
        if i + 1 < s.len() && s[i + 1] == '}' {
            parse_from(s, i + 2, cur.push('}'), segs)
        } else {
            Err(FormatFailure::Unpaired)
        }
    } else {
        parse_from(s, i + 1, cur.push(s[i]), segs)
    }
}

/// The segments of the format string `s`.
pub open spec fn spec_parse_format(s: Seq<char>) -> Result<Seq<Seg>, FormatFailure> {
    parse_from(s, 0, Seq::empty(), Seq::empty())
}

pub open spec fn unclosed_message() -> Seq<char> {
    "格式串中的 `{` 未闭合（转义应写作 `{{`）"@
}

pub open spec fn unpaired_message() -> Seq<char> {
    "格式串中的 `}` 未配对（转义应写作 `}}`）"@
}

fn text_segment(cur: String) -> (r: FormatSeg)
    ensures
        r@ == text_seg(cur@),
{
    FormatSeg { text: cur, is_value: false, is_debug: false, align: '\0', width: 0, fill: 32u8 }
}

fn flush_into(cur: String, segs: &mut Vec<FormatSeg>)
    ensures
        segs_view(final(segs)@) == flush(cur@, segs_view(old(segs)@)),
{
    if cur.as_str().unicode_len() > 0 {
        segs.push(text_segment(cur));
        assert(segs_view(segs@) =~= segs_view(old(segs)@).push(text_seg(cur@)));
    }
}

/// Splits a format string into literal segments and value placeholders
/// (`{}`, `{:?}`, `{:<fill><align><width>}`); `{{` / `}}` are literal braces.
/// A `{` without its `}` and a lone `}` are errors.
pub fn parse_format_string(s: &str, span: Span) -> (r: Result<Vec<FormatSeg>, TypeError>)
    ensures
        match spec_parse_format(s@) {
            Ok(segs) => r matches Ok(v) && segs_view(v@) == segs,
            Err(FormatFailure::Unclosed) => r matches Err(TypeError::Unsupported { what, span: sp })
                && what@ == unclosed_message() && sp == span,
            Err(FormatFailure::Unpaired) => r matches Err(TypeError::Unsupported { what, span: sp })
                && what@ == unpaired_message() && sp == span,
        },
{
    let cs = chars_of(s);
    let n = cs.len();
    let mut segs: Vec<FormatSeg> = Vec::new();
    let mut cur = String::new();
    let mut i: usize = 0;
    assert(segs_view(segs@) =~= Seq::<Seg>::empty());
    assert(cur@ =~= Seq::<char>::empty());
    while i < n
        invariant
            n == cs@.len(),
            cs@ == s@,
            i <= n,
            parse_from(cs@, i as int, cur@, segs_view(segs@)) == spec_parse_format(s@),
        decreases n - i,
    {
        let c = cs[i];
        if c == '{' {
            if i + 1 < n && cs[i + 1] == '{' {
                push_char(&mut cur, '{');
                i += 2;
            } else {
                let mut j = i + 1;
                let mut is_debug = false;
                let mut align: char = '\0';
                let mut width: i64 = 0;
                let mut fill: u8 = 32;
                if j < n && cs[j] == ':' {
                    j += 1;
                    if j < n && cs[j] == '?' {
                        j += 1;
                        is_debug = true;
                    } else {
                        if j < n {
                            let f = cs[j];
                            if f != '}' && !('0' <= f && f <= '9') && f != '<' && f != '>' && f != '^' {
                                if (f as u32) < 128 {
                                    fill = (f as u32) as u8;
                                    j += 1;
                                }
                            }
                        }
                        if j < n {
                            let a = cs[j];
                            if a == '<' || a == '>' || a == '^' {
                                align = a;
                                j += 1;
                            }
                        }
                        let start = j;
                        let mut value: i64 = 0;
                        let mut overflow = false;
                        #[verifier::loop_isolation(false)]
                        while j < n && '0' <= cs[j] && cs[j] <= '9'
                            invariant
                                0 <= value,
                                n == cs@.len(),
                                start <= j <= n,
                                forall|k: int| start <= k < j ==> is_digit(#[trigger] cs@[k]),
                                digit_run_end(cs@, start as int) == digit_run_end(cs@, j as int),
                                !overflow ==> value as nat == digits_value(cs@.subrange(start as int, j as int)),
                                overflow ==> digits_value(cs@.subrange(start as int, j as int)) > i64::MAX,
                            decreases n - j,
                        {
                            let d = ((cs[j] as u32) - ('0' as u32)) as i64;
                            let ghost prev = cs@.subrange(start as int, j as int);
                            assert(cs@.subrange(start as int, j + 1).drop_last() =~= prev);
                            if !overflow {
                                match value.checked_mul(10) {
                                    Some(v10) => match v10.checked_add(d) {
                                        Some(v) => {
                                            value = v;
                                        },
                                        None => {
                                            overflow = true;
                                        },
                                    },
                                    None => {
                                        overflow = true;
                                    },
                                }
                            }
                            j += 1;
                        }
                        proof {
                            lemma_digit_run_end(cs@, j as int);
                        }
                        if j > start && !overflow {
                            width = value;
                        }
                    }
                }
                proof {
                    lemma_placeholder_end(cs@, i + 1);
                }
                assert(placeholder(cs@, i + 1) == (is_debug, align, width as int, fill, j as int));
                if j < n && cs[j] == '}' {
                    let ghost before = segs_view(segs@);
                    let ghost cur_v = cur@;
                    flush_into(cur, &mut segs);
                    cur = String::new();
                    let ghost flushed = segs_view(segs@);
                    let seg = FormatSeg { text: String::new(), is_value: true, is_debug, align, width, fill };
                    segs.push(seg);
                    assert(segs_view(segs@) =~= flushed.push(value_seg(is_debug, align, width as int, fill)));
                    i = j + 1;
                } else {
                    return Err(TypeError::Unsupported { what: "格式串中的 `{` 未闭合（转义应写作 `{{`）".to_string(), span });
                }
            }
        } else if c == '}' {
            if i + 1 < n && cs[i + 1] == '}' {
                push_char(&mut cur, '}');
                i += 2;
            } else {
                return Err(TypeError::Unsupported { what: "格式串中的 `}` 未配对（转义应写作 `}}`）".to_string(), span });
            }
        } else {
            push_char(&mut cur, c);
            i += 1;
        }
    }
    flush_into(cur, &mut segs);
    if segs.len() == 0 {
        segs.push(text_segment(String::new()));
    }
    Ok(segs)
}

/// Whether `s` holds no brace.
pub open spec fn brace_free(s: Seq<char>) -> bool {
    forall|k: int| 0 <= k < s.len() ==> #[trigger] s[k] != '{' && s[k] != '}'
}

proof fn lemma_parse_plain(s: Seq<char>, i: int, cur: Seq<char>)
    requires
        brace_free(s),
        0 <= i <= s.len(),
    ensures
        parse_from(s, i, cur, Seq::empty()) == Ok::<Seq<Seg>, FormatFailure>(
            seq![text_seg(cur + s.subrange(i, s.len() as int))],
        ),
    decreases s.len() - i,
{
    if i < s.len() {
        assert(s[i] != '{' && s[i] != '}');
        lemma_parse_plain(s, i + 1, cur.push(s[i]));
        assert(cur.push(s[i]) + s.subrange(i + 1, s.len() as int) =~= cur + s.subrange(i, s.len() as int));
    } else {
        assert(cur + s.subrange(i, s.len() as int) =~= cur);
        if cur.len() > 0 {
            assert(Seq::<Seg>::empty().push(text_seg(cur)) =~= seq![text_seg(cur)]);
        } else {
            assert(cur =~= Seq::<char>::empty());
        }
    }
}

/// A format string without braces is one literal segment holding the whole
/// string.
pub proof fn law_plain_text_is_one_segment(s: Seq<char>)
    requires
        brace_free(s),
    ensures
        spec_parse_format(s) == Ok::<Seq<Seg>, FormatFailure>(seq![text_seg(s)]),
{
    lemma_parse_plain(s, 0, Seq::empty());
    assert(Seq::<char>::empty() + s.subrange(0, s.len() as int) =~= s);
}


/// The segments `segs[i]` and `segs[i + 1]` are not both literal text.
pub open spec fn pair_not_both_text(segs: Seq<Seg>, i: int) -> bool {
    segs[i].is_value || segs[i + 1].is_value
}

/// No two neighbouring segments are both literal text.
pub open spec fn no_adjacent_text(segs: Seq<Seg>) -> bool {
    forall|i: int| 0 <= i < segs.len() - 1 ==> #[trigger] pair_not_both_text(segs, i)
}

/// Every literal segment has non-empty text and the default options.
pub open spec fn texts_plain(segs: Seq<Seg>) -> bool {
    forall|i: int| 0 <= i < segs.len() && !(#[trigger] segs[i]).is_value ==> segs[i] == text_seg(segs[i].text)
        && segs[i].text.len() > 0
}

/// The shape of the segments produced so far: well formed, and ending with a
/// placeholder (or empty).
pub open spec fn parsed_prefix(segs: Seq<Seg>) -> bool {
    &&& no_adjacent_text(segs)
    &&& texts_plain(segs)
    &&& (segs.len() == 0 || segs.last().is_value)
}

proof fn lemma_flush_shape(cur: Seq<char>, segs: Seq<Seg>)
    requires
        parsed_prefix(segs),
    ensures
        no_adjacent_text(flush(cur, segs)),
        texts_plain(flush(cur, segs)),
        forall|v: Seg| v.is_value ==> #[trigger] parsed_prefix(flush(cur, segs).push(v)),
{
    let f = flush(cur, segs);
    if cur.len() > 0 {
        assert forall|i: int| 0 <= i < f.len() - 1 implies #[trigger] pair_not_both_text(f, i) by {
            if i < segs.len() - 1 {
                assert(pair_not_both_text(segs, i));
            }
        }
        assert forall|i: int| 0 <= i < f.len() && !(#[trigger] f[i]).is_value implies f[i] == text_seg(f[i].text)
            && f[i].text.len() > 0 by {
            if i < segs.len() {
                assert(segs[i] == f[i]);
            }
        }
    }
    assert forall|v: Seg| v.is_value implies #[trigger] parsed_prefix(f.push(v)) by {
        let g = f.push(v);
        assert forall|i: int| 0 <= i < g.len() - 1 implies #[trigger] pair_not_both_text(g, i) by {
            if i < f.len() - 1 {
                assert(pair_not_both_text(f, i));
            }
        }
        assert forall|i: int| 0 <= i < g.len() && !(#[trigger] g[i]).is_value implies g[i] == text_seg(g[i].text)
            && g[i].text.len() > 0 by {
            assert(i < f.len());
            assert(g[i] == f[i]);
        }
    }
}

proof fn lemma_parse_shape(s: Seq<char>, i: int, cur: Seq<char>, segs: Seq<Seg>)
    requires
        parsed_prefix(segs),
    ensures
        parse_from(s, i, cur, segs) matches Ok(out) ==> out.len() > 0 && no_adjacent_text(out) && (texts_plain(out)
            || out == seq![text_seg(Seq::empty())]),
    decreases s.len() - i,
{
    lemma_flush_shape(cur, segs);
    if i < 0 || i >= s.len() {
    } else if s[i] == '{' {
        if i + 1 < s.len() && s[i + 1] == '{' {
            lemma_parse_shape(s, i + 2, cur.push('{'), segs);
        } else {
            let p = placeholder(s, i + 1);
            lemma_placeholder_end(s, i + 1);
            if p.4 < s.len() && s[p.4] == '}' {
                let v = value_seg(p.0, p.1, p.2, p.3);
                assert(parsed_prefix(flush(cur, segs).push(v)));
                lemma_parse_shape(s, p.4 + 1, Seq::empty(), flush(cur, segs).push(v));
            }
        }
    } else if s[i] == '}' {
        if i + 1 < s.len() && s[i + 1] == '}' {
            lemma_parse_shape(s, i + 2, cur.push('}'), segs);
        }
    } else {
        lemma_parse_shape(s, i + 1, cur.push(s[i]), segs);
    }
}

/// The shape of a parsed format string: there is at least one segment; no two
/// neighbouring segments are both literal text; and each literal segment has
/// the default options and non-empty text, except when the whole result is a
/// single empty literal (the parse of the empty string).
pub proof fn law_format_segments_shape(s: Seq<char>)
    ensures
        spec_parse_format(s) matches Ok(segs) ==> segs.len() > 0 && no_adjacent_text(segs) && (texts_plain(segs)
            || segs == seq![text_seg(Seq::empty())]),
{
    lemma_parse_shape(s, 0, Seq::empty(), Seq::empty());
}


/// The text of `s[i..]` with `{{` and `}}` read as `{` and `}` and each
/// placeholder `{...}` left out (empty from a malformed brace on).
pub open spec fn unescaped_text(s: Seq<char>, i: int) -> Seq<char>
    decreases s.len() - i,
{
    if i < 0 || i >= s.len() {
        Seq::empty()
    } else if s[i] == '{' {
        if i + 1 < s.len() && s[i + 1] == '{' {
            seq!['{'] + unescaped_text(s, i + 2)
        } else {
            let p = placeholder(s, i + 1);
            proof {
                lemma_placeholder_end(s, i + 1);
            }
            if p.4 < s.len() && s[p.4] == '}' {
                unescaped_text(s, p.4 + 1)
            } else {
                Seq::empty()
            }
        }
    } else if s[i] == '}' {
        if i + 1 < s.len() && s[i + 1] == '}' {
            seq!['}'] + unescaped_text(s, i + 2)
        } else {
            Seq::empty()
        }
    } else {
        seq![s[i]] + unescaped_text(s, i + 1)
    }
}

/// The number of placeholders `{...}` in `s[i..]` (braces written twice are
/// no placeholders).
pub open spec fn placeholder_count(s: Seq<char>, i: int) -> nat
    decreases s.len() - i,
{
    if i < 0 || i >= s.len() {
        0
    } else if s[i] == '{' {
        if i + 1 < s.len() && s[i + 1] == '{' {
            placeholder_count(s, i + 2)
        } else {
            let p = placeholder(s, i + 1);
            proof {
                lemma_placeholder_end(s, i + 1);
            }
            if p.4 < s.len() && s[p.4] == '}' {
                1 + placeholder_count(s, p.4 + 1)
            } else {
                0
            }
        }
    } else if s[i] == '}' {
        if i + 1 < s.len() && s[i + 1] == '}' {
            placeholder_count(s, i + 2)
        } else {
            0
        }
    } else {
        placeholder_count(s, i + 1)
    }
}

/// The literal texts of `segs`, in order, joined.
pub open spec fn literal_text(segs: Seq<Seg>) -> Seq<char>
    decreases segs.len(),
{
    if segs.len() == 0 {
        Seq::empty()
    } else {
        literal_text(segs.drop_last()) + if segs.last().is_value { Seq::empty() } else { segs.last().text }
    }
}

/// The number of value placeholders among `segs`.
pub open spec fn value_count(segs: Seq<Seg>) -> nat
    decreases segs.len(),
{
    if segs.len() == 0 {
        0
    } else {
        value_count(segs.drop_last()) + if segs.last().is_value { 1nat } else { 0nat }
    }
}

proof fn lemma_push_seg(segs: Seq<Seg>, x: Seg)
    ensures
        literal_text(segs.push(x)) == literal_text(segs) + if x.is_value { Seq::empty() } else { x.text },
        value_count(segs.push(x)) == value_count(segs) + if x.is_value { 1nat } else { 0nat },
{
    assert(segs.push(x).drop_last() =~= segs);
}

proof fn lemma_flush_text(cur: Seq<char>, segs: Seq<Seg>)
    ensures
        literal_text(flush(cur, segs)) == literal_text(segs) + cur,
        value_count(flush(cur, segs)) == value_count(segs),
{
    if cur.len() > 0 {
        lemma_push_seg(segs, text_seg(cur));
    } else {
        assert(cur =~= Seq::<char>::empty());
        assert(literal_text(segs) + cur =~= literal_text(segs));
    }
}

proof fn lemma_parse_text(s: Seq<char>, i: int, cur: Seq<char>, segs: Seq<Seg>)
    ensures
        parse_from(s, i, cur, segs) matches Ok(out) ==> literal_text(out) == literal_text(segs) + cur + unescaped_text(s, i)
            && value_count(out) == value_count(segs) + placeholder_count(s, i),
    decreases s.len() - i,
{
    lemma_flush_text(cur, segs);
    if i < 0 || i >= s.len() {
        let out = flush(cur, segs);
        assert(literal_text(segs) + cur + Seq::<char>::empty() =~= literal_text(segs) + cur);
        if out.len() == 0 {
            assert(segs.len() == 0);
            assert(cur.len() == 0);
            let one = seq![text_seg(Seq::<char>::empty())];
            assert(one.drop_last() =~= Seq::<Seg>::empty());
            assert(literal_text(Seq::<Seg>::empty()) == Seq::<char>::empty());
            assert(value_count(Seq::<Seg>::empty()) == 0);
            assert(literal_text(one.drop_last()) == Seq::<char>::empty());
            assert(value_count(one.drop_last()) == 0);
            assert(!one.last().is_value && one.last().text == Seq::<char>::empty());
            assert(literal_text(one) =~= Seq::<char>::empty());
            assert(value_count(one) == 0);
            assert(segs =~= Seq::<Seg>::empty());
            assert(literal_text(segs) + cur + Seq::<char>::empty() =~= Seq::<char>::empty());
        }
    } else if s[i] == '{' {
        if i + 1 < s.len() && s[i + 1] == '{' {
            lemma_parse_text(s, i + 2, cur.push('{'), segs);
            assert(literal_text(segs) + cur.push('{') + unescaped_text(s, i + 2) =~= literal_text(segs) + cur + (
            seq!['{'] + unescaped_text(s, i + 2)));
        } else {
            let p = placeholder(s, i + 1);
            lemma_placeholder_end(s, i + 1);
            if p.4 < s.len() && s[p.4] == '}' {
                let v = value_seg(p.0, p.1, p.2, p.3);
                lemma_push_seg(flush(cur, segs), v);
                lemma_parse_text(s, p.4 + 1, Seq::empty(), flush(cur, segs).push(v));
                assert(literal_text(flush(cur, segs).push(v)) + Seq::<char>::empty() + unescaped_text(s, p.4 + 1)
                    =~= literal_text(segs) + cur + unescaped_text(s, p.4 + 1));
            }
        }
    } else if s[i] == '}' {
        if i + 1 < s.len() && s[i + 1] == '}' {
            lemma_parse_text(s, i + 2, cur.push('}'), segs);
            assert(literal_text(segs) + cur.push('}') + unescaped_text(s, i + 2) =~= literal_text(segs) + cur + (
            seq!['}'] + unescaped_text(s, i + 2)));
        }
    } else {
        lemma_parse_text(s, i + 1, cur.push(s[i]), segs);
        assert(literal_text(segs) + cur.push(s[i]) + unescaped_text(s, i + 1) =~= literal_text(segs) + cur + (
        seq![s[i]] + unescaped_text(s, i + 1)));
    }
}

/// The literal segments of a parsed format string, joined in order, are the
/// string with `{{` / `}}` read as `{` / `}` and its placeholders left out;
/// and there is one value segment per placeholder.
pub proof fn law_format_segments_text(s: Seq<char>)
    ensures
        spec_parse_format(s) matches Ok(segs) ==> literal_text(segs) == unescaped_text(s, 0) && value_count(segs)
            == placeholder_count(s, 0),
{
    lemma_parse_text(s, 0, Seq::empty(), Seq::empty());
    assert(literal_text(Seq::<Seg>::empty()) + Seq::<char>::empty() + unescaped_text(s, 0) =~= unescaped_text(s, 0));
}


/// A digit run followed by `}` ends where the `}` stands.
proof fn lemma_digit_run_to_brace(s: Seq<char>, j: int, len: int)
    requires
        0 <= j,
        j + len < s.len(),
        0 <= len,
        forall|k: int| j <= k < j + len ==> '0' <= #[trigger] s[k] && s[k] <= '9',
        s[j + len] == '}',
    ensures
        digit_run_end(s, j) == j + len,
    decreases len,
{
    if len > 0 {
        assert('0' <= s[j] && s[j] <= '9');
        lemma_digit_run_to_brace(s, j + 1, len - 1);
    }
}

/// In `{:<width>}`, `{:>width}` and `{:^width}` the mark after the colon is
/// the alignment, never the fill: the one segment is a value placeholder
/// with that alignment, the default fill (a space) and the given width.
pub proof fn law_alignment_mark_is_not_fill(al: char, d: Seq<char>)
    requires
        al == '<' || al == '>' || al == '^',
        d.len() > 0,
        forall|k: int| 0 <= k < d.len() ==> '0' <= #[trigger] d[k] && d[k] <= '9',
        digits_value(d) <= i64::MAX,
    ensures
        spec_parse_format(seq!['{', ':', al] + d + seq!['}']) == Ok::<Seq<Seg>, FormatFailure>(
            seq![Seg { text: Seq::empty(), is_value: true, is_debug: false, align: al, width: digits_value(d) as int, fill: 32u8 }],
        ),
{
    let s = seq!['{', ':', al] + d + seq!['}'];
    let e: int = 3int + d.len() as int;
    assert(s.len() == e + 1);
    assert forall|k: int| 3 <= k < 3 + d.len() implies '0' <= #[trigger] s[k] && s[k] <= '9' by {
        assert(s[k] == d[k - 3]);
    }
    assert(s[e] == '}');
    lemma_digit_run_to_brace(s, 3, d.len() as int);
    assert(s.subrange(3, e) =~= d);
    assert(s[0] == '{' && s[1] == ':' && s[2] == al);
    let p = placeholder(s, 1);
    assert(!is_fill_candidate(al));
    assert(is_align(al));
    assert(p == (false, al, digits_value(d) as int, 32u8, e));
    let v = value_seg(false, al, digits_value(d) as int, 32u8);
    assert(flush(Seq::<char>::empty(), Seq::<Seg>::empty()) == Seq::<Seg>::empty());
    assert(parse_from(s, e + 1, Seq::empty(), seq![v]) == Ok::<Seq<Seg>, FormatFailure>(seq![v])) by {
        assert(flush(Seq::<char>::empty(), seq![v]) == seq![v]);
    }
    assert(Seq::<Seg>::empty().push(v) =~= seq![v]);
}


/// In `{:<fill><align><width>}` a fill character (ASCII, not a digit, an
/// alignment mark or `}`) followed by an alignment mark gives a placeholder
/// with that fill, that alignment and that width.
pub proof fn law_fill_then_alignment(fl: char, al: char, d: Seq<char>)
    requires
        (fl as u32) < 128,
        fl != '}' && !('0' <= fl && fl <= '9') && fl != '<' && fl != '>' && fl != '^' && fl != '?',
        al == '<' || al == '>' || al == '^',
        d.len() > 0,
        forall|k: int| 0 <= k < d.len() ==> '0' <= #[trigger] d[k] && d[k] <= '9',
        digits_value(d) <= i64::MAX,
    ensures
        spec_parse_format(seq!['{', ':', fl, al] + d + seq!['}']) == Ok::<Seq<Seg>, FormatFailure>(
            seq![Seg { text: Seq::empty(), is_value: true, is_debug: false, align: al, width: digits_value(d) as int, fill: (fl as u32) as u8 }],
        ),
{
    let s = seq!['{', ':', fl, al] + d + seq!['}'];
    let e: int = 4int + d.len() as int;
    assert(s.len() == e + 1);
    assert forall|k: int| 4 <= k < 4 + d.len() implies '0' <= #[trigger] s[k] && s[k] <= '9' by {
        assert(s[k] == d[k - 4]);
    }
    assert(s[e] == '}');
    lemma_digit_run_to_brace(s, 4, d.len() as int);
    assert(s.subrange(4, e) =~= d);
    assert(s[0] == '{' && s[1] == ':' && s[2] == fl && s[3] == al);
    assert(is_fill_candidate(fl));
    assert(is_align(al));
    let p = placeholder(s, 1);
    assert(p == (false, al, digits_value(d) as int, (fl as u32) as u8, e));
    let v = value_seg(false, al, digits_value(d) as int, (fl as u32) as u8);
    assert(flush(Seq::<char>::empty(), Seq::<Seg>::empty()) == Seq::<Seg>::empty());
    assert(parse_from(s, e + 1, Seq::empty(), seq![v]) == Ok::<Seq<Seg>, FormatFailure>(seq![v])) by {
        assert(flush(Seq::<char>::empty(), seq![v]) == seq![v]);
    }
    assert(Seq::<Seg>::empty().push(v) =~= seq![v]);
}

/// `{}` is one display placeholder with the default options, and `{:?}` one
/// debug placeholder with the default options.
pub proof fn law_plain_and_debug_placeholders()
    ensures
        spec_parse_format(seq!['{', '}']) == Ok::<Seq<Seg>, FormatFailure>(
            seq![Seg { text: Seq::empty(), is_value: true, is_debug: false, align: '\0', width: 0, fill: 32u8 }],
        ),
        spec_parse_format(seq!['{', ':', '?', '}']) == Ok::<Seq<Seg>, FormatFailure>(
            seq![Seg { text: Seq::empty(), is_value: true, is_debug: true, align: '\0', width: 0, fill: 32u8 }],
        ),
{
    let s1 = seq!['{', '}'];
    assert(placeholder(s1, 1) == (false, '\0', 0int, 32u8, 1int));
    let v1 = value_seg(false, '\0', 0, 32u8);
    assert(flush(Seq::<char>::empty(), seq![v1]) == seq![v1]);
    assert(parse_from(s1, 2, Seq::empty(), seq![v1]) == Ok::<Seq<Seg>, FormatFailure>(seq![v1]));
    assert(Seq::<Seg>::empty().push(v1) =~= seq![v1]);
    let s2 = seq!['{', ':', '?', '}'];
    assert(placeholder(s2, 1) == (true, '\0', 0int, 32u8, 3int));
    let v2 = value_seg(true, '\0', 0, 32u8);
    assert(flush(Seq::<char>::empty(), seq![v2]) == seq![v2]);
    assert(parse_from(s2, 4, Seq::empty(), seq![v2]) == Ok::<Seq<Seg>, FormatFailure>(seq![v2]));
    assert(Seq::<Seg>::empty().push(v2) =~= seq![v2]);
}

} // verus!
