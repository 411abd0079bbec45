use vstd::prelude::*;
use vstd::string::StringSliceAdditionalSpecFns;
use vstd::utf8::encode_utf8;

verus! {

/// The byte `{`, which opens a placeholder or, doubled, stands for itself.
pub const OPEN_BRACE: u8 = 123;

/// The byte `}`, which closes a placeholder or, doubled, stands for itself.
pub const CLOSE_BRACE: u8 = 125;

/// The line terminator appended by the line-printing entry points.
pub const NEWLINE: u8 = 10;

/// The UTF-8 bytes of each value, in order.
pub open spec fn value_bytes(values: Seq<String>) -> Seq<Seq<u8>> {
    values.map_values(|v: String| encode_utf8(v@))
}

/// The values that remain once the first one has been used.
pub open spec fn rest_of(vals: Seq<Seq<u8>>) -> Seq<Seq<u8>> {
    if vals.len() > 0 {
        vals.subrange(1, vals.len() as int)
    } else {
        vals
    }
}

/// Whether the template starts with the placeholder `{}`.
pub open spec fn starts_placeholder(t: Seq<u8>) -> bool {
    t.len() >= 2 && t[0] == OPEN_BRACE && t[1] == CLOSE_BRACE
}

/// Whether the template starts with an escaped brace, `{{` or `}}`.
pub open spec fn starts_escape(t: Seq<u8>) -> bool {
    t.len() >= 2 && ((t[0] == OPEN_BRACE && t[1] == OPEN_BRACE) || (t[0] == CLOSE_BRACE && t[1]
        == CLOSE_BRACE))
}

/// The number of placeholders `{}` in a template, read from the left, where
/// `{{` and `}}` stand for one brace each.
pub open spec fn placeholder_count(t: Seq<u8>) -> nat
    decreases t.len(),
{
    if t.len() == 0 {
        0
    } else if starts_placeholder(t) {
        1 + placeholder_count(t.subrange(2, t.len() as int))
    } else if starts_escape(t) {
        placeholder_count(t.subrange(2, t.len() as int))
    } else {
        placeholder_count(t.subrange(1, t.len() as int))
    }
}

/// The text of a template with each placeholder replaced by the next value,
/// each escaped brace by one brace, and every other byte kept.
pub open spec fn interpolate(t: Seq<u8>, vals: Seq<Seq<u8>>) -> Seq<u8>
    decreases t.len(),
{
    if t.len() == 0 {
        seq![]
    } else if starts_placeholder(t) {
        let v = if vals.len() > 0 {
            vals[0]
        } else {
            seq![]
        };
        v + interpolate(t.subrange(2, t.len() as int), rest_of(vals))
    } else if starts_escape(t) {
        seq![t[0]] + interpolate(t.subrange(2, t.len() as int), vals)
    } else {
        seq![t[0]] + interpolate(t.subrange(1, t.len() as int), vals)
    }
}

/// The rendered text followed by one line terminator.
pub open spec fn line_of(t: Seq<u8>, vals: Seq<Seq<u8>>) -> Seq<u8> {
    interpolate(t, vals).push(NEWLINE)
}

/// Whether a byte sequence holds no brace, so that rendering keeps it as it is.
pub open spec fn brace_free(s: Seq<u8>) -> bool {
    forall|i: int| 0 <= i < s.len() ==> s[i] != OPEN_BRACE && s[i] != CLOSE_BRACE
}

/// A brace-free prefix of a template is rendered as it stands and holds no
/// placeholder.
pub proof fn lemma_literal_prefix(lit: Seq<u8>, rest: Seq<u8>, vals: Seq<Seq<u8>>)
    requires
        brace_free(lit),
    ensures
        interpolate(lit + rest, vals) == lit + interpolate(rest, vals),
        placeholder_count(lit + rest) == placeholder_count(rest),
    decreases lit.len(),
{
    if lit.len() == 0 {
        assert(lit + rest =~= rest);
        assert(lit + interpolate(rest, vals) =~= interpolate(rest, vals));
    } else {
        let t = lit + rest;
        let tail = lit.subrange(1, lit.len() as int);
        assert(t.subrange(1, t.len() as int) =~= tail + rest);
        lemma_literal_prefix(tail, rest, vals);
        assert(seq![lit[0]] + (tail + interpolate(rest, vals)) =~= lit + interpolate(rest, vals));
    }
}

/// A template that starts with a placeholder renders the first value, then
/// the rest of the template with the remaining values.
pub proof fn lemma_placeholder_head(rest: Seq<u8>, vals: Seq<Seq<u8>>)
    requires
        vals.len() > 0,
    ensures
        interpolate(seq![OPEN_BRACE, CLOSE_BRACE] + rest, vals) == vals[0] + interpolate(
            rest,
            vals.subrange(1, vals.len() as int),
        ),
        placeholder_count(seq![OPEN_BRACE, CLOSE_BRACE] + rest) == 1 + placeholder_count(rest),
{
    let t = seq![OPEN_BRACE, CLOSE_BRACE] + rest;
    assert(starts_placeholder(t));
    assert(t.subrange(2, t.len() as int) =~= rest);
}

/// A template without braces renders to itself, whatever the values.
pub proof fn lemma_brace_free_verbatim(t: Seq<u8>, vals: Seq<Seq<u8>>)
    requires
        brace_free(t),
    ensures
        interpolate(t, vals) == t,
        placeholder_count(t) == 0,
{
    lemma_literal_prefix(t, Seq::<u8>::empty(), vals);
    assert(t + Seq::<u8>::empty() =~= t);
}

/// A single value interpolated into `{}` is rendered byte for byte, and as a
/// line it is followed by exactly one line terminator.
pub proof fn lemma_single_value_verbatim(v: Seq<u8>)
    ensures
        placeholder_count(seq![OPEN_BRACE, CLOSE_BRACE]) == 1,
        interpolate(seq![OPEN_BRACE, CLOSE_BRACE], seq![v]) == v,
        line_of(seq![OPEN_BRACE, CLOSE_BRACE], seq![v]) == v.push(NEWLINE),
{
    lemma_placeholder_head(Seq::<u8>::empty(), seq![v]);
    assert(seq![OPEN_BRACE, CLOSE_BRACE] + Seq::<u8>::empty() =~= seq![OPEN_BRACE, CLOSE_BRACE]);
    assert(v + Seq::<u8>::empty() =~= v);
}

/// A line rendered from the empty template with no values is exactly one line
/// terminator.
pub proof fn lemma_empty_line()
    ensures
        placeholder_count(Seq::<u8>::empty()) == 0,
        line_of(Seq::<u8>::empty(), Seq::<Seq<u8>>::empty()) == seq![NEWLINE],
{
    assert(Seq::<u8>::empty().push(NEWLINE) =~= seq![NEWLINE]);
}

/// Rendering depends on the template and the values alone: equal inputs give
/// equal text and the same outcome.
pub proof fn lemma_render_deterministic(
    t1: Seq<u8>,
    t2: Seq<u8>,
    v1: Seq<Seq<u8>>,
    v2: Seq<Seq<u8>>,
)
    requires
        t1 == t2,
        v1 == v2,
    ensures
        interpolate(t1, v1) == interpolate(t2, v2),
        line_of(t1, v1) == line_of(t2, v2),
        placeholder_count(t1) == placeholder_count(t2),
{
}

/// Appends the bytes of `b` to `out`.
pub fn append_bytes(out: &mut Vec<u8>, b: &[u8])
    ensures
        final(out)@ == old(out)@ + b@,
{
    let mut i: usize = 0;
    while i < b.len()
        invariant
            0 <= i <= b@.len(),
            out@ == old(out)@ + b@.subrange(0, i as int),
        decreases b@.len() - i,
    {
        out.push(b[i]);
        i = i + 1;
        assert(out@ =~= old(out)@ + b@.subrange(0, i as int));
    }
    assert(b@.subrange(0, i as int) =~= b@);
}

/// Renders `template` with `values` interpolated in order. Returns `None` when
/// the template's placeholders and the values differ in number.
pub fn render(template: &str, values: &Vec<String>) -> (r: Option<Vec<u8>>)
    ensures
        r is Some <==> placeholder_count(template.spec_bytes()) == values@.len(),
        r matches Some(out) ==> out@ == interpolate(
            template.spec_bytes(),
            value_bytes(values@),
        ),
{
    let t = template.as_bytes();
    let ghost ts = t@;
    let ghost vals = value_bytes(values@);
    let n = t.len();
    let mut out: Vec<u8> = Vec::new();
    let mut i: usize = 0;
    let mut k: usize = 0;
    assert(ts.subrange(0, n as int) =~= ts);
    assert(vals.subrange(0, vals.len() as int) =~= vals);
    assert(out@ + ts =~= ts);
    while i < n
        invariant
            ts == t@,
            ts == template.spec_bytes(),
            vals == value_bytes(values@),
            n == ts.len(),
            0 <= i <= n,
            0 <= k <= values@.len(),
            interpolate(ts, vals) == out@ + interpolate(
                ts.subrange(i as int, n as int),
                vals.subrange(k as int, vals.len() as int),
            ),
            placeholder_count(ts) == k + placeholder_count(ts.subrange(i as int, n as int)),
        decreases n - i,
    {
        let ghost s = ts.subrange(i as int, n as int);
        let ghost vs = vals.subrange(k as int, vals.len() as int);
        if i + 1 < n && t[i] == OPEN_BRACE && t[i + 1] == CLOSE_BRACE {
            assert(starts_placeholder(s));
            assert(s.subrange(2, s.len() as int) =~= ts.subrange(i + 2, n as int));
            if k == values.len() {
                return None;
            }
            let v = values[k].as_str().as_bytes();
            assert(v@ == vals[k as int]);
            assert(rest_of(vs) =~= vals.subrange(k + 1, vals.len() as int));
            append_bytes(&mut out, v);
            i = i + 2;
            k = k + 1;
        } else if i + 1 < n && ((t[i] == OPEN_BRACE && t[i + 1] == OPEN_BRACE) || (t[i]
            == CLOSE_BRACE && t[i + 1] == CLOSE_BRACE)) {
            assert(!starts_placeholder(s) && starts_escape(s));
            assert(s.subrange(2, s.len() as int) =~= ts.subrange(i + 2, n as int));
            out.push(t[i]);
            i = i + 2;
        } else {
            assert(!starts_placeholder(s) && !starts_escape(s));
            assert(s.subrange(1, s.len() as int) =~= ts.subrange(i + 1, n as int));
            out.push(t[i]);
            i = i + 1;
        }
    }
    assert(ts.subrange(n as int, n as int) =~= Seq::<u8>::empty());
    if k == values.len() {
        Some(out)
    } else {
        None
    }
}

/// Renders `template` with `values` and appends one line terminator. Returns
/// `None` when the template's placeholders and the values differ in number.
pub fn render_line(template: &str, values: &Vec<String>) -> (r: Option<Vec<u8>>)
    ensures
        r is Some <==> placeholder_count(template.spec_bytes()) == values@.len(),
        r matches Some(out) ==> out@ == line_of(template.spec_bytes(), value_bytes(values@)),
{
    match render(template, values) {
        Some(mut out) => {
            out.push(NEWLINE);
            Some(out)
        },
        None => None,
    }
}

} // verus!
