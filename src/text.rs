use vstd::prelude::*;

verus! {

/// The characters with the Unicode `White_Space` property.
pub open spec fn is_ws(c: char) -> bool {
    ('\u{9}' <= c && c <= '\u{d}') || c == ' ' || c == '\u{85}' || c == '\u{a0}'
        || c == '\u{1680}' || ('\u{2000}' <= c && c <= '\u{200a}') || c == '\u{2028}'
        || c == '\u{2029}' || c == '\u{202f}' || c == '\u{205f}' || c == '\u{3000}'
}

/// Tells whether `c` is white space in the sense of Unicode.
pub fn is_whitespace(c: char) -> (r: bool)
    ensures
        r == is_ws(c),
{
    ('\u{9}' <= c && c <= '\u{d}') || c == ' ' || c == '\u{85}' || c == '\u{a0}'
        || c == '\u{1680}' || ('\u{2000}' <= c && c <= '\u{200a}') || c == '\u{2028}'
        || c == '\u{2029}' || c == '\u{202f}' || c == '\u{205f}' || c == '\u{3000}'
}

/// The maximal runs of non-white-space characters of `s`, in order.
pub open spec fn tokens(s: Seq<char>) -> Seq<Seq<char>>
    decreases s.len(),
{
    if s.len() == 0 {
        Seq::empty()
    } else {
        let prev = tokens(s.drop_last());
        let c = s.last();
        if is_ws(c) {
            prev
        } else if s.len() == 1 || is_ws(s[s.len() - 2]) {
            prev.push(seq![c])
        } else {
            prev.update(prev.len() - 1, prev.last().push(c))
        }
    }
}

/// `s` without the NUL characters at its end.
pub open spec fn trim_end_nul(s: Seq<char>) -> Seq<char>
    decreases s.len(),
{
    if s.len() > 0 && s.last() == '\0' {
        trim_end_nul(s.drop_last())
    } else {
        s
    }
}

/// `s` without the white space at its end.
pub open spec fn trim_end_ws(s: Seq<char>) -> Seq<char>
    decreases s.len(),
{
    if s.len() > 0 && is_ws(s.last()) {
        trim_end_ws(s.drop_last())
    } else {
        s
    }
}

/// `s` without the white space at its start.
pub open spec fn trim_start_ws(s: Seq<char>) -> Seq<char>
    decreases s.len(),
{
    if s.len() > 0 && is_ws(s[0]) {
        trim_start_ws(s.drop_first())
    } else {
        s
    }
}

/// `s` without the white space at either end.
pub open spec fn trim_ws(s: Seq<char>) -> Seq<char> {
    trim_start_ws(trim_end_ws(s))
}

/// No character of `t` is white space.
pub open spec fn no_ws(t: Seq<char>) -> bool {
    forall|i: int| 0 <= i < t.len() ==> !is_ws(#[trigger] t[i])
}

/// Where `s` ends in a non-white-space character, it has a last token.
proof fn lemma_tokens_nonempty(s: Seq<char>)
    requires
        s.len() > 0,
        !is_ws(s.last()),
    ensures
        tokens(s).len() > 0,
    decreases s.len(),
{
    if !(s.len() == 1 || is_ws(s[s.len() - 2])) {
        lemma_tokens_nonempty(s.drop_last());
    }
}

/// A run of non-white-space characters after white space (or at the start) is
/// one more token.
pub proof fn lemma_tokens_append_word(p: Seq<char>, t: Seq<char>)
    requires
        p.len() == 0 || is_ws(p.last()),
        t.len() > 0,
        no_ws(t),
    ensures
        tokens(p + t) == tokens(p).push(t),
    decreases t.len(),
{
    let s = p + t;
    assert(s.drop_last() =~= p + t.drop_last());
    if t.len() == 1 {
        assert(s.drop_last() =~= p);
        assert(seq![s.last()] =~= t);
    } else {
        lemma_tokens_append_word(p, t.drop_last());
        assert(s[s.len() - 2] == t[t.len() - 2]);
        assert(t.drop_last().push(t.last()) =~= t);
        assert(tokens(p).push(t.drop_last()).update(tokens(p).len() as int, t) =~= tokens(p).push(t));
    }
}

/// White space at the end adds no token.
pub proof fn lemma_tokens_append_ws(p: Seq<char>, c: char)
    requires
        is_ws(c),
    ensures
        tokens(p.push(c)) == tokens(p),
{
    assert(p.push(c).drop_last() =~= p);
}

/// The spans, as character positions, of the tokens of `s`.
pub fn token_spans(s: &str) -> (r: Vec<(usize, usize)>)
    ensures
        r@.len() == tokens(s@).len(),
        forall|k: int| #![trigger r@[k]] 0 <= k < r@.len() ==> {
            &&& r@[k].0 <= r@[k].1 <= s@.len()
            &&& s@.subrange(r@[k].0 as int, r@[k].1 as int) == tokens(s@)[k]
        },
{
    let n = s.unicode_len();
    let mut spans: Vec<(usize, usize)> = Vec::new();
    let mut i: usize = 0;
    while i < n
        invariant
            i <= n,
            n == s@.len(),
            spans@.len() == tokens(s@.subrange(0, i as int)).len(),
            forall|k: int| #![trigger spans@[k]] 0 <= k < spans@.len() ==> {
                &&& spans@[k].0 <= spans@[k].1 <= i
                &&& s@.subrange(spans@[k].0 as int, spans@[k].1 as int) == tokens(
                    s@.subrange(0, i as int),
                )[k]
            },
            i > 0 && !is_ws(s@[i - 1]) ==> spans@.len() > 0 && spans@.last().1 == i,
        decreases n - i,
    {
        let c = s.get_char(i);
        let ghost pre = s@.subrange(0, i as int);
        let ghost cur = s@.subrange(0, i + 1);
        assert(cur.drop_last() =~= pre);
        assert(cur.last() == c);
        if is_whitespace(c) {
            assert(tokens(cur) == tokens(pre));
        } else if i == 0 || is_whitespace(s.get_char(i - 1)) {
            assert(s@.subrange(i as int, i + 1) =~= seq![c]);
            assert(tokens(cur) == tokens(pre).push(seq![c]));
            spans.push((i, i + 1));
            assert forall|k: int| #![trigger spans@[k]] 0 <= k < spans@.len() implies {
                &&& spans@[k].0 <= spans@[k].1 <= i + 1
                &&& s@.subrange(spans@[k].0 as int, spans@[k].1 as int) == tokens(cur)[k]
            } by {}
        } else {
            assert(cur[cur.len() - 2] == s@[i - 1]);
            proof {
                lemma_tokens_nonempty(pre);
            }
            let last = spans.len() - 1;
            let b = spans[last].0;
            let ghost old_spans = spans@;
            let ghost tp = tokens(pre);
            assert(tokens(cur) == tp.update(tp.len() - 1, tp.last().push(c)));
            assert(old_spans[last as int].1 == i);
            assert(s@.subrange(b as int, i as int) == tp[last as int]);
            spans.set(last, (b, i + 1));
            assert(s@.subrange(b as int, i + 1) =~= s@.subrange(b as int, i as int).push(c));
            assert forall|k: int| #![trigger spans@[k]] 0 <= k < spans@.len() implies {
                &&& spans@[k].0 <= spans@[k].1 <= i + 1
                &&& s@.subrange(spans@[k].0 as int, spans@[k].1 as int) == tokens(cur)[k]
            } by {
                if k < last {
                    assert(spans@[k] == old_spans[k]);
                    assert(old_spans[k].0 <= old_spans[k].1 <= i);
                    assert(tokens(cur)[k] == tp[k]);
                } else {
                    assert(spans@[k] == (b, (i + 1) as usize));
                    assert(old_spans[k].0 <= old_spans[k].1 <= i);
                }
            }
        }
        i = i + 1;
    }
    assert(s@.subrange(0, n as int) =~= s@);
    spans
}

/// The number of characters of `s` left once the NUL characters at its end are
/// dropped.
pub fn end_without_nul(s: &str) -> (e: usize)
    ensures
        e <= s@.len(),
        s@.subrange(0, e as int) == trim_end_nul(s@),
{
    let mut e = s.unicode_len();
    assert(s@.subrange(0, e as int) =~= s@);
    while e > 0 && s.get_char(e - 1) == '\0'
        invariant
            e <= s@.len(),
            trim_end_nul(s@.subrange(0, e as int)) == trim_end_nul(s@),
        decreases e,
    {
        assert(s@.subrange(0, e as int).drop_last() =~= s@.subrange(0, e - 1));
        e = e - 1;
    }
    e
}

/// The number of characters of `s` left once the white space at its end is
/// dropped.
pub fn end_without_ws(s: &str) -> (e: usize)
    ensures
        e <= s@.len(),
        s@.subrange(0, e as int) == trim_end_ws(s@),
{
    let mut e = s.unicode_len();
    assert(s@.subrange(0, e as int) =~= s@);
    while e > 0 && is_whitespace(s.get_char(e - 1))
        invariant
            e <= s@.len(),
            trim_end_ws(s@.subrange(0, e as int)) == trim_end_ws(s@),
        decreases e,
    {
        assert(s@.subrange(0, e as int).drop_last() =~= s@.subrange(0, e - 1));
        e = e - 1;
    }
    e
}

/// The first position of `s[..e]` that is not white space, or `e`.
pub fn start_without_ws(s: &str, e: usize) -> (b: usize)
    requires
        e <= s@.len(),
    ensures
        b <= e,
        s@.subrange(b as int, e as int) == trim_start_ws(s@.subrange(0, e as int)),
{
    let mut b: usize = 0;
    while b < e && is_whitespace(s.get_char(b))
        invariant
            b <= e <= s@.len(),
            trim_start_ws(s@.subrange(b as int, e as int)) == trim_start_ws(
                s@.subrange(0, e as int),
            ),
        decreases e - b,
    {
        assert(s@.subrange(b as int, e as int).drop_first() =~= s@.subrange(b + 1, e as int));
        b = b + 1;
    }
    b
}

} // verus!
