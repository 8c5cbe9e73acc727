//! Whitespace is ignored: spaces inserted in front of a token change no token.
use vstd::prelude::*;

use crate::assembler::assemble::spec_assemble;
use crate::assembler::token::is_space;
use crate::assembler::tokenizer::{
    adv, hex_pred, ident_pred, lemma_span, not_eol_pred, not_quote_pred, scan, skip_spaces,
    space_pred, span, spec_tokenize, tokens_from,
};

verus! {

/// True if `s` and `t` hold the same characters before position `m`.
pub open spec fn agree_below(s: Seq<char>, t: Seq<char>, m: int) -> bool {
    &&& m <= s.len()
    &&& m <= t.len()
    &&& forall|k: int| 0 <= k < m ==> #[trigger] s[k] == t[k]
}

/// A run that ends before `m`, or at `m` where `t` breaks it too, is the same run in two
/// sequences that agree before `m`.
proof fn lemma_span_agree(s: Seq<char>, t: Seq<char>, i: int, m: int, f: spec_fn(char) -> bool)
    requires
        0 <= i <= m,
        agree_below(s, t, m),
        span(s, i, f) <= m,
        span(s, i, f) == m ==> m < t.len() && !f(t[m]),
    ensures
        span(t, i, f) == span(s, i, f),
    decreases m - i,
{
    lemma_span(s, i, f);
    if i < m {
        assert(t[i] == s[i]);
        if f(s[i]) {
            assert(span(s, i, f) == span(s, i + 1, f));
            assert(span(t, i, f) == span(t, i + 1, f));
            lemma_span_agree(s, t, i + 1, m, f);
        } else {
            assert(span(s, i, f) == i);
            assert(span(t, i, f) == i);
        }
    } else {
        assert(span(s, i, f) == i);
        assert(span(t, i, f) == i);
    }
}

/// A run in `y` is the same run, shifted, in `x + y`.
proof fn lemma_span_shift(x: Seq<char>, y: Seq<char>, q: int, f: spec_fn(char) -> bool)
    requires
        0 <= q <= y.len(),
    ensures
        span(x + y, x.len() + q, f) == x.len() + span(y, q, f),
    decreases y.len() - q,
{
    if q < y.len() && f(y[q]) {
        assert((x + y)[x.len() + q] == y[q]);
        lemma_span_shift(x, y, q + 1, f);
    } else if q < y.len() {
        assert((x + y)[x.len() + q] == y[q]);
    }
}

/// A run that crosses characters all satisfying `f` continues past them.
proof fn lemma_span_over(s: Seq<char>, i: int, j: int, f: spec_fn(char) -> bool)
    requires
        0 <= i <= j <= s.len(),
        forall|k: int| i <= k < j ==> f(#[trigger] s[k]),
    ensures
        span(s, i, f) == span(s, j, f),
    decreases j - i,
{
    if i < j {
        lemma_span_over(s, i + 1, j, f);
    }
}

/// Characters at or after `x.len()` in `x + y` are those of `y`.
proof fn lemma_concat_tail(x: Seq<char>, y: Seq<char>, a: int, b: int)
    requires
        0 <= a <= b <= y.len(),
    ensures
        (x + y).subrange(x.len() + a, x.len() + b) == y.subrange(a, b),
        forall|k: int| a <= k < b ==> #[trigger] (x + y)[x.len() + k] == y[k],
{
    assert((x + y).subrange(x.len() + a, x.len() + b) =~= y.subrange(a, b));
}

/// The token at position `q` of `y` is the same token, shifted, at `x.len() + q` of
/// `x + y`: a token depends only on what follows it.
proof fn lemma_scan_shift(x: Seq<char>, y: Seq<char>, q: int)
    requires
        0 <= q < y.len(),
    ensures
        scan(x + y, x.len() + q).0 == scan(y, q).0,
        scan(x + y, x.len() + q).1 == x.len() + scan(y, q).1,
{
    let s = x + y;
    let n = x.len();
    let i = n + q;
    lemma_concat_tail(x, y, q, y.len() as int);
    let c = y[q];
    assert(s[i] == c);
    if c == '"' {
        lemma_span_shift(x, y, q + 1, not_quote_pred());
        lemma_span(y, q + 1, not_quote_pred());
        let k = span(y, q + 1, not_quote_pred());
        lemma_concat_tail(x, y, q + 1, k);
    } else if c == '0' {
        if q + 1 < y.len() && y[q + 1] == 'x' {
            lemma_span_shift(x, y, q + 2, hex_pred());
            lemma_span(y, q + 2, hex_pred());
            let k = span(y, q + 2, hex_pred());
            lemma_concat_tail(x, y, q + 2, k);
        } else {
            lemma_concat_tail(x, y, q, q + 1);
        }
    } else if c == ';' {
        lemma_span_shift(x, y, q + 1, space_pred());
        lemma_span(y, q + 1, space_pred());
        let j = span(y, q + 1, space_pred());
        lemma_span_shift(x, y, j, not_eol_pred());
        lemma_span(y, j, not_eol_pred());
        let k = span(y, j, not_eol_pred());
        lemma_concat_tail(x, y, j, k);
    } else if crate::assembler::token::is_ascii_alpha(c) {
        lemma_span_shift(x, y, q, ident_pred());
        lemma_span(y, q, ident_pred());
        let k = span(y, q, ident_pred());
        lemma_concat_tail(x, y, q, k);
    } else {
        lemma_concat_tail(x, y, q, q + 1);
    }
}

/// The tokens of `y` from `q` on are the tokens of `x + y` from `x.len() + q` on.
pub(crate) proof fn lemma_tokens_shift(x: Seq<char>, y: Seq<char>, q: int)
    requires
        0 <= q,
    ensures
        tokens_from(x + y, x.len() + q) == tokens_from(y, q),
    decreases y.len() - q,
{
    if q < y.len() {
        lemma_scan_shift(x, y, q);
        let j = scan(y, q).1;
        crate::assembler::tokenizer::lemma_scan_advances(y, q);
        lemma_span_shift(x, y, j, space_pred());
        let n = skip_spaces(y, j);
        if q < n <= y.len() {
            lemma_tokens_shift(x, y, n);
        }
    }
}

/// The token at `i` ends by `m`, where `s` has a character that starts a token and `t` a
/// space, and the two agree before `m`: then it is the same token in both.
proof fn lemma_scan_agree(s: Seq<char>, t: Seq<char>, i: int, m: int)
    requires
        agree_below(s, t, m),
        0 <= i < m,
        m < s.len(),
        m < t.len(),
        !is_space(s[m]),
        is_space(t[m]),
        scan(s, i).1 <= m,
    ensures
        scan(t, i) == scan(s, i),
{
    let c = s[i];
    assert(t[i] == c);
    if c == '"' {
        lemma_span(s, i + 1, not_quote_pred());
        let k = span(s, i + 1, not_quote_pred());
        lemma_span_agree(s, t, i + 1, m, not_quote_pred());
        assert(t.subrange(i + 1, k) =~= s.subrange(i + 1, k));
    } else if c == '0' {
        if i + 1 < s.len() && s[i + 1] == 'x' {
            lemma_span(s, i + 2, hex_pred());
            let k = span(s, i + 2, hex_pred());
            assert(t[i + 1] == 'x');
            lemma_span_agree(s, t, i + 2, m, hex_pred());
            assert(t.subrange(i + 2, k) =~= s.subrange(i + 2, k));
        } else {
            if i + 1 < m {
                assert(t[i + 1] == s[i + 1]);
            }
            assert(t.subrange(i, i + 1) =~= s.subrange(i, i + 1));
        }
    } else if c == ';' {
        lemma_span(s, i + 1, space_pred());
        let j = span(s, i + 1, space_pred());
        lemma_span(s, j, not_eol_pred());
        let k = span(s, j, not_eol_pred());
        assert(k < m);
        lemma_span_agree(s, t, i + 1, m, space_pred());
        lemma_span_agree(s, t, j, m, not_eol_pred());
        assert(t[k] == s[k]);
        if k + 1 < m {
            assert(t[k + 1] == s[k + 1]);
        }
        assert(t.subrange(j, k) =~= s.subrange(j, k));
    } else if crate::assembler::token::is_ascii_alpha(c) {
        lemma_span(s, i, ident_pred());
        let k = span(s, i, ident_pred());
        lemma_span_agree(s, t, i, m, ident_pred());
        if k < m {
            assert(t[k] == s[k]);
        }
        assert(t.subrange(i, k) =~= s.subrange(i, k));
    }
}

/// True if the tokenizer, starting a token at `i` of `s`, comes to start one at `p`:
/// each token is followed by the spaces after it, up to the next token.
pub open spec fn reaches(s: Seq<char>, i: int, p: int) -> bool
    decreases p - i,
{
    if i == p {
        true
    } else if 0 <= i < p && i < s.len() {
        let n = skip_spaces(s, scan(s, i).1);
        i < n <= p && reaches(s, n, p)
    } else {
        false
    }
}

/// True if the tokenizer starts a token at position `p` of source text `s`.
pub open spec fn token_start(s: Seq<char>, p: int) -> bool {
    0 <= p < s.len() && reaches(s, skip_spaces(s, 0), p)
}

/// `s` with the characters `w` inserted at position `p`.
pub open spec fn inserted(s: Seq<char>, p: int, w: Seq<char>) -> Seq<char> {
    s.take(p) + w + s.skip(p)
}

/// True if every character of `w` is whitespace other than a newline.
pub open spec fn all_spaces(w: Seq<char>) -> bool {
    forall|k: int| 0 <= k < w.len() ==> is_space(#[trigger] w[k])
}

/// After spaces inserted at a token start `p`, the tokenizer picks up at `p` plus the
/// spaces with the same tokens as before.
proof fn lemma_tokens_at_insertion(s: Seq<char>, p: int, w: Seq<char>)
    requires
        0 <= p <= s.len(),
    ensures
        tokens_from(inserted(s, p, w), p + w.len()) == tokens_from(s, p),
{
    let x = s.take(p);
    let y = s.skip(p);
    assert(s =~= x + y);
    lemma_tokens_shift(x, y, 0);
    assert(inserted(s, p, w) =~= (x + w) + y);
    lemma_tokens_shift(x + w, y, 0);
}

/// The spaces from `j` up to a token start `p` in `s` run on, in the text with spaces
/// inserted at `p`, to just past the inserted spaces.
proof fn lemma_spaces_run_on(s: Seq<char>, p: int, w: Seq<char>, j: int)
    requires
        0 <= j <= p < s.len(),
        !is_space(s[p]),
        all_spaces(w),
        skip_spaces(s, j) == p,
    ensures
        skip_spaces(inserted(s, p, w), j) == p + w.len(),
{
    let t = inserted(s, p, w);
    lemma_span(s, j, space_pred());
    assert(t.len() == s.len() + w.len());
    assert forall|k: int| j <= k < p + w.len() implies is_space(#[trigger] t[k]) by {
        if k < p {
            assert(t[k] == s[k]);
        } else {
            assert(t[k] == w[k - p]);
        }
    }
    lemma_span_over(t, j, p + w.len(), space_pred());
    assert(t[p + w.len()] == s[p]);
}

/// The tokens from a position `i` before a token start `p` are the same once spaces are
/// inserted at `p`.
proof fn lemma_tokens_before_insertion(s: Seq<char>, p: int, w: Seq<char>, i: int)
    requires
        0 <= i < p < s.len(),
        !is_space(s[p]),
        all_spaces(w),
        reaches(s, i, p),
    ensures
        tokens_from(inserted(s, p, w), i) == tokens_from(s, i),
    decreases p - i,
{
    let t = inserted(s, p, w);
    assert(t.len() == s.len() + w.len());
    assert(agree_below(s, t, p)) by {
        assert forall|k: int| 0 <= k < p implies #[trigger] s[k] == t[k] by {}
    }
    assert(t[p] == w[0] || w.len() == 0);
    crate::assembler::tokenizer::lemma_scan_advances(s, i);
    let (tok, j) = scan(s, i);
    let n = skip_spaces(s, j);
    lemma_span(s, j, space_pred());
    if w.len() == 0 {
        assert(t =~= s);
    } else {
        assert(t[p] == w[0]);
        lemma_scan_agree(s, t, i, p);
        if n < p {
            lemma_span_agree(s, t, j, p, space_pred());
            lemma_tokens_before_insertion(s, p, w, n);
        } else {
            lemma_spaces_run_on(s, p, w, j);
            lemma_tokens_at_insertion(s, p, w);
        }
    }
}

/// Whitespace is ignored: spaces or tabs (any whitespace but a newline) inserted in
/// front of any token of a source text leave its tokens, and so what it assembles to,
/// unchanged.
pub proof fn lemma_space_before_token_ignored(s: Seq<char>, p: int, w: Seq<char>)
    requires
        token_start(s, p),
        all_spaces(w),
    ensures
        spec_tokenize(inserted(s, p, w)) == spec_tokenize(s),
        spec_assemble(inserted(s, p, w)) == spec_assemble(s),
{
    let t = inserted(s, p, w);
    let b = skip_spaces(s, 0);
    lemma_span(s, 0, space_pred());
    lemma_span(s, p, space_pred());
    assert(!is_space(s[p])) by {
        if b == p {
        } else {
            lemma_reaches_ends_after_spaces(s, b, p);
        }
    }
    if b == p {
        lemma_spaces_run_on(s, p, w, 0);
        lemma_tokens_at_insertion(s, p, w);
    } else {
        assert(t.len() == s.len() + w.len());
        assert(agree_below(s, t, p)) by {
            assert forall|k: int| 0 <= k < p implies #[trigger] s[k] == t[k] by {}
        }
        if w.len() > 0 {
            assert(t[p] == w[0]);
            lemma_span_agree(s, t, 0, p, space_pred());
        } else {
            assert(t =~= s);
        }
        lemma_tokens_before_insertion(s, p, w, b);
    }
}

/// A token start other than the first lies just after a run of spaces, so it is not a
/// space itself.
proof fn lemma_reaches_ends_after_spaces(s: Seq<char>, i: int, p: int)
    requires
        0 <= i < p < s.len(),
        reaches(s, i, p),
    ensures
        !is_space(s[p]),
    decreases p - i,
{
    crate::assembler::tokenizer::lemma_scan_advances(s, i);
    let j = scan(s, i).1;
    let n = skip_spaces(s, j);
    lemma_span(s, j, space_pred());
    if n < p {
        lemma_reaches_ends_after_spaces(s, n, p);
    }
}

/// The tokenizer still comes from `i` to a token start `q` of `s` once spaces are
/// inserted at a later token start `p`.
proof fn lemma_reaches_before_insertion(s: Seq<char>, p: int, w: Seq<char>, i: int, q: int)
    requires
        0 <= i <= q < p < s.len(),
        !is_space(s[p]),
        all_spaces(w),
        reaches(s, i, q),
    ensures
        reaches(inserted(s, p, w), i, q),
    decreases q - i,
{
    let t = inserted(s, p, w);
    if i < q {
        assert(t.len() == s.len() + w.len());
        assert(agree_below(s, t, p)) by {
            assert forall|k: int| 0 <= k < p implies #[trigger] s[k] == t[k] by {}
        }
        crate::assembler::tokenizer::lemma_scan_advances(s, i);
        let j = scan(s, i).1;
        let n = skip_spaces(s, j);
        lemma_span(s, j, space_pred());
        if w.len() == 0 {
            assert(t =~= s);
        } else {
            assert(t[p] == w[0]);
            lemma_scan_agree(s, t, i, p);
            lemma_span_agree(s, t, j, p, space_pred());
            lemma_reaches_before_insertion(s, p, w, n, q);
        }
    }
}

/// A token start `q` before a token start `p` is still a token start once spaces are
/// inserted at `p`.
proof fn lemma_token_start_kept(s: Seq<char>, p: int, w: Seq<char>, q: int)
    requires
        token_start(s, p),
        token_start(s, q),
        q < p,
        all_spaces(w),
    ensures
        token_start(inserted(s, p, w), q),
{
    let t = inserted(s, p, w);
    let b = skip_spaces(s, 0);
    lemma_span(s, 0, space_pred());
    assert(b <= q);
    lemma_reaches_ends_after_spaces(s, b, p);
    assert(t.len() == s.len() + w.len());
    if w.len() == 0 {
        assert(t =~= s);
    } else {
        assert(agree_below(s, t, p)) by {
            assert forall|k: int| 0 <= k < p implies #[trigger] s[k] == t[k] by {}
        }
        assert(t[p] == w[0]);
        lemma_span_agree(s, t, 0, p, space_pred());
        lemma_reaches_before_insertion(s, p, w, b, q);
    }
}

/// `s` with the runs of spaces `ws[k]` inserted at the positions `ps[k]`, one after the
/// other.
pub open spec fn inserted_each(s: Seq<char>, ps: Seq<int>, ws: Seq<Seq<char>>) -> Seq<char>
    decreases ps.len(),
{
    if ps.len() == 0 || ws.len() == 0 {
        s
    } else {
        inserted_each(inserted(s, ps[0], ws[0]), ps.drop_first(), ws.drop_first())
    }
}

/// Whitespace is ignored wherever it is added: spaces or tabs inserted in front of any
/// number of tokens of a source text (at token starts `ps` of the text, taken from the
/// last to the first) leave its tokens, and so what it assembles to, unchanged.
pub proof fn lemma_spaces_before_tokens_ignored(s: Seq<char>, ps: Seq<int>, ws: Seq<Seq<char>>)
    requires
        ps.len() == ws.len(),
        forall|k: int| 0 <= k < ps.len() ==> token_start(s, #[trigger] ps[k]),
        forall|k: int| 0 <= k < ws.len() ==> all_spaces(#[trigger] ws[k]),
        forall|k: int, l: int| 0 <= k < l < ps.len() ==> #[trigger] ps[l] < #[trigger] ps[k],
    ensures
        spec_tokenize(inserted_each(s, ps, ws)) == spec_tokenize(s),
        spec_assemble(inserted_each(s, ps, ws)) == spec_assemble(s),
    decreases ps.len(),
{
    if ps.len() > 0 {
        let t = inserted(s, ps[0], ws[0]);
        lemma_space_before_token_ignored(s, ps[0], ws[0]);
        let ps1 = ps.drop_first();
        let ws1 = ws.drop_first();
        assert forall|k: int| 0 <= k < ps1.len() implies token_start(t, #[trigger] ps1[k]) by {
            assert(ps1[k] == ps[k + 1]);
            assert(ps[k + 1] < ps[0]);
            lemma_token_start_kept(s, ps[0], ws[0], ps1[k]);
        }
        assert forall|k: int| 0 <= k < ws1.len() implies all_spaces(#[trigger] ws1[k]) by {
            assert(ws1[k] == ws[k + 1]);
        }
        assert forall|k: int, l: int| 0 <= k < l < ps1.len() implies #[trigger] ps1[l]
            < #[trigger] ps1[k] by {
            assert(ps1[l] == ps[l + 1] && ps1[k] == ps[k + 1]);
        }
        lemma_spaces_before_tokens_ignored(t, ps1, ws1);
    }
}

} // verus!
