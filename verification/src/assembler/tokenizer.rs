//! Splitting assembly source text into tokens.
use vstd::prelude::*;

use crate::assembler::token::{
    hex_digit_val, hex_value, is_ascii_alpha, is_ascii_alpha_char, is_hex_digit, is_hex_digit_char,
    is_ident_char, is_ident_char_exec, is_space, is_whitespace_char, Token, TokenView,
};
use crate::regs::{reg_from_name, Reg};
use crate::text::{chars_of, eq_chars_str, string_of};

verus! {

/// `i + 1`, or `i` at the end of `s` (consuming one character if there is one).
pub open spec fn adv(s: Seq<char>, i: int) -> int {
    if i < s.len() {
        i + 1
    } else {
        i
    }
}

/// The end of the run of characters satisfying `p` that starts at `i`.
pub open spec fn span(s: Seq<char>, i: int, p: spec_fn(char) -> bool) -> int
    decreases s.len() - i,
{
    if 0 <= i < s.len() && p(s[i]) {
        span(s, i + 1, p)
    } else {
        i
    }
}

pub open spec fn space_pred() -> spec_fn(char) -> bool {
    |c: char| is_space(c)
}

pub open spec fn hex_pred() -> spec_fn(char) -> bool {
    |c: char| is_hex_digit(c)
}

pub open spec fn ident_pred() -> spec_fn(char) -> bool {
    |c: char| is_ident_char(c)
}

pub open spec fn not_eol_pred() -> spec_fn(char) -> bool {
    |c: char| c != '\r' && c != '\n'
}

pub open spec fn not_quote_pred() -> spec_fn(char) -> bool {
    |c: char| c != '"'
}

/// The position after any spaces (but not newlines) at `i`.
pub open spec fn skip_spaces(s: Seq<char>, i: int) -> int {
    span(s, i, space_pred())
}

/// The assembler's keywords.
pub open spec fn is_keyword(id: Seq<char>) -> bool {
    ||| id == "add"@
    ||| id == "and"@
    ||| id == "bcc"@
    ||| id == "bcs"@
    ||| id == "beq"@
    ||| id == "bne"@
    ||| id == "bra"@
    ||| id == "call"@
    ||| id == "clc"@
    ||| id == "cmp"@
    ||| id == "data"@
    ||| id == "dec"@
    ||| id == "halt"@
    ||| id == "inc"@
    ||| id == "jmp"@
    ||| id == "ld"@
    ||| id == "lsr"@
    ||| id == "nop"@
    ||| id == "org"@
    ||| id == "pop"@
    ||| id == "push"@
    ||| id == "ret"@
    ||| id == "rti"@
    ||| id == "sec"@
    ||| id == "sub"@
    ||| id == "trap"@
}

/// A comment: `;`, then spaces, then the text up to the end of the line. The line end
/// right after the text is consumed with it, whether a newline or a Windows carriage
/// return and newline, so that a comment line counts as one line.
pub open spec fn scan_comment(s: Seq<char>, i: int) -> (TokenView, int) {
    let j = skip_spaces(s, adv(s, i));
    let k = span(s, j, not_eol_pred());
    let end = if k < s.len() && s[k] == '\n' {
        k + 1
    } else if k + 1 < s.len() && s[k] == '\r' && s[k + 1] == '\n' {
        k + 2
    } else {
        k
    };
    (TokenView::Comment(s.subrange(j, k)), end)
}

/// A hex literal: `0x`, then the hex digits; two digits make a byte, four a word, any
/// other number an illegal token. A `0` not followed by `x` is an illegal token by
/// itself.
pub open spec fn scan_hex_literal(s: Seq<char>, i: int) -> (TokenView, int) {
    if i + 1 < s.len() && s[i + 1] == 'x' {
        let j = i + 2;
        let k = span(s, j, hex_pred());
        let lit = s.subrange(j, k);
        (if lit.len() == 2 {
            TokenView::ByteLiteral(hex_value(lit) as u8)
        } else if lit.len() == 4 {
            TokenView::WordLiteral(hex_value(lit) as u16)
        } else {
            TokenView::Illegal(lit)
        }, k)
    } else {
        (TokenView::Illegal(s.subrange(i, adv(s, i))), adv(s, i))
    }
}

/// An identifier: a register name, a keyword, a label definition (followed by `:`,
/// which is consumed), or else a label reference.
pub open spec fn scan_identifier(s: Seq<char>, i: int) -> (TokenView, int) {
    let k = span(s, i, ident_pred());
    let id = s.subrange(i, k);
    match reg_from_name(id) {
        Some(r) => (TokenView::Register(r), k),
        None => if is_keyword(id) {
            (TokenView::Keyword(id), k)
        } else if k < s.len() && s[k] == ':' {
            (TokenView::LabelDef(id), k + 1)
        } else {
            (TokenView::Identifier(id), k)
        },
    }
}

/// A string literal: the characters between the opening `"` and the next `"` (or the
/// end of the input).
pub open spec fn scan_string(s: Seq<char>, i: int) -> (TokenView, int) {
    let j = adv(s, i);
    let k = span(s, j, not_quote_pred());
    (TokenView::StringLiteral(s.subrange(j, k)), adv(s, k))
}

/// The token that starts at `i`, and the position after it.
pub open spec fn scan(s: Seq<char>, i: int) -> (TokenView, int) {
    let c = s[i];
    if c == '"' {
        scan_string(s, i)
    } else if c == '(' {
        (TokenView::ParenOpen, i + 1)
    } else if c == ')' {
        (TokenView::ParenClose, i + 1)
    } else if c == ',' {
        (TokenView::Comma, i + 1)
    } else if c == '0' {
        scan_hex_literal(s, i)
    } else if c == ';' {
        scan_comment(s, i)
    } else if c == '\n' {
        (TokenView::Newline, i + 1)
    } else if is_ascii_alpha(c) {
        scan_identifier(s, i)
    } else {
        (TokenView::Illegal(seq![c]), i + 1)
    }
}

/// The tokens of `s` from position `i` on.
pub open spec fn tokens_from(s: Seq<char>, i: int) -> Seq<TokenView>
    decreases s.len() - i,
{
    if 0 <= i < s.len() {
        let (t, j) = scan(s, i);
        let n = skip_spaces(s, j);
        if i < n <= s.len() {
            seq![t] + tokens_from(s, n)
        } else {
            seq![t]
        }
    } else {
        Seq::empty()
    }
}

/// The tokens of source text `s`.
pub open spec fn spec_tokenize(s: Seq<char>) -> Seq<TokenView> {
    tokens_from(s, skip_spaces(s, 0))
}

/// The views of a sequence of tokens.
pub open spec fn tokens_view(v: Seq<Token>) -> Seq<TokenView> {
    v.map_values(|t: Token| t@)
}

/// A run of characters satisfying `p` stays within `s`, and ends at the end of `s` or at
/// a character that does not satisfy `p`.
pub proof fn lemma_span(s: Seq<char>, i: int, p: spec_fn(char) -> bool)
    requires
        0 <= i <= s.len(),
    ensures
        i <= span(s, i, p) <= s.len(),
        forall|k: int| i <= k < span(s, i, p) ==> p(#[trigger] s[k]),
        span(s, i, p) == s.len() || !p(s[span(s, i, p)]),
    decreases s.len() - i,
{
    if i < s.len() && p(s[i]) {
        lemma_span(s, i + 1, p);
    }
}

/// The source code being split into tokens, and the position reached.
pub struct Tokenizer {
    /// The source code, as characters.
    pub chars: Vec<char>,
    /// The position of the next character to read.
    pub pos: usize,
    /// Debug mode.
    pub debug: bool,
}

/// Returns the characters `v[i..k]`.
fn chars_between(v: &Vec<char>, i: usize, k: usize) -> (r: Vec<char>)
    requires
        i <= k <= v@.len(),
    ensures
        r@ == v@.subrange(i as int, k as int),
{
    let mut r: Vec<char> = Vec::new();
    let mut j = i;
    while j < k
        invariant
            i <= j <= k <= v@.len(),
            r@ == v@.subrange(i as int, j as int),
        decreases k - j,
    {
        r.push(v[j]);
        j = j + 1;
        assert(r@ =~= v@.subrange(i as int, j as int));
    }
    r
}

/// Returns true if `id` is one of the assembler's keywords.
pub fn is_keyword_chars(id: &[char]) -> (r: bool)
    ensures
        r == is_keyword(id@),
{
    eq_chars_str(id, "add") || eq_chars_str(id, "and") || eq_chars_str(id, "bcc")
        || eq_chars_str(id, "bcs") || eq_chars_str(id, "beq") || eq_chars_str(id, "bne")
        || eq_chars_str(id, "bra") || eq_chars_str(id, "call") || eq_chars_str(id, "clc")
        || eq_chars_str(id, "cmp") || eq_chars_str(id, "data") || eq_chars_str(id, "dec")
        || eq_chars_str(id, "halt") || eq_chars_str(id, "inc") || eq_chars_str(id, "jmp")
        || eq_chars_str(id, "ld") || eq_chars_str(id, "lsr") || eq_chars_str(id, "nop")
        || eq_chars_str(id, "org") || eq_chars_str(id, "pop") || eq_chars_str(id, "push")
        || eq_chars_str(id, "ret") || eq_chars_str(id, "rti") || eq_chars_str(id, "sec")
        || eq_chars_str(id, "sub") || eq_chars_str(id, "trap")
}

impl Tokenizer {
    /// A tokenizer at the start of `source`.
    pub fn new(source: &str) -> (t: Tokenizer)
        ensures
            t.chars@ == source@,
            t.pos == 0,
            !t.debug,
    {
        Tokenizer { debug: false, chars: chars_of(source), pos: 0 }
    }

    /// A tokenizer at the start of `source`, in debug mode.
    pub fn new_with_debug(source: &str) -> (t: Tokenizer)
        ensures
            t.chars@ == source@,
            t.pos == 0,
            t.debug,
    {
        let mut tokenizer = Self::new(source);
        tokenizer.debug = true;
        tokenizer
    }

    /// The position one character on, or the same position at the end of the input.
    fn advanced(&self, i: usize) -> (r: usize)
        requires
            i <= self.chars@.len(),
        ensures
            r == adv(self.chars@, i as int),
    {
        if i < self.chars.len() {
            i + 1
        } else {
            i
        }
    }

    /// The end of the run of spaces from `i`.
    fn span_spaces(&self, i: usize) -> (r: usize)
        requires
            i <= self.chars@.len(),
        ensures
            r == span(self.chars@, i as int, space_pred()),
    {
        let mut j = i;
        while j < self.chars.len() && is_whitespace_char(self.chars[j]) && self.chars[j] != '\n'
            invariant
                i <= j <= self.chars@.len(),
                span(self.chars@, i as int, space_pred()) == span(self.chars@, j as int, space_pred()),
            decreases self.chars@.len() - j,
        {
            j = j + 1;
        }
        j
    }

    /// The end of the run of hex digits from `i`.
    fn span_hex(&self, i: usize) -> (r: usize)
        requires
            i <= self.chars@.len(),
        ensures
            r == span(self.chars@, i as int, hex_pred()),
    {
        let mut j = i;
        while j < self.chars.len() && is_hex_digit_char(self.chars[j])
            invariant
                i <= j <= self.chars@.len(),
                span(self.chars@, i as int, hex_pred()) == span(self.chars@, j as int, hex_pred()),
            decreases self.chars@.len() - j,
        {
            j = j + 1;
        }
        j
    }

    /// The end of the run of identifier characters from `i`.
    fn span_ident(&self, i: usize) -> (r: usize)
        requires
            i <= self.chars@.len(),
        ensures
            r == span(self.chars@, i as int, ident_pred()),
    {
        let mut j = i;
        while j < self.chars.len() && is_ident_char_exec(self.chars[j])
            invariant
                i <= j <= self.chars@.len(),
                span(self.chars@, i as int, ident_pred()) == span(self.chars@, j as int, ident_pred()),
            decreases self.chars@.len() - j,
        {
            j = j + 1;
        }
        j
    }

    /// The end of the run of characters other than line ends from `i`.
    fn span_line(&self, i: usize) -> (r: usize)
        requires
            i <= self.chars@.len(),
        ensures
            r == span(self.chars@, i as int, not_eol_pred()),
    {
        let mut j = i;
        while j < self.chars.len() && self.chars[j] != '\r' && self.chars[j] != '\n'
            invariant
                i <= j <= self.chars@.len(),
                span(self.chars@, i as int, not_eol_pred()) == span(self.chars@, j as int, not_eol_pred()),
            decreases self.chars@.len() - j,
        {
            j = j + 1;
        }
        j
    }

    /// The end of the run of characters other than `"` from `i`.
    fn span_string(&self, i: usize) -> (r: usize)
        requires
            i <= self.chars@.len(),
        ensures
            r == span(self.chars@, i as int, not_quote_pred()),
    {
        let mut j = i;
        while j < self.chars.len() && self.chars[j] != '"'
            invariant
                i <= j <= self.chars@.len(),
                span(self.chars@, i as int, not_quote_pred()) == span(self.chars@, j as int, not_quote_pred()),
            decreases self.chars@.len() - j,
        {
            j = j + 1;
        }
        j
    }

    /// Reads a comment token.
    pub fn read_comment(&mut self) -> (t: Token)
        requires
            old(self).pos <= old(self).chars@.len(),
        ensures
            final(self).chars@ == old(self).chars@,
            final(self).debug == old(self).debug,
            (t@, final(self).pos as int) == scan_comment(old(self).chars@, old(self).pos as int),
    {
        let s = Ghost(self.chars@);
        let after = self.advanced(self.pos);  // skip ';' prefix
        proof { lemma_span(s@, after as int, space_pred()); }
        let j = self.span_spaces(after);
        proof { lemma_span(s@, j as int, not_eol_pred()); }
        let k = self.span_line(j);
        let text = chars_between(&self.chars, j, k);
        let end = if k < self.chars.len() && self.chars[k] == '\n' {
            k + 1
        } else if k < self.chars.len() && k + 1 < self.chars.len() && self.chars[k] == '\r'
            && self.chars[k + 1] == '\n' {
            k + 2  // a Windows line end
        } else {
            k
        };
        self.pos = end;
        Token::Comment(string_of(&text))
    }

    /// Reads a hex literal token.
    pub fn read_hex_literal(&mut self) -> (t: Token)
        requires
            old(self).pos <= old(self).chars@.len(),
        ensures
            final(self).chars@ == old(self).chars@,
            final(self).debug == old(self).debug,
            (t@, final(self).pos as int) == scan_hex_literal(old(self).chars@, old(self).pos as int),
    {
        let s = Ghost(self.chars@);
        if !(self.pos < self.chars.len() && self.pos + 1 < self.chars.len() && self.chars[self.pos
            + 1] == 'x') {
            let next = self.advanced(self.pos);
            let text = chars_between(&self.chars, self.pos, next);
            self.pos = next;
            return Token::Illegal(string_of(&text));
        }
        let j = self.pos + 2;  // skip "0x" prefix
        proof { lemma_span(s@, j as int, hex_pred()); }
        let k = self.span_hex(j);
        let digits = chars_between(&self.chars, j, k);
        self.pos = k;
        if digits.len() == 2 || digits.len() == 4 {
            let mut value: u16 = 0;
            let mut d: usize = 0;
            while d < digits.len()
                invariant
                    digits@.len() == 2 || digits@.len() == 4,
                    d <= digits@.len(),
                    forall|x: int| 0 <= x < digits@.len() ==> is_hex_digit(#[trigger] digits@[x]),
                    value as nat == hex_value(digits@.subrange(0, d as int)),
                    value < pow16(d as nat),
                decreases digits.len() - d,
            {
                let dv = hex_digit_val(digits[d]);
                proof {
                    assert(digits@.subrange(0, d + 1).drop_last() =~= digits@.subrange(0, d as int));
                    assert(pow16((d + 1) as nat) == pow16(d as nat) * 16);
                    reveal_with_fuel(pow16, 5);
                    assert(pow16(4) == 65536);
                    lemma_pow16_mono(d as nat + 1, 4);
                }
                value = value * 16 + dv as u16;
                d = d + 1;
            }
            proof {
                assert(digits@.subrange(0, digits@.len() as int) =~= digits@);
            }
            if digits.len() == 2 {
                proof {
                    reveal_with_fuel(pow16, 3);
                    assert(pow16(2) == 256);
                }
                Token::ByteLiteral(value as u8)
            } else {
                Token::WordLiteral(value)
            }
        } else {
            Token::Illegal(string_of(&digits))
        }
    }

    /// Reads an identifier, register name, or keyword.
    pub fn read_identifier(&mut self) -> (t: Token)
        requires
            old(self).pos <= old(self).chars@.len(),
        ensures
            final(self).chars@ == old(self).chars@,
            final(self).debug == old(self).debug,
            (t@, final(self).pos as int) == scan_identifier(old(self).chars@, old(self).pos as int),
    {
        let s = Ghost(self.chars@);
        proof { lemma_span(s@, self.pos as int, ident_pred()); }
        let k = self.span_ident(self.pos);
        let ident = chars_between(&self.chars, self.pos, k);
        match Reg::from_name(ident.as_slice()) {
            Some(reg) => {
                self.pos = k;
                Token::Register(reg)
            },
            None => {
                if is_keyword_chars(ident.as_slice()) {
                    self.pos = k;
                    Token::Keyword(string_of(&ident))
                } else if k < self.chars.len() && self.chars[k] == ':' {
                    self.pos = k + 1;
                    Token::LabelDef(string_of(&ident))
                } else {
                    self.pos = k;
                    Token::Identifier(string_of(&ident))
                }
            },
        }
    }

    /// Reads a string literal token.
    pub fn read_string(&mut self) -> (t: Token)
        requires
            old(self).pos <= old(self).chars@.len(),
        ensures
            final(self).chars@ == old(self).chars@,
            final(self).debug == old(self).debug,
            (t@, final(self).pos as int) == scan_string(old(self).chars@, old(self).pos as int),
    {
        let s = Ghost(self.chars@);
        let j = self.advanced(self.pos);  // skip opening " delimiter
        proof { lemma_span(s@, j as int, not_quote_pred()); }
        let k = self.span_string(j);
        let text = chars_between(&self.chars, j, k);
        self.pos = self.advanced(k);  // skip closing " delimiter
        Token::StringLiteral(string_of(&text))
    }

    /// Reads a given token, consuming one character.
    pub fn read_token(&mut self, token: Token) -> (t: Token)
        requires
            old(self).pos <= old(self).chars@.len(),
        ensures
            final(self).chars@ == old(self).chars@,
            final(self).debug == old(self).debug,
            t@ == token@,
            final(self).pos == adv(old(self).chars@, old(self).pos as int),
    {
        self.pos = self.advanced(self.pos);
        token
    }

    /// Advances to the next non-whitespace, non-newline character.
    pub fn skip_whitespace(&mut self)
        requires
            old(self).pos <= old(self).chars@.len(),
        ensures
            final(self).chars@ == old(self).chars@,
            final(self).debug == old(self).debug,
            final(self).pos == skip_spaces(old(self).chars@, old(self).pos as int),
    {
        self.pos = self.span_spaces(self.pos);
    }

    /// Reads the token at the current position, which must not be the end.
    fn read_next(&mut self) -> (t: Token)
        requires
            old(self).pos < old(self).chars@.len(),
        ensures
            final(self).chars@ == old(self).chars@,
            final(self).debug == old(self).debug,
            (t@, final(self).pos as int) == scan(old(self).chars@, old(self).pos as int),
    {
        let next = self.chars[self.pos];
        if next == '"' {
            self.read_string()
        } else if next == '(' {
            self.read_token(Token::ParenOpen)
        } else if next == ')' {
            self.read_token(Token::ParenClose)
        } else if next == ',' {
            self.read_token(Token::Comma)
        } else if next == '0' {
            self.read_hex_literal()
        } else if next == ';' {
            self.read_comment()
        } else if next == '\n' {
            self.read_token(Token::Newline)
        } else if is_ascii_alpha_char(next) {
            self.read_identifier()
        } else {
            let mut text = Vec::new();
            text.push(next);
            let illegal = Token::Illegal(string_of(&text));
            proof { assert(text@ =~= seq![next]); }
            self.read_token(illegal)
        }
    }

    /// Scans tokens from the source code.
    pub fn tokenize(&mut self) -> (v: Vec<Token>)
        requires
            old(self).pos <= old(self).chars@.len(),
        ensures
            final(self).chars@ == old(self).chars@,
            final(self).pos == old(self).chars@.len(),
            tokens_view(v@) == tokens_from(
                old(self).chars@,
                skip_spaces(old(self).chars@, old(self).pos as int),
            ),
    {
        let ghost s = self.chars@;
        let mut tokens: Vec<Token> = Vec::new();
        proof { lemma_span(s, self.pos as int, space_pred()); }
        self.skip_whitespace();
        let ghost start = self.pos as int;
        while self.pos < self.chars.len()
            invariant
                self.chars@ == s,
                self.pos <= s.len(),
                self.pos == s.len() || self.pos == skip_spaces(s, self.pos as int),
                tokens_from(s, start) == tokens_view(tokens@) + tokens_from(s, self.pos as int),
            decreases s.len() - self.pos,
        {
            let ghost i = self.pos as int;
            let token = self.read_next();
            proof { lemma_scan_advances(s, i); }
            let ghost j = self.pos as int;
            proof { lemma_span(s, j, space_pred()); }
            self.skip_whitespace();
            proof {
                lemma_span(s, self.pos as int, space_pred());
                lemma_span_idempotent(s, j, space_pred());
                let t = token@;
                assert(tokens_from(s, i) == seq![t] + tokens_from(s, self.pos as int));
                assert(tokens_view(tokens@.push(token)) =~= tokens_view(tokens@).push(t));
            }
            tokens.push(token);
        }
        proof {
            assert(tokens_from(s, self.pos as int) =~= Seq::<TokenView>::empty());
        }
        tokens
    }
}

/// 16 to the power `n`.
pub open spec fn pow16(n: nat) -> nat
    decreases n,
{
    if n == 0 {
        1
    } else {
        pow16((n - 1) as nat) * 16
    }
}

proof fn lemma_pow16_mono(a: nat, b: nat)
    requires
        a <= b,
    ensures
        pow16(a) <= pow16(b),
    decreases b - a,
{
    if a < b {
        lemma_pow16_mono(a, (b - 1) as nat);
    }
}

/// A run that has ended cannot be extended: spanning again from its end stays put.
proof fn lemma_span_idempotent(s: Seq<char>, i: int, p: spec_fn(char) -> bool)
    requires
        0 <= i <= s.len(),
    ensures
        span(s, span(s, i, p), p) == span(s, i, p),
{
    lemma_span(s, i, p);
}

/// Every token consumes at least one character and stays within the input.
pub proof fn lemma_scan_advances(s: Seq<char>, i: int)
    requires
        0 <= i < s.len(),
    ensures
        i < scan(s, i).1 <= s.len(),
{
    let c = s[i];
    if c == '"' {
        lemma_span(s, i + 1, not_quote_pred());
    } else if c == '0' && i + 1 < s.len() && s[i + 1] == 'x' {
        lemma_span(s, i + 2, hex_pred());
    } else if c == ';' {
        lemma_span(s, i + 1, space_pred());
        lemma_span(s, skip_spaces(s, i + 1), not_eol_pred());
    } else if is_ascii_alpha(c) {
        lemma_span(s, i, ident_pred());
        assert(is_ident_char(c));
    }
}

/// Every token takes at least one character: there are no more tokens from position
/// `i` on than characters left.
pub proof fn lemma_tokens_from_len(s: Seq<char>, i: int)
    requires
        0 <= i,
    ensures
        tokens_from(s, i).len() <= if i < s.len() {
            s.len() - i
        } else {
            0
        },
    decreases s.len() - i,
{
    if 0 <= i < s.len() {
        let (t, j) = scan(s, i);
        lemma_scan_advances(s, i);
        let n = skip_spaces(s, j);
        lemma_span(s, j, space_pred());
        if i < n <= s.len() {
            lemma_tokens_from_len(s, n);
        }
    }
}

/// Tokenizes `input`. There are never more tokens than characters.
pub fn tokenize(input: &str) -> (v: Vec<Token>)
    ensures
        tokens_view(v@) == spec_tokenize(input@),
        v@.len() <= input@.len(),
{
    let mut t = Tokenizer::new(input);
    proof {
        lemma_span(input@, 0, space_pred());
        lemma_tokens_from_len(input@, skip_spaces(input@, 0));
    }
    t.tokenize()
}

/// Tokenizes `input` with the tokenizer in debug mode. There are never more tokens than
/// characters.
pub fn tokenize_with_debug(input: &str) -> (v: Vec<Token>)
    ensures
        tokens_view(v@) == spec_tokenize(input@),
        v@.len() <= input@.len(),
{
    let mut t = Tokenizer::new_with_debug(input);
    proof {
        lemma_span(input@, 0, space_pred());
        lemma_tokens_from_len(input@, skip_spaces(input@, 0));
    }
    t.tokenize()
}


/// A string literal is the text between its quotes: for `"text"` where the text holds
/// no quote, the token is the text and it ends after the closing quote.
pub proof fn lemma_string_literal_token(text: Seq<char>, rest: Seq<char>)
    requires
        forall|i: int| 0 <= i < text.len() ==> #[trigger] text[i] != '"',
    ensures
        scan(seq!['"'] + text + seq!['"'] + rest, 0) == (
            TokenView::StringLiteral(text),
            text.len() + 2int,
        ),
{
    let s = seq!['"'] + text + seq!['"'] + rest;
    let k = text.len() as int + 1;
    lemma_span(s, 1, not_quote_pred());
    let m = span(s, 1, not_quote_pred());
    assert forall|j: int| 1 <= j < k implies not_quote_pred()(#[trigger] s[j]) by {
        assert(s[j] == text[j - 1]);
    }
    assert(s[k] == '"');
    if m < k {
        assert(s[m] == text[m - 1]);
    } else if m > k {
        assert(not_quote_pred()(s[k]));
    }
    assert(s.subrange(1, k) =~= text);
}

/// A comment is the text of its line after `;` and any spaces: for `; text` then a line
/// end (a newline, or a carriage return and newline), where the text starts with no
/// space and holds no line end, the token is the text and it ends after the line end
/// (an empty comment is shown here ending in a newline).
pub proof fn lemma_comment_token(pad: Seq<char>, text: Seq<char>, eol: Seq<char>, rest: Seq<char>)
    requires
        forall|i: int| 0 <= i < pad.len() ==> is_space(#[trigger] pad[i]),
        text.len() > 0 && !is_space(text[0]) || text.len() == 0 && eol == seq!['\n'],
        forall|i: int| 0 <= i < text.len() ==> #[trigger] text[i] != '\r' && text[i] != '\n',
        eol == seq!['\n'] || eol == seq!['\r', '\n'],
    ensures
        scan(seq![';'] + pad + text + eol + rest, 0) == (
            TokenView::Comment(text),
            1int + pad.len() + text.len() + eol.len(),
        ),
{
    let s = seq![';'] + pad + text + eol + rest;
    let j = 1 + pad.len() as int;
    let k: int = j + text.len();
    lemma_span(s, 1, space_pred());
    let mj = span(s, 1, space_pred());
    assert forall|i: int| 1 <= i < j implies space_pred()(#[trigger] s[i]) by {
        assert(s[i] == pad[i - 1]);
    }
    assert(s[j] == if text.len() > 0 {
        text[0]
    } else {
        eol[0]
    });
    assert(!is_space(s[j])) by {
        if text.len() == 0 {
            assert(s[j] == eol[0]);
        }
    }
    if mj < j {
        assert(s[mj] == pad[mj - 1]);
    } else if mj > j {
        assert(space_pred()(s[j]));
    }
    lemma_span(s, j, not_eol_pred());
    let mk = span(s, j, not_eol_pred());
    assert forall|i: int| j <= i < k implies not_eol_pred()(#[trigger] s[i]) by {
        assert(s[i] == text[i - j]);
    }
    assert(s[k] == eol[0]);
    if mk < k {
        assert(s[mk] == text[mk - j]);
    } else if mk > k {
        assert(not_eol_pred()(s[k]));
    }
    assert(s.subrange(j, k) =~= text);
    if eol.len() == 2 {
        assert(s[k + 1] == '\n');
    }
}

} // verus!
