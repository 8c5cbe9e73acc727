//! Source code tokens and the character classes of the assembly language.
use vstd::prelude::*;

use crate::regs::Reg;

verus! {

/// A source code token.
#[derive(Debug, PartialEq)]
pub enum Token {
    /// Hexadecimal byte literal (`0x00`).
    ByteLiteral(u8),
    /// Comma.
    Comma,
    /// Comment.
    Comment(String),
    /// Identifier.
    Identifier(String),
    /// Illegal token.
    Illegal(String),
    /// Assembler keyword.
    Keyword(String),
    /// Label definition.
    LabelDef(String),
    /// Newline character (`\n`).
    Newline,
    /// Closing parenthesis (`)`).
    ParenClose,
    /// Opening parenthesis (`(`).
    ParenOpen,
    /// Register name.
    Register(Reg),
    /// String literal.
    StringLiteral(String),
    /// Hexadecimal word literal (`0x0000`).
    WordLiteral(u16),
}

/// The abstract content of a token: its kind and the characters or value it carries.
pub enum TokenView {
    ByteLiteral(u8),
    Comma,
    Comment(Seq<char>),
    Identifier(Seq<char>),
    Illegal(Seq<char>),
    Keyword(Seq<char>),
    LabelDef(Seq<char>),
    Newline,
    ParenClose,
    ParenOpen,
    Register(Reg),
    StringLiteral(Seq<char>),
    WordLiteral(u16),
}

impl View for Token {
    type V = TokenView;

    open spec fn view(&self) -> TokenView {
        match self {
            Token::ByteLiteral(b) => TokenView::ByteLiteral(*b),
            Token::Comma => TokenView::Comma,
            Token::Comment(s) => TokenView::Comment(s@),
            Token::Identifier(s) => TokenView::Identifier(s@),
            Token::Illegal(s) => TokenView::Illegal(s@),
            Token::Keyword(s) => TokenView::Keyword(s@),
            Token::LabelDef(s) => TokenView::LabelDef(s@),
            Token::Newline => TokenView::Newline,
            Token::ParenClose => TokenView::ParenClose,
            Token::ParenOpen => TokenView::ParenOpen,
            Token::Register(r) => TokenView::Register(*r),
            Token::StringLiteral(s) => TokenView::StringLiteral(s@),
            Token::WordLiteral(w) => TokenView::WordLiteral(*w),
        }
    }
}

impl Clone for Token {
    /// A copy of the token.
    fn clone(&self) -> (t: Token)
        ensures
            t@ == self@,
    {
        match self {
            Token::ByteLiteral(b) => Token::ByteLiteral(*b),
            Token::Comma => Token::Comma,
            Token::Comment(s) => Token::Comment(s.clone()),
            Token::Identifier(s) => Token::Identifier(s.clone()),
            Token::Illegal(s) => Token::Illegal(s.clone()),
            Token::Keyword(s) => Token::Keyword(s.clone()),
            Token::LabelDef(s) => Token::LabelDef(s.clone()),
            Token::Newline => Token::Newline,
            Token::ParenClose => Token::ParenClose,
            Token::ParenOpen => Token::ParenOpen,
            Token::Register(r) => Token::Register(*r),
            Token::StringLiteral(s) => Token::StringLiteral(s.clone()),
            Token::WordLiteral(w) => Token::WordLiteral(*w),
        }
    }
}

impl Token {
    /// Returns true if the two tokens are of the same kind with the same content.
    pub fn same(&self, other: &Token) -> (r: bool)
        ensures
            r == (self@ == other@),
    {
        match (self, other) {
            (Token::ByteLiteral(a), Token::ByteLiteral(b)) => *a == *b,
            (Token::Comma, Token::Comma) => true,
            (Token::Comment(a), Token::Comment(b)) => a.eq(b),
            (Token::Identifier(a), Token::Identifier(b)) => a.eq(b),
            (Token::Illegal(a), Token::Illegal(b)) => a.eq(b),
            (Token::Keyword(a), Token::Keyword(b)) => a.eq(b),
            (Token::LabelDef(a), Token::LabelDef(b)) => a.eq(b),
            (Token::Newline, Token::Newline) => true,
            (Token::ParenClose, Token::ParenClose) => true,
            (Token::ParenOpen, Token::ParenOpen) => true,
            (Token::Register(a), Token::Register(b)) => *a == *b,
            (Token::StringLiteral(a), Token::StringLiteral(b)) => a.eq(b),
            (Token::WordLiteral(a), Token::WordLiteral(b)) => *a == *b,
            _ => false,
        }
    }
}

/// True for the characters with the Unicode White_Space property, as `char::is_whitespace`
/// documents them.
pub open spec fn is_whitespace(c: char) -> bool {
    let u = c as u32;
    ||| 0x09 <= u <= 0x0D
    ||| u == 0x20
    ||| u == 0x85
    ||| u == 0xA0
    ||| u == 0x1680
    ||| 0x2000 <= u <= 0x200A
    ||| u == 0x2028
    ||| u == 0x2029
    ||| u == 0x202F
    ||| u == 0x205F
    ||| u == 0x3000
}

/// Whitespace that separates tokens: any whitespace but a newline, which is a token.
pub open spec fn is_space(c: char) -> bool {
    is_whitespace(c) && c != '\n'
}

/// An ASCII letter.
pub open spec fn is_ascii_alpha(c: char) -> bool {
    ('a' <= c <= 'z') || ('A' <= c <= 'Z')
}

/// An ASCII decimal digit.
pub open spec fn is_ascii_digit(c: char) -> bool {
    '0' <= c <= '9'
}

/// A character that may appear in an identifier: ASCII letters and digits, and `_`.
pub open spec fn is_ident_char(c: char) -> bool {
    is_ascii_alpha(c) || is_ascii_digit(c) || c == '_'
}

/// An ASCII hexadecimal digit, in either case.
pub open spec fn is_hex_digit(c: char) -> bool {
    is_ascii_digit(c) || ('a' <= c <= 'f') || ('A' <= c <= 'F')
}

/// The value of a hexadecimal digit.
pub open spec fn hex_digit_value(c: char) -> nat {
    if is_ascii_digit(c) {
        (c as u32 - '0' as u32) as nat
    } else if 'a' <= c <= 'f' {
        (c as u32 - 'a' as u32 + 10) as nat
    } else {
        (c as u32 - 'A' as u32 + 10) as nat
    }
}

/// The value of a string of hexadecimal digits.
pub open spec fn hex_value(s: Seq<char>) -> nat
    decreases s.len(),
{
    if s.len() == 0 {
        0
    } else {
        hex_value(s.drop_last()) * 16 + hex_digit_value(s.last())
    }
}

pub fn is_whitespace_char(c: char) -> (r: bool)
    ensures
        r == is_whitespace(c),
{
    let u = c as u32;
    (0x09 <= u && u <= 0x0D) || u == 0x20 || u == 0x85 || u == 0xA0 || u == 0x1680 || (0x2000
        <= u && u <= 0x200A) || u == 0x2028 || u == 0x2029 || u == 0x202F || u == 0x205F || u
        == 0x3000
}

pub fn is_ascii_alpha_char(c: char) -> (r: bool)
    ensures
        r == is_ascii_alpha(c),
{
    ('a' <= c && c <= 'z') || ('A' <= c && c <= 'Z')
}

pub fn is_ident_char_exec(c: char) -> (r: bool)
    ensures
        r == is_ident_char(c),
{
    is_ascii_alpha_char(c) || ('0' <= c && c <= '9') || c == '_'
}

pub fn is_hex_digit_char(c: char) -> (r: bool)
    ensures
        r == is_hex_digit(c),
{
    ('0' <= c && c <= '9') || ('a' <= c && c <= 'f') || ('A' <= c && c <= 'F')
}

/// The value of a hexadecimal digit.
pub fn hex_digit_val(c: char) -> (r: u8)
    requires
        is_hex_digit(c),
    ensures
        r == hex_digit_value(c),
        r < 16,
{
    if '0' <= c && c <= '9' {
        ((c as u32) - ('0' as u32)) as u8
    } else if 'a' <= c && c <= 'f' {
        ((c as u32) - ('a' as u32) + 10) as u8
    } else {
        ((c as u32) - ('A' as u32) + 10) as u8
    }
}


/// Hex digits have their usual values, in either case: `0` to `9` are 0 to 9, and both
/// `a` to `f` and `A` to `F` are 10 to 15; so a lower-case digit is worth the same as
/// its upper-case form.
pub proof fn lemma_hex_digit_values(n: int)
    requires
        0 <= n < 16,
    ensures
        n < 10 ==> is_hex_digit((('0' as int) + n) as char) && hex_digit_value(
            (('0' as int) + n) as char,
        ) == n,
        10 <= n ==> is_hex_digit((('a' as int) + n - 10) as char) && hex_digit_value(
            (('a' as int) + n - 10) as char,
        ) == n,
        10 <= n ==> is_hex_digit((('A' as int) + n - 10) as char) && hex_digit_value(
            (('A' as int) + n - 10) as char,
        ) == n,
{
}

} // verus!
