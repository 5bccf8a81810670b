//! The lexical grammar, as functions on the bytes of the source text.
//!
//! Blanks and comments separate lexemes and are skipped. At any other byte
//! exactly one lexeme starts; what matches no rule is an error lexeme of one
//! byte. Every character outside ASCII counts as a letter.

use vstd::prelude::*;
use vstd::utf8::*;
use crate::tokens::TokenView;

verus! {

pub const TAB: u8 = 0x09;

pub const LINE_FEED: u8 = 0x0a;

pub const FORM_FEED: u8 = 0x0c;

pub const CARRIAGE_RETURN: u8 = 0x0d;

pub const SPACE: u8 = 0x20;

pub const QUOTE: u8 = 0x22;

pub const HASH: u8 = 0x23;

pub const LEFT_PAREN: u8 = 0x28;

pub const RIGHT_PAREN: u8 = 0x29;

pub const ASTERISK: u8 = 0x2a;

pub const PLUS: u8 = 0x2b;

pub const MINUS: u8 = 0x2d;

pub const POINT: u8 = 0x2e;

pub const SLASH: u8 = 0x2f;

pub const DIGIT_0: u8 = 0x30;

pub const DIGIT_9: u8 = 0x39;

pub const SEMICOLON: u8 = 0x3b;

pub const EQUALS: u8 = 0x3d;

pub const UPPER_A: u8 = 0x41;

pub const UPPER_Z: u8 = 0x5a;

pub const UNDERSCORE: u8 = 0x5f;

pub const LOWER_A: u8 = 0x61;

pub const LOWER_Z: u8 = 0x7a;

pub const LEFT_BRACE: u8 = 0x7b;

pub const RIGHT_BRACE: u8 = 0x7d;

/// The sets of bytes that the grammar speaks of.
#[derive(Debug, Clone, Copy, PartialEq, Eq, Structural)]
pub enum Class {
    /// `0` to `9`.
    Digit,
    /// A letter, a digit, `_`, or part of a character outside ASCII.
    IdentifierPart,
    /// Anything but `"`.
    InsideString,
}

/// `0` to `9`.
pub open spec fn is_digit(byte: u8) -> bool {
    DIGIT_0 <= byte <= DIGIT_9
}

/// `a` to `z` and `A` to `Z`.
pub open spec fn is_letter(byte: u8) -> bool {
    LOWER_A <= byte <= LOWER_Z || UPPER_A <= byte <= UPPER_Z
}

/// The first byte of a character outside ASCII.
pub open spec fn starts_wide_character(byte: u8) -> bool {
    0xc0 <= byte <= 0xf7
}

/// Any byte of a character outside ASCII.
pub open spec fn in_wide_character(byte: u8) -> bool {
    0x80 <= byte
}

/// The first byte of a word: a letter, `_`, or the start of a character outside
/// ASCII.
pub open spec fn is_identifier_start(byte: u8) -> bool {
    is_letter(byte) || byte == UNDERSCORE || starts_wide_character(byte)
}

/// A later byte of a word: a letter, a digit, `_`, or part of a character
/// outside ASCII.
pub open spec fn is_identifier_part(byte: u8) -> bool {
    is_letter(byte) || byte == UNDERSCORE || is_digit(byte) || in_wide_character(byte)
}

/// Space, tab, line feed, form feed and carriage return.
pub open spec fn is_blank(byte: u8) -> bool {
    byte == SPACE || byte == TAB || byte == LINE_FEED || byte == FORM_FEED || byte == CARRIAGE_RETURN
}

impl Class {
    /// Whether the byte belongs to the class.
    pub open spec fn holds(self, byte: u8) -> bool {
        match self {
            Class::Digit => is_digit(byte),
            Class::IdentifierPart => is_identifier_part(byte),
            Class::InsideString => byte != QUOTE,
        }
    }
}

/// The end of the longest run of bytes of a class that starts at `from`.
pub open spec fn run_end(src: Seq<u8>, from: int, class: Class) -> int
    decreases src.len() - from,
{
    if 0 <= from < src.len() && class.holds(src[from]) {
        run_end(src, from + 1, class)
    } else {
        from
    }
}

/// The first position at or after `pos` that is neither blank nor inside a
/// comment. A comment runs from `#` to the end of its line, the line feed
/// included.
pub open spec fn skip_trivia(src: Seq<u8>, pos: int, in_comment: bool) -> int
    decreases src.len() - pos,
{
    if 0 <= pos < src.len() {
        if in_comment {
            skip_trivia(src, pos + 1, src[pos] != LINE_FEED)
        } else if is_blank(src[pos]) {
            skip_trivia(src, pos + 1, false)
        } else if src[pos] == HASH {
            skip_trivia(src, pos + 1, true)
        } else {
            pos
        }
    } else {
        pos
    }
}

/// A letter in lower case; any other byte unchanged.
pub open spec fn fold_case(byte: u8) -> u8 {
    if UPPER_A <= byte <= UPPER_Z {
        (byte + 32) as u8
    } else {
        byte
    }
}

/// The characters of a word, its letters in lower case.
pub open spec fn spelling(word: Seq<u8>) -> Seq<char> {
    Seq::new(word.len(), |i: int| fold_case(word[i]) as char)
}

/// The characters that the bytes from `from` up to `to` encode.
pub open spec fn text_between(src: Seq<u8>, from: int, to: int) -> Seq<char> {
    decode_utf8(src.subrange(from, to))
}

/// The token of a word: a keyword, whatever the case of its letters, or else
/// an identifier that keeps the word as it is written.
pub open spec fn word_token(src: Seq<u8>, from: int, to: int) -> TokenView {
    let spelled = spelling(src.subrange(from, to));
    if spelled == "global"@ {
        TokenView::KeywordGlobal
    } else if spelled == "fn"@ {
        TokenView::KeywordFn
    } else if spelled == "speak"@ {
        TokenView::KeywordSpeak
    } else if spelled == "input"@ {
        TokenView::KeywordInput
    } else if spelled == "if"@ {
        TokenView::KeywordIf
    } else if spelled == "exit"@ {
        TokenView::KeywordExit
    } else if spelled == "loop"@ {
        TokenView::KeywordLoop
    } else {
        TokenView::Identifier(text_between(src, from, to))
    }
}

/// A lexeme: a token and the positions of its first byte and of the byte after
/// its last.
pub struct Lexeme {
    pub start: int,
    pub token: TokenView,
    pub end: int,
}

/// The lexeme of one byte that matches no rule.
pub open spec fn error_at(src: Seq<u8>, start: int) -> Lexeme {
    Lexeme { start, token: TokenView::Error, end: start + 1 }
}

/// A token that is one byte long.
pub open spec fn symbol(byte: u8) -> Option<TokenView> {
    if byte == LEFT_PAREN {
        Some(TokenView::LParen)
    } else if byte == RIGHT_PAREN {
        Some(TokenView::RParen)
    } else if byte == SEMICOLON {
        Some(TokenView::Semicolon)
    } else if byte == LEFT_BRACE {
        Some(TokenView::LBracket)
    } else if byte == RIGHT_BRACE {
        Some(TokenView::RBracket)
    } else if byte == PLUS {
        Some(TokenView::OperatorAdd)
    } else if byte == MINUS {
        Some(TokenView::OperatorSub)
    } else if byte == ASTERISK {
        Some(TokenView::OperatorMul)
    } else if byte == SLASH {
        Some(TokenView::OperatorDiv)
    } else {
        None
    }
}

/// The lexeme that starts at `start`, where a byte stands that is neither blank
/// nor the start of a comment.
///
/// A word is as long as it can be. A number is digits, a point and digits. A
/// string runs from one `"` to the next and keeps what stands between them.
/// `==` is one token.
pub open spec fn lexeme_at(src: Seq<u8>, start: int) -> Lexeme {
    let first = src[start];
    if symbol(first) is Some {
        Lexeme { start, token: symbol(first)->0, end: start + 1 }
    } else if first == EQUALS {
        if start + 1 < src.len() && src[start + 1] == EQUALS {
            Lexeme { start, token: TokenView::WEqual, end: start + 2 }
        } else {
            Lexeme { start, token: TokenView::Assign, end: start + 1 }
        }
    } else if is_identifier_start(first) {
        let end = run_end(src, start + 1, Class::IdentifierPart);
        Lexeme { start, token: word_token(src, start, end), end }
    } else if is_digit(first) {
        let point = run_end(src, start + 1, Class::Digit);
        if point + 1 < src.len() && src[point] == POINT && is_digit(src[point + 1]) {
            let end = run_end(src, point + 2, Class::Digit);
            Lexeme { start, token: TokenView::Number(text_between(src, start, end)), end }
        } else {
            error_at(src, start)
        }
    } else if first == QUOTE {
        let quote = run_end(src, start + 1, Class::InsideString);
        if quote < src.len() {
            Lexeme {
                start,
                token: TokenView::StringContent(text_between(src, start + 1, quote)),
                end: quote + 1,
            }
        } else {
            error_at(src, start)
        }
    } else {
        error_at(src, start)
    }
}

/// The first lexeme at or after `pos`, if the source holds one.
pub open spec fn next_lexeme(src: Seq<u8>, pos: int) -> Option<Lexeme> {
    let start = skip_trivia(src, pos, false);
    if 0 <= start < src.len() {
        Some(lexeme_at(src, start))
    } else {
        None
    }
}

/// A run ends at or after its start and within the source.
pub proof fn lemma_run_end_bounds(src: Seq<u8>, from: int, class: Class)
    requires
        0 <= from <= src.len(),
    ensures
        from <= run_end(src, from, class) <= src.len(),
        forall|i: int| from <= i < run_end(src, from, class) ==> class.holds(#[trigger] src[i]),
        run_end(src, from, class) < src.len() ==> !class.holds(src[run_end(src, from, class)]),
    decreases src.len() - from,
{
    if from < src.len() && class.holds(src[from]) {
        lemma_run_end_bounds(src, from + 1, class);
    }
}

/// Skipping blanks and comments ends at or after its start and within the
/// source, at a byte that starts a lexeme.
pub proof fn lemma_skip_trivia_bounds(src: Seq<u8>, pos: int, in_comment: bool)
    requires
        0 <= pos <= src.len(),
    ensures
        pos <= skip_trivia(src, pos, in_comment) <= src.len(),
        skip_trivia(src, pos, in_comment) < src.len() ==> {
            let first = src[skip_trivia(src, pos, in_comment)];
            !is_blank(first) && first != HASH
        },
    decreases src.len() - pos,
{
    if pos < src.len() {
        if in_comment {
            lemma_skip_trivia_bounds(src, pos + 1, src[pos] != LINE_FEED);
        } else if is_blank(src[pos]) {
            lemma_skip_trivia_bounds(src, pos + 1, false);
        } else if src[pos] == HASH {
            lemma_skip_trivia_bounds(src, pos + 1, true);
        }
    }
}

/// A lexeme is not empty and lies within the source, at or after the position
/// from which it was looked for: the lexemes of a text are finitely many.
pub proof fn lexeme_advances(src: Seq<u8>, pos: int)
    requires
        0 <= pos <= src.len(),
    ensures
        next_lexeme(src, pos) matches Some(lexeme) ==> pos <= lexeme.start < lexeme.end
            <= src.len() && lexeme.start == skip_trivia(src, pos, false),
{
    lemma_skip_trivia_bounds(src, pos, false);
    let start = skip_trivia(src, pos, false);
    if start < src.len() {
        lemma_run_end_bounds(src, start + 1, Class::IdentifierPart);
        lemma_run_end_bounds(src, start + 1, Class::Digit);
        lemma_run_end_bounds(src, start + 1, Class::InsideString);
        let point = run_end(src, start + 1, Class::Digit);
        if point + 2 <= src.len() {
            lemma_run_end_bounds(src, point + 2, Class::Digit);
        }
    }
}

/// All lexemes from `pos` to the end of the source, in order.
pub open spec fn lexemes(src: Seq<u8>, pos: int) -> Seq<Lexeme>
    decreases src.len() - pos,
{
    match next_lexeme(src, pos) {
        Some(lexeme) => if pos < lexeme.end <= src.len() {
            seq![lexeme] + lexemes(src, lexeme.end)
        } else {
            seq![lexeme]
        },
        None => Seq::empty(),
    }
}

/// A keyword is recognised whatever the case of its letters.
pub proof fn keywords_ignore_case(src: Seq<u8>, other: Seq<u8>)
    requires
        spelling(src) == spelling(other),
    ensures
        word_token(src, 0, src.len() as int) is Identifier <==> word_token(
            other,
            0,
            other.len() as int,
        ) is Identifier,
        !(word_token(src, 0, src.len() as int) is Identifier) ==> word_token(
            src,
            0,
            src.len() as int,
        ) == word_token(other, 0, other.len() as int),
{
    assert(src.subrange(0, src.len() as int) == src);
    assert(other.subrange(0, other.len() as int) == other);
}

} // verus!
