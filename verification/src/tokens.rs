//! The lexical categories of the language.

use vstd::prelude::*;

verus! {

/// One lexeme of the source text, classified.
///
/// Keywords are matched without regard to case. A number keeps its lexeme
/// (digits, a point, digits); a string keeps the text between its quotes.
#[derive(Debug, PartialEq)]
pub enum Token {
    KeywordGlobal,
    KeywordFn,
    KeywordSpeak,
    KeywordInput,
    KeywordIf,
    KeywordExit,
    KeywordLoop,
    LParen,
    RParen,
    Assign,
    Semicolon,
    LBracket,
    RBracket,
    OperatorAdd,
    OperatorSub,
    OperatorMul,
    OperatorDiv,
    WEqual,
    Identifier(String),
    Number(String),
    StringContent(String),
    Error,
}

/// The mathematical image of a [`Token`]: the same categories over sequences
/// of characters.
pub enum TokenView {
    KeywordGlobal,
    KeywordFn,
    KeywordSpeak,
    KeywordInput,
    KeywordIf,
    KeywordExit,
    KeywordLoop,
    LParen,
    RParen,
    Assign,
    Semicolon,
    LBracket,
    RBracket,
    OperatorAdd,
    OperatorSub,
    OperatorMul,
    OperatorDiv,
    WEqual,
    Identifier(Seq<char>),
    Number(Seq<char>),
    StringContent(Seq<char>),
    Error,
}

impl View for Token {
    type V = TokenView;

    open spec fn view(&self) -> TokenView {
        match self {
            Token::KeywordGlobal => TokenView::KeywordGlobal,
            Token::KeywordFn => TokenView::KeywordFn,
            Token::KeywordSpeak => TokenView::KeywordSpeak,
            Token::KeywordInput => TokenView::KeywordInput,
            Token::KeywordIf => TokenView::KeywordIf,
            Token::KeywordExit => TokenView::KeywordExit,
            Token::KeywordLoop => TokenView::KeywordLoop,
            Token::LParen => TokenView::LParen,
            Token::RParen => TokenView::RParen,
            Token::Assign => TokenView::Assign,
            Token::Semicolon => TokenView::Semicolon,
            Token::LBracket => TokenView::LBracket,
            Token::RBracket => TokenView::RBracket,
            Token::OperatorAdd => TokenView::OperatorAdd,
            Token::OperatorSub => TokenView::OperatorSub,
            Token::OperatorMul => TokenView::OperatorMul,
            Token::OperatorDiv => TokenView::OperatorDiv,
            Token::WEqual => TokenView::WEqual,
            Token::Identifier(text) => TokenView::Identifier(text@),
            Token::Number(text) => TokenView::Number(text@),
            Token::StringContent(text) => TokenView::StringContent(text@),
            Token::Error => TokenView::Error,
        }
    }
}

impl Clone for Token {
    fn clone(&self) -> (result: Self)
        ensures
            result@ == self@,
    {
        match self {
            Token::KeywordGlobal => Token::KeywordGlobal,
            Token::KeywordFn => Token::KeywordFn,
            Token::KeywordSpeak => Token::KeywordSpeak,
            Token::KeywordInput => Token::KeywordInput,
            Token::KeywordIf => Token::KeywordIf,
            Token::KeywordExit => Token::KeywordExit,
            Token::KeywordLoop => Token::KeywordLoop,
            Token::LParen => Token::LParen,
            Token::RParen => Token::RParen,
            Token::Assign => Token::Assign,
            Token::Semicolon => Token::Semicolon,
            Token::LBracket => Token::LBracket,
            Token::RBracket => Token::RBracket,
            Token::OperatorAdd => Token::OperatorAdd,
            Token::OperatorSub => Token::OperatorSub,
            Token::OperatorMul => Token::OperatorMul,
            Token::OperatorDiv => Token::OperatorDiv,
            Token::WEqual => Token::WEqual,
            Token::Identifier(text) => Token::Identifier(text.clone()),
            Token::Number(text) => Token::Number(text.clone()),
            Token::StringContent(text) => Token::StringContent(text.clone()),
            Token::Error => Token::Error,
        }
    }
}

} // verus!
