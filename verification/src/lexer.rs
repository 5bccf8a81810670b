//! The tokenizer: source text in, located tokens out, one at a time.

use vstd::prelude::*;
use vstd::slice::*;
use vstd::string::*;
use vstd::utf8::*;
use crate::lexeme::{
    ASTERISK, CARRIAGE_RETURN, DIGIT_0, DIGIT_9, EQUALS, FORM_FEED, HASH, LEFT_BRACE, LEFT_PAREN,
    LINE_FEED, LOWER_A, LOWER_Z, MINUS, PLUS, POINT, QUOTE, RIGHT_BRACE, RIGHT_PAREN, SEMICOLON,
    SLASH, SPACE, TAB, UNDERSCORE, UPPER_A, UPPER_Z,
};
use crate::lexeme::{
    Class, Lexeme, fold_case, lemma_run_end_bounds, lexeme_advances, lexeme_at, lexemes,
    next_lexeme, run_end, skip_trivia, spelling, symbol, text_between, word_token,
};
use crate::tokens::Token;

verus! {

/// What the tokenizer reports for a lexeme that is no token.
#[derive(Debug, Clone, Copy, PartialEq, Eq, Structural)]
pub enum LexicalError {
    InvalidToken,
}

impl LexicalError {
    /// The error in words.
    pub fn message(&self) -> (result: String)
        ensures
            result@ == "Invalid token encountered."@,
    {
        String::from_str("Invalid token encountered.")
    }
}

/// In well-formed text a character starts at every byte below `0x80` and right
/// after it.
proof fn lemma_ascii_boundaries(src: Seq<u8>, i: int)
    requires
        valid_utf8(src),
        0 <= i < src.len(),
        src[i] <= 0x7f,
    ensures
        is_char_boundary(src, i),
        is_char_boundary(src, i + 1),
    decreases src.len(),
{
    is_char_boundary_iff_is_leading_byte(src, i);
    let first = length_of_first_scalar(src);
    let rest = pop_first_scalar(src);
    if i == 0 {
        assert(is_char_boundary(rest, 0));
    } else {
        assert(first <= i) by {
            if i < first {
                assert(!is_char_boundary(rest, i - first));
            }
        }
        assert(rest[i - first] == src[i]);
        lemma_ascii_boundaries(rest, i - first);
    }
}

/// A place where a character starts in a text is such a place in every prefix
/// of the text that ends where a character starts.
proof fn lemma_boundary_in_prefix(src: Seq<u8>, from: int, to: int)
    requires
        valid_utf8(src),
        0 <= from <= to <= src.len(),
        is_char_boundary(src, from),
        is_char_boundary(src, to),
    ensures
        valid_utf8(src.subrange(0, to)),
        is_char_boundary(src.subrange(0, to), from),
{
    let prefix = src.subrange(0, to);
    valid_utf8_split(src, to);
    if from < to {
        is_char_boundary_iff_is_leading_byte(src, from);
        is_char_boundary_iff_is_leading_byte(prefix, from);
    } else {
        is_char_boundary_start_end_of_seq(prefix);
    }
}

/// Whether the byte belongs to the class.
fn in_class(class: Class, byte: u8) -> (result: bool)
    ensures
        result == class.holds(byte),
{
    match class {
        Class::Digit => DIGIT_0 <= byte && byte <= DIGIT_9,
        Class::IdentifierPart => (LOWER_A <= byte && byte <= LOWER_Z) || (UPPER_A <= byte && byte
            <= UPPER_Z) || byte == UNDERSCORE || (DIGIT_0 <= byte && byte <= DIGIT_9) || 0x80
            <= byte,
        Class::InsideString => byte != QUOTE,
    }
}

/// The end of the longest run of bytes of a class that starts at `from`.
fn scan(bytes: &[u8], from: usize, class: Class) -> (end: usize)
    requires
        from <= bytes@.len(),
    ensures
        end == run_end(bytes@, from as int, class),
        from <= end <= bytes@.len(),
{
    let mut end = from;
    while end < bytes.len() && in_class(class, bytes[end])
        invariant
            from <= end <= bytes@.len(),
            run_end(bytes@, from as int, class) == run_end(bytes@, end as int, class),
        decreases bytes@.len() - end,
    {
        end += 1;
    }
    end
}

/// The first position at or after `pos` that is neither blank nor inside a
/// comment.
fn skip(bytes: &[u8], pos: usize) -> (start: usize)
    ensures
        start == skip_trivia(bytes@, pos as int, false),
{
    let mut start = pos;
    let mut in_comment = false;
    let mut found = false;
    while start < bytes.len() && !found
        invariant
            skip_trivia(bytes@, pos as int, false) == skip_trivia(
                bytes@,
                start as int,
                in_comment,
            ),
            found ==> skip_trivia(bytes@, start as int, in_comment) == start,
        decreases bytes@.len() - start + if found { 0int } else { 1int },
    {
        let byte = bytes[start];
        if in_comment {
            in_comment = byte != LINE_FEED;
            start += 1;
        } else if byte == SPACE || byte == TAB || byte == LINE_FEED || byte == FORM_FEED || byte
            == CARRIAGE_RETURN {
            start += 1;
        } else if byte == HASH {
            in_comment = true;
            start += 1;
        } else {
            found = true;
        }
    }
    start
}

/// The text between two places of the source where characters start.
fn slice(input: &str, from: usize, to: usize) -> (result: String)
    requires
        from <= to <= input.spec_bytes().len(),
        is_char_boundary(input.spec_bytes(), from as int),
        is_char_boundary(input.spec_bytes(), to as int),
    ensures
        result@ == text_between(input.spec_bytes(), from as int, to as int),
{
    proof {
        encode_utf8_valid_utf8(input@);
        lemma_boundary_in_prefix(input.spec_bytes(), from as int, to as int);
    }
    let (head, _) = input.split_at(to);
    let (_, body) = head.split_at(from);
    proof {
        assert(body.spec_bytes() == input.spec_bytes().subrange(from as int, to as int));
        encode_utf8_decode_utf8(body@);
    }
    String::from_str(body)
}

/// Whether the bytes from `from` up to `to` spell the word, whatever the case
/// of their letters.
fn spelled(bytes: &[u8], from: usize, to: usize, word: &str) -> (result: bool)
    requires
        from <= to <= bytes@.len(),
    ensures
        result == (spelling(bytes@.subrange(from as int, to as int)) == word@),
{
    let length = word.unicode_len();
    if to - from != length {
        return false;
    }
    let ghost letters = spelling(bytes@.subrange(from as int, to as int));
    let mut i: usize = 0;
    while i < length
        invariant
            i <= length,
            length == word@.len(),
            length == to - from,
            from <= to <= bytes@.len(),
            letters == spelling(bytes@.subrange(from as int, to as int)),
            forall|j: int| 0 <= j < i ==> letters[j] == word@[j],
        decreases length - i,
    {
        let byte = bytes[from + i];
        let folded: u8 = if UPPER_A <= byte && byte <= UPPER_Z {
            byte + 32
        } else {
            byte
        };
        assert(folded == fold_case(bytes@.subrange(from as int, to as int)[i as int]));
        if folded as char != word.get_char(i) {
            assert(letters[i as int] != word@[i as int]);
            return false;
        }
        i += 1;
    }
    assert(letters =~= word@);
    true
}

/// The token of the word that the bytes from `from` up to `to` hold.
fn word(input: &str, bytes: &[u8], from: usize, to: usize) -> (token: Token)
    requires
        bytes@ == input.spec_bytes(),
        from <= to <= bytes@.len(),
        is_char_boundary(bytes@, from as int),
        is_char_boundary(bytes@, to as int),
    ensures
        token@ == word_token(bytes@, from as int, to as int),
{
    if spelled(bytes, from, to, "global") {
        Token::KeywordGlobal
    } else if spelled(bytes, from, to, "fn") {
        Token::KeywordFn
    } else if spelled(bytes, from, to, "speak") {
        Token::KeywordSpeak
    } else if spelled(bytes, from, to, "input") {
        Token::KeywordInput
    } else if spelled(bytes, from, to, "if") {
        Token::KeywordIf
    } else if spelled(bytes, from, to, "exit") {
        Token::KeywordExit
    } else if spelled(bytes, from, to, "loop") {
        Token::KeywordLoop
    } else {
        Token::Identifier(slice(input, from, to))
    }
}

/// The token that is one byte long, if the byte is one.
fn symbol_token(byte: u8) -> (token: Option<Token>)
    ensures
        match token {
            Some(found) => symbol(byte) == Some(found@),
            None => symbol(byte) is None,
        },
{
    if byte == LEFT_PAREN {
        Some(Token::LParen)
    } else if byte == RIGHT_PAREN {
        Some(Token::RParen)
    } else if byte == SEMICOLON {
        Some(Token::Semicolon)
    } else if byte == LEFT_BRACE {
        Some(Token::LBracket)
    } else if byte == RIGHT_BRACE {
        Some(Token::RBracket)
    } else if byte == PLUS {
        Some(Token::OperatorAdd)
    } else if byte == MINUS {
        Some(Token::OperatorSub)
    } else if byte == ASTERISK {
        Some(Token::OperatorMul)
    } else if byte == SLASH {
        Some(Token::OperatorDiv)
    } else {
        None
    }
}

/// The lexeme that starts at `start`.
fn lex(input: &str, bytes: &[u8], start: usize) -> (found: (Token, usize))
    requires
        bytes@ == input.spec_bytes(),
        start < bytes@.len(),
    ensures
        found.0@ == lexeme_at(bytes@, start as int).token,
        found.1 == lexeme_at(bytes@, start as int).end,
        start < found.1 <= bytes@.len(),
{
    proof {
        encode_utf8_valid_utf8(input@);
    }
    let first = bytes[start];
    if let Some(token) = symbol_token(first) {
        return (token, start + 1);
    }
    if first == EQUALS {
        if start + 1 < bytes.len() && bytes[start + 1] == EQUALS {
            return (Token::WEqual, start + 2);
        }
        return (Token::Assign, start + 1);
    }
    if (LOWER_A <= first && first <= LOWER_Z) || (UPPER_A <= first && first <= UPPER_Z) || first
        == UNDERSCORE || (0xc0 <= first && first <= 0xf7) {
        let end = scan(bytes, start + 1, Class::IdentifierPart);
        proof {
            lemma_run_end_bounds(bytes@, start + 1, Class::IdentifierPart);
            is_char_boundary_iff_is_leading_byte(bytes@, start as int);
            if end < bytes@.len() {
                lemma_ascii_boundaries(bytes@, end as int);
            } else {
                is_char_boundary_start_end_of_seq(bytes@);
            }
        }
        return (word(input, bytes, start, end), end);
    }
    if DIGIT_0 <= first && first <= DIGIT_9 {
        let point = scan(bytes, start + 1, Class::Digit);
        if point < bytes.len() - 1 && bytes[point] == POINT && in_class(
            Class::Digit,
            bytes[point + 1],
        ) {
            let end = scan(bytes, point + 2, Class::Digit);
            proof {
                lemma_run_end_bounds(bytes@, point + 2, Class::Digit);
                assert(Class::Digit.holds(bytes@[end - 1]));
                lemma_ascii_boundaries(bytes@, start as int);
                lemma_ascii_boundaries(bytes@, end - 1);
            }
            return (Token::Number(slice(input, start, end)), end);
        }
    } else if first == QUOTE {
        let quote = scan(bytes, start + 1, Class::InsideString);
        if quote < bytes.len() {
            proof {
                lemma_run_end_bounds(bytes@, start + 1, Class::InsideString);
                lemma_ascii_boundaries(bytes@, start as int);
                lemma_ascii_boundaries(bytes@, quote as int);
            }
            return (Token::StringContent(slice(input, start + 1, quote)), quote + 1);
        }
    }
    (Token::Error, start + 1)
}

/// What the tokenizer hands out for a lexeme: its token between the positions of
/// its first byte and of the byte after its last, or an error.
pub type Spanned = Result<(usize, Token, usize), LexicalError>;

/// Whether the item is what the tokenizer hands out for the lexeme.
pub open spec fn reports(item: Spanned, lexeme: Lexeme) -> bool {
    if lexeme.token is Error {
        item == Err::<(usize, Token, usize), LexicalError>(LexicalError::InvalidToken)
    } else {
        &&& item matches Ok(found)
        &&& found.0 == lexeme.start
        &&& found.1@ == lexeme.token
        &&& found.2 == lexeme.end
    }
}

/// A tokenizer over one source text.
pub struct Lexer<'input> {
    input: &'input str,
    position: usize,
}

impl<'input> Lexer<'input> {
    /// The tokenizer never stands beyond the end of its text.
    #[verifier::type_invariant]
    spec fn within_source(&self) -> bool {
        self.position <= self.input.spec_bytes().len()
    }

    /// The bytes of the source text.
    pub closed spec fn source(&self) -> Seq<u8> {
        self.input.spec_bytes()
    }

    /// The position from which the next lexeme is looked for.
    pub closed spec fn position(&self) -> int {
        self.position as int
    }

    /// A tokenizer at the start of the text.
    pub fn new(input: &'input str) -> (result: Self)
        ensures
            result.source() == input.spec_bytes(),
            result.position() == 0,
    {
        Lexer { input, position: 0 }
    }

    /// The next lexeme of the text: its token between the positions of its
    /// first byte and of the byte after its last, or an error where it is no
    /// token. `None` at the end of the text. The tokenizer moves to the end of
    /// the lexeme.
    pub fn next(&mut self) -> (result: Option<Spanned>)
        ensures
            final(self).source() == old(self).source(),
            match next_lexeme(old(self).source(), old(self).position()) {
                None => result is None && final(self).position() == old(self).position(),
                Some(lexeme) => {
                    &&& final(self).position() == lexeme.end
                    &&& result matches Some(item)
                    &&& reports(item, lexeme)
                },
            },
    {
        let bytes = self.input.as_bytes();
        let start = skip(bytes, self.position);
        if start >= bytes.len() {
            return None;
        }
        let (token, end) = lex(self.input, bytes, start);
        self.position = end;
        match token {
            Token::Error => Some(Err(LexicalError::InvalidToken)),
            token => Some(Ok((start, token, end))),
        }
    }

    /// All lexemes that are left, in order. The tokenizer moves to the end of
    /// the text.
    pub fn rest(&mut self) -> (result: Vec<Spanned>)
        ensures
            final(self).source() == old(self).source(),
            result.len() == lexemes(old(self).source(), old(self).position()).len(),
            forall|i: int|
                0 <= i < result.len() ==> reports(
                    #[trigger] result[i],
                    lexemes(old(self).source(), old(self).position())[i],
                ),
    {
        let ghost src = self.source();
        let ghost all = lexemes(src, self.position());
        let mut result: Vec<Spanned> = Vec::new();
        let mut done = false;
        while !done
            invariant
                self.source() == src,
                result.len() <= all.len(),
                forall|i: int| 0 <= i < result.len() ==> reports(#[trigger] result[i], all[i]),
                !done ==> all == all.subrange(0, result.len() as int) + lexemes(
                    src,
                    self.position(),
                ),
                done ==> result.len() == all.len(),
            decreases src.len() - self.position() + if done { 0int } else { 1int },
        {
            proof {
                use_type_invariant(&*self);
                lexeme_advances(src, self.position());
            }
            let ghost before = result@;
            let ghost tail = lexemes(src, self.position());
            match self.next() {
                Some(item) => {
                    result.push(item);
                    proof {
                        assert(all.subrange(0, before.len() as int) + tail == all);
                        assert(all[before.len() as int] == tail[0]);
                        assert(tail.subrange(1, tail.len() as int) == lexemes(
                            src,
                            self.position(),
                        ));
                        assert(all == all.subrange(0, result.len() as int) + lexemes(
                            src,
                            self.position(),
                        ));
                    }
                },
                None => {
                    assert(tail.len() == 0);
                    done = true;
                },
            }
        }
        result
    }
}

} // verus!
