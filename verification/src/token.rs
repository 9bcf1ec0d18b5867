//! Token types and the classification of a closed lexeme.
//!
//! A lexeme is classified by an ordered chain of predicates: exact match
//! against the five punctuation marks, exact match against the keyword list,
//! then the identifier pattern, then the constant pattern. A lexeme that
//! passes none of them is a lexical error.

use vstd::prelude::*;
use vstd::string::StrSliceExecFns;

verus! {

/// The reserved words of the recognized C subset.
#[derive(PartialEq, Eq, Structural, Clone, Copy, Debug)]
pub enum Keyword {
    Return,
    Int,
    Void,
}

/// A classified, position-tagged lexeme. `line` and `column` are 1-based and
/// carry the scanner's position at the moment the lexeme is closed, which is
/// the column of the lexeme's first character.
#[derive(Debug)]
#[allow(inconsistent_fields)]
pub enum Token {
    Identifier { line: usize, column: usize, value: String },
    Keyword { line: usize, column: usize, value: Keyword },
    Constant { line: usize, column: usize, value: String },
    OpenParen { line: usize, column: usize },
    CloseParen { line: usize, column: usize },
    OpenBrace { line: usize, column: usize },
    CloseBrace { line: usize, column: usize },
    Semicolon { line: usize, column: usize },
}

/// Mathematical image of a `Token`: positions as unbounded integers and the
/// lexeme text as a sequence of characters.
#[allow(inconsistent_fields)]
pub enum TokenView {
    Identifier { line: int, column: int, value: Seq<char> },
    Keyword { line: int, column: int, value: Keyword },
    Constant { line: int, column: int, value: Seq<char> },
    OpenParen { line: int, column: int },
    CloseParen { line: int, column: int },
    OpenBrace { line: int, column: int },
    CloseBrace { line: int, column: int },
    Semicolon { line: int, column: int },
}

impl View for Token {
    type V = TokenView;

    open spec fn view(&self) -> TokenView {
        match self {
            Token::Identifier { line, column, value } => TokenView::Identifier {
                line: *line as int,
                column: *column as int,
                value: value@,
            },
            Token::Keyword { line, column, value } => TokenView::Keyword {
                line: *line as int,
                column: *column as int,
                value: *value,
            },
            Token::Constant { line, column, value } => TokenView::Constant {
                line: *line as int,
                column: *column as int,
                value: value@,
            },
            Token::OpenParen { line, column } => TokenView::OpenParen {
                line: *line as int,
                column: *column as int,
            },
            Token::CloseParen { line, column } => TokenView::CloseParen {
                line: *line as int,
                column: *column as int,
            },
            Token::OpenBrace { line, column } => TokenView::OpenBrace {
                line: *line as int,
                column: *column as int,
            },
            Token::CloseBrace { line, column } => TokenView::CloseBrace {
                line: *line as int,
                column: *column as int,
            },
            Token::Semicolon { line, column } => TokenView::Semicolon {
                line: *line as int,
                column: *column as int,
            },
        }
    }
}

impl DeepView for Token {
    type V = TokenView;

    open spec fn deep_view(&self) -> TokenView {
        self.view()
    }
}

/// A lexical failure: the exact offending lexeme and the position at which the
/// scanner closed it. The first such lexeme aborts tokenization.
#[derive(Debug)]
pub struct LexError {
    pub line: usize,
    pub column: usize,
    pub lexeme: String,
}

/// Mathematical image of a `LexError`.
pub struct LexErrorView {
    pub line: int,
    pub column: int,
    pub lexeme: Seq<char>,
}

impl View for LexError {
    type V = LexErrorView;

    open spec fn view(&self) -> LexErrorView {
        LexErrorView { line: self.line as int, column: self.column as int, lexeme: self.lexeme@ }
    }
}

impl DeepView for LexError {
    type V = LexErrorView;

    open spec fn deep_view(&self) -> LexErrorView {
        self.view()
    }
}

/// Whitespace separates lexemes: the ASCII whitespace characters.
pub open spec fn is_space_char(c: char) -> bool {
    c == ' ' || c == '\t' || c == '\n' || c == '\r' || c == '\u{b}' || c == '\u{c}'
}

/// A boundary character is itself a one-character token and also terminates
/// any pending lexeme.
pub open spec fn is_boundary_char(c: char) -> bool {
    c == ';' || c == '(' || c == ')' || c == '{' || c == '}'
}

/// A decimal digit, `0` through `9`.
pub open spec fn is_digit_char(c: char) -> bool {
    48 <= c as u32 && c as u32 <= 57
}

/// A character that may open an identifier: a letter or an underscore.
pub open spec fn is_ident_start_char(c: char) -> bool {
    (65 <= c as u32 && c as u32 <= 90) || (97 <= c as u32 && c as u32 <= 122) || c == '_'
}

/// A word character: a letter, a digit, or an underscore.
pub open spec fn is_word_char(c: char) -> bool {
    is_ident_start_char(c) || is_digit_char(c)
}

/// The identifier pattern: a letter or underscore followed by word characters.
pub open spec fn is_identifier_chars(s: Seq<char>) -> bool {
    &&& s.len() > 0
    &&& is_ident_start_char(s[0])
    &&& forall|k: int| 1 <= k < s.len() ==> is_word_char(#[trigger] s[k])
}

/// The constant pattern: a nonempty run of decimal digits.
pub open spec fn is_constant_chars(s: Seq<char>) -> bool {
    &&& s.len() > 0
    &&& forall|k: int| 0 <= k < s.len() ==> is_digit_char(#[trigger] s[k])
}

/// The exact spelling of the keyword `int`.
pub open spec fn is_int_keyword(s: Seq<char>) -> bool {
    s.len() == 3 && s[0] == 'i' && s[1] == 'n' && s[2] == 't'
}

/// The exact spelling of the keyword `void`.
pub open spec fn is_void_keyword(s: Seq<char>) -> bool {
    s.len() == 4 && s[0] == 'v' && s[1] == 'o' && s[2] == 'i' && s[3] == 'd'
}

/// The exact spelling of the keyword `return`.
pub open spec fn is_return_keyword(s: Seq<char>) -> bool {
    s.len() == 6 && s[0] == 'r' && s[1] == 'e' && s[2] == 't' && s[3] == 'u' && s[4] == 'r'
        && s[5] == 'n'
}

/// A lexeme that spells one of the three keywords.
pub open spec fn is_keyword_chars(s: Seq<char>) -> bool {
    is_int_keyword(s) || is_void_keyword(s) || is_return_keyword(s)
}

/// The kind named by a keyword lexeme.
pub open spec fn keyword_kind(s: Seq<char>) -> Keyword {
    if is_int_keyword(s) {
        Keyword::Int
    } else if is_void_keyword(s) {
        Keyword::Void
    } else {
        Keyword::Return
    }
}

/// What classification returns for a closed lexeme at a position: the ordered
/// chain of predicates of the lexical grammar, or `None` for an unrecognized
/// lexeme.
pub open spec fn spec_classify(lexeme: Seq<char>, line: int, column: int) -> Option<TokenView> {
    if lexeme.len() == 1 && lexeme[0] == ';' {
        Some(TokenView::Semicolon { line, column })
    } else if lexeme.len() == 1 && lexeme[0] == '(' {
        Some(TokenView::OpenParen { line, column })
    } else if lexeme.len() == 1 && lexeme[0] == ')' {
        Some(TokenView::CloseParen { line, column })
    } else if lexeme.len() == 1 && lexeme[0] == '{' {
        Some(TokenView::OpenBrace { line, column })
    } else if lexeme.len() == 1 && lexeme[0] == '}' {
        Some(TokenView::CloseBrace { line, column })
    } else if is_int_keyword(lexeme) {
        Some(TokenView::Keyword { line, column, value: Keyword::Int })
    } else if is_void_keyword(lexeme) {
        Some(TokenView::Keyword { line, column, value: Keyword::Void })
    } else if is_return_keyword(lexeme) {
        Some(TokenView::Keyword { line, column, value: Keyword::Return })
    } else if is_identifier_chars(lexeme) {
        Some(TokenView::Identifier { line, column, value: lexeme })
    } else if is_constant_chars(lexeme) {
        Some(TokenView::Constant { line, column, value: lexeme })
    } else {
        None
    }
}

/// Decides `is_space_char`.
pub fn is_space(c: char) -> (r: bool)
    ensures
        r == is_space_char(c),
{
    c == ' ' || c == '\t' || c == '\n' || c == '\r' || c == '\u{b}' || c == '\u{c}'
}

/// Decides `is_boundary_char`.
pub fn is_boundary(c: char) -> (r: bool)
    ensures
        r == is_boundary_char(c),
{
    c == ';' || c == '(' || c == ')' || c == '{' || c == '}'
}

/// Decides `is_digit_char`.
pub fn is_digit(c: char) -> (r: bool)
    ensures
        r == is_digit_char(c),
{
    let u = c as u32;
    48 <= u && u <= 57
}

/// Decides `is_ident_start_char`.
pub fn is_ident_start(c: char) -> (r: bool)
    ensures
        r == is_ident_start_char(c),
{
    let u = c as u32;
    (65 <= u && u <= 90) || (97 <= u && u <= 122) || c == '_'
}

/// Decides `is_word_char`.
pub fn is_word(c: char) -> (r: bool)
    ensures
        r == is_word_char(c),
{
    is_ident_start(c) || is_digit(c)
}

/// Decides the identifier pattern over a whole lexeme.
pub fn is_identifier_lexeme(s: &str) -> (r: bool)
    ensures
        r == is_identifier_chars(s@),
{
    let n = s.unicode_len();
    if n == 0 {
        return false;
    }
    if !is_ident_start(s.get_char(0)) {
        return false;
    }
    let mut j: usize = 1;
    while j < n
        invariant
            n == s@.len(),
            1 <= j <= n,
            forall|k: int| 1 <= k < j ==> is_word_char(#[trigger] s@[k]),
        decreases n - j,
    {
        if !is_word(s.get_char(j)) {
            return false;
        }
        j += 1;
    }
    true
}

/// Decides the constant pattern over a whole lexeme.
pub fn is_constant_lexeme(s: &str) -> (r: bool)
    ensures
        r == is_constant_chars(s@),
{
    let n = s.unicode_len();
    if n == 0 {
        return false;
    }
    let mut j: usize = 0;
    while j < n
        invariant
            n == s@.len(),
            0 <= j <= n,
            forall|k: int| 0 <= k < j ==> is_digit_char(#[trigger] s@[k]),
        decreases n - j,
    {
        if !is_digit(s.get_char(j)) {
            return false;
        }
        j += 1;
    }
    true
}

/// Classifies a closed lexeme at a position: exactly `spec_classify`, with an
/// unrecognized lexeme reported back with its text and position.
pub fn classify(lexeme: &str, line: usize, column: usize) -> (r: Result<Token, LexError>)
    ensures
        match r {
            Ok(t) => spec_classify(lexeme@, line as int, column as int) == Some(t@),
            Err(e) => {
                &&& spec_classify(lexeme@, line as int, column as int) is None
                &&& e@ == (LexErrorView {
                    line: line as int,
                    column: column as int,
                    lexeme: lexeme@,
                })
            },
        },
{
    let n = lexeme.unicode_len();
    if n == 1 {
        let c = lexeme.get_char(0);
        if c == ';' {
            return Ok(Token::Semicolon { line, column });
        }
        if c == '(' {
            return Ok(Token::OpenParen { line, column });
        }
        if c == ')' {
            return Ok(Token::CloseParen { line, column });
        }
        if c == '{' {
            return Ok(Token::OpenBrace { line, column });
        }
        if c == '}' {
            return Ok(Token::CloseBrace { line, column });
        }
    }
    if n == 3 && lexeme.get_char(0) == 'i' && lexeme.get_char(1) == 'n' && lexeme.get_char(2)
        == 't' {
        return Ok(Token::Keyword { line, column, value: Keyword::Int });
    }
    if n == 4 && lexeme.get_char(0) == 'v' && lexeme.get_char(1) == 'o' && lexeme.get_char(2)
        == 'i' && lexeme.get_char(3) == 'd' {
        return Ok(Token::Keyword { line, column, value: Keyword::Void });
    }
    if n == 6 && lexeme.get_char(0) == 'r' && lexeme.get_char(1) == 'e' && lexeme.get_char(2)
        == 't' && lexeme.get_char(3) == 'u' && lexeme.get_char(4) == 'r' && lexeme.get_char(5)
        == 'n' {
        return Ok(Token::Keyword { line, column, value: Keyword::Return });
    }
    if is_identifier_lexeme(lexeme) {
        return Ok(Token::Identifier { line, column, value: lexeme.to_owned() });
    }
    if is_constant_lexeme(lexeme) {
        return Ok(Token::Constant { line, column, value: lexeme.to_owned() });
    }
    Err(LexError { line, column, lexeme: lexeme.to_owned() })
}

/// Every character of a keyword is a word character, so no keyword contains
/// whitespace or a boundary character.
pub proof fn lemma_keyword_chars(w: Seq<char>)
    requires
        is_keyword_chars(w),
    ensures
        1 <= w.len(),
        forall|k: int|
            0 <= k < w.len() ==> is_word_char(#[trigger] w[k]) && !is_space_char(w[k])
                && !is_boundary_char(w[k]),
{
    assert forall|k: int|
        0 <= k < w.len() implies is_word_char(#[trigger] w[k]) && !is_space_char(w[k])
        && !is_boundary_char(w[k]) by {
        if is_int_keyword(w) {
            assert(w[k] == 'i' || w[k] == 'n' || w[k] == 't');
        } else if is_void_keyword(w) {
            assert(w[k] == 'v' || w[k] == 'o' || w[k] == 'i' || w[k] == 'd');
        } else {
            assert(w[k] == 'r' || w[k] == 'e' || w[k] == 't' || w[k] == 'u' || w[k] == 'n');
        }
    }
}

/// A keyword lexeme is classified as the `Keyword` token of its kind.
pub proof fn lemma_classify_keyword(w: Seq<char>, line: int, column: int)
    requires
        is_keyword_chars(w),
    ensures
        spec_classify(w, line, column) == Some(
            TokenView::Keyword { line, column, value: keyword_kind(w) },
        ),
{
}

/// A lexeme of decimal digits is always classified as a constant, and its text
/// is preserved exactly: no numeric parsing and no leading-zero stripping.
pub proof fn lemma_constant_lexeme_classified(lexeme: Seq<char>, line: int, column: int)
    requires
        is_constant_chars(lexeme),
    ensures
        spec_classify(lexeme, line, column) == Some(
            TokenView::Constant { line, column, value: lexeme },
        ),
{
    assert(is_digit_char(lexeme[0]));
}

/// A lexeme that contains a character outside the word characters, and is not
/// one of the five fixed punctuation marks, is recognized by nothing in the
/// grammar: classification rejects it.
pub proof fn lemma_invalid_lexeme_rejected(lexeme: Seq<char>, line: int, column: int)
    requires
        exists|k: int| 0 <= k < lexeme.len() && !is_word_char(#[trigger] lexeme[k]),
        !(lexeme.len() == 1 && is_boundary_char(lexeme[0])),
    ensures
        spec_classify(lexeme, line, column) is None,
{
    let k = choose|k: int| 0 <= k < lexeme.len() && !is_word_char(#[trigger] lexeme[k]);
    if is_int_keyword(lexeme) {
        assert(lexeme[k] == 'i' || lexeme[k] == 'n' || lexeme[k] == 't');
    }
    if is_void_keyword(lexeme) {
        assert(lexeme[k] == 'v' || lexeme[k] == 'o' || lexeme[k] == 'i' || lexeme[k] == 'd');
    }
    if is_return_keyword(lexeme) {
        assert(lexeme[k] == 'r' || lexeme[k] == 'e' || lexeme[k] == 't' || lexeme[k] == 'u'
            || lexeme[k] == 'n');
    }
}

} // verus!
