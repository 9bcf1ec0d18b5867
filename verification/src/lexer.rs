//! The scan loop: a single left-to-right pass with one character of lookahead.
//!
//! The scanner keeps a cursor of 1-based `line` and `column` counters and the
//! `start` offset of the pending lexeme. A non-boundary lexeme is closed only
//! once its right edge is confirmed by a following whitespace character, a
//! following boundary character, or end of input; a boundary character is
//! closed at once. The column counter advances past a consumed span when a
//! boundary closed it, or when whitespace is consumed; a newline resets
//! `column` to 1 and increments `line`.

use vstd::prelude::*;
use vstd::string::StrSliceExecFns;

use crate::token::{
    is_boundary, is_boundary_char, is_keyword_chars, is_space, is_space_char, classify,
    keyword_kind, lemma_classify_keyword, lemma_keyword_chars, spec_classify, LexError,
    LexErrorView, Token, TokenView,
};

verus! {

/// One step of the scan, written as a recursive function of the cursor: the
/// position `i` about to be read, the `line` and `column` counters, and the
/// `start` of the pending lexeme. The result is the token stream produced
/// from position `i` on, or the first lexical error.
pub open spec fn spec_scan(
    s: Seq<char>,
    i: int,
    line: int,
    column: int,
    start: int,
) -> Result<Seq<TokenView>, LexErrorView>
    decreases s.len() - i,
{
    if i >= s.len() {
        Ok(Seq::empty())
    } else {
        let ch = s[i];
        if is_space_char(ch) {
            let line2 = if ch == '\n' {
                line + 1
            } else {
                line
            };
            let column2 = if ch == '\n' {
                1
            } else {
                column + (i + 1 - start)
            };
            spec_scan(s, i + 1, line2, column2, i + 1)
        } else {
            let close = i + 1 >= s.len() || is_space_char(s[i + 1]) || is_boundary_char(s[i + 1])
                || is_boundary_char(ch);
            let advance = i + 1 < s.len() && (is_boundary_char(s[i + 1]) || is_boundary_char(ch));
            if close {
                match spec_classify(s.subrange(start, i + 1), line, column) {
                    Some(t) => {
                        let column2 = if advance {
                            column + (i + 1 - start)
                        } else {
                            column
                        };
                        let start2 = if advance {
                            i + 1
                        } else {
                            start
                        };
                        match spec_scan(s, i + 1, line, column2, start2) {
                            Ok(rest) => Ok(seq![t] + rest),
                            Err(e) => Err(e),
                        }
                    },
                    None => Err(
                        LexErrorView { line, column, lexeme: s.subrange(start, i + 1) },
                    ),
                }
            } else {
                spec_scan(s, i + 1, line, column, start)
            }
        }
    }
}

/// What `tokenize` returns on a source text: the scan started at position 0,
/// line 1, column 1, with an empty pending lexeme.
pub open spec fn spec_tokenize(s: Seq<char>) -> Result<Seq<TokenView>, LexErrorView> {
    spec_scan(s, 0, 1, 1, 0)
}

/// Prepends the already emitted tokens to the outcome of the remaining scan.
pub open spec fn scan_compose(
    pre: Seq<TokenView>,
    r: Result<Seq<TokenView>, LexErrorView>,
) -> Result<Seq<TokenView>, LexErrorView> {
    match r {
        Ok(rest) => Ok(pre + rest),
        Err(e) => Err(e),
    }
}

/// A lexer over one source text. The cursor lives only inside `tokenize`, so
/// every call scans from a fresh state.
pub struct Lexer {
    code: String,
}

impl View for Lexer {
    type V = Seq<char>;

    closed spec fn view(&self) -> Seq<char> {
        self.code@
    }
}

impl Lexer {
    /// The one machine limit: the column counter, which can reach one past the
    /// number of characters, must fit in `usize`.
    pub closed spec fn wf(&self) -> bool {
        self.code@.len() < usize::MAX
    }

    /// Wraps a source text for tokenization.
    pub fn new(code: String) -> (r: Lexer)
        requires
            code@.len() < usize::MAX,
        ensures
            r@ == code@,
            r.wf(),
    {
        Lexer { code }
    }

    /// Converts the source text to its token stream, or fails at the first
    /// unrecognized lexeme: exactly `spec_tokenize` of the text.
    pub fn tokenize(&self) -> (r: Result<Vec<Token>, LexError>)
        requires
            self.wf(),
        ensures
            match r {
                Ok(tokens) => spec_tokenize(self@) == Ok::<Seq<TokenView>, LexErrorView>(
                    tokens.deep_view(),
                ),
                Err(e) => spec_tokenize(self@) == Err::<Seq<TokenView>, LexErrorView>(e@),
            },
    {
        let code: &str = self.code.as_str();
        let n = code.unicode_len();
        let mut tokens: Vec<Token> = Vec::new();
        let mut line: usize = 1;
        let mut column: usize = 1;
        let mut start: usize = 0;
        let mut end: usize = 0;
        let mut i: usize = 0;
        while i < n
            invariant
                code@ == self@,
                n == code@.len(),
                n < usize::MAX,
                i <= n,
                end == i,
                start <= i,
                line <= 1 + i,
                column <= 1 + start,
                spec_tokenize(self@) == scan_compose(
                    tokens.deep_view(),
                    spec_scan(code@, i as int, line as int, column as int, start as int),
                ),
            decreases n - i,
        {
            let ch = code.get_char(i);
            if is_space(ch) {
                end = end + 1;
                column = column + (end - start);
                start = end;
                if ch == '\n' {
                    line = line + 1;
                    column = 1;
                }
            } else {
                end = end + 1;
                let close: bool;
                let advance: bool;
                if i + 1 < n {
                    let next = code.get_char(i + 1);
                    let boundary_next = is_boundary(next);
                    let boundary_ch = is_boundary(ch);
                    close = is_space(next) || boundary_next || boundary_ch;
                    advance = boundary_next || boundary_ch;
                } else {
                    close = true;
                    advance = false;
                }
                if close {
                    let ghost pre = tokens.deep_view();
                    let lexeme = code.substring_char(start, end);
                    match classify(lexeme, line, column) {
                        Ok(t) => {
                            proof {
                                let rest = spec_scan(
                                    code@,
                                    i + 1,
                                    line as int,
                                    if advance {
                                        column + (end - start)
                                    } else {
                                        column as int
                                    },
                                    if advance {
                                        end as int
                                    } else {
                                        start as int
                                    },
                                );
                                if rest is Ok {
                                    assert(pre + (seq![t@] + rest->Ok_0) =~= pre.push(t@)
                                        + rest->Ok_0);
                                }
                            }
                            tokens.push(t);
                            proof {
                                assert(tokens.deep_view() =~= pre.push(t@));
                            }
                        },
                        Err(e) => {
                            return Err(e);
                        },
                    }
                    if advance {
                        column = column + (end - start);
                        start = end;
                    }
                }
            }
            i = i + 1;
        }
        proof {
            assert(tokens.deep_view() + Seq::<TokenView>::empty() =~= tokens.deep_view());
        }
        Ok(tokens)
    }
}

/// The words joined by single spaces: the inputs that the keyword-stream law
/// speaks of.
pub open spec fn join_with_spaces(words: Seq<Seq<char>>) -> Seq<char>
    decreases words.len(),
{
    if words.len() == 0 {
        Seq::empty()
    } else if words.len() == 1 {
        words[0]
    } else {
        words[0] + seq![' '] + join_with_spaces(words.drop_first())
    }
}

/// The token stream owed for keyword words joined by single spaces, the first
/// word standing at `column` of line 1: one `Keyword` token per word, each
/// column one past the end of the word before it.
pub open spec fn keyword_tokens(words: Seq<Seq<char>>, column: int) -> Seq<TokenView>
    decreases words.len(),
{
    if words.len() == 0 {
        Seq::empty()
    } else {
        seq![TokenView::Keyword { line: 1, column, value: keyword_kind(words[0]) }]
            + keyword_tokens(words.drop_first(), column + words[0].len() + 1)
    }
}

/// Scanning a keyword word whose right edge is the end of input or a single
/// space: from any position inside the word, the scan emits the word's
/// `Keyword` token at the pending column, and, when a space follows, goes on
/// past it with the column advanced one past the word.
proof fn lemma_scan_word(s: Seq<char>, w: Seq<char>, i: int, j: int, line: int, column: int)
    requires
        is_keyword_chars(w),
        0 <= i <= j,
        j < i + w.len(),
        i + w.len() <= s.len(),
        s.subrange(i, i + w.len()) == w,
        i + w.len() == s.len() || s[i + w.len()] == ' ',
    ensures
        spec_scan(s, j, line, column, i) == (if i + w.len() == s.len() {
            Ok::<Seq<TokenView>, LexErrorView>(
                seq![(TokenView::Keyword { line, column, value: keyword_kind(w) })],
            )
        } else {
            scan_compose(
                seq![(TokenView::Keyword { line, column, value: keyword_kind(w) })],
                spec_scan(s, i + w.len() + 1, line, column + w.len() + 1, i + w.len() + 1),
            )
        }),
    decreases i + w.len() - j,
{
    let L = w.len() as int;
    lemma_keyword_chars(w);
    assert(s[j] == s.subrange(i, i + L)[j - i]);
    if j < i + L - 1 {
        assert(s[j + 1] == s.subrange(i, i + L)[j + 1 - i]);
        lemma_scan_word(s, w, i, j + 1, line, column);
    } else {
        assert(j == i + L - 1);
        assert(s.subrange(i, j + 1) == w);
        lemma_classify_keyword(w, line, column);
        let tok = TokenView::Keyword { line, column, value: keyword_kind(w) };
        if i + L == s.len() {
            assert(spec_scan(s, j + 1, line, column, i) == Ok::<Seq<TokenView>, LexErrorView>(
                Seq::empty(),
            ));
            assert(seq![tok] + Seq::<TokenView>::empty() =~= seq![tok]);
        } else {
            assert(s[i + L] == ' ');
            assert(spec_scan(s, j + 1, line, column, i) == spec_scan(
                s,
                i + L + 1,
                line,
                column + L + 1,
                i + L + 1,
            ));
        }
    }
}

/// Scanning keyword words joined by single spaces, from the start of the
/// first word: the scan succeeds with exactly their keyword tokens.
proof fn lemma_scan_keyword_words(s: Seq<char>, words: Seq<Seq<char>>, i: int, column: int)
    requires
        forall|k: int| 0 <= k < words.len() ==> is_keyword_chars(#[trigger] words[k]),
        0 <= i <= s.len(),
        s.subrange(i, s.len() as int) == join_with_spaces(words),
    ensures
        spec_scan(s, i, 1, column, i) == Ok::<Seq<TokenView>, LexErrorView>(
            keyword_tokens(words, column),
        ),
    decreases words.len(),
{
    if words.len() == 0 {
        assert(s.len() - i == 0);
    } else if words.len() == 1 {
        let w = words[0];
        let L = w.len() as int;
        assert(s.len() == i + L);
        assert(s.subrange(i, i + L) == w);
        lemma_keyword_chars(w);
        lemma_scan_word(s, w, i, i, 1, column);
        let tok = TokenView::Keyword { line: 1, column, value: keyword_kind(w) };
        assert(keyword_tokens(words, column) == seq![tok] + keyword_tokens(
            words.drop_first(),
            column + L + 1,
        ));
        assert(seq![tok] + Seq::<TokenView>::empty() =~= seq![tok]);
    } else {
        let w = words[0];
        let L = w.len() as int;
        let rest = words.drop_first();
        lemma_keyword_chars(w);
        assert(join_with_spaces(words) == w + seq![' '] + join_with_spaces(rest));
        assert(s.subrange(i, s.len() as int).len() == join_with_spaces(words).len());
        assert(s.len() - i == L + 1 + join_with_spaces(rest).len());
        assert forall|t: int| 0 <= t < L implies s.subrange(i, i + L)[t] == w[t] by {
            assert(s.subrange(i, i + L)[t] == s[i + t]);
            assert(s[i + t] == s.subrange(i, s.len() as int)[t]);
        }
        assert(s.subrange(i, i + L) =~= w);
        assert(s[i + L] == s.subrange(i, s.len() as int)[L]);
        assert(s[i + L] == ' ');
        assert forall|t: int|
            0 <= t < join_with_spaces(rest).len() implies s.subrange(i + L + 1, s.len() as int)[t]
            == join_with_spaces(rest)[t] by {
            assert(s.subrange(i + L + 1, s.len() as int)[t] == s[i + L + 1 + t]);
            assert(s[i + L + 1 + t] == s.subrange(i, s.len() as int)[L + 1 + t]);
        }
        assert(s.subrange(i + L + 1, s.len() as int) =~= join_with_spaces(rest));
        assert forall|k: int| 0 <= k < rest.len() implies is_keyword_chars(#[trigger] rest[k]) by {
            assert(rest[k] == words[k + 1]);
        }
        lemma_scan_word(s, w, i, i, 1, column);
        lemma_scan_keyword_words(s, rest, i + L + 1, column + L + 1);
    }
}

/// The shape of the owed keyword stream: one token per word, every token a
/// `Keyword` of the word's kind on line 1 at or past the starting column, and
/// the columns strictly increasing.
proof fn lemma_keyword_tokens_shape(words: Seq<Seq<char>>, column: int)
    requires
        forall|k: int| 0 <= k < words.len() ==> is_keyword_chars(#[trigger] words[k]),
    ensures
        keyword_tokens(words, column).len() == words.len(),
        forall|k: int|
            0 <= k < words.len() ==> ((#[trigger] keyword_tokens(words, column)[k]) matches
            TokenView::Keyword { line, column: c, value } && line == 1 && c >= column && value
                == keyword_kind(words[k])),
        forall|k: int, l: int|
            0 <= k < l < words.len() ==> keyword_tokens(words, column)[k]->Keyword_column
                < keyword_tokens(words, column)[l]->Keyword_column,
    decreases words.len(),
{
    if words.len() > 0 {
        let rest = words.drop_first();
        let col2 = column + words[0].len() + 1;
        let r = keyword_tokens(words, column);
        let rr = keyword_tokens(rest, col2);
        assert forall|k: int| 0 <= k < rest.len() implies is_keyword_chars(#[trigger] rest[k]) by {
            assert(rest[k] == words[k + 1]);
        }
        lemma_keyword_tokens_shape(rest, col2);
        assert forall|k: int|
            0 <= k < words.len() implies (#[trigger] r[k]) matches TokenView::Keyword {
                line,
                column: c,
                value,
            } && line == 1 && c >= column && value == keyword_kind(words[k]) by {
            if k > 0 {
                assert(r[k] == rr[k - 1]);
                assert(words[k] == rest[k - 1]);
            }
        }
        assert forall|k: int, l: int|
            0 <= k < l < words.len() implies r[k]->Keyword_column < r[l]->Keyword_column by {
            assert(r[l] == rr[l - 1]);
            if k > 0 {
                assert(r[k] == rr[k - 1]);
            }
        }
    }
}

/// For an input consisting solely of recognized keywords separated by single
/// spaces, tokenization succeeds with one `Keyword` token per word, in order,
/// all on line 1, with strictly increasing column values.
pub proof fn lemma_tokenize_keywords(words: Seq<Seq<char>>)
    requires
        forall|k: int| 0 <= k < words.len() ==> is_keyword_chars(#[trigger] words[k]),
    ensures
        spec_tokenize(join_with_spaces(words)) == Ok::<Seq<TokenView>, LexErrorView>(
            keyword_tokens(words, 1),
        ),
        keyword_tokens(words, 1).len() == words.len(),
        forall|k: int|
            0 <= k < words.len() ==> ((#[trigger] keyword_tokens(words, 1)[k]) matches
            TokenView::Keyword { line, column, value } && line == 1 && value == keyword_kind(
                words[k],
            )),
        forall|k: int, l: int|
            0 <= k < l < words.len() ==> keyword_tokens(words, 1)[k]->Keyword_column
                < keyword_tokens(words, 1)[l]->Keyword_column,
{
    let s = join_with_spaces(words);
    assert(s.subrange(0, s.len() as int) =~= s);
    lemma_scan_keyword_words(s, words, 0, 1);
    lemma_keyword_tokens_shape(words, 1);
}

/// Tokenizing the same source text twice, each time from fresh lexer state,
/// yields identical outcomes: the token stream is a function of the source
/// text alone.
pub proof fn lemma_tokenize_deterministic(
    s: Seq<char>,
    r1: Result<Seq<TokenView>, LexErrorView>,
    r2: Result<Seq<TokenView>, LexErrorView>,
)
    requires
        r1 == spec_tokenize(s),
        r2 == spec_tokenize(s),
    ensures
        r1 == r2,
{
}

} // verus!
