//! The lexer: splits a document into whitespace, line ending, comment, key,
//! separator and value tokens, each with the line and column where it starts.
//!
//! The tokens concatenate back to the input.
use crate::chars::{
    chars_of, is_inline_ws, is_newline, is_whitespace, quote_count, spec_is_inline_ws, spec_is_whitespace,
    string_of,
};
use crate::error::{Error, ErrorView, ParseErrorKind, Result};
use vstd::prelude::*;

verus! {

/// What a token is.
#[derive(PartialEq, Eq, Debug, Clone, Copy, Structural)]
pub enum TokenKind {
    WhiteSpace,
    LineEnding,
    Comment,
    FieldKey,
    FieldSeparator,
    FieldValue,
}

/// A 1-based line and column, counted in characters.
#[derive(Debug, PartialEq, Eq, Copy, Clone, Structural)]
pub struct Position {
    pub line: usize,
    pub col: usize,
}

/// A piece of the input.
#[derive(Debug)]
pub struct Token {
    pub kind: TokenKind,
    pub data: String,
    pub pos: Option<Position>,
}

/// The mathematical value of a token. A token made by the library rather
/// than read from a document has line and column 0.
pub struct SpecToken {
    pub kind: TokenKind,
    pub data: Seq<char>,
    pub line: nat,
    pub col: nat,
}

/// Where and why the lexer stopped.
pub struct SpecParseError {
    pub line: nat,
    pub col: nat,
    pub kind: ParseErrorKind,
}

impl SpecParseError {
    /// The library error that reports this failure.
    pub open spec fn to_error(self) -> ErrorView {
        ErrorView::Parse { line: self.line as int, col: self.col as int, kind: self.kind }
    }
}

impl View for Token {
    type V = SpecToken;

    open spec fn view(&self) -> SpecToken {
        SpecToken {
            kind: self.kind,
            data: self.data@,
            line: match self.pos {
                Some(p) => p.line as nat,
                None => 0,
            },
            col: match self.pos {
                Some(p) => p.col as nat,
                None => 0,
            },
        }
    }
}

/// The views of a sequence of tokens.
pub open spec fn tokens_view(v: Seq<Token>) -> Seq<SpecToken> {
    v.map_values(|t: Token| t@)
}

/// A token read from a document.
pub open spec fn tok(kind: TokenKind, data: Seq<char>, line: nat, col: nat) -> SpecToken {
    SpecToken { kind, data, line, col }
}

/// How many leading characters of `s` are inline whitespace.
pub open spec fn inline_ws_run(s: Seq<char>) -> nat
    decreases s.len(),
{
    if s.len() > 0 && spec_is_inline_ws(s[0]) {
        1 + inline_ws_run(s.drop_first())
    } else {
        0
    }
}

/// How many leading characters of `s` come before a line break.
pub open spec fn line_run(s: Seq<char>) -> nat
    decreases s.len(),
{
    if s.len() > 0 && !is_newline(s[0]) {
        1 + line_run(s.drop_first())
    } else {
        0
    }
}

/// How many leading characters of `s` can belong to a key: neither
/// whitespace nor `'='`.
pub open spec fn key_run(s: Seq<char>) -> nat
    decreases s.len(),
{
    if s.len() > 0 && !spec_is_whitespace(s[0]) && s[0] != '=' {
        1 + key_run(s.drop_first())
    } else {
        0
    }
}

/// Adds one to the length, or to the offset of the error.
pub open spec fn shift(r: core::result::Result<nat, (nat, ParseErrorKind)>) -> core::result::Result<
    nat,
    (nat, ParseErrorKind),
> {
    match r {
        Ok(n) => Ok(n + 1),
        Err((o, k)) => Err((o + 1, k)),
    }
}

/// The length of the separator at the start of `t`: inline whitespace with at
/// most one `'='`, ended by the first other character. `seen` tells whether an
/// `'='` was already read. On failure, the offset of the offending position.
pub open spec fn sep_scan(t: Seq<char>, seen: bool) -> core::result::Result<
    nat,
    (nat, ParseErrorKind),
>
    decreases t.len(),
{
    if t.len() == 0 || is_newline(t[0]) {
        Err((0, ParseErrorKind::SeparatorBoundaryNotFound))
    } else if t[0] == '=' {
        if seen {
            Err((0, ParseErrorKind::SeparatorHasMoreThanOneEqual))
        } else {
            shift(sep_scan(t.drop_first(), true))
        }
    } else if !spec_is_whitespace(t[0]) {
        Ok(0)
    } else {
        shift(sep_scan(t.drop_first(), seen))
    }
}

/// A parse error at `line`, `col`.
pub open spec fn perr(line: nat, col: nat, kind: ParseErrorKind) -> SpecParseError {
    SpecParseError { line, col, kind }
}

/// The key, separator and value tokens of the field that starts `s`, with
/// how many characters they cover.
pub open spec fn lex_field(s: Seq<char>, line: nat, col: nat) -> core::result::Result<
    (Seq<SpecToken>, nat),
    SpecParseError,
> {
    let k = key_run(s);
    if k >= s.len() || is_newline(s[k as int]) {
        Err(perr(line, col + k, ParseErrorKind::KeyBoundaryNotFound))
    } else {
        match sep_scan(s.skip(k as int), false) {
            Err((o, kind)) => Err(perr(line, col + k + o, kind)),
            Ok(m) => {
                let v = line_run(s.skip((k + m) as int));
                if v == 0 {
                    Err(perr(line, col + k + m, ParseErrorKind::ExpectedFieldValue))
                } else if quote_count(s.subrange((k + m) as int, (k + m + v) as int)) % 2 != 0 {
                    Err(perr(line, col + k + m, ParseErrorKind::UnclosedDoubleQuote))
                } else {
                    Ok(
                        (
                            seq![
                                tok(TokenKind::FieldKey, s.take(k as int), line, col),
                                tok(TokenKind::FieldSeparator, s.subrange(k as int, (k + m) as int), line, col + k),
                                tok(TokenKind::FieldValue, s.subrange((k + m) as int, (k + m + v) as int), line, col + k + m),
                            ],
                            k + m + v,
                        ),
                    )
                }
            },
        }
    }
}

/// `p` followed by the tokens of `r`, or the error of `r`.
pub open spec fn prepend(p: Seq<SpecToken>, r: core::result::Result<Seq<SpecToken>, SpecParseError>) -> core::result::Result<
    Seq<SpecToken>,
    SpecParseError,
> {
    match r {
        Ok(ts) => Ok(p + ts),
        Err(e) => Err(e),
    }
}

/// The tokens of `s`, read from line `line` and column `col` on.
///
/// A `'#'` starts a comment that runs to the end of the line; `"\n"` and
/// `"\r\n"` are line endings (a lone `'\r'` is an error); inline whitespace
/// forms one token; anything else starts a field: a key, a separator made of
/// whitespace and at most one `'='`, and a value that runs to the end of the
/// line, holds an even number of `'"'` and is not empty.
pub open spec fn lex_from(s: Seq<char>, line: nat, col: nat) -> core::result::Result<
    Seq<SpecToken>,
    SpecParseError,
>
    decreases s.len(),
{
    if s.len() == 0 {
        Ok(Seq::empty())
    } else if s[0] == '#' {
        let n = line_run(s);
        proof {
            lemma_line_run(s);
        }
        prepend(
            seq![tok(TokenKind::Comment, s.take(n as int), line, col)],
            lex_from(s.skip(n as int), line, col + n),
        )
    } else if s[0] == '\n' {
        prepend(
            seq![tok(TokenKind::LineEnding, s.take(1), line, col)],
            lex_from(s.skip(1), line + 1, 1),
        )
    } else if s[0] == '\r' {
        if s.len() >= 2 && s[1] == '\n' {
            prepend(
                seq![tok(TokenKind::LineEnding, s.take(2), line, col)],
                lex_from(s.skip(2), line + 1, 1),
            )
        } else {
            Err(perr(line, col + 1, ParseErrorKind::UnterminatedCRLF))
        }
    } else if spec_is_whitespace(s[0]) {
        let n = inline_ws_run(s);
        proof {
            lemma_inline_ws_run(s);
        }
        prepend(
            seq![tok(TokenKind::WhiteSpace, s.take(n as int), line, col)],
            lex_from(s.skip(n as int), line, col + n),
        )
    } else {
        match lex_field(s, line, col) {
            Err(e) => Err(e),
            Ok((ts, n)) => {
                proof {
                    lemma_lex_field_len(s, line, col);
                }
                prepend(ts, lex_from(s.skip(n as int), line, col + n))
            },
        }
    }
}

/// The tokens of a whole document.
pub open spec fn lex(s: Seq<char>) -> core::result::Result<Seq<SpecToken>, SpecParseError> {
    lex_from(s, 1, 1)
}

pub proof fn lemma_line_run(s: Seq<char>)
    ensures
        line_run(s) <= s.len(),
        forall|i: int| 0 <= i < line_run(s) ==> !#[trigger] is_newline(s[i]),
        line_run(s) < s.len() ==> is_newline(s[line_run(s) as int]),
    decreases s.len(),
{
    if s.len() > 0 && !is_newline(s[0]) {
        lemma_line_run(s.drop_first());
        assert forall|i: int| 0 <= i < line_run(s) implies !#[trigger] is_newline(s[i]) by {
            if i > 0 {
                assert(s[i] == s.drop_first()[i - 1]);
            }
        }
    }
}

pub proof fn lemma_inline_ws_run(s: Seq<char>)
    ensures
        inline_ws_run(s) <= s.len(),
        forall|i: int| 0 <= i < inline_ws_run(s) ==> #[trigger] spec_is_inline_ws(s[i]),
        inline_ws_run(s) < s.len() ==> !spec_is_inline_ws(s[inline_ws_run(s) as int]),
        s.len() > 0 && spec_is_inline_ws(s[0]) ==> inline_ws_run(s) > 0,
    decreases s.len(),
{
    if s.len() > 0 && spec_is_inline_ws(s[0]) {
        lemma_inline_ws_run(s.drop_first());
        assert forall|i: int| 0 <= i < inline_ws_run(s) implies #[trigger] spec_is_inline_ws(
            s[i],
        ) by {
            if i > 0 {
                assert(s[i] == s.drop_first()[i - 1]);
            }
        }
    }
}

proof fn lemma_key_run(s: Seq<char>)
    ensures
        key_run(s) <= s.len(),
        forall|i: int|
            0 <= i < key_run(s) ==> !spec_is_whitespace(#[trigger] s[i]) && s[i] != '=',
        key_run(s) < s.len() ==> (spec_is_whitespace(s[key_run(s) as int]) || s[key_run(
            s,
        ) as int] == '='),
    decreases s.len(),
{
    if s.len() > 0 && !spec_is_whitespace(s[0]) && s[0] != '=' {
        lemma_key_run(s.drop_first());
        assert forall|i: int| 0 <= i < key_run(s) implies !spec_is_whitespace(#[trigger] s[i])
            && s[i] != '=' by {
            if i > 0 {
                assert(s[i] == s.drop_first()[i - 1]);
            }
        }
    }
}

proof fn lemma_sep_scan(t: Seq<char>, seen: bool)
    ensures
        sep_scan(t, seen) matches Ok(m) ==> m < t.len(),
        sep_scan(t, seen) matches Err((o, _)) ==> o <= t.len(),
    decreases t.len(),
{
    if t.len() > 0 && !is_newline(t[0]) {
        if t[0] == '=' {
            if !seen {
                lemma_sep_scan(t.drop_first(), true);
            }
        } else if spec_is_whitespace(t[0]) {
            lemma_sep_scan(t.drop_first(), seen);
        }
    }
}

pub proof fn lemma_lex_field_len(s: Seq<char>, line: nat, col: nat)
    ensures
        lex_field(s, line, col) matches Ok((ts, n)) ==> 0 < n <= s.len(),
{
    lemma_key_run(s);
    let k = key_run(s);
    if k < s.len() && !is_newline(s[k as int]) {
        lemma_sep_scan(s.skip(k as int), false);
        if let Ok(m) = sep_scan(s.skip(k as int), false) {
            lemma_line_run(s.skip((k + m) as int));
        }
    }
}

impl Token {
    /// A token made by the library, with no position.
    pub fn synthetic(kind: TokenKind, data: String) -> (t: Token)
        ensures
            t@ == tok(kind, data@, 0, 0),
            t.pos is None,
    {
        Token { kind, data, pos: None }
    }

    /// The token's text.
    pub fn to_string(&self) -> (s: String)
        ensures
            s@ == self.data@,
    {
        self.data.clone()
    }
}

/// Reads tokens off a document, one character at a time.
pub struct Lexer {
    chars: Vec<char>,
    i: usize,
    line: usize,
    col: usize,
}

impl Lexer {
    /// The document being read.
    pub closed spec fn input(&self) -> Seq<char> {
        self.chars@
    }

    /// What is left to read.
    pub closed spec fn rest(&self) -> Seq<char> {
        self.chars@.skip(self.i as int)
    }

    pub closed spec fn line(&self) -> nat {
        self.line as nat
    }

    pub closed spec fn col(&self) -> nat {
        self.col as nat
    }

    /// The counters fit in a `usize` until the end of the input.
    pub closed spec fn wf(&self) -> bool {
        &&& self.i <= self.chars.len() < usize::MAX
        &&& 1 <= self.line <= self.i + 1
        &&& 1 <= self.col <= self.i + 1
    }

    /// A lexer at the start of `data`.
    pub fn new(data: &str) -> (l: Lexer)
        requires
            data@.len() < usize::MAX,
        ensures
            l.wf(),
            l.input() == data@,
            l.rest() == data@,
            l.line() == 1,
            l.col() == 1,
    {
        let chars = chars_of(data);
        let l = Lexer { chars, i: 0, line: 1, col: 1 };
        assert(l.chars@.skip(0) =~= l.chars@);
        l
    }

    /// How many characters were read.
    fn peek_next_char_offset(&self) -> (r: usize)
        ensures
            r == self.i,
    {
        self.i
    }

    /// The 1-based line and column of the next character to read.
    fn position(&self) -> (p: Position)
        ensures
            p.line == self.line,
            p.col == self.col,
    {
        Position { line: self.line, col: self.col }
    }

    /// Reads a run of inline whitespace.
    fn handle_whitespace(&mut self) -> (t: Token)
        requires
            old(self).wf(),
            old(self).rest().len() > 0,
            spec_is_inline_ws(old(self).rest()[0]),
        ensures
            final(self).wf(),
            final(self).input() == old(self).input(),
            ({
                let n = inline_ws_run(old(self).rest());
                &&& t@ == tok(
                    TokenKind::WhiteSpace,
                    old(self).rest().take(n as int),
                    old(self).line(),
                    old(self).col(),
                )
                &&& t.pos is Some
                &&& final(self).rest() == old(self).rest().skip(n as int)
                &&& final(self).line() == old(self).line()
                &&& final(self).col() == old(self).col() + n
            }),
    {
        let start_pos = self.position();
        let start = self.peek_next_char_offset();
        let ghost r0 = self.rest();
        proof {
            lemma_inline_ws_run(r0);
        }
        while self.i < self.chars.len() && is_inline_ws(self.chars[self.i])
            invariant
                start <= self.i <= self.chars.len() < usize::MAX,
                self.chars@ == old(self).chars@,
                r0 == self.chars@.skip(start as int),
                r0 == old(self).rest(),
                start_pos.line == old(self).line,
                start_pos.col == old(self).col,
                self.col == start_pos.col + (self.i - start),
                1 <= start_pos.col <= start + 1,
                1 <= self.line <= start + 1,
                self.line == start_pos.line,
                inline_ws_run(r0) == (self.i - start) + inline_ws_run(self.chars@.skip(self.i as int)),
            decreases self.chars.len() - self.i,
        {
            assert(self.chars@.skip(self.i as int).drop_first() =~= self.chars@.skip(self.i + 1));
            self.i = self.i + 1;
            self.col = self.col + 1;
        }
        assert(inline_ws_run(self.chars@.skip(self.i as int)) == 0);
        let data = string_of(&self.chars, start, self.i);
        assert(r0.take((self.i - start) as int) =~= self.chars@.subrange(start as int, self.i as int));
        assert(r0.skip((self.i - start) as int) =~= self.chars@.skip(self.i as int));
        Token { kind: TokenKind::WhiteSpace, data, pos: Some(start_pos) }
    }

    /// Reads a comment, up to the end of the line.
    fn handle_comment(&mut self) -> (t: Token)
        requires
            old(self).wf(),
            old(self).rest().len() > 0,
            !is_newline(old(self).rest()[0]),
        ensures
            final(self).wf(),
            final(self).input() == old(self).input(),
            ({
                let n = line_run(old(self).rest());
                &&& t@ == tok(
                    TokenKind::Comment,
                    old(self).rest().take(n as int),
                    old(self).line(),
                    old(self).col(),
                )
                &&& t.pos is Some
                &&& final(self).rest() == old(self).rest().skip(n as int)
                &&& final(self).line() == old(self).line()
                &&& final(self).col() == old(self).col() + n
            }),
    {
        let start_pos = self.position();
        let start = self.peek_next_char_offset();
        let ghost r0 = self.rest();
        while self.i < self.chars.len() && self.chars[self.i] != '\n' && self.chars[self.i] != '\r'
            invariant
                start <= self.i <= self.chars.len() < usize::MAX,
                self.chars@ == old(self).chars@,
                r0 == self.chars@.skip(start as int),
                r0 == old(self).rest(),
                start_pos.line == old(self).line,
                start_pos.col == old(self).col,
                self.col == start_pos.col + (self.i - start),
                1 <= start_pos.col <= start + 1,
                1 <= self.line <= start + 1,
                self.line == start_pos.line,
                line_run(r0) == (self.i - start) + line_run(self.chars@.skip(self.i as int)),
            decreases self.chars.len() - self.i,
        {
            assert(self.chars@.skip(self.i as int).drop_first() =~= self.chars@.skip(self.i + 1));
            self.i = self.i + 1;
            self.col = self.col + 1;
        }
        assert(line_run(self.chars@.skip(self.i as int)) == 0);
        let data = string_of(&self.chars, start, self.i);
        assert(r0.take((self.i - start) as int) =~= self.chars@.subrange(start as int, self.i as int));
        assert(r0.skip((self.i - start) as int) =~= self.chars@.skip(self.i as int));
        Token { kind: TokenKind::Comment, data, pos: Some(start_pos) }
    }

    /// Reads `"\n"` or `"\r\n"`.
    fn handle_newline(&mut self) -> (r: Result<Token>)
        requires
            old(self).wf(),
        ensures
            final(self).wf(),
            final(self).input() == old(self).input(),
            ({
                let s = old(self).rest();
                let (line, col) = (old(self).line(), old(self).col());
                if s.len() > 0 && s[0] == '\n' {
                    &&& r matches Ok(t) && t@ == tok(TokenKind::LineEnding, s.take(1), line, col)
                        && t.pos is Some
                    &&& final(self).rest() == s.skip(1)
                    &&& final(self).line() == line + 1
                    &&& final(self).col() == 1
                } else if s.len() > 0 && s[0] == '\r' {
                    if s.len() >= 2 && s[1] == '\n' {
                        &&& r matches Ok(t) && t@ == tok(TokenKind::LineEnding, s.take(2), line, col)
                            && t.pos is Some
                        &&& final(self).rest() == s.skip(2)
                        &&& final(self).line() == line + 1
                        &&& final(self).col() == 1
                    } else {
                        r matches Err(e) && e@ == perr(
                            line,
                            col + 1,
                            ParseErrorKind::UnterminatedCRLF,
                        ).to_error()
                    }
                } else {
                    r matches Err(e) && e@ == perr(line, col, ParseErrorKind::InvalidParserUse).to_error()
                }
            }),
    {
        let start_pos = self.position();
        let ghost s = self.rest();
        if self.i < self.chars.len() && self.chars[self.i] == '\n' {
            let offset = self.i;
            self.i = self.i + 1;
            self.line = self.line + 1;
            self.col = 1;
            let data = string_of(&self.chars, offset, offset + 1);
            assert(s.take(1) =~= self.chars@.subrange(offset as int, offset + 1));
            assert(s.skip(1) =~= self.chars@.skip(self.i as int));
            Ok(Token { kind: TokenKind::LineEnding, data, pos: Some(start_pos) })
        } else if self.i < self.chars.len() && self.chars[self.i] == '\r' {
            let offset = self.i;
            self.i = self.i + 1;
            self.col = self.col + 1;
            if self.i < self.chars.len() && self.chars[self.i] == '\n' {
                self.i = self.i + 1;
                self.line = self.line + 1;
                self.col = 1;
                let data = string_of(&self.chars, offset, offset + 2);
                assert(s.take(2) =~= self.chars@.subrange(offset as int, offset + 2));
                assert(s.skip(2) =~= self.chars@.skip(self.i as int));
                Ok(Token { kind: TokenKind::LineEnding, data, pos: Some(start_pos) })
            } else {
                Err(Error::Parse { line: self.line, col: self.col, kind: ParseErrorKind::UnterminatedCRLF })
            }
        } else {
            Err(Error::Parse { line: self.line, col: self.col, kind: ParseErrorKind::InvalidParserUse })
        }
    }

    /// Reads a key, up to the first whitespace or `'='`.
    fn handle_field_key(&mut self) -> (r: Result<Token>)
        requires
            old(self).wf(),
        ensures
            final(self).wf(),
            final(self).input() == old(self).input(),
            ({
                let s = old(self).rest();
                let k = key_run(s);
                let (line, col) = (old(self).line(), old(self).col());
                if k >= s.len() || is_newline(s[k as int]) {
                    r matches Err(e) && e@ == perr(line, col + k, ParseErrorKind::KeyBoundaryNotFound).to_error()
                } else {
                    &&& r matches Ok(t) && t@ == tok(TokenKind::FieldKey, s.take(k as int), line, col)
                        && t.pos is Some
                    &&& final(self).rest() == s.skip(k as int)
                    &&& final(self).line() == line
                    &&& final(self).col() == col + k
                }
            }),
    {
        let start_pos = self.position();
        let start = self.peek_next_char_offset();
        let ghost r0 = self.rest();
        proof {
            lemma_key_run(r0);
        }
        while self.i < self.chars.len() && !is_whitespace(self.chars[self.i]) && self.chars[self.i]
            != '='
            invariant
                start <= self.i <= self.chars.len() < usize::MAX,
                self.chars@ == old(self).chars@,
                r0 == self.chars@.skip(start as int),
                r0 == old(self).rest(),
                start_pos.line == old(self).line,
                start_pos.col == old(self).col,
                self.col == start_pos.col + (self.i - start),
                1 <= start_pos.col <= start + 1,
                1 <= self.line <= start + 1,
                self.line == start_pos.line,
                key_run(r0) == (self.i - start) + key_run(self.chars@.skip(self.i as int)),
            decreases self.chars.len() - self.i,
        {
            assert(self.chars@.skip(self.i as int).drop_first() =~= self.chars@.skip(self.i + 1));
            self.i = self.i + 1;
            self.col = self.col + 1;
        }
        assert(key_run(self.chars@.skip(self.i as int)) == 0);
        if self.i >= self.chars.len() || self.chars[self.i] == '\n' || self.chars[self.i] == '\r' {
            return Err(
                Error::Parse {
                    line: self.line,
                    col: self.col,
                    kind: ParseErrorKind::KeyBoundaryNotFound,
                },
            );
        }
        let data = string_of(&self.chars, start, self.i);
        assert(r0.take((self.i - start) as int) =~= self.chars@.subrange(start as int, self.i as int));
        assert(r0.skip((self.i - start) as int) =~= self.chars@.skip(self.i as int));
        Ok(Token { kind: TokenKind::FieldKey, data, pos: Some(start_pos) })
    }

    /// Reads a separator: whitespace with at most one `'='`.
    fn handle_field_separator(&mut self) -> (r: Result<Token>)
        requires
            old(self).wf(),
        ensures
            final(self).wf(),
            final(self).input() == old(self).input(),
            ({
                let s = old(self).rest();
                let (line, col) = (old(self).line(), old(self).col());
                match sep_scan(s, false) {
                    Err((o, kind)) => r matches Err(e) && e@ == perr(line, col + o, kind).to_error(),
                    Ok(m) => {
                        &&& r matches Ok(t) && t@ == tok(
                            TokenKind::FieldSeparator,
                            s.take(m as int),
                            line,
                            col,
                        ) && t.pos is Some
                        &&& final(self).rest() == s.skip(m as int)
                        &&& final(self).line() == line
                        &&& final(self).col() == col + m
                    },
                }
            }),
    {
        let start_pos = self.position();
        let start = self.peek_next_char_offset();
        let ghost r0 = self.rest();
        let mut equal_seen = false;
        loop
            invariant
                start <= self.i <= self.chars.len() < usize::MAX,
                self.chars@ == old(self).chars@,
                r0 == self.chars@.skip(start as int),
                r0 == old(self).rest(),
                start_pos.line == old(self).line,
                start_pos.col == old(self).col,
                self.col == start_pos.col + (self.i - start),
                1 <= start_pos.col <= start + 1,
                1 <= self.line <= start + 1,
                self.line == start_pos.line,
                sep_scan(r0, false) == (match sep_scan(self.chars@.skip(self.i as int), equal_seen) {
                    Ok(m) => Ok::<nat, (nat, ParseErrorKind)>(m + (self.i - start) as nat),
                    Err((o, k)) => Err((o + (self.i - start) as nat, k)),
                }),
            ensures
                start <= self.i < self.chars.len() < usize::MAX,
                self.chars@ == old(self).chars@,
                r0 == self.chars@.skip(start as int),
                r0 == old(self).rest(),
                start_pos.line == old(self).line,
                start_pos.col == old(self).col,
                self.col == start_pos.col + (self.i - start),
                1 <= start_pos.col <= start + 1,
                1 <= self.line <= start + 1,
                self.line == start_pos.line,
                sep_scan(r0, false) == Ok::<nat, (nat, ParseErrorKind)>((self.i - start) as nat),
            decreases self.chars.len() - self.i,
        {
            let ghost t = self.chars@.skip(self.i as int);
            assert(self.i < self.chars.len() ==> t[0] == self.chars@[self.i as int]);
            if self.i >= self.chars.len() || self.chars[self.i] == '\n' || self.chars[self.i] == '\r' {
                return Err(
                    Error::Parse {
                        line: self.line,
                        col: self.col,
                        kind: ParseErrorKind::SeparatorBoundaryNotFound,
                    },
                );
            }
            let c = self.chars[self.i];
            if c == '=' && !equal_seen {
                equal_seen = true;
                assert(t.drop_first() =~= self.chars@.skip(self.i + 1));
                self.i = self.i + 1;
                self.col = self.col + 1;
            } else if c == '=' {
                return Err(
                    Error::Parse {
                        line: self.line,
                        col: self.col,
                        kind: ParseErrorKind::SeparatorHasMoreThanOneEqual,
                    },
                );
            } else if !is_whitespace(c) {
                break;
            } else {
                assert(t.drop_first() =~= self.chars@.skip(self.i + 1));
                self.i = self.i + 1;
                self.col = self.col + 1;
            }
        }
        let data = string_of(&self.chars, start, self.i);
        assert(r0.take((self.i - start) as int) =~= self.chars@.subrange(start as int, self.i as int));
        assert(r0.skip((self.i - start) as int) =~= self.chars@.skip(self.i as int));
        Ok(Token { kind: TokenKind::FieldSeparator, data, pos: Some(start_pos) })
    }

    /// Reads a value, up to the end of the line.
    fn handle_field_value(&mut self) -> (r: Result<Token>)
        requires
            old(self).wf(),
        ensures
            final(self).wf(),
            final(self).input() == old(self).input(),
            ({
                let s = old(self).rest();
                let v = line_run(s);
                let (line, col) = (old(self).line(), old(self).col());
                if v == 0 {
                    r matches Err(e) && e@ == perr(line, col, ParseErrorKind::ExpectedFieldValue).to_error()
                } else if quote_count(s.take(v as int)) % 2 != 0 {
                    r matches Err(e) && e@ == perr(line, col, ParseErrorKind::UnclosedDoubleQuote).to_error()
                } else {
                    &&& r matches Ok(t) && t@ == tok(TokenKind::FieldValue, s.take(v as int), line, col)
                        && t.pos is Some
                    &&& final(self).rest() == s.skip(v as int)
                    &&& final(self).line() == line
                    &&& final(self).col() == col + v
                }
            }),
    {
        let start_pos = self.position();
        let start = self.peek_next_char_offset();
        let ghost r0 = self.rest();
        if self.i >= self.chars.len() || self.chars[self.i] == '\n' || self.chars[self.i] == '\r' {
            return Err(
                Error::Parse {
                    line: self.line,
                    col: self.col,
                    kind: ParseErrorKind::ExpectedFieldValue,
                },
            );
        }
        let mut quotes: usize = 0;
        while self.i < self.chars.len() && self.chars[self.i] != '\n' && self.chars[self.i] != '\r'
            invariant
                start <= self.i <= self.chars.len() < usize::MAX,
                self.chars@ == old(self).chars@,
                r0 == self.chars@.skip(start as int),
                r0 == old(self).rest(),
                start_pos.line == old(self).line,
                start_pos.col == old(self).col,
                self.col == start_pos.col + (self.i - start),
                1 <= start_pos.col <= start + 1,
                1 <= self.line <= start + 1,
                self.line == start_pos.line,
                line_run(r0) == (self.i - start) + line_run(self.chars@.skip(self.i as int)),
                quotes == quote_count(self.chars@.subrange(start as int, self.i as int)),
                quotes <= self.i - start,
            decreases self.chars.len() - self.i,
        {
            assert(self.chars@.skip(self.i as int).drop_first() =~= self.chars@.skip(self.i + 1));
            assert(self.chars@.subrange(start as int, self.i + 1).drop_last() =~= self.chars@.subrange(
                start as int,
                self.i as int,
            ));
            if self.chars[self.i] == '"' {
                quotes = quotes + 1;
            }
            self.i = self.i + 1;
            self.col = self.col + 1;
        }
        assert(line_run(self.chars@.skip(self.i as int)) == 0);
        assert(r0.take((self.i - start) as int) =~= self.chars@.subrange(start as int, self.i as int));
        assert(r0.skip((self.i - start) as int) =~= self.chars@.skip(self.i as int));
        if quotes % 2 != 0 {
            return Err(
                Error::Parse {
                    line: start_pos.line,
                    col: start_pos.col,
                    kind: ParseErrorKind::UnclosedDoubleQuote,
                },
            );
        }
        let data = string_of(&self.chars, start, self.i);
        Ok(Token { kind: TokenKind::FieldValue, data, pos: Some(start_pos) })
    }

    /// All the tokens of what is left to read.
    ///
    /// # Errors
    /// Returns [`Error::Parse`] with the line, column and reason where the input
    /// stops following the grammar of [`lex_from`].
    pub fn tokenize(self) -> (r: Result<Vec<Token>>)
        requires
            self.wf(),
        ensures
            match lex_from(self.rest(), self.line(), self.col()) {
                Ok(ts) => r matches Ok(v) && tokens_view(v@) == ts && forall|j: int|
                    0 <= j < v.len() ==> (#[trigger] v@[j]).pos is Some,
                Err(pe) => r matches Err(e) && e@ == pe.to_error(),
            },
    {
        let mut lx = self;
        let ghost goal = lex_from(lx.rest(), lx.line(), lx.col());
        let mut tokens: Vec<Token> = Vec::new();
        assert(tokens_view(tokens@) =~= Seq::<SpecToken>::empty());
        assert(prepend(Seq::empty(), goal) == goal) by {
            match goal {
                Ok(ts) => {
                    assert(Seq::<SpecToken>::empty() + ts =~= ts);
                },
                Err(_) => {},
            }
        }
        while lx.i < lx.chars.len()
            invariant
                lx.wf(),
                goal == lex_from(self.rest(), self.line(), self.col()),
                goal == prepend(tokens_view(tokens@), lex_from(lx.rest(), lx.line(), lx.col())),
                forall|j: int| 0 <= j < tokens.len() ==> (#[trigger] tokens@[j]).pos is Some,
            decreases lx.chars.len() - lx.i,
        {
            let ghost s = lx.rest();
            let ghost line = lx.line();
            let ghost col = lx.col();
            let ghost before = tokens_view(tokens@);
            assert(s.len() > 0 && s[0] == lx.chars@[lx.i as int]);
            let c = lx.chars[lx.i];
            if c == '#' {
                proof {
                    lemma_line_run(s);
                }
                let t = lx.handle_comment();
                proof {
                    lemma_prepend_push(before, t@, lex_from(lx.rest(), lx.line(), lx.col()));
                }
                tokens.push(t);
                assert(tokens_view(tokens@) =~= before.push(t@));
            } else if c == '\n' || c == '\r' {
                match lx.handle_newline() {
                    Ok(t) => {
                        proof {
                            lemma_prepend_push(before, t@, lex_from(lx.rest(), lx.line(), lx.col()));
                        }
                        tokens.push(t);
                        assert(tokens_view(tokens@) =~= before.push(t@));
                    },
                    Err(e) => {
                        return Err(e);
                    },
                }
            } else if is_whitespace(c) {
                proof {
                    lemma_inline_ws_run(s);
                }
                let t = lx.handle_whitespace();
                proof {
                    lemma_prepend_push(before, t@, lex_from(lx.rest(), lx.line(), lx.col()));
                }
                tokens.push(t);
                assert(tokens_view(tokens@) =~= before.push(t@));
            } else {
                proof {
                    lemma_key_run(s);
                }
                let key = match lx.handle_field_key() {
                    Ok(t) => t,
                    Err(e) => {
                        return Err(e);
                    },
                };
                let ghost k = key_run(s);
                assert(lx.rest() == s.skip(k as int));
                let sep = match lx.handle_field_separator() {
                    Ok(t) => t,
                    Err(e) => {
                        return Err(e);
                    },
                };
                let ghost m: nat = match sep_scan(s.skip(k as int), false) {
                    Ok(m) => m,
                    Err(_) => 0,
                };
                proof {
                    lemma_sep_scan(s.skip(k as int), false);
                    assert(s.skip(k as int).skip(m as int) =~= s.skip((k + m) as int));
                    assert(s.skip(k as int).take(m as int) =~= s.subrange(k as int, (k + m) as int));
                }
                let ghost v = line_run(s.skip((k + m) as int));
                proof {
                    lemma_line_run(s.skip((k + m) as int));
                    assert(s.skip((k + m) as int).take(v as int) =~= s.subrange(
                        (k + m) as int,
                        (k + m + v) as int,
                    ));
                    assert(s.skip((k + m) as int).skip(v as int) =~= s.skip((k + m + v) as int));
                }
                let value = match lx.handle_field_value() {
                    Ok(t) => t,
                    Err(e) => {
                        return Err(e);
                    },
                };
                proof {
                    let three = seq![key@, sep@, value@];
                    assert(lex_field(s, line, col) == Ok::<(Seq<SpecToken>, nat), SpecParseError>(
                        (three, k + m + v),
                    ));
                    lemma_prepend_assoc(before, three, lex_from(lx.rest(), lx.line(), lx.col()));
                    assert(before + three =~= before.push(key@).push(sep@).push(value@));
                }
                tokens.push(key);
                tokens.push(sep);
                tokens.push(value);
                assert(tokens_view(tokens@) =~= before.push(key@).push(sep@).push(value@));
            }
        }
        proof {
            assert(lx.rest().len() == 0);
            match goal {
                Ok(ts) => {
                    assert(tokens_view(tokens@) + Seq::<SpecToken>::empty() =~= tokens_view(tokens@));
                },
                Err(_) => {},
            }
        }
        Ok(tokens)
    }
}

/// Moving one token from the tail to the prefix changes nothing.
proof fn lemma_prepend_push(
    p: Seq<SpecToken>,
    t: SpecToken,
    r: core::result::Result<Seq<SpecToken>, SpecParseError>,
)
    ensures
        prepend(p, prepend(seq![t], r)) == prepend(p.push(t), r),
{
    match r {
        Ok(ts) => {
            assert(p + (seq![t] + ts) =~= p.push(t) + ts);
        },
        Err(_) => {},
    }
}

/// Prepending twice is prepending the concatenation.
proof fn lemma_prepend_assoc(
    p: Seq<SpecToken>,
    q: Seq<SpecToken>,
    r: core::result::Result<Seq<SpecToken>, SpecParseError>,
)
    ensures
        prepend(p, prepend(q, r)) == prepend(p + q, r),
{
    match r {
        Ok(ts) => {
            assert(p + (q + ts) =~= (p + q) + ts);
        },
        Err(_) => {},
    }
}


/// The text of a token sequence: the tokens' data, one after the other.
pub open spec fn tokens_text(ts: Seq<SpecToken>) -> Seq<char>
    decreases ts.len(),
{
    if ts.len() == 0 {
        Seq::empty()
    } else {
        ts[0].data + tokens_text(ts.skip(1))
    }
}

/// The shape of the lexer's output: a sequence of whitespace, comment and
/// line-ending tokens (each ending `"\n"` or `"\r\n"`), and fields of three
/// tokens that start with a key.
pub open spec fn lexed_wf(ts: Seq<SpecToken>) -> bool
    decreases ts.len(),
{
    if ts.len() == 0 {
        true
    } else if ts[0].kind == TokenKind::FieldKey {
        ts.len() >= 3 && lexed_wf(ts.skip(3))
    } else if ts[0].kind == TokenKind::LineEnding {
        (ts[0].data == seq!['\n'] || ts[0].data == seq!['\r', '\n']) && lexed_wf(ts.skip(1))
    } else if ts[0].kind == TokenKind::WhiteSpace || ts[0].kind == TokenKind::Comment {
        lexed_wf(ts.skip(1))
    } else {
        false
    }
}

/// The text of a concatenation is the concatenation of the texts.
proof fn lemma_tokens_text_append(p: Seq<SpecToken>, q: Seq<SpecToken>)
    ensures
        tokens_text(p + q) == tokens_text(p) + tokens_text(q),
    decreases p.len(),
{
    if p.len() == 0 {
        assert(p + q =~= q);
        assert(tokens_text(p) + tokens_text(q) =~= tokens_text(q));
    } else {
        lemma_tokens_text_append(p.skip(1), q);
        assert((p + q).skip(1) =~= p.skip(1) + q);
        assert(tokens_text(p + q) == p[0].data + tokens_text(p.skip(1) + q));
        assert(p[0].data + (tokens_text(p.skip(1)) + tokens_text(q)) =~= (p[0].data
            + tokens_text(p.skip(1))) + tokens_text(q));
    }
}

/// Reading never loses or invents a character: the tokens of a successful
/// read concatenate back to the input, and they have the lexer's shape.
#[verifier::spinoff_prover]
#[verifier::rlimit(40)]
pub proof fn lemma_lex_from_text(s: Seq<char>, line: nat, col: nat)
    ensures
        lex_from(s, line, col) matches Ok(ts) ==> tokens_text(ts) == s && lexed_wf(ts),
    decreases s.len(),
{
    if s.len() == 0 {
        return;
    }
    if let Ok(ts) = lex_from(s, line, col) {
        if s[0] == '#' || s[0] == '\n' || s[0] == '\r' || spec_is_whitespace(s[0]) {
            let n: nat = if s[0] == '#' {
                lemma_line_run(s);
                line_run(s)
            } else if s[0] == '\n' {
                1
            } else if s[0] == '\r' {
                2
            } else {
                lemma_inline_ws_run(s);
                inline_ws_run(s)
            };
            let (l2, c2) = if s[0] == '\n' || s[0] == '\r' {
                (line + 1, 1nat)
            } else {
                (line, col + n)
            };
            lemma_lex_from_text(s.skip(n as int), l2, c2);
            let rest = lex_from(s.skip(n as int), l2, c2)->Ok_0;
            let t = ts[0];
            assert(ts == seq![t] + rest);
            assert(ts.skip(1) =~= rest);
            assert(t.data == s.take(n as int));
            assert(tokens_text(ts) == t.data + tokens_text(rest));
            assert(s.take(n as int) + s.skip(n as int) =~= s);
            if s[0] == '\n' {
                assert(t.data =~= seq!['\n']);
            }
            if s[0] == '\r' {
                assert(t.data =~= seq!['\r', '\n']);
            }
        } else {
            lemma_lex_field_len(s, line, col);
            let (three, n) = lex_field(s, line, col)->Ok_0;
            lemma_lex_from_text(s.skip(n as int), line, col + n);
            let rest = lex_from(s.skip(n as int), line, col + n)->Ok_0;
            assert(ts == three + rest);
            assert(ts.skip(3) =~= rest);
            lemma_tokens_text_append(three, rest);
            let k = key_run(s);
            let m = sep_scan(s.skip(k as int), false)->Ok_0;
            let v = line_run(s.skip((k + m) as int));
            assert(three.skip(1).skip(1).skip(1) =~= Seq::<SpecToken>::empty());
            assert(tokens_text(three.skip(1).skip(1)) == three[2].data + tokens_text(
                three.skip(1).skip(1).skip(1),
            ));
            assert(tokens_text(three.skip(1)) == three[1].data + tokens_text(three.skip(1).skip(1)));
            assert(tokens_text(three) =~= s.take(n as int));
            assert(s.take(n as int) + s.skip(n as int) =~= s);
        }
    }
}

} // verus!
