//! Turns source text into a token stream.
use vstd::prelude::*;
use vstd::string::*;
use vstd::std_specs::iter::IteratorSpec;
use crate::text::{alphabetic, is_alphabetic, is_alphanumeric, is_numeric, is_whitespace, numeric,
    push_char, push_str, whitespace};
use crate::tokens::{location_text, Location, Token, TokenKind};

verus! {

/// The location after reading `c` at location `l`.
pub open spec fn next_location(l: Location, c: char) -> Location {
    if c == '\n' {
        Location { col: 1, line: (l.line + 1) as usize }
    } else {
        Location { col: (l.col + 1) as usize, line: l.line }
    }
}

/// The location of the character at index `p` of `s` (or of the end, for `p == s.len()`).
pub open spec fn location_at(s: Seq<char>, p: int) -> Location
    decreases p,
{
    if p <= 0 {
        Location { col: 1, line: 1 }
    } else {
        next_location(location_at(s, p - 1), s[p - 1])
    }
}

pub proof fn lemma_location_bounds(s: Seq<char>, p: int)
    requires
        0 <= p < usize::MAX,
    ensures
        1 <= location_at(s, p).line <= p + 1,
        1 <= location_at(s, p).col <= p + 1,
    decreases p,
{
    if p > 0 {
        lemma_location_bounds(s, p - 1);
    }
}

/// The character at `p`, or NUL past either end.
pub open spec fn char_at(s: Seq<char>, p: int) -> char {
    if 0 <= p < s.len() {
        s[p]
    } else {
        '\0'
    }
}

/// A comment starts at `p`: `//` or `/*`.
pub open spec fn comment_start(s: Seq<char>, p: int) -> bool {
    char_at(s, p) == '/' && (char_at(s, p + 1) == '*' || char_at(s, p + 1) == '/')
}

/// The punctuation or operator token starting at `p`, with its length.
pub open spec fn punctuation(s: Seq<char>, p: int) -> Option<(TokenKind, nat)> {
    let c = char_at(s, p);
    let n = char_at(s, p + 1);
    if c == '*' {
        Some((TokenKind::Star, 1))
    } else if c == '/' {
        Some((TokenKind::Slash, 1))
    } else if c == '+' {
        if n == '+' {
            Some((TokenKind::Inc, 2))
        } else {
            Some((TokenKind::Plus, 1))
        }
    } else if c == '-' {
        if n == '-' {
            Some((TokenKind::Decr, 2))
        } else {
            Some((TokenKind::Minus, 1))
        }
    } else if c == ':' {
        Some((TokenKind::Colon, 1))
    } else if c == ';' {
        Some((TokenKind::Semicolon, 1))
    } else if c == '(' {
        Some((TokenKind::LParen, 1))
    } else if c == ')' {
        Some((TokenKind::RParen, 1))
    } else if c == '{' {
        Some((TokenKind::LCurly, 1))
    } else if c == '}' {
        Some((TokenKind::RCurly, 1))
    } else if c == ',' {
        Some((TokenKind::Comma, 1))
    } else {
        None
    }
}

pub open spec fn id_start_char(c: char) -> bool {
    alphabetic(c) || c == '_'
}

pub open spec fn id_char(c: char) -> bool {
    alphabetic(c) || numeric(c) || c == '_'
}

pub open spec fn number_char(c: char) -> bool {
    numeric(c) || c == '_' || c == '.'
}

/// Some production of the lexer accepts a lexeme starting at `p`.
pub open spec fn lexeme_start(s: Seq<char>, p: int) -> bool {
    punctuation(s, p) is Some || s[p] == '"' || id_start_char(s[p]) || numeric(s[p])
}

/// The kind of an identifier-shaped lexeme: a keyword's own kind, else `Id`.
pub open spec fn keyword_kind(lit: Seq<char>) -> TokenKind {
    if lit == "return"@ {
        TokenKind::Return
    } else if lit == "fn"@ {
        TokenKind::Fn
    } else if lit == "int"@ {
        TokenKind::Int
    } else {
        TokenKind::Id
    }
}

/// The number of backslashes at the end of `s`.
pub open spec fn trailing_backslashes(s: Seq<char>) -> nat
    decreases s.len(),
{
    if s.len() > 0 && s.last() == '\\' {
        1 + trailing_backslashes(s.drop_last())
    } else {
        0
    }
}

/// The last character of `lit` is preceded by an odd run of backslashes.
pub open spec fn escaped_last(lit: Seq<char>) -> bool {
    trailing_backslashes(lit.drop_last()) % 2 == 1
}

/// A token that the lexer may emit before the end marker.
pub open spec fn lexed_token(t: Token) -> bool {
    let lit = t.literal@;
    &&& t.kind != TokenKind::EOF
    &&& lit.len() > 0
    &&& t.kind == TokenKind::Return ==> lit == "return"@
    &&& t.kind == TokenKind::Fn ==> lit == "fn"@
    &&& t.kind == TokenKind::Id ==> id_start_char(lit[0]) && keyword_kind(lit) == TokenKind::Id
    &&& t.kind == TokenKind::Float ==> lit.contains('.')
    &&& t.kind == TokenKind::String ==> lit.len() >= 2 && lit[0] == '"' && lit.last() == '"'
}

/// The end of the run of whitespace at `p`.
pub open spec fn whitespace_end(s: Seq<char>, p: int) -> int
    decreases s.len() - p,
{
    if 0 <= p < s.len() && whitespace(s[p]) {
        whitespace_end(s, p + 1)
    } else {
        p
    }
}

/// Just past the `*/` that closes a block comment whose text starts at `p`,
/// or the end of input.
pub open spec fn block_comment_end(s: Seq<char>, p: int) -> int
    decreases s.len() - p,
{
    if p < 0 || p >= s.len() {
        p
    } else if s[p] == '*' && char_at(s, p + 1) == '/' {
        p + 2
    } else {
        block_comment_end(s, p + 1)
    }
}

/// The newline that ends a line comment whose text starts at `p`, or the end of input.
pub open spec fn line_comment_end(s: Seq<char>, p: int) -> int
    decreases s.len() - p,
{
    if 0 <= p < s.len() && s[p] != '\n' {
        line_comment_end(s, p + 1)
    } else {
        p
    }
}

/// Just past the comment that starts at `q`.
pub open spec fn comment_end(s: Seq<char>, q: int) -> int {
    if char_at(s, q + 1) == '*' {
        block_comment_end(s, q + 2)
    } else {
        line_comment_end(s, q + 2)
    }
}

/// Past the comments, and the whitespace after each, from `q`.
pub open spec fn comments_end(s: Seq<char>, q: int) -> int
    decreases s.len() - q,
{
    if comment_start(s, q) {
        let w = whitespace_end(s, comment_end(s, q));
        if q < w <= s.len() {
            comments_end(s, w)
        } else {
            q
        }
    } else {
        q
    }
}

/// Where the next lexeme after `p` starts (or the end of input).
pub open spec fn trivia_end(s: Seq<char>, p: int) -> int {
    comments_end(s, whitespace_end(s, p))
}

/// Just past the quote that closes a string opened at `start`, scanning from `k`;
/// `None` when a newline or the end of input comes first.
pub open spec fn string_end(s: Seq<char>, k: int, start: int) -> Option<int>
    decreases s.len() - k,
{
    if k < 0 || k >= s.len() || s[k] == '\n' {
        None
    } else if s[k] == '"' && !escaped_last(s.subrange(start, k + 1)) {
        Some(k + 1)
    } else {
        string_end(s, k + 1, start)
    }
}

/// The end of the identifier-shaped run at `p`.
pub open spec fn id_end(s: Seq<char>, p: int) -> int
    decreases s.len() - p,
{
    if 0 <= p < s.len() && id_char(s[p]) {
        id_end(s, p + 1)
    } else {
        p
    }
}

/// The end of the numeric run at `p`.
pub open spec fn number_end(s: Seq<char>, p: int) -> int
    decreases s.len() - p,
{
    if 0 <= p < s.len() && number_char(s[p]) {
        number_end(s, p + 1)
    } else {
        p
    }
}

/// The kind and end of the lexeme starting at `q`, or the lexing error there.
pub open spec fn lexeme_at(s: Seq<char>, q: int) -> Result<(TokenKind, int), Seq<char>> {
    match punctuation(s, q) {
        Some((k, n)) => Ok((k, q + n)),
        None => if s[q] == '"' {
            match string_end(s, q + 1, q) {
                Some(e) => Ok((TokenKind::String, e)),
                None => Err("Unclosed string"@),
            }
        } else if id_start_char(s[q]) {
            let e = id_end(s, q);
            Ok((keyword_kind(s.subrange(q, e)), e))
        } else if numeric(s[q]) {
            let e = number_end(s, q);
            Ok(
                (
                    if s.subrange(q, e).contains('.') {
                        TokenKind::Float
                    } else {
                        TokenKind::Int
                    },
                    e,
                ),
            )
        } else {
            Err("unrecognized lexeme at "@ + location_text(location_at(s, q)))
        },
    }
}

/// A token as a value: kind, literal text and location.
pub open spec fn token_view(t: Token) -> (TokenKind, Seq<char>, Location) {
    (t.kind, t.literal@, t.location)
}

pub open spec fn tokens_view(ts: Seq<Token>) -> Seq<(TokenKind, Seq<char>, Location)> {
    Seq::new(ts.len(), |i: int| token_view(ts[i]))
}

/// The tokens of `s` from `p` on, after those in `acc`, ending with the end marker;
/// or the first lexing error.
pub open spec fn lex_from(s: Seq<char>, p: int, acc: Seq<(TokenKind, Seq<char>, Location)>) -> Result<
    Seq<(TokenKind, Seq<char>, Location)>,
    Seq<char>,
>
    decreases s.len() - p,
{
    let q = trivia_end(s, p);
    if p < 0 || p >= s.len() || q >= s.len() || q < p {
        Ok(acc.push((TokenKind::EOF, Seq::empty(), location_at(s, s.len() as int))))
    } else {
        match lexeme_at(s, q) {
            Err(m) => Err(m),
            Ok((k, e)) => if q < e <= s.len() {
                lex_from(s, e, acc.push((k, s.subrange(q, e), location_at(s, q))))
            } else {
                Err(Seq::empty())
            },
        }
    }
}

proof fn lemma_trivia_end_ge(s: Seq<char>, p: int)
    requires
        0 <= p,
    ensures
        p <= trivia_end(s, p),
    decreases s.len() - p,
{
    lemma_whitespace_end_ge(s, p);
    lemma_comments_end_ge(s, whitespace_end(s, p));
}

proof fn lemma_whitespace_end_ge(s: Seq<char>, p: int)
    requires
        0 <= p,
    ensures
        p <= whitespace_end(s, p),
    decreases s.len() - p,
{
    if 0 <= p < s.len() && whitespace(s[p]) {
        lemma_whitespace_end_ge(s, p + 1);
    }
}

proof fn lemma_comments_end_ge(s: Seq<char>, q: int)
    ensures
        q <= comments_end(s, q),
    decreases s.len() - q,
{
    if comment_start(s, q) {
        let w = whitespace_end(s, comment_end(s, q));
        if q < w <= s.len() {
            lemma_comments_end_ge(s, w);
        }
    }
}

/// Lexing fails fast on an unterminated string: if lexing reaches `p` without
/// an error (having produced `acc`), and the next lexeme after `p` opens a
/// string that meets a newline or the end of input before an unescaped closing
/// quote, the whole source fails with `Unclosed string` and no tokens.
pub proof fn lemma_unclosed_string_fails(
    s: Seq<char>,
    p: int,
    acc: Seq<(TokenKind, Seq<char>, Location)>,
)
    requires
        0 <= p,
        lex_from(s, 0, Seq::empty()) == lex_from(s, p, acc),
        trivia_end(s, p) < s.len(),
        s[trivia_end(s, p)] == '"',
        string_end(s, trivia_end(s, p) + 1, trivia_end(s, p)) is None,
    ensures
        lex_from(s, 0, Seq::empty()) == Err::<Seq<(TokenKind, Seq<char>, Location)>, Seq<char>>(
            "Unclosed string"@,
        ),
{
    lemma_trivia_end_ge(s, p);
}

/// Lexing fails fast on a character that starts no lexeme: if lexing reaches
/// `p` without an error, and the next lexeme after `p` would start with such a
/// character, the whole source fails with `unrecognized lexeme at` and that
/// character's line and column.
pub proof fn lemma_unrecognized_lexeme_fails(
    s: Seq<char>,
    p: int,
    acc: Seq<(TokenKind, Seq<char>, Location)>,
)
    requires
        0 <= p,
        lex_from(s, 0, Seq::empty()) == lex_from(s, p, acc),
        trivia_end(s, p) < s.len(),
        !lexeme_start(s, trivia_end(s, p)),
    ensures
        lex_from(s, 0, Seq::empty()) == Err::<Seq<(TokenKind, Seq<char>, Location)>, Seq<char>>(
            "unrecognized lexeme at "@ + location_text(location_at(s, trivia_end(s, p))),
        ),
{
    lemma_trivia_end_ge(s, p);
}

proof fn lemma_push_contains(s: Seq<char>, c: char, x: char)
    ensures
        s.push(c).contains(x) == (s.contains(x) || c == x),
{
    if s.push(c).contains(x) && c != x {
        let j = choose|j: int| 0 <= j < s.push(c).len() && s.push(c)[j] == x;
        assert(s[j] == x);
    }
    if s.contains(x) {
        let j = choose|j: int| 0 <= j < s.len() && s[j] == x;
        assert(s.push(c)[j] == x);
    }
    if c == x {
        assert(s.push(c)[s.len() as int] == x);
    }
}

fn push_token(tokens: &mut Vec<Token>, t: Token)
    ensures
        final(tokens)@ == old(tokens)@.push(t),
        tokens_view(final(tokens)@) == tokens_view(old(tokens)@).push(token_view(t)),
{
    tokens.push(t);
    assert(tokens_view(tokens@) =~= tokens_view(old(tokens)@).push(token_view(t)));
}

pub struct Lexer {
    src: Vec<char>,
    pos: usize,
    location: Location,
}

impl Lexer {
    /// The source text, as characters.
    pub closed spec fn source(&self) -> Seq<char> {
        self.src@
    }

    /// How far the lexer has read.
    pub closed spec fn position(&self) -> int {
        self.pos as int
    }

    pub closed spec fn wf(&self) -> bool {
        &&& self.pos <= self.src@.len() < usize::MAX
        &&& self.location == location_at(self.src@, self.pos as int)
    }

    pub fn new(src: String) -> (r: Self)
        requires
            src@.len() < usize::MAX,
        ensures
            r.wf(),
            r.source() == src@,
            r.position() == 0,
    {
        broadcast use {axiom_spec_iter, next_postcondition};

        let s = src.as_str();
        let mut it = s.chars();
        let mut v: Vec<char> = Vec::new();
        loop
            invariant
                v@ + it.remaining() == s@,
                it.decrease() is Some,
            ensures
                v@ == s@,
            decreases it.decrease()->0,
        {
            match it.next() {
                Some(c) => {
                    v.push(c);
                },
                None => {
                    assert(v@ =~= s@);
                    break;
                },
            }
        }
        Self { src: v, pos: 0, location: Location::new(1, 1) }
    }

    /// Splits the whole source into tokens, ending with one `EOF` token.
    pub fn lex(&mut self) -> (r: Result<Vec<Token>, String>)
        requires
            old(self).wf(),
        ensures
            final(self).wf(),
            final(self).source() == old(self).source(),
            match r {
                Ok(ts) => {
                    &&& ts@.len() >= 1
                    &&& ts@.last().kind == TokenKind::EOF
                    &&& ts@.last().literal@.len() == 0
                    &&& ts@.last().location == location_at(
                        final(self).source(),
                        final(self).source().len() as int,
                    )
                    &&& forall|i: int| 0 <= i < ts@.len() - 1 ==> lexed_token(#[trigger] ts@[i])
                },
                Err(e) => e@ == "Unclosed string"@ || {
                    let p = final(self).position();
                    &&& p < final(self).source().len()
                    &&& !lexeme_start(final(self).source(), p)
                    &&& e@ == "unrecognized lexeme at "@ + location_text(
                        location_at(final(self).source(), p),
                    )
                },
            },
            r matches Ok(ts) ==> lex_from(old(self).source(), old(self).position(), Seq::empty())
                == Ok::<Seq<(TokenKind, Seq<char>, Location)>, Seq<char>>(tokens_view(ts@)),
            r matches Err(e) ==> lex_from(old(self).source(), old(self).position(), Seq::empty())
                == Err::<Seq<(TokenKind, Seq<char>, Location)>, Seq<char>>(e@),
    {
        let mut tokens: Vec<Token> = Vec::new();
        let ghost start = self.pos as int;
        assert(tokens_view(tokens@) =~= Seq::empty());
        while self.pos < self.src.len()
            invariant
                self.wf(),
                self.src@ == old(self).src@,
                forall|i: int| 0 <= i < tokens@.len() ==> lexed_token(#[trigger] tokens@[i]),
                start == old(self).pos,
                lex_from(self.src@, start, Seq::empty()) == lex_from(
                    self.src@,
                    self.pos as int,
                    tokens_view(tokens@),
                ),
            ensures
                self.pos == self.src@.len(),
            decreases self.src@.len() - self.pos,
        {
            self.skip_comments();
            if self.pos >= self.src.len() {
                break;
            }
            let curr = self.curr();
            match self.lex_punctuation() {
                Some(token) => {
                    push_token(&mut tokens, token);
                    continue;
                },
                None => {},
            }
            if curr == '"' {
                match self.lex_double_quoted_string() {
                    Ok(token) => {
                        push_token(&mut tokens, token);
                        continue;
                    },
                    Err(e) => {
                        return Err(e);
                    },
                }
            }
            if is_alphabetic(curr) || curr == '_' {
                let token = self.lex_id_or_keyword();
                push_token(&mut tokens, token);
                continue;
            }
            if is_numeric(curr) {
                let token = self.lex_number();
                push_token(&mut tokens, token);
                continue;
            }
            let mut e = String::from_str("unrecognized lexeme at ");
            let l = self.location.to_string();
            push_str(&mut e, l.as_str());
            return Err(e);
        }
        push_token(&mut tokens, Token::new(TokenKind::EOF, String::new(), self.location));
        Ok(tokens)
    }

    fn curr(&self) -> (r: char)
        ensures
            r == char_at(self.src@, self.pos as int),
    {
        if self.pos >= self.src.len() {
            return '\0';
        }
        self.src[self.pos]
    }

    fn peek(&self) -> (r: char)
        requires
            self.pos < usize::MAX,
        ensures
            r == char_at(self.src@, self.pos + 1),
    {
        if self.pos + 1 >= self.src.len() {
            return '\0';
        }
        self.src[self.pos + 1]
    }

    /// Consumes the current character, moving the location past it.
    fn advance(&mut self)
        requires
            old(self).wf(),
            old(self).pos < old(self).src@.len(),
        ensures
            final(self).wf(),
            final(self).src == old(self).src,
            final(self).pos == old(self).pos + 1,
    {
        proof {
            lemma_location_bounds(self.src@, self.pos as int);
        }
        if self.src[self.pos] == '\n' {
            self.location.add_line();
        } else {
            self.location.add_col();
        }
        self.pos = self.pos + 1;
    }

    fn skip_whitespaces(&mut self)
        requires
            old(self).wf(),
        ensures
            final(self).wf(),
            final(self).src == old(self).src,
            old(self).pos <= final(self).pos,
            final(self).pos == final(self).src@.len() || !whitespace(
                final(self).src@[final(self).pos as int],
            ),
            final(self).pos == whitespace_end(old(self).src@, old(self).pos as int),
    {
        while self.pos < self.src.len()
            invariant
                self.wf(),
                self.src == old(self).src,
                old(self).pos <= self.pos,
                whitespace_end(self.src@, old(self).pos as int) == whitespace_end(
                    self.src@,
                    self.pos as int,
                ),
            ensures
                self.pos == self.src@.len() || !whitespace(self.src@[self.pos as int]),
            decreases self.src@.len() - self.pos,
        {
            if !is_whitespace(self.src[self.pos]) {
                break;
            }
            self.advance();
        }
    }

    /// Skips whitespace, then any chain of comments and the whitespace after each.
    fn skip_comments(&mut self)
        requires
            old(self).wf(),
        ensures
            final(self).wf(),
            final(self).src == old(self).src,
            old(self).pos <= final(self).pos,
            final(self).pos == final(self).src@.len() || !whitespace(
                final(self).src@[final(self).pos as int],
            ),
            !comment_start(final(self).src@, final(self).pos as int),
            final(self).pos == trivia_end(old(self).src@, old(self).pos as int),
    {
        self.skip_whitespaces();
        let ghost start = self.pos as int;
        while self.curr() == '/' && (self.peek() == '*' || self.peek() == '/')
            invariant
                self.wf(),
                self.src == old(self).src,
                old(self).pos <= self.pos,
                start == whitespace_end(self.src@, old(self).pos as int),
                self.pos == self.src@.len() || !whitespace(self.src@[self.pos as int]),
                comments_end(self.src@, start) == comments_end(
                    self.src@,
                    self.pos as int,
                ),
            decreases self.src@.len() - self.pos,
        {
            let block = self.peek() == '*';
            let ghost p0 = self.pos;
            self.advance();
            self.advance();
            if block {
                while self.pos < self.src.len() && !(self.curr() == '*' && self.peek() == '/')
                    invariant
                        self.wf(),
                        self.src == old(self).src,
                        p0 < self.pos,
                        block_comment_end(self.src@, p0 + 2) == block_comment_end(
                            self.src@,
                            self.pos as int,
                        ),
                    decreases self.src@.len() - self.pos,
                {
                    self.advance();
                }
                if self.pos < self.src.len() {
                    self.advance();
                    self.advance();
                }
            } else {
                while self.pos < self.src.len() && self.curr() != '\n'
                    invariant
                        self.wf(),
                        self.src == old(self).src,
                        p0 < self.pos,
                        line_comment_end(self.src@, p0 + 2) == line_comment_end(
                            self.src@,
                            self.pos as int,
                        ),
                    decreases self.src@.len() - self.pos,
                {
                    self.advance();
                }
            }
            assert(self.pos == comment_end(self.src@, p0 as int));
            self.skip_whitespaces();
        }
    }

    /// Lexes a punctuation or operator token, if one starts here.
    fn lex_punctuation(&mut self) -> (r: Option<Token>)
        requires
            old(self).wf(),
            old(self).pos < old(self).src@.len(),
        ensures
            final(self).wf(),
            final(self).src == old(self).src,
            match punctuation(old(self).src@, old(self).pos as int) {
                Some((kind, n)) => {
                    &&& final(self).pos == old(self).pos + n
                    &&& r matches Some(t)
                    &&& t.kind == kind
                    &&& t.literal@ == old(self).src@.subrange(
                        old(self).pos as int,
                        final(self).pos as int,
                    )
                    &&& t.location == old(self).location
                },
                None => r is None && final(self).pos == old(self).pos,
            },
    {
        let c = self.curr();
        let n = self.peek();
        let kind = if c == '*' {
            TokenKind::Star
        } else if c == '/' {
            TokenKind::Slash
        } else if c == '+' {
            if n == '+' {
                TokenKind::Inc
            } else {
                TokenKind::Plus
            }
        } else if c == '-' {
            if n == '-' {
                TokenKind::Decr
            } else {
                TokenKind::Minus
            }
        } else if c == ':' {
            TokenKind::Colon
        } else if c == ';' {
            TokenKind::Semicolon
        } else if c == '(' {
            TokenKind::LParen
        } else if c == ')' {
            TokenKind::RParen
        } else if c == '{' {
            TokenKind::LCurly
        } else if c == '}' {
            TokenKind::RCurly
        } else if c == ',' {
            TokenKind::Comma
        } else {
            return None;
        };
        let location = self.location;
        let start = self.pos;
        let mut literal = String::new();
        push_char(&mut literal, c);
        self.advance();
        if kind == TokenKind::Inc || kind == TokenKind::Decr {
            push_char(&mut literal, n);
            self.advance();
        }
        assert(literal@ =~= self.src@.subrange(start as int, self.pos as int));
        Some(Token::new(kind, literal, location))
    }

    /// Lexes a double-quoted string literal, quotes and backslashes kept verbatim.
    fn lex_double_quoted_string(&mut self) -> (r: Result<Token, String>)
        requires
            old(self).wf(),
            old(self).pos < old(self).src@.len(),
            old(self).src@[old(self).pos as int] == '"',
        ensures
            final(self).wf(),
            final(self).src == old(self).src,
            old(self).pos < final(self).pos,
            match r {
                Ok(t) => {
                    let lit = old(self).src@.subrange(old(self).pos as int, final(self).pos as int);
                    &&& t.kind == TokenKind::String
                    &&& t.literal@ == lit
                    &&& t.location == old(self).location
                    &&& lit.len() >= 2
                    &&& lit.last() == '"'
                    &&& !escaped_last(lit)
                    &&& forall|k: int| 0 <= k < lit.len() ==> #[trigger] lit[k] != '\n'
                    &&& forall|q: int|
                        1 <= q < lit.len() - 1 && lit[q] == '"' ==> escaped_last(
                            #[trigger] lit.subrange(0, q + 1),
                        )
                },
                Err(e) => e@ == "Unclosed string"@,
            },
            match r {
                Ok(_) => string_end(old(self).src@, old(self).pos + 1, old(self).pos as int) == Some(
                    final(self).pos as int,
                ),
                Err(_) => string_end(
                    old(self).src@,
                    old(self).pos + 1,
                    old(self).pos as int,
                ) is None,
            },
    {
        let location = self.location;
        let start = self.pos;
        let mut literal = String::new();
        push_char(&mut literal, '"');
        self.advance();
        assert(literal@ =~= self.src@.subrange(start as int, self.pos as int));
        while self.pos < self.src.len()
            invariant
                self.wf(),
                self.src == old(self).src,
                start == old(self).pos,
                location == old(self).location,
                start < self.pos,
                string_end(self.src@, start + 1, start as int) == string_end(
                    self.src@,
                    self.pos as int,
                    start as int,
                ),
                literal@ == self.src@.subrange(start as int, self.pos as int),
                literal@[0] == '"',
                forall|k: int| 0 <= k < literal@.len() ==> #[trigger] literal@[k] != '\n',
                forall|q: int|
                    1 <= q < literal@.len() && literal@[q] == '"' ==> escaped_last(
                        #[trigger] literal@.subrange(0, q + 1),
                    ),
            decreases self.src@.len() - self.pos,
        {
            let c = self.curr();
            if c == '\n' {
                return Err(String::from_str("Unclosed string"));
            }
            let ghost prev = literal@;
            push_char(&mut literal, c);
            let ghost lit = literal@;
            assert(lit =~= self.src@.subrange(start as int, self.pos + 1));
            assert(lit.subrange(0, lit.len() as int) =~= lit);
            assert forall|q: int| 1 <= q < prev.len() implies #[trigger] lit.subrange(0, q + 1)
                == prev.subrange(0, q + 1) by {
                assert(lit.subrange(0, q + 1) =~= prev.subrange(0, q + 1));
            }
            let escaped = Self::is_escaped(&self.src, start, self.pos + 1);
            self.advance();
            if c == '"' && !escaped {
                return Ok(Token::new(TokenKind::String, literal, location));
            }
        }
        Err(String::from_str("Unclosed string"))
    }

    /// Whether the last character of `src[start..end]` follows an odd run of backslashes.
    fn is_escaped(src: &Vec<char>, start: usize, end: usize) -> (r: bool)
        requires
            start < end <= src@.len(),
        ensures
            r == escaped_last(src@.subrange(start as int, end as int)),
    {
        let ghost body = src@.subrange(start as int, end as int).drop_last();
        assert(body =~= src@.subrange(start as int, end - 1));
        let mut k: usize = end - 1;
        let mut backslashes: usize = 0;
        while k > start && src[k - 1] == '\\'
            invariant
                start <= k < end <= src@.len(),
                backslashes + k == end - 1,
                trailing_backslashes(body) == backslashes + trailing_backslashes(
                    src@.subrange(start as int, k as int),
                ),
            decreases k,
        {
            assert(src@.subrange(start as int, k as int).drop_last() =~= src@.subrange(
                start as int,
                k - 1,
            ));
            backslashes = backslashes + 1;
            k = k - 1;
        }
        backslashes % 2 == 1
    }

    /// Lexes the maximal identifier-shaped run here, as a keyword or an `Id`.
    fn lex_id_or_keyword(&mut self) -> (r: Token)
        requires
            old(self).wf(),
            old(self).pos < old(self).src@.len(),
            id_start_char(old(self).src@[old(self).pos as int]),
        ensures
            final(self).wf(),
            final(self).src == old(self).src,
            old(self).pos < final(self).pos,
            r.literal@ == old(self).src@.subrange(old(self).pos as int, final(self).pos as int),
            r.kind == keyword_kind(r.literal@),
            r.location == old(self).location,
            forall|k: int| old(self).pos <= k < final(self).pos ==> id_char(#[trigger] old(self).src@[k]),
            final(self).pos == final(self).src@.len() || !id_char(
                final(self).src@[final(self).pos as int],
            ),
            final(self).pos == id_end(old(self).src@, old(self).pos as int),
    {
        let location = self.location;
        let start = self.pos;
        let mut literal = String::new();
        while self.pos < self.src.len() && (is_alphanumeric(self.src[self.pos]) || self.src[self.pos] == '_')
            invariant
                self.wf(),
                self.src == old(self).src,
                start == old(self).pos,
                start <= self.pos,
                literal@ == self.src@.subrange(start as int, self.pos as int),
                forall|k: int| start <= k < self.pos ==> id_char(#[trigger] self.src@[k]),
                id_end(self.src@, start as int) == id_end(self.src@, self.pos as int),
            decreases self.src@.len() - self.pos,
        {
            push_char(&mut literal, self.src[self.pos]);
            self.advance();
            assert(literal@ =~= self.src@.subrange(start as int, self.pos as int));
        }
        let kind = Self::keyword_or_id_kind(&literal);
        Token::new(kind, literal, location)
    }

    fn keyword_or_id_kind(literal: &String) -> (r: TokenKind)
        ensures
            r == keyword_kind(literal@),
    {
        if *literal == String::from_str("return") {
            TokenKind::Return
        } else if *literal == String::from_str("fn") {
            TokenKind::Fn
        } else if *literal == String::from_str("int") {
            TokenKind::Int
        } else {
            TokenKind::Id
        }
    }

    /// Lexes the maximal run of digits, underscores and dots here.
    fn lex_number(&mut self) -> (r: Token)
        requires
            old(self).wf(),
            old(self).pos < old(self).src@.len(),
            numeric(old(self).src@[old(self).pos as int]),
        ensures
            final(self).wf(),
            final(self).src == old(self).src,
            old(self).pos < final(self).pos,
            r.literal@ == old(self).src@.subrange(old(self).pos as int, final(self).pos as int),
            r.kind == (if r.literal@.contains('.') {
                TokenKind::Float
            } else {
                TokenKind::Int
            }),
            r.location == old(self).location,
            forall|k: int|
                old(self).pos <= k < final(self).pos ==> number_char(#[trigger] old(self).src@[k]),
            final(self).pos == final(self).src@.len() || !number_char(
                final(self).src@[final(self).pos as int],
            ),
            final(self).pos == number_end(old(self).src@, old(self).pos as int),
    {
        let location = self.location;
        let start = self.pos;
        let mut literal = String::new();
        let mut is_float = false;
        while self.pos < self.src.len() && (is_numeric(self.src[self.pos]) || self.src[self.pos]
            == '_' || self.src[self.pos] == '.')
            invariant
                self.wf(),
                self.src == old(self).src,
                start == old(self).pos,
                start <= self.pos,
                literal@ == self.src@.subrange(start as int, self.pos as int),
                is_float == literal@.contains('.'),
                forall|k: int| start <= k < self.pos ==> number_char(#[trigger] self.src@[k]),
                number_end(self.src@, start as int) == number_end(self.src@, self.pos as int),
            decreases self.src@.len() - self.pos,
        {
            let c = self.src[self.pos];
            if c == '.' {
                is_float = true;
            }
            let ghost prev = literal@;
            push_char(&mut literal, c);
            proof {
                lemma_push_contains(prev, c, '.');
            }
            self.advance();
            assert(literal@ =~= self.src@.subrange(start as int, self.pos as int));
        }
        let kind = if is_float {
            TokenKind::Float
        } else {
            TokenKind::Int
        };
        Token::new(kind, literal, location)
    }
}

} // verus!
