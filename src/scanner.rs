//! The scanner: source text to a token sequence ending in `Eof`.
use vstd::prelude::*;

use crate::error::Error;
use crate::text::{chars_of, push_char, push_range, string_of};
use crate::token::{keyword, toks, word_tok, Tok, Token};

verus! {

pub open spec fn is_digit(c: char) -> bool {
    '0' <= c && c <= '9'
}

pub open spec fn is_ident_start(c: char) -> bool {
    ('a' <= c && c <= 'z') || ('A' <= c && c <= 'Z') || c == '_'
}

pub open spec fn is_ident_char(c: char) -> bool {
    is_ident_start(c) || is_digit(c)
}

/// The characters that may continue a lexeme of each kind.
#[derive(Clone, Copy)]
pub enum Run {
    Digits,
    Word,
    /// Anything but a newline: the body of a comment.
    Line,
    /// Anything but a double quote: the body of a string literal.
    Quoted,
}

pub open spec fn continues(k: Run, c: char) -> bool {
    match k {
        Run::Digits => is_digit(c),
        Run::Word => is_ident_char(c),
        Run::Line => c != '\n',
        Run::Quoted => c != '"',
    }
}

/// The length of the longest run of `k` characters in `s` from `i` on.
pub open spec fn run(s: Seq<char>, i: int, k: Run) -> nat
    decreases s.len() - i,
{
    if 0 <= i < s.len() && continues(k, s[i]) {
        1 + run(s, i + 1, k)
    } else {
        0
    }
}

pub open spec fn newlines(s: Seq<char>) -> nat
    decreases s.len(),
{
    if s.len() == 0 {
        0
    } else {
        newlines(s.drop_last()) + if s.last() == '\n' {
            1nat
        } else {
            0nat
        }
    }
}

pub open spec fn strip_leading_zeros(s: Seq<char>) -> Seq<char>
    decreases s.len(),
{
    if s.len() > 1 && s[0] == '0' {
        strip_leading_zeros(s.drop_first())
    } else {
        s
    }
}

pub open spec fn strip_trailing_zeros(s: Seq<char>) -> Seq<char>
    decreases s.len(),
{
    if s.len() > 0 && s.last() == '0' {
        strip_trailing_zeros(s.drop_last())
    } else {
        s
    }
}

/// The canonical spelling of the number with whole digits `whole` and
/// fraction digits `fraction`.
pub open spec fn decimal_text(whole: Seq<char>, fraction: Seq<char>) -> Seq<char> {
    let f = strip_trailing_zeros(fraction);
    if f.len() == 0 {
        strip_leading_zeros(whole)
    } else {
        strip_leading_zeros(whole) + seq!['.'] + f
    }
}

/// The token of a single-character lexeme that is never the start of a longer one.
pub open spec fn single_token(c: char) -> Option<Token> {
    if c == ',' {
        Some(Token::Comma)
    } else if c == '.' {
        Some(Token::Dot)
    } else if c == '+' {
        Some(Token::Plus)
    } else if c == '-' {
        Some(Token::Minus)
    } else if c == '*' {
        Some(Token::Star)
    } else if c == '(' {
        Some(Token::LeftParen)
    } else if c == ')' {
        Some(Token::RightParen)
    } else if c == '{' {
        Some(Token::LeftBrace)
    } else if c == '}' {
        Some(Token::RightBrace)
    } else if c == ';' {
        Some(Token::Semicolon)
    } else {
        None
    }
}

/// For `= ! > <`: the token of the character alone, and of the character
/// followed by `=`.
pub open spec fn pair_tokens(c: char) -> Option<(Token, Token)> {
    if c == '=' {
        Some((Token::Eq, Token::EqEq))
    } else if c == '!' {
        Some((Token::Not, Token::Ne))
    } else if c == '>' {
        Some((Token::Gt, Token::Ge))
    } else if c == '<' {
        Some((Token::Lt, Token::Le))
    } else {
        None
    }
}

/// A scanning failure: the line it was met on, and what went wrong.
pub struct LexFault {
    pub line: int,
    pub message: Seq<char>,
}

pub open spec fn unexpected_message(c: char) -> Seq<char> {
    "Unexpected character '"@ + seq![c] + "'"@
}

pub open spec fn emit(t: Tok, rest: Result<Seq<Tok>, LexFault>) -> Result<Seq<Tok>, LexFault> {
    match rest {
        Ok(ts) => Ok(seq![t] + ts),
        Err(f) => Err(f),
    }
}

/// The outcome of one scanning step.
pub enum Step {
    /// A token, then the position and line after it.
    Emit(Tok, int, int),
    /// Blank space or a comment, skipped: the position and line after it.
    Skip(int, int),
    Fail(LexFault),
}

/// One step of the scan of `s` at position `i` (on line `line`): the lexeme
/// that starts there, or the blank space or comment skipped, or the fault.
pub open spec fn lex_step(s: Seq<char>, i: int, line: int) -> Step {
    let c = s[i];
    if c == ' ' || c == '\r' || c == '\t' {
        Step::Skip(i + 1, line)
    } else if c == '\n' {
        Step::Skip(i + 1, line + 1)
    } else if c == '/' {
        if i + 1 < s.len() && s[i + 1] == '/' {
            Step::Skip(i + 2 + run(s, i + 2, Run::Line), line)
        } else {
            Step::Emit(Tok::Plain(Token::Slash), i + 1, line)
        }
    } else if c == '"' {
        let n = run(s, i + 1, Run::Quoted);
        let body = s.subrange(i + 1, i + 1 + n);
        if i + 1 + n >= s.len() {
            Step::Fail(LexFault { line: line + newlines(body), message: "Unterminated string"@ })
        } else {
            Step::Emit(Tok::Str(body), i + 2 + n, line + newlines(body))
        }
    } else if is_digit(c) {
        let p = i + 1 + run(s, i + 1, Run::Digits);
        if p + 1 < s.len() && s[p] == '.' && is_digit(s[p + 1]) {
            let q = p + 1 + run(s, p + 1, Run::Digits);
            Step::Emit(Tok::Num(decimal_text(s.subrange(i, p), s.subrange(p + 1, q))), q, line)
        } else {
            Step::Emit(Tok::Num(decimal_text(s.subrange(i, p), seq![])), p, line)
        }
    } else if is_ident_start(c) {
        let p = i + 1 + run(s, i + 1, Run::Word);
        Step::Emit(word_tok(s.subrange(i, p)), p, line)
    } else {
        match single_token(c) {
            Some(t) => Step::Emit(Tok::Plain(t), i + 1, line),
            None => match pair_tokens(c) {
                Some((one, two)) => if i + 1 < s.len() && s[i + 1] == '=' {
                    Step::Emit(Tok::Plain(two), i + 2, line)
                } else {
                    Step::Emit(Tok::Plain(one), i + 1, line)
                },
                None => Step::Fail(LexFault { line, message: unexpected_message(c) }),
            },
        }
    }
}

/// The tokens of `s` from position `i` on, with `line` the line number there.
pub open spec fn scan_from(s: Seq<char>, i: int, line: int) -> Result<Seq<Tok>, LexFault>
    decreases if i < s.len() { s.len() - i } else { 0 },
{
    if i >= s.len() {
        Ok(seq![Tok::Plain(Token::Eof)])
    } else {
        match lex_step(s, i, line) {
            Step::Emit(t, j, l) => emit(t, scan_from(s, j, l)),
            Step::Skip(j, l) => scan_from(s, j, l),
            Step::Fail(f) => Err(f),
        }
    }
}

/// The result of scanning all of `s`.
pub open spec fn scan(s: Seq<char>) -> Result<Seq<Tok>, LexFault> {
    scan_from(s, 0, 1)
}

/// `e` reports the fault `f` met in the source text `source`.
pub open spec fn reports(e: Error, source: Seq<char>, f: LexFault) -> bool {
    e matches Error::InterpretErrorWithIndex { line_index, line_string, message }
        && line_index == f.line && line_string@ == source && message@ == f.message
}

fn digit(c: char) -> (r: bool)
    ensures
        r == is_digit(c),
{
    '0' <= c && c <= '9'
}

fn is_valid_identifier_start(c: char) -> (r: bool)
    ensures
        r == is_ident_start(c),
{
    ('a' <= c && c <= 'z') || ('A' <= c && c <= 'Z') || c == '_'
}

fn is_valid_identifier_char(c: char) -> (r: bool)
    ensures
        r == is_ident_char(c),
{
    is_valid_identifier_start(c) || digit(c)
}

fn in_run(k: Run, c: char) -> (r: bool)
    ensures
        r == continues(k, c),
{
    match k {
        Run::Digits => digit(c),
        Run::Word => is_valid_identifier_char(c),
        Run::Line => c != '\n',
        Run::Quoted => c != '"',
    }
}

fn single(c: char) -> (r: Option<Token>)
    ensures
        r == single_token(c),
{
    if c == ',' {
        Some(Token::Comma)
    } else if c == '.' {
        Some(Token::Dot)
    } else if c == '+' {
        Some(Token::Plus)
    } else if c == '-' {
        Some(Token::Minus)
    } else if c == '*' {
        Some(Token::Star)
    } else if c == '(' {
        Some(Token::LeftParen)
    } else if c == ')' {
        Some(Token::RightParen)
    } else if c == '{' {
        Some(Token::LeftBrace)
    } else if c == '}' {
        Some(Token::RightBrace)
    } else if c == ';' {
        Some(Token::Semicolon)
    } else {
        None
    }
}

fn pair(c: char) -> (r: Option<(Token, Token)>)
    ensures
        r == pair_tokens(c),
{
    if c == '=' {
        Some((Token::Eq, Token::EqEq))
    } else if c == '!' {
        Some((Token::Not, Token::Ne))
    } else if c == '>' {
        Some((Token::Gt, Token::Ge))
    } else if c == '<' {
        Some((Token::Lt, Token::Le))
    } else {
        None
    }
}

/// The canonical spelling of the number whose whole digits are `v[a..b]`
/// and whose fraction digits are `v[c..d]`.
fn number_text(v: &Vec<char>, a: usize, b: usize, c: usize, d: usize) -> (r: String)
    requires
        a < b <= v@.len(),
        c <= d <= v@.len(),
    ensures
        r@ == decimal_text(v@.subrange(a as int, b as int), v@.subrange(c as int, d as int)),
{
    let ghost whole = v@.subrange(a as int, b as int);
    let ghost fraction = v@.subrange(c as int, d as int);
    let mut k: usize = a;
    while k + 1 < b && v[k] == '0'
        invariant
            a <= k < b <= v@.len(),
            strip_leading_zeros(whole) == strip_leading_zeros(v@.subrange(k as int, b as int)),
        decreases b - k,
    {
        assert(v@.subrange(k as int, b as int).drop_first() =~= v@.subrange(k + 1, b as int));
        k = k + 1;
    }
    let mut e: usize = d;
    while e > c && v[e - 1] == '0'
        invariant
            c <= e <= d <= v@.len(),
            strip_trailing_zeros(fraction) == strip_trailing_zeros(v@.subrange(c as int, e as int)),
        decreases e - c,
    {
        assert(v@.subrange(c as int, e as int).drop_last() =~= v@.subrange(c as int, e - 1));
        e = e - 1;
    }
    let mut r = string_of(v, k, b);
    if e > c {
        push_char(&mut r, '.');
        push_range(&mut r, v, c, e);
    }
    r
}

/// An unexpected-character message for `c`.
fn unexpected(c: char) -> (r: String)
    ensures
        r@ == unexpected_message(c),
{
    let mut r = String::from_str("Unexpected character '");
    push_char(&mut r, c);
    r.append("'");
    r
}

pub struct Scanner {
    source: String,
    chars: Vec<char>,
    line: usize,
    current: usize,
}

impl Scanner {
    /// The text being scanned.
    pub closed spec fn text(&self) -> Seq<char> {
        self.chars@
    }

    pub closed spec fn wf(&self) -> bool {
        &&& self.chars@ == self.source@
        &&& self.current <= self.chars@.len()
        &&& self.line <= self.current + 1
        &&& self.chars@.len() < usize::MAX
    }

    /// The scan still owed: the tokens from the cursor on.
    pub closed spec fn pending(&self) -> Result<Seq<Tok>, LexFault> {
        scan_from(self.chars@, self.current as int, self.line as int)
    }

    pub fn new(source: String) -> (r: Self)
        requires
            source@.len() < usize::MAX,
        ensures
            r.wf(),
            r.text() == source@,
            r.pending() == scan(source@),
    {
        let chars = chars_of(source.as_str());
        Scanner { source, chars, line: 1, current: 0 }
    }

    /// Scans the rest of the text, through to the end.
    pub fn read_tokens(&mut self) -> (r: Result<Vec<Token>, Error>)
        requires
            old(self).wf(),
        ensures
            match old(self).pending() {
                Ok(ts) => r matches Ok(v) && toks(v@) == ts,
                Err(f) => r matches Err(e) && reports(e, old(self).text(), f),
            },
    {
        let mut tokens: Vec<Token> = Vec::new();
        while !self.is_at_end()
            invariant
                self.wf(),
                self.text() == old(self).text(),
                old(self).pending() == match self.pending() {
                    Ok(rest) => Ok(toks(tokens@) + rest),
                    Err(f) => Err::<Seq<Tok>, LexFault>(f),
                },
            decreases self.chars@.len() - self.current,
        {
            let step = self.read_token();
            match step {
                Ok(Some(t)) => {
                    let ghost before = tokens@;
                    tokens.push(t);
                    proof {
                        assert(toks(tokens@) =~= toks(before) + seq![t@]);
                        if let Ok(rest) = self.pending() {
                            assert(toks(before) + (seq![t@] + rest) =~= toks(tokens@) + rest);
                        }
                    }
                },
                Ok(None) => {},
                Err(e) => {
                    return Err(e);
                },
            }
        }
        proof {
            assert(toks(tokens@).push(Tok::Plain(Token::Eof)) =~= toks(tokens@) + seq![Tok::Plain(Token::Eof)]);
        }
        tokens.push(Token::Eof);
        proof {
            assert(toks(tokens@) =~= toks(tokens@.drop_last()).push(Tok::Plain(Token::Eof)));
        }
        Ok(tokens)
    }

    /// Scans one lexeme, or skips one stretch of blank space or comment.
    fn read_token(&mut self) -> (r: Result<Option<Token>, Error>)
        requires
            old(self).wf(),
            old(self).current < old(self).chars@.len(),
        ensures
            final(self).wf(),
            final(self).text() == old(self).text(),
            match lex_step(old(self).text(), old(self).current as int, old(self).line as int) {
                Step::Emit(t, j, l) => r matches Ok(Some(x)) && x@ == t && final(self).current == j
                    && final(self).line == l,
                Step::Skip(j, l) => r matches Ok(None) && final(self).current == j
                    && final(self).line == l,
                Step::Fail(f) => r matches Err(e) && reports(e, old(self).text(), f),
            },
    {
        let start = self.current;
        let c = self.advance();
        if c == ' ' || c == '\r' || c == '\t' {
            Ok(None)
        } else if c == '\n' {
            self.line = self.line + 1;
            Ok(None)
        } else if c == '/' {
            if self.next_matches('/') {
                self.comment();
                Ok(None)
            } else {
                Ok(Some(Token::Slash))
            }
        } else if c == '"' {
            match self.string_lit() {
                Ok(s) => Ok(Some(Token::String(s))),
                Err(e) => Err(e),
            }
        } else if digit(c) {
            let s = self.number_lit(start);
            Ok(Some(Token::Number(s)))
        } else if is_valid_identifier_start(c) {
            let w = self.identifier(start);
            match keyword(&w) {
                Some(k) => Ok(Some(k)),
                None => Ok(Some(Token::Ident(w))),
            }
        } else {
            match single(c) {
                Some(t) => Ok(Some(t)),
                None => match pair(c) {
                    Some((one, two)) => if self.next_matches('=') {
                        Ok(Some(two))
                    } else {
                        Ok(Some(one))
                    },
                    None => {
                        let m = unexpected(c);
                        Err(Error::message_with_line_index(self.line, self.source.as_str(), m.as_str()))
                    },
                },
            }
        }
    }

    /// Reads the rest of a string literal whose opening quote was just consumed.
    fn string_lit(&mut self) -> (r: Result<String, Error>)
        requires
            old(self).wf(),
        ensures
            final(self).wf(),
            final(self).text() == old(self).text(),
            ({
                let s = old(self).chars@;
                let n = run(s, old(self).current as int, Run::Quoted);
                let body = s.subrange(old(self).current as int, old(self).current + n);
                let line = old(self).line + newlines(body);
                if old(self).current + n >= s.len() {
                    r matches Err(e) && reports(e, s, LexFault { line, message: "Unterminated string"@ })
                } else {
                    r matches Ok(v) && v@ == body && final(self).current == old(self).current + n + 1
                        && final(self).line == line
                }
            }),
    {
        let from = self.current;
        let end = self.run_end(from, Run::Quoted);
        let mut k: usize = from;
        while k < end
            invariant
                self.chars@ == self.source@,
                self.chars@.len() < usize::MAX,
                self.text() == old(self).text(),
                self.current == from,
                from <= k <= end <= self.chars@.len(),
                self.line == old(self).line + newlines(self.chars@.subrange(from as int, k as int)),
                self.line <= k + 1,
            decreases end - k,
        {
            assert(self.chars@.subrange(from as int, k + 1).drop_last() =~= self.chars@.subrange(from as int, k as int));
            if self.chars[k] == '\n' {
                self.line = self.line + 1;
            }
            k = k + 1;
        }
        self.current = end;
        if self.is_at_end() {
            return Err(Error::message_with_line_index(self.line, self.source.as_str(), "Unterminated string"));
        }
        let body = string_of(&self.chars, from, end);
        self.current = end + 1;
        Ok(body)
    }

    /// Reads the rest of a number literal whose first digit is at `start`.
    fn number_lit(&mut self, start: usize) -> (r: String)
        requires
            old(self).wf(),
            old(self).current == start + 1,
            start < old(self).chars@.len(),
        ensures
            final(self).wf(),
            final(self).text() == old(self).text(),
            final(self).line == old(self).line,
            ({
                let s = old(self).chars@;
                let p = start + 1 + run(s, start + 1, Run::Digits);
                if p + 1 < s.len() && s[p] == '.' && is_digit(s[p + 1]) {
                    let q = p + 1 + run(s, p + 1, Run::Digits);
                    r@ == decimal_text(s.subrange(start as int, p), s.subrange(p + 1, q))
                        && final(self).current == q
                } else {
                    r@ == decimal_text(s.subrange(start as int, p), seq![])
                        && final(self).current == p
                }
            }),
    {
        let p = self.run_end(self.current, Run::Digits);
        self.current = p;
        let dot = match self.peek() {
            Some(d) => d == '.',
            None => false,
        };
        let after = match self.peek_next() {
            Some(d) => digit(d),
            None => false,
        };
        if dot && after {
            let q = self.run_end(p + 1, Run::Digits);
            self.current = q;
            number_text(&self.chars, start, p, p + 1, q)
        } else {
            let r = number_text(&self.chars, start, p, p, p);
            assert(self.chars@.subrange(p as int, p as int) =~= Seq::<char>::empty());
            r
        }
    }

    /// Reads the rest of a word whose first character is at `start`.
    fn identifier(&mut self, start: usize) -> (r: String)
        requires
            old(self).wf(),
            old(self).current == start + 1,
            start < old(self).chars@.len(),
        ensures
            final(self).wf(),
            final(self).text() == old(self).text(),
            final(self).line == old(self).line,
            final(self).current == start + 1 + run(old(self).chars@, start + 1, Run::Word),
            r@ == old(self).chars@.subrange(start as int, final(self).current as int),
    {
        let p = self.run_end(self.current, Run::Word);
        self.current = p;
        string_of(&self.chars, start, p)
    }

    /// Skips the rest of a line comment, up to the newline.
    fn comment(&mut self)
        requires
            old(self).wf(),
        ensures
            final(self).wf(),
            final(self).text() == old(self).text(),
            final(self).line == old(self).line,
            final(self).current == old(self).current + run(old(self).chars@, old(self).current as int, Run::Line),
    {
        self.current = self.run_end(self.current, Run::Line);
    }

    /// Consumes the next character if it is `c`.
    fn next_matches(&mut self, c: char) -> (r: bool)
        requires
            old(self).wf(),
        ensures
            final(self).wf(),
            final(self).text() == old(self).text(),
            final(self).line == old(self).line,
            r == (old(self).current < old(self).chars@.len() && old(self).chars@[old(self).current as int] == c),
            final(self).current == old(self).current + if r { 1int } else { 0int },
    {
        if self.is_at_end() {
            return false;
        }
        if self.chars[self.current] != c {
            return false;
        }
        self.current = self.current + 1;
        true
    }

    fn advance(&mut self) -> (r: char)
        requires
            old(self).wf(),
            old(self).current < old(self).chars@.len(),
        ensures
            final(self).wf(),
            final(self).text() == old(self).text(),
            final(self).line == old(self).line,
            r == old(self).chars@[old(self).current as int],
            final(self).current == old(self).current + 1,
    {
        let c = self.chars[self.current];
        self.current = self.current + 1;
        c
    }

    fn peek_next(&self) -> (r: Option<char>)
        requires
            self.wf(),
        ensures
            r == (if self.current + 1 < self.chars@.len() {
                Some(self.chars@[self.current + 1])
            } else {
                None
            }),
    {
        if self.current + 1 < self.chars.len() {
            Some(self.chars[self.current + 1])
        } else {
            None
        }
    }

    fn is_at_end(&self) -> (r: bool)
        requires
            self.wf(),
        ensures
            r == (self.current >= self.chars@.len()),
    {
        self.current >= self.chars.len()
    }

    fn peek(&self) -> (r: Option<char>)
        requires
            self.wf(),
        ensures
            r == (if self.current < self.chars@.len() {
                Some(self.chars@[self.current as int])
            } else {
                None
            }),
    {
        if self.current < self.chars.len() {
            Some(self.chars[self.current])
        } else {
            None
        }
    }

    /// The position where the run of `k` characters that starts at `from` ends.
    fn run_end(&self, from: usize, k: Run) -> (r: usize)
        requires
            self.wf(),
            from <= self.chars@.len(),
        ensures
            r == from + run(self.chars@, from as int, k),
            r <= self.chars@.len(),
    {
        let mut e: usize = from;
        while e < self.chars.len() && in_run(k, self.chars[e])
            invariant
                self.wf(),
                from <= e <= self.chars@.len(),
                run(self.chars@, from as int, k) == (e - from) + run(self.chars@, e as int, k),
            decreases self.chars@.len() - e,
        {
            e = e + 1;
        }
        e
    }
}

/// A lexeme made of operator and punctuation characters only.
pub open spec fn is_operator_lexeme(l: Seq<char>) -> bool {
    ||| (l.len() == 1 && (single_token(l[0]) is Some || pair_tokens(l[0]) is Some || l[0] == '/'))
    ||| (l.len() == 2 && pair_tokens(l[0]) is Some && l[1] == '=')
}

/// Written one after the other, `l` and `next` do not run together into
/// another lexeme (`/` `/` into a comment, `<` `=` into `<=`).
pub open spec fn stays_apart(l: Seq<char>, next: Seq<char>) -> bool {
    &&& !(l == seq!['/'] && next[0] == '/')
    &&& !(l.len() == 1 && pair_tokens(l[0]) is Some && next[0] == '=')
}

pub open spec fn is_blank(c: char) -> bool {
    c == ' ' || c == '\t' || c == '\r' || c == '\n'
}

pub open spec fn all_blank(w: Seq<char>) -> bool {
    forall|k: int| 0 <= k < w.len() ==> is_blank(#[trigger] w[k])
}

/// The token of an operator or punctuation lexeme.
pub open spec fn lexeme_token(l: Seq<char>) -> Token {
    if l == seq!['/'] {
        Token::Slash
    } else {
        match single_token(l[0]) {
            Some(t) => t,
            None => match pair_tokens(l[0]) {
                Some((one, two)) => if l.len() == 2 {
                    two
                } else {
                    one
                },
                None => Token::Eof,
            },
        }
    }
}

/// The lexemes `ls`, each followed by its stretch of blank space in `ws`.
pub open spec fn interleave(ls: Seq<Seq<char>>, ws: Seq<Seq<char>>) -> Seq<char>
    decreases ls.len(),
{
    if ls.len() == 0 {
        seq![]
    } else {
        ls[0] + ws[0] + interleave(ls.drop_first(), ws.drop_first())
    }
}

/// The text from `i + k` on, where the text from `i` on is `x + y`.
proof fn lemma_text_after(s: Seq<char>, i: int, x: Seq<char>, y: Seq<char>, k: int)
    requires
        0 <= i <= s.len(),
        s.subrange(i, s.len() as int) == x + y,
        0 <= k <= x.len(),
    ensures
        i + x.len() + y.len() == s.len(),
        s.subrange(i + k, s.len() as int) == x.subrange(k, x.len() as int) + y,
        k < x.len() + y.len() ==> s[i + k] == (x + y)[k],
{
    assert(s.subrange(i, s.len() as int).len() == s.len() - i);
    if k < x.len() + y.len() {
        assert(s.subrange(i, s.len() as int)[k] == s[i + k]);
    }
    assert forall|j: int| 0 <= j < s.len() - i - k implies #[trigger] s.subrange(
        i + k,
        s.len() as int,
    )[j] == (x.subrange(k, x.len() as int) + y)[j] by {
        assert(s.subrange(i, s.len() as int)[k + j] == s[i + k + j]);
    }
    assert(s.subrange(i + k, s.len() as int) =~= x.subrange(k, x.len() as int) + y);
}

spec fn next_line_of(c: char, line: int) -> int {
    if c == '\n' {
        line + 1
    } else {
        line
    }
}

proof fn lemma_operator_suffix(
    s: Seq<char>,
    i: int,
    b: Seq<char>,
    ls: Seq<Seq<char>>,
    ws: Seq<Seq<char>>,
    line: int,
)
    requires
        0 <= i <= s.len(),
        s.subrange(i, s.len() as int) == b + interleave(ls, ws),
        all_blank(b),
        ws.len() == ls.len(),
        forall|k: int| 0 <= k < ls.len() ==> is_operator_lexeme(#[trigger] ls[k]),
        forall|k: int| 0 <= k < ws.len() ==> all_blank(#[trigger] ws[k]),
        forall|k: int|
            0 <= k < ls.len() - 1 ==> #[trigger] ws[k].len() > 0 || stays_apart(ls[k], ls[k + 1]),
    ensures
        scan_from(s, i, line) matches Ok(ts) && ts.len() == ls.len() + 1 && ts.last() == Tok::Plain(
            Token::Eof,
        ) && forall|k: int| 0 <= k < ls.len() ==> ts[k] == Tok::Plain(lexeme_token(#[trigger] ls[k])),
    decreases ls.len(), b.len(),
{
    let tail = interleave(ls, ws);
    if b.len() > 0 {
        lemma_text_after(s, i, b, tail, 0);
        lemma_text_after(s, i, b, tail, 1);
        assert(s[i] == b[0]);
        assert(is_blank(b[0]));
        assert(lex_step(s, i, line) == Step::Skip(i + 1, next_line_of(b[0], line)));
        let next_line = next_line_of(b[0], line);
        assert(all_blank(b.subrange(1, b.len() as int))) by {
            assert forall|k: int| 0 <= k < b.len() - 1 implies is_blank(
                #[trigger] b.subrange(1, b.len() as int)[k],
            ) by {
                assert(is_blank(b[k + 1]));
            }
        }
        lemma_operator_suffix(s, i + 1, b.subrange(1, b.len() as int), ls, ws, next_line);
        assert(scan_from(s, i, line) == scan_from(s, i + 1, next_line));
        return;
    }
    assert(b + tail =~= tail);
    if ls.len() == 0 {
        assert(s.subrange(i, s.len() as int).len() == 0);
        return;
    }
    let l = ls[0];
    let w = ws[0];
    let rest = ls.drop_first();
    let wrest = ws.drop_first();
    let after = interleave(rest, wrest);
    assert(is_operator_lexeme(l));
    assert(all_blank(w));
    assert forall|k: int| 0 <= k < rest.len() implies is_operator_lexeme(#[trigger] rest[k]) by {
        assert(rest[k] == ls[k + 1]);
    }
    assert forall|k: int| 0 <= k < wrest.len() implies all_blank(#[trigger] wrest[k]) by {
        assert(wrest[k] == ws[k + 1]);
    }
    assert forall|k: int| 0 <= k < rest.len() - 1 implies #[trigger] wrest[k].len() > 0
        || stays_apart(rest[k], rest[k + 1]) by {
        assert(rest[k] == ls[k + 1]);
        assert(rest[k + 1] == ls[k + 2]);
        assert(wrest[k] == ws[k + 1]);
    }
    assert(tail == l + w + after);
    assert(l + w + after =~= l + (w + after));
    let wl = l.len() as int;
    lemma_text_after(s, i, l, w + after, 0);
    lemma_text_after(s, i, l, w + after, wl);
    assert(l.subrange(wl, wl) + (w + after) =~= w + after);
    if wl == 2 {
        lemma_text_after(s, i, l, w + after, 1);
    }
    let c = l[0];
    if wl == 1 {
        assert(l =~= seq![c]);
        if i + 1 < s.len() {
            assert(s[i + 1] == (w + after)[0]);
            if w.len() > 0 {
                assert(is_blank(w[0]));
            } else {
                assert(rest.len() > 0);
                assert(stays_apart(ls[0], ls[1]));
                assert(rest[0] == ls[1]);
                assert(is_operator_lexeme(rest[0]));
                assert(after == rest[0] + wrest[0] + interleave(rest.drop_first(), wrest.drop_first()));
                assert((w + after)[0] == rest[0][0]);
            }
        }
    }
    lemma_operator_suffix(s, i + wl, w, rest, wrest, line);
    assert(c != ' ' && c != '\r' && c != '\t' && c != '\n' && c != '"' && !is_digit(c)
        && !is_ident_start(c));
    let t = Tok::Plain(lexeme_token(l));
    assert(lex_step(s, i, line) == Step::Emit(t, i + wl, line));
    if let Ok(ts) = scan_from(s, i + wl, line) {
        let all = seq![t] + ts;
        assert(scan_from(s, i, line) == Ok::<Seq<Tok>, LexFault>(all));
        assert(all.last() == ts.last());
        assert forall|k: int| 0 <= k < ls.len() implies all[k] == Tok::Plain(
            lexeme_token(#[trigger] ls[k]),
        ) by {
            if k > 0 {
                assert(all[k] == ts[k - 1]);
                assert(ls[k] == rest[k - 1]);
            }
        }
    }
}

/// Text made only of operator and punctuation lexemes, with blank space or
/// nothing between them, scans without fault into the token of each lexeme
/// in turn, followed by the single `Eof`. Where nothing separates two
/// lexemes, they must not run together into another one.
pub proof fn lemma_operator_text_scans(ls: Seq<Seq<char>>, ws: Seq<Seq<char>>)
    requires
        ws.len() == ls.len(),
        forall|k: int| 0 <= k < ls.len() ==> is_operator_lexeme(#[trigger] ls[k]),
        forall|k: int| 0 <= k < ws.len() ==> all_blank(#[trigger] ws[k]),
        forall|k: int|
            0 <= k < ls.len() - 1 ==> #[trigger] ws[k].len() > 0 || stays_apart(ls[k], ls[k + 1]),
    ensures
        scan(interleave(ls, ws)) matches Ok(ts) && ts.len() == ls.len() + 1 && ts.last()
            == Tok::Plain(Token::Eof) && forall|k: int|
            0 <= k < ls.len() ==> ts[k] == Tok::Plain(lexeme_token(#[trigger] ls[k])),
{
    let s = interleave(ls, ws);
    assert(s.subrange(0, s.len() as int) =~= seq![] + s);
    lemma_operator_suffix(s, 0, seq![], ls, ws, 1);
}

/// Scanning keeps no state from one scan to the next: the same text always
/// gives the same tokens, or the same fault.
pub proof fn lemma_scan_deterministic(a: Seq<char>, b: Seq<char>)
    requires
        a == b,
    ensures
        scan(a) == scan(b),
{
}

} // verus!
