//! The lexer: a character-by-character scanner that turns source text into
//! a stream of tokens, with one character of lookahead for the two-character
//! operators `==` and `!=`.
//!
//! Its behaviour is pinned to the functional tokenizer [`spec_next_token`]:
//! every call of [`Lexer::next_token`] returns exactly the token that the
//! spec assigns to the current scan position, and moves the position to
//! exactly where the spec says the next token begins.

use vstd::prelude::*;

use crate::strutil::{
    chars_to_string, is_digit, is_letter, is_ws, spec_is_digit, spec_is_letter, spec_is_ws,
    str_to_chars,
};
use crate::token::{spec_lookup_ident, Token, TokenType, TokenV};

verus! {

/// The character at `pos`, or NUL at or past the end of the input.
pub open spec fn char_at(input: Seq<char>, pos: int) -> char {
    if 0 <= pos < input.len() {
        input[pos]
    } else {
        '\0'
    }
}

/// The first index at or after `pos` that does not hold whitespace.
pub open spec fn spec_skip_ws(input: Seq<char>, pos: int) -> int
    decreases input.len() - pos,
{
    if 0 <= pos < input.len() && spec_is_ws(input[pos]) {
        spec_skip_ws(input, pos + 1)
    } else {
        pos
    }
}

/// The first index at or after `pos` that does not hold a letter.
pub open spec fn spec_scan_letters(input: Seq<char>, pos: int) -> int
    decreases input.len() - pos,
{
    if 0 <= pos < input.len() && spec_is_letter(input[pos]) {
        spec_scan_letters(input, pos + 1)
    } else {
        pos
    }
}

/// The first index at or after `pos` that does not hold a digit.
pub open spec fn spec_scan_digits(input: Seq<char>, pos: int) -> int
    decreases input.len() - pos,
{
    if 0 <= pos < input.len() && spec_is_digit(input[pos]) {
        spec_scan_digits(input, pos + 1)
    } else {
        pos
    }
}

/// The index of the first `"` at or after `pos`, or the input length if
/// there is none.
pub open spec fn spec_scan_quote(input: Seq<char>, pos: int) -> int
    decreases input.len() - pos,
{
    if 0 <= pos < input.len() {
        if input[pos] == '"' {
            pos
        } else {
            spec_scan_quote(input, pos + 1)
        }
    } else if pos < 0 {
        0
    } else {
        pos
    }
}

/// The token beginning at scan position `pos`, together with the scan
/// position of the token after it.
///
/// Whitespace before the token is skipped. Single-character operators and
/// delimiters map one to one; `=` and `!` look one character ahead to form
/// `==` and `!=`; a letter opens a keyword-or-identifier run; a digit opens
/// an integer run; `"` opens a string literal running to the next `"` (a
/// string still open at the end of the input yields an ILLEGAL token
/// holding the partial contents); NUL or the end of the input yields EOF,
/// repeatedly if polled again; any other character is ILLEGAL.
pub open spec fn spec_next_token(input: Seq<char>, pos0: int) -> (TokenV, int) {
    let pos = spec_skip_ws(input, pos0);
    let c = char_at(input, pos);
    if c == '\0' {
        (
            TokenV { token_type: TokenType::EOF, literal: seq!['\0'] },
            if pos < input.len() {
                pos + 1
            } else {
                pos
            },
        )
    } else if c == ';' {
        (TokenV { token_type: TokenType::SEMICOLON, literal: seq![c] }, pos + 1)
    } else if c == '=' {
        if char_at(input, pos + 1) == '=' {
            (TokenV { token_type: TokenType::EQ, literal: seq!['=', '='] }, pos + 2)
        } else {
            (TokenV { token_type: TokenType::ASSIGN, literal: seq![c] }, pos + 1)
        }
    } else if c == '+' {
        (TokenV { token_type: TokenType::PLUS, literal: seq![c] }, pos + 1)
    } else if c == '-' {
        (TokenV { token_type: TokenType::MINUS, literal: seq![c] }, pos + 1)
    } else if c == '*' {
        (TokenV { token_type: TokenType::ASTERISK, literal: seq![c] }, pos + 1)
    } else if c == '/' {
        (TokenV { token_type: TokenType::SLASH, literal: seq![c] }, pos + 1)
    } else if c == '<' {
        (TokenV { token_type: TokenType::LT, literal: seq![c] }, pos + 1)
    } else if c == '>' {
        (TokenV { token_type: TokenType::RT, literal: seq![c] }, pos + 1)
    } else if c == '!' {
        if char_at(input, pos + 1) == '=' {
            (TokenV { token_type: TokenType::NOT_EQ, literal: seq!['!', '='] }, pos + 2)
        } else {
            (TokenV { token_type: TokenType::BANG, literal: seq![c] }, pos + 1)
        }
    } else if c == '(' {
        (TokenV { token_type: TokenType::LPAREN, literal: seq![c] }, pos + 1)
    } else if c == ')' {
        (TokenV { token_type: TokenType::RPAREN, literal: seq![c] }, pos + 1)
    } else if c == '{' {
        (TokenV { token_type: TokenType::LBRACE, literal: seq![c] }, pos + 1)
    } else if c == '}' {
        (TokenV { token_type: TokenType::RBRACE, literal: seq![c] }, pos + 1)
    } else if c == ',' {
        (TokenV { token_type: TokenType::COMMA, literal: seq![c] }, pos + 1)
    } else if c == '%' {
        (TokenV { token_type: TokenType::MODULO, literal: seq![c] }, pos + 1)
    } else if spec_is_letter(c) {
        let end = spec_scan_letters(input, pos);
        let lit = input.subrange(pos, end);
        (TokenV { token_type: spec_lookup_ident(lit), literal: lit }, end)
    } else if spec_is_digit(c) {
        let end = spec_scan_digits(input, pos);
        (TokenV { token_type: TokenType::INT, literal: input.subrange(pos, end) }, end)
    } else if c == '"' {
        let end = spec_scan_quote(input, pos + 1);
        if end < input.len() {
            (
                TokenV { token_type: TokenType::STRING, literal: input.subrange(pos + 1, end) },
                end + 1,
            )
        } else {
            (
                TokenV { token_type: TokenType::ILLEGAL, literal: input.subrange(pos + 1, end) },
                end,
            )
        }
    } else {
        (TokenV { token_type: TokenType::ILLEGAL, literal: seq![c] }, pos + 1)
    }
}

/// The pull-based scanner. `position` indexes the current character,
/// `read_position` the one after it; `ch` caches the current character,
/// NUL at the end of the input.
pub struct Lexer {
    input: Vec<char>,
    position: usize,
    read_position: usize,
    ch: char,
}

impl Lexer {
    /// The characters being scanned.
    pub closed spec fn src(&self) -> Seq<char> {
        self.input@
    }

    /// The current scan position.
    pub closed spec fn at(&self) -> int {
        self.position as int
    }

    /// The cursor relationships that hold between calls of `next_token`.
    pub closed spec fn wf(&self) -> bool {
        &&& self.position <= self.input.len()
        &&& self.read_position == if self.position < self.input.len() {
            self.position + 1
        } else {
            self.position as int
        }
        &&& self.ch == char_at(self.input@, self.position as int)
    }

    pub fn new(input: &str) -> (l: Lexer)
        ensures
            l.wf(),
            l.src() == input@,
            l.at() == 0,
    {
        let mut l = Lexer {
            input: str_to_chars(input),
            position: 0,
            read_position: 0,
            ch: '\0',
        };
        l.read_char();
        l
    }

    /// Loads the character at `read_position` and steps the cursors.
    fn read_char(&mut self)
        requires
            old(self).read_position <= old(self).input.len(),
        ensures
            final(self).input == old(self).input,
            final(self).position == old(self).read_position,
            final(self).read_position == if final(self).position < final(self).input.len() {
                final(self).position + 1
            } else {
                final(self).position as int
            },
            final(self).ch == char_at(final(self).input@, final(self).position as int),
    {
        self.position = self.read_position;
        if self.read_position < self.input.len() {
            self.ch = self.input[self.read_position];
            self.read_position = self.read_position + 1;
        } else {
            self.ch = '\0';
        }
    }

    /// The character after the current one, NUL at or past the end.
    fn peek_char(&self) -> (c: char)
        requires
            self.wf(),
        ensures
            c == char_at(self.src(), self.at() + 1),
    {
        if self.read_position < self.input.len() {
            self.input[self.read_position]
        } else {
            '\0'
        }
    }

    /// Steps the cursors back one character; the cached character goes
    /// stale until the next `read_char`.
    fn revert_char(&mut self)
        requires
            old(self).position >= 1,
        ensures
            final(self).input == old(self).input,
            final(self).position == old(self).position - 1,
            final(self).read_position == old(self).position,
            final(self).ch == old(self).ch,
    {
        self.read_position = self.position;
        self.position = self.position - 1;
    }

    fn skip_whitespace(&mut self)
        requires
            old(self).wf(),
        ensures
            final(self).wf(),
            final(self).input == old(self).input,
            final(self).at() == spec_skip_ws(old(self).src(), old(self).at()),
    {
        while is_ws(self.ch)
            invariant
                self.wf(),
                self.input == old(self).input,
                spec_skip_ws(self.src(), self.at()) == spec_skip_ws(old(self).src(), old(self).at()),
            decreases self.input.len() - self.position,
        {
            assert(self.position < self.input.len());
            self.read_char();
        }
    }

    /// Scans a run of letters into a token, stepping back so the caller's
    /// trailing `read_char` lands just past the run.
    fn read_identifier(&mut self) -> (t: Token)
        requires
            old(self).wf(),
            spec_is_letter(char_at(old(self).src(), old(self).at())),
        ensures
            final(self).input == old(self).input,
            final(self).position == spec_scan_letters(old(self).src(), old(self).at()) - 1,
            final(self).read_position == spec_scan_letters(old(self).src(), old(self).at()),
            t@.token_type == TokenType::IDENT,
            t@.literal == old(self).src().subrange(
                old(self).at(),
                spec_scan_letters(old(self).src(), old(self).at()),
            ),
    {
        let mut ident: Vec<char> = Vec::new();
        while is_letter(self.ch)
            invariant
                self.wf(),
                self.input == old(self).input,
                old(self).at() <= self.at() <= self.input.len(),
                ident@ == self.src().subrange(old(self).at(), self.at()),
                spec_scan_letters(self.src(), self.at()) == spec_scan_letters(
                    old(self).src(),
                    old(self).at(),
                ),
            decreases self.input.len() - self.position,
        {
            assert(self.position < self.input.len());
            ident.push(self.ch);
            let ghost prev = self.at();
            self.read_char();
            assert(self.src().subrange(old(self).at(), prev + 1) =~= self.src().subrange(
                old(self).at(),
                prev,
            ).push(self.src()[prev]));
        }
        assert(spec_scan_letters(self.src(), self.at()) == self.at());
        assert(self.at() > old(self).at());
        self.revert_char();
        Token::new(TokenType::IDENT, chars_to_string(&ident))
    }

    /// Scans a run of digits into an INT token, stepping back like
    /// `read_identifier`.
    fn read_number(&mut self) -> (t: Token)
        requires
            old(self).wf(),
            spec_is_digit(char_at(old(self).src(), old(self).at())),
        ensures
            final(self).input == old(self).input,
            final(self).position == spec_scan_digits(old(self).src(), old(self).at()) - 1,
            final(self).read_position == spec_scan_digits(old(self).src(), old(self).at()),
            t@.token_type == TokenType::INT,
            t@.literal == old(self).src().subrange(
                old(self).at(),
                spec_scan_digits(old(self).src(), old(self).at()),
            ),
    {
        let mut number: Vec<char> = Vec::new();
        while is_digit(self.ch)
            invariant
                self.wf(),
                self.input == old(self).input,
                old(self).at() <= self.at() <= self.input.len(),
                number@ == self.src().subrange(old(self).at(), self.at()),
                spec_scan_digits(self.src(), self.at()) == spec_scan_digits(
                    old(self).src(),
                    old(self).at(),
                ),
            decreases self.input.len() - self.position,
        {
            assert(self.position < self.input.len());
            number.push(self.ch);
            let ghost prev = self.at();
            self.read_char();
            assert(self.src().subrange(old(self).at(), prev + 1) =~= self.src().subrange(
                old(self).at(),
                prev,
            ).push(self.src()[prev]));
        }
        assert(spec_scan_digits(self.src(), self.at()) == self.at());
        assert(self.at() > old(self).at());
        self.revert_char();
        Token::new(TokenType::INT, chars_to_string(&number))
    }

    /// Scans a string literal: the characters after the opening `"` up to
    /// the closing one. Leaves the position on the closing quote, so the
    /// caller's trailing `read_char` steps past it. A string still open at
    /// the end of the input yields ILLEGAL with the partial contents and
    /// leaves the position at the end.
    fn read_string(&mut self) -> (t: Token)
        requires
            old(self).wf(),
            char_at(old(self).src(), old(self).at()) == '"',
        ensures
            final(self).input == old(self).input,
            final(self).wf(),
            ({
                let end = spec_scan_quote(old(self).src(), old(self).at() + 1);
                if end < old(self).src().len() {
                    &&& t@.token_type == TokenType::STRING
                    &&& t@.literal == old(self).src().subrange(old(self).at() + 1, end)
                    &&& final(self).at() == end
                    &&& final(self).ch == '"'
                } else {
                    &&& t@.token_type == TokenType::ILLEGAL
                    &&& t@.literal == old(self).src().subrange(old(self).at() + 1, end)
                    &&& final(self).at() == end
                }
            }),
    {
        let mut contents: Vec<char> = Vec::new();
        let mut j: usize = self.position + 1;
        while j < self.input.len() && self.input[j] != '"'
            invariant
                self.wf(),
                self.input == old(self).input,
                old(self).at() + 1 <= j <= self.input.len(),
                contents@ == self.src().subrange(old(self).at() + 1, j as int),
                spec_scan_quote(self.src(), j as int) == spec_scan_quote(
                    old(self).src(),
                    old(self).at() + 1,
                ),
            decreases self.input.len() - j,
        {
            contents.push(self.input[j]);
            assert(self.src().subrange(old(self).at() + 1, j + 1 as int) =~= self.src().subrange(
                old(self).at() + 1,
                j as int,
            ).push(self.src()[j as int]));
            j = j + 1;
        }
        assert(spec_scan_quote(self.src(), j as int) == j);
        if j < self.input.len() {
            self.position = j;
            self.read_position = j + 1;
            self.ch = '"';
            Token::new(TokenType::STRING, chars_to_string(&contents))
        } else {
            self.position = j;
            self.read_position = j;
            self.ch = '\0';
            Token::new(TokenType::ILLEGAL, chars_to_string(&contents))
        }
    }

    /// Produces the next token of the input, exactly as [`spec_next_token`]
    /// assigns it to the current position.
    pub fn next_token(&mut self) -> (t: Token)
        requires
            old(self).wf(),
        ensures
            final(self).wf(),
            final(self).src() == old(self).src(),
            t@ == spec_next_token(old(self).src(), old(self).at()).0,
            final(self).at() == spec_next_token(old(self).src(), old(self).at()).1,
    {
        self.skip_whitespace();
        let ghost spos = self.at();
        let tok: Token;
        if self.ch == ';' {
            tok = Token::new(TokenType::SEMICOLON, single_char_string(self.ch));
        } else if self.ch == '=' {
            if self.peek_char() == '=' {
                self.read_char();
                self.read_char();
                let t = Token::new(TokenType::EQ, two_char_string('=', '='));
                assert(t@.literal =~= seq!['=', '=']);
                return t;
            }
            tok = Token::new(TokenType::ASSIGN, single_char_string(self.ch));
        } else if self.ch == '+' {
            tok = Token::new(TokenType::PLUS, single_char_string(self.ch));
        } else if self.ch == '-' {
            tok = Token::new(TokenType::MINUS, single_char_string(self.ch));
        } else if self.ch == '*' {
            tok = Token::new(TokenType::ASTERISK, single_char_string(self.ch));
        } else if self.ch == '/' {
            tok = Token::new(TokenType::SLASH, single_char_string(self.ch));
        } else if self.ch == '<' {
            tok = Token::new(TokenType::LT, single_char_string(self.ch));
        } else if self.ch == '>' {
            tok = Token::new(TokenType::RT, single_char_string(self.ch));
        } else if self.ch == '!' {
            if self.peek_char() == '=' {
                self.read_char();
                self.read_char();
                let t = Token::new(TokenType::NOT_EQ, two_char_string('!', '='));
                assert(t@.literal =~= seq!['!', '=']);
                return t;
            }
            tok = Token::new(TokenType::BANG, single_char_string(self.ch));
        } else if self.ch == '(' {
            tok = Token::new(TokenType::LPAREN, single_char_string(self.ch));
        } else if self.ch == ')' {
            tok = Token::new(TokenType::RPAREN, single_char_string(self.ch));
        } else if self.ch == '{' {
            tok = Token::new(TokenType::LBRACE, single_char_string(self.ch));
        } else if self.ch == '}' {
            tok = Token::new(TokenType::RBRACE, single_char_string(self.ch));
        } else if self.ch == ',' {
            tok = Token::new(TokenType::COMMA, single_char_string(self.ch));
        } else if self.ch == '%' {
            tok = Token::new(TokenType::MODULO, single_char_string(self.ch));
        } else if self.ch == '\0' {
            tok = Token::new(TokenType::EOF, single_char_string(self.ch));
        } else if is_letter(self.ch) {
            proof {
                lemma_scan_letters_bounds(self.src(), spos);
            }
            let mut t = self.read_identifier();
            t.token_type = crate::token::lookup_ident(t.literal.as_str());
            self.read_char();
            assert(t@ == spec_next_token(old(self).src(), old(self).at()).0);
            return t;
        } else if is_digit(self.ch) {
            proof {
                lemma_scan_digits_bounds(self.src(), spos);
            }
            let t = self.read_number();
            self.read_char();
            return t;
        } else if self.ch == '"' {
            proof {
                lemma_scan_quote_bounds(self.src(), spos + 1);
            }
            let t = self.read_string();
            if self.position < self.input.len() {
                self.read_char();
            }
            return t;
        } else {
            tok = Token::new(TokenType::ILLEGAL, single_char_string(self.ch));
        }
        self.read_char();
        assert(tok@.literal =~= seq![char_at(old(self).src(), spos)]);
        tok
    }
}

/// A one-character string.
fn single_char_string(c: char) -> (s: String)
    ensures
        s@ == seq![c],
{
    let mut s = String::new();
    crate::strutil::push_char(&mut s, c);
    assert(s@ =~= seq![c]);
    s
}

/// A two-character string.
fn two_char_string(a: char, b: char) -> (s: String)
    ensures
        s@ == seq![a, b],
{
    let mut s = String::new();
    crate::strutil::push_char(&mut s, a);
    crate::strutil::push_char(&mut s, b);
    assert(s@ =~= seq![a, b]);
    s
}

/// The next scan position never moves backward, and moves strictly
/// forward for every token but EOF. EOF is reached exactly at the end of
/// the input, so polling past the end yields EOF forever.
pub proof fn lemma_next_token_progress(input: Seq<char>, pos: int)
    requires
        0 <= pos <= input.len(),
    ensures
        pos <= spec_next_token(input, pos).1 <= input.len(),
        spec_next_token(input, pos).0.token_type != TokenType::EOF ==> spec_next_token(
            input,
            pos,
        ).1 > pos,
{
    lemma_skip_ws_bounds(input, pos);
    let p = spec_skip_ws(input, pos);
    let c = char_at(input, p);
    if c == '\0' {
    } else {
        assert(p < input.len());
        if spec_is_letter(c) {
            lemma_scan_letters_bounds(input, p);
        } else if spec_is_digit(c) {
            lemma_scan_digits_bounds(input, p);
        } else if c == '"' && !(c == ';' || c == '=' || c == '+' || c == '-' || c == '*' || c == '/'
            || c == '<' || c == '>' || c == '!' || c == '(' || c == ')' || c == '{' || c == '}'
            || c == ',' || c == '%') {
            lemma_scan_quote_bounds(input, p + 1);
        }
    }
}

pub proof fn lemma_skip_ws_bounds(input: Seq<char>, pos: int)
    requires
        0 <= pos <= input.len(),
    ensures
        pos <= spec_skip_ws(input, pos) <= input.len(),
        !spec_is_ws(char_at(input, spec_skip_ws(input, pos))),
    decreases input.len() - pos,
{
    if pos < input.len() && spec_is_ws(input[pos]) {
        lemma_skip_ws_bounds(input, pos + 1);
    }
}

pub proof fn lemma_scan_letters_bounds(input: Seq<char>, pos: int)
    requires
        0 <= pos <= input.len(),
    ensures
        pos <= spec_scan_letters(input, pos) <= input.len(),
        spec_is_letter(char_at(input, pos)) ==> spec_scan_letters(input, pos) > pos,
        !spec_is_letter(char_at(input, spec_scan_letters(input, pos))),
        forall|j: int|
            pos <= j < spec_scan_letters(input, pos) ==> spec_is_letter(#[trigger] input[j]),
    decreases input.len() - pos,
{
    if pos < input.len() && spec_is_letter(input[pos]) {
        lemma_scan_letters_bounds(input, pos + 1);
    }
}

pub proof fn lemma_scan_digits_bounds(input: Seq<char>, pos: int)
    requires
        0 <= pos <= input.len(),
    ensures
        pos <= spec_scan_digits(input, pos) <= input.len(),
        spec_is_digit(char_at(input, pos)) ==> spec_scan_digits(input, pos) > pos,
        !spec_is_digit(char_at(input, spec_scan_digits(input, pos))),
        forall|j: int|
            pos <= j < spec_scan_digits(input, pos) ==> spec_is_digit(#[trigger] input[j]),
    decreases input.len() - pos,
{
    if pos < input.len() && spec_is_digit(input[pos]) {
        lemma_scan_digits_bounds(input, pos + 1);
    }
}

pub proof fn lemma_scan_quote_bounds(input: Seq<char>, pos: int)
    requires
        0 <= pos <= input.len(),
    ensures
        pos <= spec_scan_quote(input, pos) <= input.len(),
    decreases input.len() - pos,
{
    if pos < input.len() && input[pos] != '"' {
        lemma_scan_quote_bounds(input, pos + 1);
    }
}

/// Adjacent `=` characters always lex as the single token `==`, and `!`
/// followed by `=` as the single token `!=`; neither is ever two tokens.
pub proof fn lemma_two_char_operators(input: Seq<char>, pos: int)
    requires
        0 <= pos,
        !spec_is_ws(char_at(input, pos)),
    ensures
        char_at(input, pos) == '=' && char_at(input, pos + 1) == '=' ==> spec_next_token(input, pos)
            == (TokenV { token_type: TokenType::EQ, literal: seq!['=', '='] }, pos + 2),
        char_at(input, pos) == '!' && char_at(input, pos + 1) == '=' ==> spec_next_token(input, pos)
            == (TokenV { token_type: TokenType::NOT_EQ, literal: seq!['!', '='] }, pos + 2),
{
    assert(spec_skip_ws(input, pos) == pos);
}

/// Keywords are recognized only as whole alphabetic runs: the token
/// scanned at a letter covers the entire maximal run of letters, and its
/// kind is the keyword table's answer for exactly that run. A word such as
/// `lettuce` therefore lexes as one IDENT, never as `let` plus a rest.
pub proof fn lemma_keyword_whole_run(input: Seq<char>, pos: int)
    requires
        0 <= pos <= input.len(),
        !spec_is_ws(char_at(input, pos)),
        spec_is_letter(char_at(input, pos)),
    ensures
        ({
            let end = spec_scan_letters(input, pos);
            let run = input.subrange(pos, end);
            &&& spec_next_token(input, pos) == (
                TokenV { token_type: spec_lookup_ident(run), literal: run },
                end,
            )
            &&& !spec_is_letter(char_at(input, end))
            &&& forall|j: int| pos <= j < end ==> spec_is_letter(#[trigger] input[j])
        }),
{
    assert(spec_skip_ws(input, pos) == pos);
    lemma_scan_letters_bounds(input, pos);
}

} // verus!
