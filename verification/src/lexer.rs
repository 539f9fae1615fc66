//! The lexer: from source text to a flat sequence of tokens that ends with an
//! end-of-input marker.

use vstd::prelude::*;
use vstd::slice::slice_subrange;
use crate::text::{
    char_is_alpha, char_is_digit, char_is_space, is_alpha, is_digit, is_space, string_from_chars,
    to_chars,
};

verus! {

/// The kinds of token.
#[derive(Clone, Copy, PartialEq, Eq, Hash, Debug, Structural)]
pub enum TokenKind {
    Identifier,
    Number,
    String,
    LeftParen,
    RightParen,
    LeftBrace,
    RightBrace,
    Comma,
    Semicolon,
    Colon,
    Equals,
    Period,
    Plus,
    Minus,
    Star,
    Slash,
    LessThan,
    GreaterThan,
    TrueKeyword,
    FalseKeyword,
    NullKeyword,
    FnKeyword,
    LetKeyword,
    ReturnKeyword,
    IfKeyword,
    WhileKeyword,
    EndOfFile,
}

/// A token: a piece of the source text and its kind.
#[derive(Debug, PartialEq, Eq)]
pub struct Token {
    pub text: String,
    pub kind: TokenKind,
}

/// The mathematical content of a [`Token`].
pub struct TokenView {
    pub text: Seq<char>,
    pub kind: TokenKind,
}

impl View for Token {
    type V = TokenView;

    open spec fn view(&self) -> TokenView {
        TokenView { text: self.text@, kind: self.kind }
    }
}

/// The views of a sequence of tokens.
pub open spec fn tokens_view(s: Seq<Token>) -> Seq<TokenView> {
    Seq::new(s.len(), |i: int| s[i]@)
}

/// Why a source text has no tokens.
#[derive(Clone, Copy, PartialEq, Eq, Debug, Structural)]
pub enum LexError {
    /// This character starts no token.
    InvalidChar(char),
}

/// The kind of the token that a symbol makes on its own.
pub open spec fn symbol_kind(c: char) -> Option<TokenKind> {
    if c == '(' {
        Some(TokenKind::LeftParen)
    } else if c == ')' {
        Some(TokenKind::RightParen)
    } else if c == '{' {
        Some(TokenKind::LeftBrace)
    } else if c == '}' {
        Some(TokenKind::RightBrace)
    } else if c == ',' {
        Some(TokenKind::Comma)
    } else if c == ';' {
        Some(TokenKind::Semicolon)
    } else if c == ':' {
        Some(TokenKind::Colon)
    } else if c == '+' {
        Some(TokenKind::Plus)
    } else if c == '-' {
        Some(TokenKind::Minus)
    } else if c == '*' {
        Some(TokenKind::Star)
    } else if c == '/' {
        Some(TokenKind::Slash)
    } else if c == '=' {
        Some(TokenKind::Equals)
    } else if c == '<' {
        Some(TokenKind::LessThan)
    } else if c == '>' {
        Some(TokenKind::GreaterThan)
    } else if c == '.' {
        Some(TokenKind::Period)
    } else {
        None
    }
}

/// The kind of a run of letters and underscores: that of the keyword it
/// spells, or an identifier.
pub open spec fn keyword_kind(text: Seq<char>) -> TokenKind {
    if text == "fn"@ {
        TokenKind::FnKeyword
    } else if text == "let"@ {
        TokenKind::LetKeyword
    } else if text == "return"@ {
        TokenKind::ReturnKeyword
    } else if text == "if"@ {
        TokenKind::IfKeyword
    } else if text == "while"@ {
        TokenKind::WhileKeyword
    } else if text == "true"@ {
        TokenKind::TrueKeyword
    } else if text == "false"@ {
        TokenKind::FalseKeyword
    } else if text == "null"@ {
        TokenKind::NullKeyword
    } else {
        TokenKind::Identifier
    }
}

/// A character of an identifier or keyword: a letter or an underscore.
pub open spec fn is_word_char(c: char) -> bool {
    is_alpha(c) || c == '_'
}

/// Any character but the double quote.
pub open spec fn is_not_quote(c: char) -> bool {
    c != '"'
}

/// The end of the longest run of characters that satisfy `pred`, from `pos` on.
pub open spec fn run_end(src: Seq<char>, pos: int, pred: spec_fn(char) -> bool) -> int
    decreases src.len() - pos,
{
    if 0 <= pos < src.len() && pred(src[pos]) {
        run_end(src, pos + 1, pred)
    } else {
        pos
    }
}

/// A run ends at or after its start and within the text; every character of
/// it satisfies the predicate, and the character after it does not.
pub proof fn lemma_run_end(src: Seq<char>, pos: int, pred: spec_fn(char) -> bool)
    requires
        0 <= pos <= src.len(),
    ensures
        pos <= run_end(src, pos, pred) <= src.len(),
        pos < src.len() && pred(src[pos]) ==> pos < run_end(src, pos, pred),
        forall|j: int| pos <= j < run_end(src, pos, pred) ==> pred(#[trigger] src[j]),
        run_end(src, pos, pred) < src.len() ==> !pred(src[run_end(src, pos, pred)]),
    decreases src.len() - pos,
{
    if pos < src.len() && pred(src[pos]) {
        lemma_run_end(src, pos + 1, pred);
    }
}

/// The end of the string literal whose opening quote stands at `pos`: after
/// the next double quote, or the end of the text where there is none.
pub open spec fn string_end(src: Seq<char>, pos: int) -> int {
    let close = run_end(src, pos + 1, |c: char| is_not_quote(c));
    if close < src.len() {
        close + 1
    } else {
        close
    }
}

/// The token that ends the sequence.
pub open spec fn end_of_file() -> TokenView {
    TokenView { text: "\0"@, kind: TokenKind::EndOfFile }
}

/// The lexeme that starts at `pos`: the token it makes, if it makes one, and
/// where it ends. A digit starts a number, a letter or an underscore a word,
/// whitespace is passed over, a symbol stands alone, and a double quote starts
/// a string literal, which is taken with its quotes. Any other character is
/// invalid.
pub open spec fn next_lexeme(src: Seq<char>, pos: int) -> Result<(Option<TokenView>, int), LexError>
    recommends
        0 <= pos < src.len(),
{
    let c = src[pos];
    if is_digit(c) {
        let end = run_end(src, pos, |c: char| is_digit(c));
        Ok((Some(TokenView { text: src.subrange(pos, end), kind: TokenKind::Number }), end))
    } else if is_word_char(c) {
        let end = run_end(src, pos, |c: char| is_word_char(c));
        let text = src.subrange(pos, end);
        Ok((Some(TokenView { text, kind: keyword_kind(text) }), end))
    } else if is_space(c) {
        Ok((None, run_end(src, pos, |c: char| is_space(c))))
    } else if symbol_kind(c) is Some {
        Ok(
            (
                Some(TokenView { text: src.subrange(pos, pos + 1), kind: symbol_kind(c).unwrap() }),
                pos + 1,
            ),
        )
    } else if c == '"' {
        let end = string_end(src, pos);
        Ok((Some(TokenView { text: src.subrange(pos, end), kind: TokenKind::String }), end))
    } else {
        Err(LexError::InvalidChar(c))
    }
}

/// A lexeme ends after its start and within the text.
pub proof fn lemma_next_lexeme(src: Seq<char>, pos: int)
    requires
        0 <= pos < src.len(),
    ensures
        next_lexeme(src, pos) matches Ok((_, end)) ==> pos < end <= src.len(),
{
    lemma_run_end(src, pos, |c: char| is_digit(c));
    lemma_run_end(src, pos, |c: char| is_word_char(c));
    lemma_run_end(src, pos, |c: char| is_space(c));
    lemma_run_end(src, pos + 1, |c: char| is_not_quote(c));
}

/// The tokens of the text from `pos` on, with the end-of-input token last, or
/// the first invalid character.
pub open spec fn lex_from(src: Seq<char>, pos: int) -> Result<Seq<TokenView>, LexError>
    decreases src.len() - pos,
{
    if pos < 0 || pos >= src.len() {
        Ok(seq![end_of_file()])
    } else {
        match next_lexeme(src, pos) {
            Err(e) => Err(e),
            Ok(lexeme) => {
                proof {
                    lemma_next_lexeme(src, pos);
                }
                match lex_from(src, lexeme.1) {
                    Err(e) => Err(e),
                    Ok(rest) => Ok(
                        match lexeme.0 {
                            Some(t) => seq![t] + rest,
                            None => rest,
                        },
                    ),
                }
            },
        }
    }
}

/// The tokens of a text end with the end-of-input token.
pub proof fn lemma_lex_ends_with_end_of_file(src: Seq<char>, pos: int)
    ensures
        lex_from(src, pos) matches Ok(tokens) ==> tokens.len() > 0 && tokens.last()
            == end_of_file(),
    decreases src.len() - pos,
{
    if 0 <= pos < src.len() {
        match next_lexeme(src, pos) {
            Ok(lexeme) => {
                lemma_next_lexeme(src, pos);
                lemma_lex_ends_with_end_of_file(src, lexeme.1);
            },
            Err(_) => {},
        }
    }
}

/// The tokens of a source text.
pub open spec fn lex(src: Seq<char>) -> Result<Seq<TokenView>, LexError> {
    lex_from(src, 0)
}

/// The view of the result of lexing.
pub open spec fn lex_result(r: Result<Vec<Token>, LexError>) -> Result<Seq<TokenView>, LexError> {
    match r {
        Ok(tokens) => Ok(tokens_view(tokens@)),
        Err(e) => Err(e),
    }
}

/// What is left to do for a lexer that has made `done` and stands at `pos`.
pub open spec fn lex_rest(done: Seq<TokenView>, src: Seq<char>, pos: int) -> Result<
    Seq<TokenView>,
    LexError,
> {
    match lex_from(src, pos) {
        Ok(rest) => Ok(done + rest),
        Err(e) => Err(e),
    }
}

impl Token {
    fn new(text: String, kind: TokenKind) -> (t: Token)
        ensures
            t@ == (TokenView { text: text@, kind }),
    {
        Token { text, kind }
    }
}

fn symbol_of(c: char) -> (r: Option<TokenKind>)
    ensures
        r == symbol_kind(c),
{
    if c == '(' {
        Some(TokenKind::LeftParen)
    } else if c == ')' {
        Some(TokenKind::RightParen)
    } else if c == '{' {
        Some(TokenKind::LeftBrace)
    } else if c == '}' {
        Some(TokenKind::RightBrace)
    } else if c == ',' {
        Some(TokenKind::Comma)
    } else if c == ';' {
        Some(TokenKind::Semicolon)
    } else if c == ':' {
        Some(TokenKind::Colon)
    } else if c == '+' {
        Some(TokenKind::Plus)
    } else if c == '-' {
        Some(TokenKind::Minus)
    } else if c == '*' {
        Some(TokenKind::Star)
    } else if c == '/' {
        Some(TokenKind::Slash)
    } else if c == '=' {
        Some(TokenKind::Equals)
    } else if c == '<' {
        Some(TokenKind::LessThan)
    } else if c == '>' {
        Some(TokenKind::GreaterThan)
    } else if c == '.' {
        Some(TokenKind::Period)
    } else {
        None
    }
}

fn spells(text: &String, word: &str) -> (b: bool)
    ensures
        b == (text@ == word@),
{
    *text == word.to_owned()
}

fn keyword_of(text: &String) -> (kind: TokenKind)
    ensures
        kind == keyword_kind(text@),
{
    if spells(text, "fn") {
        TokenKind::FnKeyword
    } else if spells(text, "let") {
        TokenKind::LetKeyword
    } else if spells(text, "return") {
        TokenKind::ReturnKeyword
    } else if spells(text, "if") {
        TokenKind::IfKeyword
    } else if spells(text, "while") {
        TokenKind::WhileKeyword
    } else if spells(text, "true") {
        TokenKind::TrueKeyword
    } else if spells(text, "false") {
        TokenKind::FalseKeyword
    } else if spells(text, "null") {
        TokenKind::NullKeyword
    } else {
        TokenKind::Identifier
    }
}

/// The lexer: the source text, the tokens made so far and the place reached.
#[derive(Debug)]
pub struct Lexer {
    source: Vec<char>,
    tokens: Vec<Token>,
    position: usize,
}

impl Lexer {
    /// The source text.
    pub closed spec fn source(&self) -> Seq<char> {
        self.source@
    }

    /// The place reached in the source text.
    pub closed spec fn position(&self) -> int {
        self.position as int
    }

    /// The tokens made so far.
    pub closed spec fn tokens(&self) -> Seq<TokenView> {
        tokens_view(self.tokens@)
    }

    /// A lexer at the start of `source`.
    pub fn new(source: String) -> (lexer: Lexer)
        ensures
            lexer.source() == source@,
            lexer.position() == 0,
            lexer.tokens() == Seq::<TokenView>::empty(),
    {
        let lexer = Lexer { source: to_chars(source.as_str()), tokens: Vec::new(), position: 0 };
        assert(lexer.tokens() =~= Seq::<TokenView>::empty());
        lexer
    }

    fn current(&self) -> (c: Option<char>)
        ensures
            match c {
                Some(c) => self.position() < self.source().len() && c == self.source()[
                    self.position()
                ],
                None => self.position() >= self.source().len(),
            },
    {
        if self.position < self.source.len() {
            Some(self.source[self.position])
        } else {
            None
        }
    }

    fn advance(&mut self)
        requires
            old(self).position() < old(self).source().len(),
        ensures
            final(self).position() == old(self).position() + 1,
            final(self).source() == old(self).source(),
            final(self).tokens() == old(self).tokens(),
    {
        assert(self.source@.len() == self.source.len());
        self.position = self.position + 1;
    }

    fn push_token(&mut self, start: usize, kind: TokenKind)
        requires
            start <= old(self).position() <= old(self).source().len(),
        ensures
            final(self).position() == old(self).position(),
            final(self).source() == old(self).source(),
            final(self).tokens() == old(self).tokens().push(
                TokenView {
                    text: old(self).source().subrange(start as int, old(self).position()),
                    kind,
                },
            ),
    {
        let text = string_from_chars(slice_subrange(self.source.as_slice(), start, self.position));
        self.tokens.push(Token::new(text, kind));
        assert(final(self).tokens() =~= old(self).tokens().push(
            TokenView {
                text: old(self).source().subrange(start as int, old(self).position()),
                kind,
            },
        ));
    }

    fn push_word(&mut self, start: usize)
        requires
            start <= old(self).position() <= old(self).source().len(),
        ensures
            final(self).position() == old(self).position(),
            final(self).source() == old(self).source(),
            final(self).tokens() == old(self).tokens().push(
                TokenView {
                    text: old(self).source().subrange(start as int, old(self).position()),
                    kind: keyword_kind(
                        old(self).source().subrange(start as int, old(self).position()),
                    ),
                },
            ),
    {
        let text = string_from_chars(slice_subrange(self.source.as_slice(), start, self.position));
        let kind = keyword_of(&text);
        self.tokens.push(Token::new(text, kind));
        assert(final(self).tokens() =~= old(self).tokens().push(
            TokenView {
                text: old(self).source().subrange(start as int, old(self).position()),
                kind,
            },
        ));
    }

    fn scan_string(&mut self)
        requires
            old(self).position() < old(self).source().len(),
        ensures
            final(self).source() == old(self).source(),
            final(self).position() == string_end(old(self).source(), old(self).position()),
            final(self).tokens() == old(self).tokens().push(
                TokenView {
                    text: old(self).source().subrange(old(self).position(), final(self).position()),
                    kind: TokenKind::String,
                },
            ),
    {
        let start = self.position;
        self.advance();
        let ghost pred = |c: char| is_not_quote(c);
        loop
            invariant
                self.source() == old(self).source(),
                self.tokens() == old(self).tokens(),
                start == old(self).position(),
                start < self.position() <= self.source().len(),
                pred == (|c: char| is_not_quote(c)),
                run_end(self.source(), start + 1, pred) == run_end(
                    self.source(),
                    self.position(),
                    pred,
                ),
            ensures
                self.source() == old(self).source(),
                self.tokens() == old(self).tokens(),
                start == old(self).position(),
                start < self.position() <= self.source().len(),
                self.position() == run_end(self.source(), start + 1, |c: char| is_not_quote(c)),
            decreases self.source().len() - self.position(),
        {
            match self.current() {
                Some(c) => {
                    if c == '"' {
                        break ;
                    }
                    self.advance();
                },
                None => {
                    break ;
                },
            }
        }
        if self.position < self.source.len() {
            self.advance();
        }
        self.push_token(start, TokenKind::String);
    }

    fn scan_number(&mut self)
        requires
            old(self).position() < old(self).source().len(),
        ensures
            final(self).source() == old(self).source(),
            final(self).position() == run_end(
                old(self).source(),
                old(self).position(),
                |c: char| is_digit(c),
            ),
            final(self).tokens() == old(self).tokens().push(
                TokenView {
                    text: old(self).source().subrange(old(self).position(), final(self).position()),
                    kind: TokenKind::Number,
                },
            ),
    {
        let start = self.position;
        let ghost pred = |c: char| is_digit(c);
        loop
            invariant
                self.source() == old(self).source(),
                self.tokens() == old(self).tokens(),
                start == old(self).position(),
                start <= self.position() <= self.source().len(),
                pred == (|c: char| is_digit(c)),
                run_end(self.source(), start as int, pred) == run_end(
                    self.source(),
                    self.position(),
                    pred,
                ),
            ensures
                self.source() == old(self).source(),
                self.tokens() == old(self).tokens(),
                start == old(self).position(),
                start <= self.position() <= self.source().len(),
                self.position() == run_end(self.source(), start as int, |c: char| is_digit(c)),
            decreases self.source().len() - self.position(),
        {
            match self.current() {
                Some(c) => {
                    if !char_is_digit(c) {
                        break ;
                    }
                    self.advance();
                },
                None => {
                    break ;
                },
            }
        }
        self.push_token(start, TokenKind::Number);
    }

    fn scan_identifier(&mut self)
        requires
            old(self).position() < old(self).source().len(),
        ensures
            final(self).source() == old(self).source(),
            final(self).position() == run_end(
                old(self).source(),
                old(self).position(),
                |c: char| is_word_char(c),
            ),
            final(self).tokens() == old(self).tokens().push(
                TokenView {
                    text: old(self).source().subrange(old(self).position(), final(self).position()),
                    kind: keyword_kind(
                        old(self).source().subrange(old(self).position(), final(self).position()),
                    ),
                },
            ),
    {
        let start = self.position;
        let ghost pred = |c: char| is_word_char(c);
        loop
            invariant
                self.source() == old(self).source(),
                self.tokens() == old(self).tokens(),
                start == old(self).position(),
                start <= self.position() <= self.source().len(),
                pred == (|c: char| is_word_char(c)),
                run_end(self.source(), start as int, pred) == run_end(
                    self.source(),
                    self.position(),
                    pred,
                ),
            ensures
                self.source() == old(self).source(),
                self.tokens() == old(self).tokens(),
                start == old(self).position(),
                start <= self.position() <= self.source().len(),
                self.position() == run_end(self.source(), start as int, |c: char| is_word_char(c)),
            decreases self.source().len() - self.position(),
        {
            match self.current() {
                Some(c) => {
                    if !char_is_alpha(c) && c != '_' {
                        break ;
                    }
                    self.advance();
                },
                None => {
                    break ;
                },
            }
        }
        self.push_word(start);
    }

    fn skip_whitespace(&mut self)
        requires
            old(self).position() < old(self).source().len(),
        ensures
            final(self).source() == old(self).source(),
            final(self).tokens() == old(self).tokens(),
            final(self).position() == run_end(
                old(self).source(),
                old(self).position(),
                |c: char| is_space(c),
            ),
    {
        let ghost start = self.position();
        let ghost pred = |c: char| is_space(c);
        loop
            invariant
                self.source() == old(self).source(),
                self.tokens() == old(self).tokens(),
                start == old(self).position(),
                start <= self.position() <= self.source().len(),
                pred == (|c: char| is_space(c)),
                run_end(self.source(), start, pred) == run_end(
                    self.source(),
                    self.position(),
                    pred,
                ),
            ensures
                self.source() == old(self).source(),
                self.tokens() == old(self).tokens(),
                self.position() == run_end(self.source(), start, |c: char| is_space(c)),
            decreases self.source().len() - self.position(),
        {
            match self.current() {
                Some(c) => {
                    if !char_is_space(c) {
                        break ;
                    }
                    self.advance();
                },
                None => {
                    break ;
                },
            }
        }
    }

    /// Makes the tokens of the rest of the source text and returns all tokens,
    /// the end-of-input token last. Fails at the first character that starts
    /// no token.
    pub fn scan_tokens(self) -> (r: Result<Vec<Token>, LexError>)
        ensures
            lex_result(r) == lex_rest(self.tokens(), self.source(), self.position()),
    {
        let mut lexer = self;
        let ghost src = lexer.source();
        let ghost goal = lex_rest(lexer.tokens(), lexer.source(), lexer.position());
        loop
            invariant
                lexer.source() == src,
                goal == lex_rest(self.tokens(), self.source(), self.position()),
                lex_rest(lexer.tokens(), src, lexer.position()) == goal,
            ensures
                lexer.source() == src,
                lex_rest(lexer.tokens(), src, lexer.position()) == goal,
                lexer.position() >= src.len(),
            decreases src.len() - lexer.position(),
        {
            let ghost pos = lexer.position();
            let ghost done = lexer.tokens();
            let current = match lexer.current() {
                Some(c) => c,
                None => {
                    break ;
                },
            };
            proof {
                lemma_next_lexeme(src, pos);
            }
            if char_is_digit(current) {
                lexer.scan_number();
            } else if char_is_alpha(current) || current == '_' {
                lexer.scan_identifier();
            } else if char_is_space(current) {
                lexer.skip_whitespace();
            } else if symbol_of(current).is_some() {
                lexer.advance();
                lexer.push_token(lexer.position - 1, symbol_of(current).unwrap());
            } else if current == '"' {
                lexer.scan_string();
            } else {
                return Err(LexError::InvalidChar(current));
            }
            proof {
                match lex_from(src, lexer.position()) {
                    Ok(rest) => {
                        match next_lexeme(src, pos)->Ok_0.0 {
                            Some(t) => {
                                assert(done + (seq![t] + rest) =~= done.push(t) + rest);
                            },
                            None => {},
                        }
                    },
                    Err(_) => {},
                }
            }
        }
        let ghost made = lexer.tokens();
        lexer.tokens.push(Token::new("\0".to_owned(), TokenKind::EndOfFile));
        assert(tokens_view(lexer.tokens@) =~= made + seq![end_of_file()]);
        Ok(lexer.tokens)
    }
}

/// The tokens of a source text, the end-of-input token last, or the first
/// character that starts no token.
pub fn tokenize(source: &str) -> (r: Result<Vec<Token>, LexError>)
    ensures
        lex_result(r) == lex(source@),
{
    let lexer = Lexer::new(source.to_owned());
    assert(Seq::<TokenView>::empty() + lex_from(source@, 0)->Ok_0 =~= lex_from(source@, 0)->Ok_0);
    lexer.scan_tokens()
}

} // verus!
