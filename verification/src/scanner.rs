//! The scanner: source characters to tokens with source coordinates.
use crate::lexis::{
    byte_offset, closing, column_at, comment_len, comment_len_bounds, coordinate_at, digits_len,
    is_alpha,
    is_alphanumeric, is_digit, is_space, lexed_at, line_at, number_at, quote_distance, scan_at,
    utf8_width,
    scan_from,
    skip_trivia, skip_trivia_bounds, token_at, word_len, word_literal, word_type, Lexed,
};
pub use crate::lexis::LexicalError;
use crate::token::{Coordinate, Literal, LiteralView, Token, TokenType, TokenView};
use vstd::prelude::*;

verus! {

/// Lines and columns never exceed the position they belong to by more
/// than one, and a character takes four bytes at most.
pub proof fn place_bounds(s: Seq<char>, p: int)
    requires
        0 <= p,
    ensures
        1 <= line_at(s, p) <= p + 1,
        1 <= column_at(s, p) <= p + 1,
        p <= byte_offset(s, p) <= 4 * p,
    decreases p,
{
    if p > 0 {
        place_bounds(s, p - 1);
    }
}

fn width(c: char) -> (r: u128)
    ensures
        r == utf8_width(c),
{
    let v = c as u32;
    if v < 0x80 {
        1
    } else if v < 0x800 {
        2
    } else if v < 0x10000 {
        3
    } else {
        4
    }
}

fn digit_char(c: char) -> (r: bool)
    ensures
        r == is_digit(c),
{
    '0' <= c && c <= '9'
}

fn alpha_char(c: char) -> (r: bool)
    ensures
        r == is_alpha(c),
{
    ('a' <= c && c <= 'z') || ('A' <= c && c <= 'Z') || c == '_'
}

fn space_char(c: char) -> (r: bool)
    ensures
        r == is_space(c),
{
    c == ' ' || c == '\r' || c == '\t' || c == '\n'
}

/// The characters of a source text, each handed out with its coordinate.
#[derive(Debug)]
pub struct CharWithCoordinate {
    chars: Vec<char>,
    position: usize,
    offset: u128,
    line: usize,
    column: usize,
}

impl CharWithCoordinate {
    /// The whole source text.
    pub closed spec fn source(&self) -> Seq<char> {
        self.chars@
    }

    /// How many characters have been handed out.
    pub closed spec fn position(&self) -> int {
        self.position as int
    }

    /// The index, the line and the column on record are those of the
    /// next character.
    pub closed spec fn wf(&self) -> bool {
        &&& self.position <= self.chars.len()
        &&& byte_offset(self.chars@, self.chars@.len() as int) <= usize::MAX
        &&& self.offset == byte_offset(self.chars@, self.position as int)
        &&& self.position < self.chars.len() ==> {
            &&& self.line == line_at(self.chars@, self.position as int)
            &&& self.column == column_at(self.chars@, self.position as int)
        }
    }

    pub proof fn position_in_source(&self)
        requires
            self.wf(),
        ensures
            0 <= self.position() <= self.source().len(),
            self.source().len() <= usize::MAX,
            byte_offset(self.source(), self.source().len() as int) <= usize::MAX,
    {
    }

    pub fn new(src: &str) -> (r: CharWithCoordinate)
        ensures
            r.wf(),
            r.source() == src@,
            r.position() == 0,
    {
        let mut chars: Vec<char> = Vec::new();
        for c in it: src.chars()
            invariant
                chars@ == it.seq().take(it.index()),
        {
            chars.push(c);
        }
        let bytes = src.as_bytes();
        let total = bytes.len();
        proof {
            crate::lexis_laws::encoded_length(src@);
            assert(chars@ == src@);
            assert(bytes@ == vstd::utf8::encode_utf8(src@));
            assert(total == bytes@.len());
        }
        CharWithCoordinate { chars, position: 0, offset: 0, line: 1, column: 1 }
    }

    /// The coordinate of the next character.
    fn coordinate(&self) -> (r: Coordinate)
        requires
            self.wf(),
            self.position < self.chars.len(),
        ensures
            r == coordinate_at(self.chars@, self.position as int),
    {
        proof {
            crate::lexis_laws::byte_offset_ascends(
                self.chars@,
                self.position as int,
                self.chars@.len() as int,
            );
        }
        Coordinate::new(self.offset as usize, self.line, self.column)
    }

    /// The next character and its coordinate, without taking it.
    pub fn peek(&self) -> (r: Option<(char, Coordinate)>)
        requires
            self.wf(),
        ensures
            self.position() < self.source().len() ==> r == Some(
                (self.source()[self.position()], coordinate_at(self.source(), self.position())),
            ),
            self.position() >= self.source().len() ==> r is None,
    {
        if self.position < self.chars.len() {
            Some((self.chars[self.position], self.coordinate()))
        } else {
            None
        }
    }

    /// Takes the next character, with its coordinate.
    pub fn next(&mut self) -> (r: Option<(char, Coordinate)>)
        requires
            old(self).wf(),
        ensures
            final(self).wf(),
            final(self).source() == old(self).source(),
            old(self).position() < old(self).source().len() ==> r == Some(
                (
                    old(self).source()[old(self).position()],
                    coordinate_at(old(self).source(), old(self).position()),
                ),
            ) && final(self).position() == old(self).position() + 1,
            old(self).position() >= old(self).source().len() ==> r is None && final(self).position() == old(self).position(),
    {
        if self.position < self.chars.len() {
            let ch = self.chars[self.position];
            let coordinate = self.coordinate();
            proof {
                place_bounds(self.chars@, self.position as int);
            }
            self.offset = self.offset + width(ch);
            self.position = self.position + 1;
            if self.position < self.chars.len() {
                if ch == '\n' {
                    self.line = self.line + 1;
                    self.column = 1;
                } else {
                    self.column = self.column + 1;
                }
            }
            Some((ch, coordinate))
        } else {
            None
        }
    }

    /// The text between two positions of the source.
    pub fn slice(&self, from: usize, to: usize) -> (r: String)
        requires
            from <= to <= self.source().len(),
        ensures
            r@ == self.source().subrange(from as int, to as int),
    {
        let mut out = String::new();
        let mut i: usize = from;
        while i < to
            invariant
                from <= i <= to <= self.chars.len(),
                out@ == self.chars@.subrange(from as int, i as int),
            decreases to - i,
        {
            out.push(self.chars[i]);
            proof {
                assert(self.chars@.subrange(from as int, i as int).push(self.chars@[i as int])
                    =~= self.chars@.subrange(from as int, i + 1));
            }
            i = i + 1;
        }
        out
    }
}

fn keyword(text: &String) -> (r: TokenType)
    ensures
        r == word_type(text@),
{
    if *text == "and".to_owned() {
        TokenType::And
    } else if *text == "class".to_owned() {
        TokenType::Class
    } else if *text == "else".to_owned() {
        TokenType::Else
    } else if *text == "false".to_owned() {
        TokenType::False
    } else if *text == "for".to_owned() {
        TokenType::For
    } else if *text == "fun".to_owned() {
        TokenType::Fun
    } else if *text == "if".to_owned() {
        TokenType::If
    } else if *text == "nil".to_owned() {
        TokenType::Nil
    } else if *text == "or".to_owned() {
        TokenType::Or
    } else if *text == "print".to_owned() {
        TokenType::Print
    } else if *text == "return".to_owned() {
        TokenType::Return
    } else if *text == "super".to_owned() {
        TokenType::Super
    } else if *text == "this".to_owned() {
        TokenType::This
    } else if *text == "true".to_owned() {
        TokenType::True
    } else if *text == "var".to_owned() {
        TokenType::Var
    } else if *text == "while".to_owned() {
        TokenType::While
    } else if *text == "break".to_owned() {
        TokenType::Break
    } else {
        TokenType::Identifier
    }
}

/// What [`Scanner::scan_token`] owes for the source `s` read from `p`:
/// `None` where only trivia is left, else the next token, or the error at it.
pub open spec fn next_token(s: Seq<char>, p: int) -> Result<Option<TokenView>, LexicalError> {
    let q = skip_trivia(s, p);
    if q >= s.len() {
        Ok(None)
    } else {
        match lexed_at(s, q) {
            Lexed::Error(e) => Err(e),
            Lexed::Token { token_type, literal, tail } => Ok(
                Some(token_at(s, q, token_type, literal, tail)),
            ),
        }
    }
}

/// The position after the token that [`next_token`] describes.
pub open spec fn next_position(s: Seq<char>, p: int) -> int {
    let q = skip_trivia(s, p);
    if q >= s.len() {
        q
    } else {
        match lexed_at(s, q) {
            Lexed::Error(e) => q,
            Lexed::Token { token_type, literal, tail } => q + 1 + tail,
        }
    }
}

/// Scanning from a position is reading one token and scanning on.
pub proof fn scan_from_unfold(s: Seq<char>, p: int)
    ensures
        scan_from(s, p) == match next_token(s, p) {
            Err(e) => Err(e),
            Ok(None) => Ok(Seq::empty()),
            Ok(Some(t)) => match scan_from(s, next_position(s, p)) {
                Err(e) => Err(e),
                Ok(rest) => Ok(seq![t] + rest),
            },
        },
{
}

#[derive(Debug)]
pub struct Scanner {
    chars: CharWithCoordinate,
}

impl Scanner {
    /// The whole source text.
    pub closed spec fn source(&self) -> Seq<char> {
        self.chars.source()
    }

    /// The source is the text of a string, so its bytes can be counted.
    pub proof fn source_fits(&self)
        requires
            self.wf(),
        ensures
            0 <= self.position() <= self.source().len(),
            byte_offset(self.source(), self.source().len() as int) <= usize::MAX,
    {
        self.chars.position_in_source();
    }

    /// How many characters have been read.
    pub closed spec fn position(&self) -> int {
        self.chars.position()
    }

    pub closed spec fn wf(&self) -> bool {
        self.chars.wf()
    }

    pub fn new(src: &str) -> (r: Scanner)
        ensures
            r.wf(),
            r.source() == src@,
            r.position() == 0,
    {
        Scanner { chars: CharWithCoordinate::new(src) }
    }

    /// Reads the rest of the source: its tokens and a closing `Eof`, which
    /// stands alone where only white space and comments are left, or the
    /// first error.
    #[verifier::loop_isolation(false)]
    pub fn scan_tokens(self) -> (r: Result<Vec<Token>, LexicalError>)
        requires
            self.wf(),
        ensures
            match r {
                Ok(tokens) => scan_at(self.source(), self.position()) == Ok::<
                    Seq<TokenView>,
                    LexicalError,
                >(tokens.deep_view()),
                Err(e) => scan_at(self.source(), self.position()) == Err::<
                    Seq<TokenView>,
                    LexicalError,
                >(e),
            },
            r matches Ok(tokens) ==> crate::lexis_laws::in_place(
                self.source(),
                tokens.deep_view(),
            ),
    {
        let ghost s = self.source();
        let ghost start = self.position();
        proof {
            self.source_fits();
            crate::lexis_laws::scan_in_place(s, start);
        }
        let mut scanner = self;
        let mut tokens: Vec<Token> = Vec::new();
        proof {
            assert(tokens.deep_view() =~= Seq::<TokenView>::empty());
        }
        while !scanner.is_at_end()
            invariant
                scanner.wf(),
                scanner.source() == s,
                0 <= scanner.position() <= s.len(),
                scan_from(s, start) == match scan_from(s, scanner.position()) {
                    Err(e) => Err(e),
                    Ok(rest) => Ok(tokens.deep_view() + rest),
                },
            decreases s.len() - scanner.position(),
        {
            let ghost before = scanner.position();
            let ghost seen = tokens.deep_view();
            proof {
                scan_from_unfold(s, before);
            }
            let token = scanner.scan_token();
            match token {
                Err(e) => {
                    return Err(e);
                },
                Ok(None) => {
                    proof {
                        assert(seen + Seq::<TokenView>::empty() =~= seen);
                        scan_from_unfold(s, scanner.position());
                        skip_trivia_bounds(s, before);
                    }
                },
                Ok(Some(toke)) => {
                    let ghost t = toke@;
                    tokens.push(toke);
                    proof {
                        assert(tokens.deep_view() =~= seen.push(t));
                        assert forall|rest: Seq<TokenView>|
                            seen + (seq![t] + rest) == #[trigger] (seen.push(t) + rest) by {
                            assert(seen + (seq![t] + rest) =~= seen.push(t) + rest);
                        }
                    }
                },
            }
        }
        proof {
            scan_from_unfold(s, scanner.position());
            assert(skip_trivia(s, scanner.position()) == scanner.position());
            assert(tokens.deep_view() + Seq::<TokenView>::empty() =~= tokens.deep_view());
        }
        let n = tokens.len();
        let coordinate = if n > 0 {
            tokens[n - 1].coordinate
        } else {
            Coordinate::new(0, 1, 1)
        };
        let ghost seen = tokens.deep_view();
        let eof = Token::new(TokenType::Eof, Some(String::new()), Literal::Nil, coordinate);
        tokens.push(eof);
        proof {
            assert(tokens.deep_view() =~= seen.push(closing(seen)));
        }
        Ok(tokens)
    }

    /// Skips white space and comments and reads one token.
    #[verifier::loop_isolation(false)]
    pub fn scan_token(&mut self) -> (r: Result<Option<Token>, LexicalError>)
        requires
            old(self).wf(),
        ensures
            final(self).wf(),
            final(self).source() == old(self).source(),
            old(self).position() <= final(self).position() <= final(self).source().len(),
            match r {
                Ok(Some(token)) => {
                    &&& next_token(old(self).source(), old(self).position()) == Ok::<
                        Option<TokenView>,
                        LexicalError,
                    >(Some(token@))
                    &&& final(self).position() == next_position(
                        old(self).source(),
                        old(self).position(),
                    )
                    &&& final(self).position() > old(self).position()
                },
                Ok(None) => {
                    &&& next_token(old(self).source(), old(self).position()) == Ok::<
                        Option<TokenView>,
                        LexicalError,
                    >(None)
                    &&& final(self).position() == final(self).source().len()
                },
                Err(e) => next_token(old(self).source(), old(self).position()) == Err::<
                    Option<TokenView>,
                    LexicalError,
                >(e),
            },
    {
        let ghost s = self.source();
        let ghost start = self.position();
        proof {
            self.chars.position_in_source();
        }
        loop
            invariant
                self.wf(),
                self.source() == s,
                start <= self.position() <= s.len(),
                s.len() <= usize::MAX,
                skip_trivia(s, self.position()) == skip_trivia(s, start),
            decreases s.len() - self.position(),
        {
            let ghost q = self.position();
            let taken = self.chars.next();
            let (ch, coordinate) = match taken {
                None => {
                    return Ok(None);
                },
                Some(pair) => pair,
            };
            if space_char(ch) {
                continue ;
            }
            if ch == '/' && self.match_char('/') {
                proof {
                    comment_len_bounds(s, q + 2);
                }
                self.skip_comment();
                continue ;
            }
            assert(skip_trivia(s, q) == q);
            assert(seq![ch] =~= s.subrange(q, q + 1));
            if ch == '(' {
                return Ok(self.simple_token(TokenType::LeftParen, (ch, coordinate)));
            } else if ch == ')' {
                return Ok(self.simple_token(TokenType::RightParen, (ch, coordinate)));
            } else if ch == '{' {
                return Ok(self.simple_token(TokenType::LeftBrace, (ch, coordinate)));
            } else if ch == '}' {
                return Ok(self.simple_token(TokenType::RightBrace, (ch, coordinate)));
            } else if ch == ',' {
                return Ok(self.simple_token(TokenType::Comma, (ch, coordinate)));
            } else if ch == ';' {
                return Ok(self.simple_token(TokenType::Semicolon, (ch, coordinate)));
            } else if ch == '-' {
                return Ok(self.operator(TokenType::Minus, TokenType::MinusEqual, (ch, coordinate)));
            } else if ch == '+' {
                return Ok(self.operator(TokenType::Plus, TokenType::PlusEqual, (ch, coordinate)));
            } else if ch == '*' {
                return Ok(self.operator(TokenType::Star, TokenType::StarEqual, (ch, coordinate)));
            } else if ch == '!' {
                return Ok(self.operator(TokenType::Bang, TokenType::BangEqual, (ch, coordinate)));
            } else if ch == '=' {
                return Ok(self.operator(TokenType::Equal, TokenType::EqualEqual, (ch, coordinate)));
            } else if ch == '<' {
                return Ok(self.operator(TokenType::Less, TokenType::LessEqual, (ch, coordinate)));
            } else if ch == '>' {
                return Ok(
                    self.operator(TokenType::Greater, TokenType::GreaterEqual, (ch, coordinate)),
                );
            } else if ch == '/' {
                return Ok(self.operator(TokenType::Slash, TokenType::SlashEqual, (ch, coordinate)));
            } else if ch == '.' {
                if self.next_is_digit() {
                    return self.number(coordinate);
                }
                return Ok(self.simple_token(TokenType::Dot, (ch, coordinate)));
            } else if ch == '"' {
                return self.string(coordinate);
            } else if digit_char(ch) {
                return self.number(coordinate);
            } else if alpha_char(ch) {
                return self.identifier(coordinate);
            } else {
                return Err(LexicalError::InvalidCharacter(ch, coordinate));
            }
        }
    }

    /// Reads the rest of a string whose opening quote stood at `start`.
    #[verifier::loop_isolation(false)]
    fn string(&mut self, start_coordinate: Coordinate) -> (r: Result<Option<Token>, LexicalError>)
        requires
            old(self).wf(),
            old(self).position() >= 1,
            start_coordinate == coordinate_at(old(self).source(), old(self).position() - 1),
        ensures
            final(self).wf(),
            final(self).source() == old(self).source(),
            old(self).position() <= final(self).position() <= final(self).source().len(),
            match quote_distance(old(self).source(), old(self).position()) {
                Some(d) => {
                    &&& r is Ok
                    &&& r->Ok_0 is Some
                    &&& r->Ok_0->0@ == token_at(
                        old(self).source(),
                        old(self).position() - 1,
                        TokenType::String,
                        LiteralView::String(
                            old(self).source().subrange(
                                old(self).position(),
                                old(self).position() + d,
                            ),
                        ),
                        d + 1,
                    )
                    &&& final(self).position() == old(self).position() + d + 1
                },
                None => r == Err::<Option<Token>, LexicalError>(
                    LexicalError::UnterminatedString(start_coordinate),
                ),
            },
    {
        let ghost s = self.source();
        let ghost first = self.position();
        proof {
            self.chars.position_in_source();
        }
        let from: usize = self.chars.position - 1;
        loop
            invariant
                self.wf(),
                self.source() == s,
                first <= self.position() <= s.len(),
                s.len() <= usize::MAX,
                from == first - 1,
                quote_distance(s, first) == match quote_distance(s, self.position()) {
                    Some(d) => Some((d + (self.position() - first)) as nat),
                    None => None,
                },
            decreases s.len() - self.position(),
        {
            match self.take() {
                Ok((ch, _)) => {
                    if ch == '"' {
                        let to: usize = self.chars.position;
                        let lexeme = self.chars.slice(from, to);
                        let literal = Literal::String(self.chars.slice(from + 1, to - 1));
                        return Ok(
                            Some(
                                Token::new(
                                    TokenType::String,
                                    Some(lexeme),
                                    literal,
                                    start_coordinate,
                                ),
                            ),
                        );
                    }
                },
                Err(_) => {
                    return Err(LexicalError::UnterminatedString(start_coordinate));
                },
            }
        }
    }

    /// Reads the rest of a number whose first character (a digit or a dot)
    /// stood at `start`.
    #[verifier::loop_isolation(false)]
    fn number(&mut self, start_coordinate: Coordinate) -> (r: Result<Option<Token>, LexicalError>)
        requires
            old(self).wf(),
            old(self).position() >= 1,
            start_coordinate == coordinate_at(old(self).source(), old(self).position() - 1),
        ensures
            final(self).wf(),
            final(self).source() == old(self).source(),
            old(self).position() <= final(self).position() <= final(self).source().len(),
            match number_at(old(self).source(), old(self).position() - 1) {
                Lexed::Token { token_type, literal, tail } => {
                    &&& r is Ok
                    &&& r->Ok_0 is Some
                    &&& r->Ok_0->0@ == token_at(
                        old(self).source(),
                        old(self).position() - 1,
                        token_type,
                        literal,
                        tail,
                    )
                    &&& final(self).position() == old(self).position() + tail
                },
                Lexed::Error(e) => r == Err::<Option<Token>, LexicalError>(e),
            },
    {
        proof {
            self.chars.position_in_source();
        }
        let from: usize = self.chars.position - 1;
        let leading_dot = self.chars.chars[from] == '.';
        self.digits();
        if self.match_char('.') {
            if !self.next_is_digit() || leading_dot {
                return Err(LexicalError::InvalidNumber(start_coordinate));
            }
            self.digits();
        }
        let to: usize = self.chars.position;
        let lexeme = self.chars.slice(from, to);
        let literal = Literal::Number(lexeme.clone());
        Ok(Some(Token::new(TokenType::Number, Some(lexeme), literal, start_coordinate)))
    }

    /// Takes the digits that follow.
    #[verifier::loop_isolation(false)]
    fn digits(&mut self)
        requires
            old(self).wf(),
        ensures
            final(self).wf(),
            final(self).source() == old(self).source(),
            final(self).position() == old(self).position() + digits_len(
                old(self).source(),
                old(self).position(),
            ),
            final(self).position() <= final(self).source().len(),
    {
        let ghost s = self.source();
        let ghost first = self.position();
        proof {
            self.chars.position_in_source();
        }
        while self.next_is_digit()
            invariant
                self.wf(),
                self.source() == s,
                first <= self.position() <= s.len(),
                digits_len(s, first) == (self.position() - first) + digits_len(s, self.position()),
            decreases s.len() - self.position(),
        {
            let _ = self.chars.next();
        }
    }

    /// Reads the rest of a word whose first character stood at `start`.
    #[verifier::loop_isolation(false)]
    fn identifier(&mut self, start_coordinate: Coordinate) -> (r: Result<
        Option<Token>,
        LexicalError,
    >)
        requires
            old(self).wf(),
            old(self).position() >= 1,
            start_coordinate == coordinate_at(old(self).source(), old(self).position() - 1),
        ensures
            final(self).wf(),
            final(self).source() == old(self).source(),
            final(self).position() == old(self).position() + word_len(
                old(self).source(),
                old(self).position(),
            ),
            final(self).position() <= final(self).source().len(),
            r is Ok,
            r->Ok_0 is Some,
            ({
                let text = old(self).source().subrange(
                    old(self).position() - 1,
                    final(self).position(),
                );
                r->Ok_0->0@ == token_at(
                    old(self).source(),
                    old(self).position() - 1,
                    word_type(text),
                    word_literal(word_type(text)),
                    word_len(old(self).source(), old(self).position()),
                )
            }),
    {
        let ghost s = self.source();
        let ghost first = self.position();
        proof {
            self.chars.position_in_source();
        }
        let from: usize = self.chars.position - 1;
        while self.next_is_alphanumeric()
            invariant
                self.wf(),
                self.source() == s,
                first <= self.position() <= s.len(),
                word_len(s, first) == (self.position() - first) + word_len(s, self.position()),
            decreases s.len() - self.position(),
        {
            let _ = self.chars.next();
        }
        let to: usize = self.chars.position;
        let lexeme = self.chars.slice(from, to);
        let token_type = keyword(&lexeme);
        let literal = match token_type {
            TokenType::True => Literal::Boolean(true),
            TokenType::False => Literal::Boolean(false),
            _ => Literal::Nil,
        };
        Ok(Some(Token::new(token_type, Some(lexeme), literal, start_coordinate)))
    }

    /// Takes the rest of a comment: all up to and including the line feed.
    #[verifier::loop_isolation(false)]
    pub fn skip_comment(&mut self)
        requires
            old(self).wf(),
        ensures
            final(self).wf(),
            final(self).source() == old(self).source(),
            final(self).position() == old(self).position() + comment_len(
                old(self).source(),
                old(self).position(),
            ),
            final(self).position() <= final(self).source().len(),
    {
        let ghost s = self.source();
        let ghost first = self.position();
        proof {
            self.chars.position_in_source();
        }
        loop
            invariant
                self.wf(),
                self.source() == s,
                first <= self.position() <= s.len(),
                comment_len(s, first) == (self.position() - first) + comment_len(
                    s,
                    self.position(),
                ),
            decreases s.len() - self.position(),
        {
            match self.take() {
                Ok((ch, _)) => {
                    if ch == '\n' {
                        return ;
                    }
                },
                Err(_) => {
                    return ;
                },
            }
        }
    }

    /// The token of two characters worth of `s`.
    fn multi_char_token(&mut self, token_type: TokenType, s: String, coordinate: Coordinate) -> (r:
        Option<Token>)
        ensures
            *final(self) == *old(self),
            r is Some,
            r->0@ == (TokenView {
                token_type,
                lexeme: Some(s@),
                literal: LiteralView::Nil,
                coordinate,
            }),
    {
        Some(Token::new(token_type, Some(s), Literal::Nil, coordinate))
    }

    /// The token of the one character `ch`.
    fn simple_token(&mut self, token_type: TokenType, ch: (char, Coordinate)) -> (r: Option<Token>)
        ensures
            *final(self) == *old(self),
            r is Some,
            r->0@ == (TokenView {
                token_type,
                lexeme: Some(seq![ch.0]),
                literal: LiteralView::Nil,
                coordinate: ch.1,
            }),
    {
        let mut lexeme = String::new();
        lexeme.push(ch.0);
        proof {
            assert(lexeme@ =~= seq![ch.0]);
        }
        Some(Token::new(token_type, Some(lexeme), Literal::Nil, ch.1))
    }

    /// The operator `ch`, or `ch=` where an equal sign follows.
    fn operator(&mut self, alone: TokenType, compound: TokenType, ch: (char, Coordinate)) -> (r:
        Option<Token>)
        requires
            old(self).wf(),
            old(self).position() >= 1,
            ch.0 == old(self).source()[old(self).position() - 1],
            ch.1 == coordinate_at(old(self).source(), old(self).position() - 1),
        ensures
            final(self).wf(),
            final(self).source() == old(self).source(),
            final(self).position() <= final(self).source().len(),
            r is Some,
            ({
                let s = old(self).source();
                let p = old(self).position();
                if p < s.len() && s[p] == '=' {
                    r->0@ == token_at(s, p - 1, compound, LiteralView::Nil, 1) && final(self).position() == p + 1
                } else {
                    r->0@ == token_at(s, p - 1, alone, LiteralView::Nil, 0) && final(self).position() == p
                }
            }),
    {
        proof {
            self.chars.position_in_source();
        }
        if self.match_char('=') {
            let mut lexeme = String::new();
            lexeme.push(ch.0);
            lexeme.push('=');
            proof {
                assert(lexeme@ =~= old(self).source().subrange(
                    old(self).position() - 1,
                    old(self).position() + 1,
                ));
            }
            self.multi_char_token(compound, lexeme, ch.1)
        } else {
            proof {
                assert(seq![ch.0] =~= old(self).source().subrange(
                    old(self).position() - 1,
                    old(self).position() as int,
                ));
            }
            self.simple_token(alone, ch)
        }
    }

    pub fn is_at_end(&mut self) -> (r: bool)
        requires
            old(self).wf(),
        ensures
            *final(self) == *old(self),
            r == (old(self).position() >= old(self).source().len()),
    {
        self.chars.peek().is_none()
    }

    pub fn next_is_digit(&mut self) -> (r: bool)
        requires
            old(self).wf(),
        ensures
            *final(self) == *old(self),
            r == (old(self).position() < old(self).source().len() && is_digit(
                old(self).source()[old(self).position()],
            )),
    {
        if let Some((ch, _)) = self.peek() {
            return digit_char(ch);
        }
        false
    }

    pub fn next_is_alphanumeric(&mut self) -> (r: bool)
        requires
            old(self).wf(),
        ensures
            *final(self) == *old(self),
            r == (old(self).position() < old(self).source().len() && is_alphanumeric(
                old(self).source()[old(self).position()],
            )),
    {
        if let Some((ch, _)) = self.peek() {
            return alpha_char(ch) || digit_char(ch);
        }
        false
    }

    /// Takes the next character if it is `expected`, and says whether it did.
    pub fn match_char(&mut self, expected: char) -> (r: bool)
        requires
            old(self).wf(),
        ensures
            final(self).wf(),
            final(self).source() == old(self).source(),
            r == (old(self).position() < old(self).source().len() && old(self).source()[old(self).position()] == expected),
            final(self).position() == if r {
                old(self).position() + 1
            } else {
                old(self).position()
            },
    {
        if let Some((ch, _)) = self.peek() {
            if ch == expected {
                let _ = self.chars.next();
                return true;
            }
        }
        false
    }

    /// Takes the next character; at the end of the source there is none.
    pub fn take(&mut self) -> (r: Result<(char, Coordinate), LexicalError>)
        requires
            old(self).wf(),
        ensures
            final(self).wf(),
            final(self).source() == old(self).source(),
            old(self).position() < old(self).source().len() ==> r == Ok::<
                (char, Coordinate),
                LexicalError,
            >(
                (
                    old(self).source()[old(self).position()],
                    coordinate_at(old(self).source(), old(self).position()),
                ),
            ) && final(self).position() == old(self).position() + 1,
            old(self).position() >= old(self).source().len() ==> r == Err::<
                (char, Coordinate),
                LexicalError,
            >(LexicalError::UnexpectedEndOfFile) && final(self).position() == old(self).position(),
    {
        match self.chars.next() {
            Some(pair) => Ok(pair),
            None => Err(LexicalError::UnexpectedEndOfFile),
        }
    }

    /// The next character and its coordinate, without taking it.
    pub fn peek(&mut self) -> (r: Option<(char, Coordinate)>)
        requires
            old(self).wf(),
        ensures
            *final(self) == *old(self),
            old(self).position() < old(self).source().len() ==> r == Some(
                (
                    old(self).source()[old(self).position()],
                    coordinate_at(old(self).source(), old(self).position()),
                ),
            ),
            old(self).position() >= old(self).source().len() ==> r is None,
    {
        self.chars.peek()
    }
}

} // verus!
