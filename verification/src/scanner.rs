//! The scanner: a cursor over the source text that recognises one lexeme
//! at a time.

use crate::error::{error_views, ErrorKind, LoxError, LoxErrorView};
use crate::grammar::{
    comment_end, continues_identifier, count_newlines, digits_end, error_at, errors_from,
    errors_of, is_alpha_numeric_char, is_digit_char, keyword_type, lemma_comment_end,
    lemma_count_newlines_bounds, lemma_count_newlines_none, lemma_count_newlines_split,
    lemma_lexeme_at_bounds, lemma_number_end, lemma_of_concat, lemma_of_none, lemma_of_one,
    lemma_run_end, lexeme_at, lexemes_from, line_end, literal_of, number_end, pair_at,
    quote_position, scan_errors_of, scan_tokens_of, tokens_from, tokens_of, word_end, word_type,
    Lexeme, LexemeKind,
};
use crate::laws::lemma_one_eof;
use crate::text::{chars_of, text_between};
use crate::token::{literal_view, token_views, Object, ObjectView, Token, TokenType, TokenView};
use vstd::prelude::*;

verus! {

/// Looks `key` up in the keyword table: the token type of the reserved
/// word that `key` spells, `None` for any other text.
#[allow(non_snake_case)]
pub fn Keywords(key: &str) -> (found: Option<TokenType>)
    ensures
        found == keyword_type(key@),
{
    if key.eq("and") {
        Some(TokenType::And)
    } else if key.eq("class") {
        Some(TokenType::Class)
    } else if key.eq("else") {
        Some(TokenType::Else)
    } else if key.eq("false") {
        Some(TokenType::False)
    } else if key.eq("for") {
        Some(TokenType::For)
    } else if key.eq("fun") {
        Some(TokenType::Fun)
    } else if key.eq("if") {
        Some(TokenType::If)
    } else if key.eq("nil") {
        Some(TokenType::Nil)
    } else if key.eq("or") {
        Some(TokenType::Or)
    } else if key.eq("print") {
        Some(TokenType::Print)
    } else if key.eq("return") {
        Some(TokenType::Return)
    } else if key.eq("super") {
        Some(TokenType::Super)
    } else if key.eq("this") {
        Some(TokenType::This)
    } else if key.eq("true") {
        Some(TokenType::True)
    } else if key.eq("var") {
        Some(TokenType::Var)
    } else if key.eq("while") {
        Some(TokenType::While)
    } else {
        None
    }
}

/// Scans the whole of `source`: its tokens, ending with the end-of-input
/// sentinel, and its diagnostics, both in the order of the text.  A scan
/// with diagnostics still gives every token that was recognised.
///
/// `None` is returned only for a text so long that its lines could not be
/// counted.
pub fn scan(source: String) -> (scanned: Option<(Vec<Token>, Vec<LoxError>)>)
    ensures
        scanned is Some <==> source@.len() < usize::MAX,
        scanned matches Some((tokens, errors)) ==> {
            &&& token_views(tokens@) == scan_tokens_of(source@)
            &&& error_views(errors@) == scan_errors_of(source@)
            &&& tokens@.len() > 0
            &&& tokens@.last().ttype == TokenType::Eof
            &&& forall|i: int|
                0 <= i < tokens@.len() - 1 ==> (#[trigger] tokens@[i]).ttype != TokenType::Eof
        },
{
    let scanner = Scanner::new(source);
    if scanner.source.len() < usize::MAX {
        let scanned = scanner.scan_tokens();
        proof {
            assert(token_views(scanned.0@) =~= scan_tokens_of(source@));
            assert(error_views(scanned.1@) =~= scan_errors_of(source@));
            lemma_one_eof(source@, 0, 1);
            assert forall|i: int| 0 <= i < scanned.0@.len() - 1 implies (
            #[trigger] scanned.0@[i]).ttype != TokenType::Eof by {
                assert(token_views(scanned.0@)[i].ttype == scanned.0@[i].ttype);
            }
        }
        Some(scanned)
    } else {
        None
    }
}

/// The state of one scan.
///
/// `source` is the whole text.  The lexeme being recognised begins at
/// `start`; `current` is the position of the next character to read and
/// `line` the line it stands on.  `tokens` and `errors` hold what the scan
/// has given so far.
pub struct Scanner {
    pub source: Vec<char>,
    pub tokens: Vec<Token>,
    pub errors: Vec<LoxError>,
    pub start: usize,
    pub current: usize,
    pub line: usize,
}

/// What a [`Scanner`] stands for in specifications.
pub ghost struct ScannerView {
    pub source: Seq<char>,
    pub tokens: Seq<TokenView>,
    pub errors: Seq<LoxErrorView>,
    pub start: int,
    pub current: int,
    pub line: int,
}

impl View for Scanner {
    type V = ScannerView;

    open spec fn view(&self) -> ScannerView {
        ScannerView {
            source: self.source@,
            tokens: token_views(self.tokens@),
            errors: error_views(self.errors@),
            start: self.start as int,
            current: self.current as int,
            line: self.line as int,
        }
    }
}

impl ScannerView {
    /// The state in which the scan of `source` begins.
    pub open spec fn initial(source: Seq<char>) -> ScannerView {
        ScannerView {
            source,
            tokens: Seq::empty(),
            errors: Seq::empty(),
            start: 0,
            current: 0,
            line: 1,
        }
    }

    /// This state with one more token: of type `ttype`, with the text from
    /// `start` to `current` as its lexeme, with the literal value
    /// `literal`, on line `line`.
    pub open spec fn with_token(
        self,
        ttype: TokenType,
        literal: Option<ObjectView>,
        line: int,
    ) -> ScannerView {
        ScannerView {
            tokens: self.tokens.push(
                TokenView {
                    ttype,
                    lexeme: self.source.subrange(self.start, self.current),
                    literal,
                    line,
                },
            ),
            ..self
        }
    }

    /// This state with one more token: of type `ttype`, on line `line`, with
    /// the text from `start` to `current` as its lexeme and the literal
    /// value that such a token carries.
    pub open spec fn emit(self, ttype: TokenType, line: int) -> ScannerView {
        self.with_token(
            ttype,
            Some(literal_of(ttype, self.source.subrange(self.start, self.current))),
            line,
        )
    }

    /// This state moved on to the position `current`, with the line feeds
    /// that were passed counted.
    pub open spec fn moved_to(self, current: int) -> ScannerView {
        ScannerView {
            current,
            line: self.line + count_newlines(self.source, self.current, current),
            ..self
        }
    }

    /// This state after the lexeme `l`, which begins at `current`, has been
    /// recognised: the cursor stands behind it, and where it is the text of
    /// a token, that token has been added, on the line on which `l` begins.
    pub open spec fn after(self, l: Lexeme) -> ScannerView {
        let moved = self.moved_to(l.end);
        match l.kind {
            LexemeKind::Token(ttype) => moved.emit(ttype, self.line),
            _ => moved,
        }
    }
}

impl Scanner {
    /// The cursor is inside the text or at its end, the lexeme does not
    /// begin behind it, lines are counted from one, and the line counter
    /// has room for every line feed that is still to come.
    pub open spec fn wf(&self) -> bool {
        &&& self.start <= self.current <= self.source.len()
        &&& 1 <= self.line
        &&& self.line + (self.source.len() - self.current) <= usize::MAX
    }

    /// A scanner at the start of `source`, on line one, with no token and
    /// no diagnostic yet.  It is well formed unless the text is so long
    /// that its lines could not be counted.
    pub fn new(source: String) -> (scanner: Scanner)
        ensures
            scanner@ == ScannerView::initial(source@),
            source@.len() < usize::MAX ==> scanner.wf(),
    {
        let scanner = Scanner {
            source: chars_of(source.as_str()),
            tokens: Vec::new(),
            errors: Vec::new(),
            start: 0,
            current: 0,
            line: 1,
        };
        assert(scanner@.tokens =~= Seq::empty());
        assert(scanner@.errors =~= Seq::empty());
        scanner
    }

    /// Scans the text from the cursor to its end and hands out every token
    /// and every diagnostic of the scan: those that were there before, then
    /// those of the rest of the text, in its order, the tokens ending with
    /// the end-of-input sentinel.  An error does not end the scan: it is
    /// recorded, and the scan goes on behind it.
    pub fn scan_tokens(self) -> (scanned: (Vec<Token>, Vec<LoxError>))
        requires
            self.wf(),
        ensures
            token_views(scanned.0@) == self@.tokens + tokens_from(
                self@.source,
                self@.current,
                self@.line,
            ),
            error_views(scanned.1@) == self@.errors + errors_from(
                self@.source,
                self@.current,
                self@.line,
            ),
            scanned.0@.len() > 0,
            scanned.0@.last().ttype == TokenType::Eof,
    {
        let ghost before = self@;
        let ghost mut done: Seq<Lexeme> = Seq::empty();
        let mut scanner = self;
        proof {
            lemma_of_none(before.source, before.current, before.line);
            assert(done + lexemes_from(before.source, before.current) =~= lexemes_from(
                before.source,
                before.current,
            ));
        }
        while !scanner.is_at_end()
            invariant
                scanner.wf(),
                scanner@.source == before.source,
                before.current <= scanner.current,
                scanner@.line == before.line + count_newlines(
                    before.source,
                    before.current,
                    scanner@.current,
                ),
                lexemes_from(before.source, before.current) == done + lexemes_from(
                    before.source,
                    scanner@.current,
                ),
                scanner@.tokens == before.tokens + tokens_of(
                    before.source,
                    done,
                    before.current,
                    before.line,
                ),
                scanner@.errors == before.errors + errors_of(
                    before.source,
                    done,
                    before.current,
                    before.line,
                ),
            decreases scanner.source.len() - scanner.current,
        {
            scanner.start = scanner.current;
            let ghost at = scanner@;
            let ghost l = lexeme_at(at.source, at.current);
            proof {
                lemma_lexeme_at_bounds(at.source, at.current);
                lemma_count_newlines_split(at.source, before.current, at.current, l.end);
                lemma_of_concat(at.source, done, seq![l], before.current, before.line);
                lemma_of_one(at.source, l, before.current, before.line);
                assert(done.push(l) =~= done + seq![l]);
                assert(done.push(l) + lexemes_from(at.source, l.end) =~= done + lexemes_from(
                    at.source,
                    at.current,
                ));
            }
            match scanner.scan_token() {
                Ok(()) => {},
                Err(e) => {
                    scanner.errors.push(e);
                    assert(scanner@.errors =~= at.errors.push(e@));
                },
            }
            proof {
                done = done.push(l);
            }
        }
        let eof = Token::eof(scanner.line);
        let ghost tokens_before = scanner@.tokens;
        scanner.tokens.push(eof);
        proof {
            assert(scanner@.tokens =~= tokens_before.push(eof@));
            assert(done =~= lexemes_from(before.source, before.current));
        }
        (scanner.tokens, scanner.errors)
    }

    /// Recognises the lexeme that begins at the cursor, where the cursor
    /// stands inside the text and no lexeme is under way.  The cursor moves
    /// behind the lexeme and the line feeds in it are counted.  The text of
    /// a token is added to the tokens, on the line on which it begins;
    /// whitespace and comments add nothing; an error is handed back, not
    /// recorded.
    pub fn scan_token(&mut self) -> (result: Result<(), LoxError>)
        requires
            old(self).wf(),
            old(self).current < old(self).source.len(),
            old(self).start == old(self).current,
        ensures
            final(self).wf(),
            final(self)@ == old(self)@.after(lexeme_at(old(self)@.source, old(self)@.current)),
            match lexeme_at(old(self)@.source, old(self)@.current).kind {
                LexemeKind::Error(_) => {
                    &&& result matches Err(e)
                    &&& e@ == error_at(
                        old(self)@.source,
                        lexeme_at(old(self)@.source, old(self)@.current),
                        old(self)@.line,
                    )
                },
                _ => result is Ok,
            },
            old(self).current < final(self).current,
            old(self).line <= final(self).line,
    {
        let ghost before = self@;
        let ghost pos = self.current as int;
        let c = self.advance();
        proof {
            reveal(lexeme_at);
            lemma_lexeme_at_bounds(before.source, pos);
            let end = lexeme_at(before.source, pos).end;
            lemma_count_newlines_bounds(before.source, pos, end);
            lemma_count_newlines_split(before.source, pos, pos + 1, end);
            if c != '\n' {
                lemma_count_newlines_none(before.source, pos, pos + 1);
            } else {
                assert(count_newlines(before.source, pos, pos) == 0);
            }
            if c != '\n' && pos + 1 < before.source.len() && before.source[pos + 1] != '\n' {
                lemma_count_newlines_none(before.source, pos, pos + 2);
                lemma_count_newlines_none(before.source, pos + 1, pos + 2);
                if pos + 2 <= end {
                    lemma_count_newlines_split(before.source, pos + 1, pos + 2, end);
                }
            }
        }
        match c {
            '(' => self.add_token(TokenType::LeftParen),
            ')' => self.add_token(TokenType::RightParen),
            '{' => self.add_token(TokenType::LeftBrace),
            '}' => self.add_token(TokenType::RightBrace),
            ',' => self.add_token(TokenType::Comma),
            '.' => self.add_token(TokenType::Dot),
            '-' => self.add_token(TokenType::Minus),
            '+' => self.add_token(TokenType::Plus),
            ';' => self.add_token(TokenType::Semicolon),
            '*' => self.add_token(TokenType::Star),
            '!' => {
                if self.is_match('=') {
                    self.add_token(TokenType::BangEqual)
                } else {
                    self.add_token(TokenType::Bang)
                }
            },
            '=' => {
                if self.is_match('=') {
                    self.add_token(TokenType::EqualEqual)
                } else {
                    self.add_token(TokenType::Equal)
                }
            },
            '<' => {
                if self.is_match('=') {
                    self.add_token(TokenType::LessEqual)
                } else {
                    self.add_token(TokenType::Less)
                }
            },
            '>' => {
                if self.is_match('=') {
                    self.add_token(TokenType::GreaterEqual)
                } else {
                    self.add_token(TokenType::Greater)
                }
            },
            '/' => {
                if self.is_match('/') {
                    self.skip_line();
                    proof {
                        lemma_run_end(before.source, pos + 2, |c: char| c != '\n');
                        lemma_count_newlines_none(before.source, pos + 2, self.current as int);
                    }
                } else if self.is_match('*') {
                    proof {
                        lemma_comment_end(before.source, pos + 2, 1);
                    }
                    self.comment_block()?;
                } else {
                    self.add_token(TokenType::Slash)
                }
            },
            ' ' | '\r' | '\t' => {},
            '\n' => {
                self.line += 1;
            },
            '"' => {
                proof {
                    lemma_run_end(before.source, pos + 1, |c: char| c != '"');
                }
                self.string()?
            },
            _ => {
                if c >= '0' && c <= '9' {
                    self.number();
                } else if (c >= 'a' && c <= 'z') || (c >= 'A' && c <= 'Z') || c == '_' {
                    self.identifier();
                } else {
                    return Err(
                        LoxError::error(self.line, ErrorKind::UnexpectedCharacter.message()),
                    );
                }
            },
        }
        Ok(())
    }

    /// Scans a block comment from behind its opening `/*` to behind the
    /// `*/` that closes it, counting the line feeds in it.  A `/*` inside
    /// the comment opens a comment of its own, which is closed first.
    /// Where the text ends before the comment is closed, the cursor is left
    /// at the end and the error is handed back, on the line on which the
    /// text ends.
    pub fn comment_block(&mut self) -> (result: Result<(), LoxError>)
        requires
            old(self).wf(),
        ensures
            final(self).wf(),
            match comment_end(old(self)@.source, old(self)@.current, 1) {
                Some(end) => {
                    &&& result is Ok
                    &&& final(self)@ == old(self)@.moved_to(end)
                },
                None => {
                    &&& result matches Err(e)
                    &&& e@ == (LoxErrorView {
                        line: final(self)@.line,
                        message: ErrorKind::UnterminatedComment.message_text(),
                    })
                    &&& final(self)@ == old(self)@.moved_to(old(self)@.source.len() as int)
                },
            },
            old(self).current <= final(self).current,
            old(self).line <= final(self).line,
    {
        let ghost before = self@;
        let mut depth: usize = 1;
        loop
            invariant
                before == old(self)@,
                self@ == before.moved_to(self.current as int),
                self.start <= self.current,
                before.current <= self.current <= self.source.len(),
                self.line + (self.source.len() - self.current) <= usize::MAX,
                1 <= self.line,
                1 <= depth <= self.current - before.current + 1,
                old(self).line <= self.line,
                comment_end(before.source, self.current as int, depth as nat) == comment_end(
                    before.source,
                    before.current,
                    1,
                ),
            decreases self.source.len() - self.current,
        {
            if self.is_at_end() {
                return Err(LoxError::error(self.line, ErrorKind::UnterminatedComment.message()));
            }
            let ghost pair = self.current as int;
            if self.is_double_match('*', '/') {
                proof {
                    lemma_count_newlines_none(before.source, pair, pair + 2);
                    lemma_count_newlines_split(before.source, before.current, pair, pair + 2);
                }
                depth -= 1;
                if depth == 0 {
                    return Ok(());
                }
            } else if self.is_double_match('/', '*') {
                proof {
                    lemma_count_newlines_none(before.source, pair, pair + 2);
                    lemma_count_newlines_split(before.source, before.current, pair, pair + 2);
                }
                depth += 1;
            } else {
                match self.peek() {
                    Some(ch) => {
                        if ch == '\n' {
                            self.line += 1;
                        }
                    },
                    None => {},
                }
                self.advance();
            }
        }
    }

    /// Scans the rest of a word, from the cursor to the end of the letters,
    /// digits and underscores that stand there, and adds its token: that of
    /// the keyword which the text from `start` spells, else an identifier.
    pub fn identifier(&mut self)
        requires
            old(self).wf(),
        ensures
            final(self).wf(),
            final(self)@ == ({
                let moved = old(self)@.moved_to(word_end(old(self)@.source, old(self)@.current));
                moved.emit(
                    word_type(moved.source.subrange(moved.start, moved.current)),
                    old(self)@.line,
                )
            }),
            old(self).current <= final(self).current,
            final(self).line == old(self).line,
    {
        let ghost before = self@;
        while Scanner::continues_word(self.peek())
            invariant
                self@ == (ScannerView { current: self.current as int, ..before }),
                before.current <= self.current <= self.source.len(),
                word_end(before.source, self.current as int) == word_end(
                    before.source,
                    before.current,
                ),
            decreases self.source.len() - self.current,
        {
            self.advance();
        }
        proof {
            lemma_run_end(before.source, before.current, |c: char| continues_identifier(c));
            lemma_count_newlines_none(before.source, before.current, self.current as int);
        }
        let text = text_between(&self.source, self.start, self.current);
        match Keywords(text.as_str()) {
            Some(ttype) => self.add_token(ttype),
            None => self.add_token(TokenType::Identifier),
        }
    }

    /// Scans the rest of a numeral, from the cursor to the end of the
    /// digits that stand there and, where a point and a digit follow them,
    /// to the end of the digits behind the point, and adds a number token
    /// for the text from `start`, with that text as its numeral.
    pub fn number(&mut self)
        requires
            old(self).wf(),
        ensures
            final(self).wf(),
            final(self)@ == old(self)@.moved_to(
                number_end(old(self)@.source, old(self)@.current),
            ).emit(TokenType::Number, old(self)@.line),
            old(self).current <= final(self).current,
            final(self).line == old(self).line,
    {
        let ghost before = self@;
        self.skip_digits();
        match self.peek() {
            Some(ch) => {
                if ch == '.' && Scanner::is_digit(self.peek_next()) {
                    self.advance();
                    self.skip_digits();
                }
            },
            None => {},
        }
        proof {
            lemma_number_end(before.source, before.current);
        }
        let value = text_between(&self.source, self.start, self.current);
        self.add_token_object(TokenType::Number, Some(Object::Num(value)));
    }

    /// The character behind the next one, if the text reaches that far.
    pub fn peek_next(&self) -> (after_next: Option<char>)
        ensures
            after_next == if self.current + 1 < self.source.len() {
                Some(self.source@[self.current + 1])
            } else {
                None
            },
    {
        if self.current < self.source.len() && self.current + 1 < self.source.len() {
            Some(self.source[self.current + 1])
        } else {
            None
        }
    }

    /// Whether `ch` is an ASCII letter or digit.
    pub fn is_alpha_numeric(ch: Option<char>) -> (yes: bool)
        ensures
            yes == (ch matches Some(c) && is_alpha_numeric_char(c)),
    {
        match ch {
            Some(c) => (c >= 'a' && c <= 'z') || (c >= 'A' && c <= 'Z') || (c >= '0' && c <= '9'),
            None => false,
        }
    }

    /// Whether `ch` is an ASCII digit.
    pub fn is_digit(ch: Option<char>) -> (yes: bool)
        ensures
            yes == (ch matches Some(c) && is_digit_char(c)),
    {
        match ch {
            Some(c) => c >= '0' && c <= '9',
            None => false,
        }
    }

    /// Scans a string from behind its opening quote, which is part of the
    /// lexeme under way, to behind its closing quote, counting the line
    /// feeds in it, and adds a string token on the line on which the scan
    /// began, with the text between the quotes as its value.  Where the
    /// text ends before the string is closed, the cursor is left at the end
    /// and the error is handed back, on the line on which the scan began.
    pub fn string(&mut self) -> (result: Result<(), LoxError>)
        requires
            old(self).wf(),
            old(self).start < old(self).current,
        ensures
            final(self).wf(),
            ({
                let quote = quote_position(old(self)@.source, old(self)@.current);
                if quote < old(self)@.source.len() {
                    &&& result is Ok
                    &&& final(self)@ == old(self)@.moved_to(quote + 1).emit(
                        TokenType::String,
                        old(self)@.line,
                    )
                } else {
                    &&& result matches Err(e)
                    &&& e@ == (LoxErrorView {
                        line: old(self)@.line,
                        message: ErrorKind::UnterminatedString.message_text(),
                    })
                    &&& final(self)@ == old(self)@.moved_to(old(self)@.source.len() as int)
                }
            }),
            old(self).current <= final(self).current,
            old(self).line <= final(self).line,
    {
        let ghost before = self@;
        let first_line = self.line;
        loop
            invariant_except_break
                self@ == before.moved_to(self.current as int),
                self.start < self.current,
                before.current <= self.current <= self.source.len(),
                self.line + (self.source.len() - self.current) <= usize::MAX,
                first_line <= self.line,
                1 <= self.line,
                quote_position(before.source, self.current as int) == quote_position(
                    before.source,
                    before.current,
                ),
            ensures
                self@ == before.moved_to(self.current as int),
                self.start < self.current,
                before.current <= self.current <= self.source.len(),
                self.line + (self.source.len() - self.current) <= usize::MAX,
                first_line <= self.line,
                1 <= self.line,
                self.current == quote_position(before.source, before.current),
            decreases self.source.len() - self.current,
        {
            match self.peek() {
                Some(ch) => {
                    if ch == '"' {
                        break ;
                    }
                    if ch == '\n' {
                        self.line += 1;
                    }
                    self.advance();
                },
                None => {
                    break ;
                },
            }
        }
        if self.is_at_end() {
            return Err(LoxError::error(first_line, ErrorKind::UnterminatedString.message()));
        }
        proof {
            lemma_run_end(before.source, before.current, |c: char| c != '"');
        }
        self.advance();
        let value = text_between(&self.source, self.start + 1, self.current - 1);
        let lexeme = text_between(&self.source, self.start, self.current);
        let token = Token::new(TokenType::String, lexeme, Some(Object::Str(value)), first_line);
        let ghost tokens_before = self.tokens@;
        self.tokens.push(token);
        proof {
            assert(token_views(self.tokens@) =~= token_views(tokens_before).push(token@));
            assert(lexeme@.subrange(1, lexeme@.len() - 1) =~= value@);
        }
        Ok(())
    }

    /// Consumes the next character where it is `ex`, and says whether it
    /// did.
    pub fn is_match(&mut self, ex: char) -> (matched: bool)
        ensures
            matched == (old(self).current < old(self).source.len() && old(self).source@[old(
                self,
            ).current as int] == ex),
            final(self)@ == if matched {
                ScannerView { current: old(self).current + 1, ..old(self)@ }
            } else {
                old(self)@
            },
            old(self).wf() ==> final(self).wf(),
    {
        if self.current < self.source.len() && self.source[self.current] == ex {
            self.current += 1;
            true
        } else {
            false
        }
    }

    /// Consumes the next two characters where they are `ex1` and `ex2`, and
    /// says whether it did.
    pub fn is_double_match(&mut self, ex1: char, ex2: char) -> (matched: bool)
        ensures
            matched == pair_at(old(self).source@, old(self).current as int, ex1, ex2),
            final(self)@ == if matched {
                ScannerView { current: old(self).current + 2, ..old(self)@ }
            } else {
                old(self)@
            },
            old(self).wf() ==> final(self).wf(),
    {
        if self.current < self.source.len() && self.current + 1 < self.source.len()
            && self.source[self.current] == ex1 && self.source[self.current + 1] == ex2 {
            self.current += 2;
            true
        } else {
            false
        }
    }

    /// Whether the cursor has reached the end of the text.
    pub fn is_at_end(&self) -> (at_end: bool)
        ensures
            at_end == (self.current >= self.source.len()),
    {
        self.current >= self.source.len()
    }

    /// The next character, if there is one.
    pub fn peek(&self) -> (next: Option<char>)
        ensures
            next == if self.current < self.source.len() {
                Some(self.source@[self.current as int])
            } else {
                None
            },
    {
        if self.current < self.source.len() {
            Some(self.source[self.current])
        } else {
            None
        }
    }

    /// Consumes the next character and returns it.  The line counter is
    /// left as it is.
    pub fn advance(&mut self) -> (c: char)
        requires
            old(self).current < old(self).source.len(),
        ensures
            c == old(self).source@[old(self).current as int],
            final(self)@ == (ScannerView { current: old(self).current + 1, ..old(self)@ }),
            old(self).wf() ==> final(self).wf(),
    {
        let result = self.source[self.current];
        self.current = self.current + 1;
        result
    }

    /// Adds a token of type `ttype` without a value of its own: its lexeme
    /// is the text from `start` to `current`, its line the current line.
    pub fn add_token(&mut self, ttype: TokenType)
        requires
            old(self).start <= old(self).current <= old(self).source.len(),
        ensures
            final(self)@ == old(self)@.with_token(
                ttype,
                Some(ObjectView::Nil),
                old(self).line as int,
            ),
            old(self).wf() ==> final(self).wf(),
    {
        self.add_token_object(ttype, Some(Object::Nil))
    }

    /// Adds a token of type `ttype` with the literal value `literal`: its
    /// lexeme is the text from `start` to `current`, its line the current
    /// line.
    pub fn add_token_object(&mut self, ttype: TokenType, literal: Option<Object>)
        requires
            old(self).start <= old(self).current <= old(self).source.len(),
        ensures
            final(self)@ == old(self)@.with_token(
                ttype,
                literal_view(literal),
                old(self).line as int,
            ),
            old(self).wf() ==> final(self).wf(),
    {
        let lexeme = text_between(&self.source, self.start, self.current);
        let token = Token::new(ttype, lexeme, literal, self.line);
        self.tokens.push(token);
        assert(token_views(self.tokens@) =~= token_views(old(self).tokens@).push(token@));
    }

    /// Whether `ch` is a character that goes on with a word.
    fn continues_word(ch: Option<char>) -> (yes: bool)
        ensures
            yes == (ch matches Some(c) && continues_identifier(c)),
    {
        match ch {
            Some(c) => Scanner::is_alpha_numeric(ch) || c == '_',
            None => false,
        }
    }

    /// Moves the cursor past the digits that stand at it.
    fn skip_digits(&mut self)
        requires
            old(self).current <= old(self).source.len(),
        ensures
            final(self)@ == (ScannerView {
                current: digits_end(old(self)@.source, old(self)@.current),
                ..old(self)@
            }),
    {
        let ghost before = self@;
        while Scanner::is_digit(self.peek())
            invariant
                self@ == (ScannerView { current: self.current as int, ..before }),
                before.current <= self.current <= self.source.len(),
                digits_end(before.source, self.current as int) == digits_end(
                    before.source,
                    before.current,
                ),
            decreases self.source.len() - self.current,
        {
            self.advance();
        }
    }

    /// Moves the cursor to the end of the line it stands on.
    fn skip_line(&mut self)
        requires
            old(self).current <= old(self).source.len(),
        ensures
            final(self)@ == (ScannerView {
                current: line_end(old(self)@.source, old(self)@.current),
                ..old(self)@
            }),
    {
        let ghost before = self@;
        loop
            invariant_except_break
                self@ == (ScannerView { current: self.current as int, ..before }),
                before.current <= self.current <= self.source.len(),
                line_end(before.source, self.current as int) == line_end(
                    before.source,
                    before.current,
                ),
            ensures
                self@ == (ScannerView { current: self.current as int, ..before }),
                self.current == line_end(before.source, before.current),
            decreases self.source.len() - self.current,
        {
            match self.peek() {
                Some(ch) => {
                    if ch != '\n' {
                        self.advance();
                    } else {
                        break ;
                    }
                },
                None => {
                    break ;
                },
            }
        }
    }
}

} // verus!
