//! The lexical grammar, as functions on sequences of characters.
//!
//! A position in the text is an index into the sequence.  [`lexeme_at`] says
//! what begins at a position and where it ends; [`lexemes_from`] cuts the
//! rest of the text into lexemes; [`tokens_from`] and [`errors_from`] say
//! which tokens and diagnostics those lexemes give.

use crate::error::{ErrorKind, LoxErrorView};
use crate::token::{eof_view, ObjectView, TokenType, TokenView};
use vstd::prelude::*;

verus! {

/// A space, a carriage return, a tab or a line feed.
pub open spec fn is_blank_char(c: char) -> bool {
    c == ' ' || c == '\r' || c == '\t' || c == '\n'
}

/// An ASCII decimal digit.
pub open spec fn is_digit_char(c: char) -> bool {
    '0' <= c && c <= '9'
}

/// An ASCII letter.
pub open spec fn is_alpha_char(c: char) -> bool {
    ('a' <= c && c <= 'z') || ('A' <= c && c <= 'Z')
}

/// An ASCII letter or digit.
pub open spec fn is_alpha_numeric_char(c: char) -> bool {
    is_alpha_char(c) || is_digit_char(c)
}

/// A character that may begin an identifier.
pub open spec fn starts_identifier(c: char) -> bool {
    is_alpha_char(c) || c == '_'
}

/// A character that may stand in an identifier after its first character.
pub open spec fn continues_identifier(c: char) -> bool {
    is_alpha_numeric_char(c) || c == '_'
}

/// The keyword table: the token type of a reserved word, `None` for any
/// other text.  The match is exact and case-sensitive.
pub open spec fn keyword_type(text: Seq<char>) -> Option<TokenType> {
    if text == "and"@ {
        Some(TokenType::And)
    } else if text == "class"@ {
        Some(TokenType::Class)
    } else if text == "else"@ {
        Some(TokenType::Else)
    } else if text == "false"@ {
        Some(TokenType::False)
    } else if text == "for"@ {
        Some(TokenType::For)
    } else if text == "fun"@ {
        Some(TokenType::Fun)
    } else if text == "if"@ {
        Some(TokenType::If)
    } else if text == "nil"@ {
        Some(TokenType::Nil)
    } else if text == "or"@ {
        Some(TokenType::Or)
    } else if text == "print"@ {
        Some(TokenType::Print)
    } else if text == "return"@ {
        Some(TokenType::Return)
    } else if text == "super"@ {
        Some(TokenType::Super)
    } else if text == "this"@ {
        Some(TokenType::This)
    } else if text == "true"@ {
        Some(TokenType::True)
    } else if text == "var"@ {
        Some(TokenType::Var)
    } else if text == "while"@ {
        Some(TokenType::While)
    } else {
        None
    }
}

/// The token type of a word: that of the keyword it spells, else
/// `Identifier`.
pub open spec fn word_type(text: Seq<char>) -> TokenType {
    match keyword_type(text) {
        Some(ttype) => ttype,
        None => TokenType::Identifier,
    }
}

/// Whether the characters at `pos` and `pos + 1` are `first` and `second`.
pub open spec fn pair_at(s: Seq<char>, pos: int, first: char, second: char) -> bool {
    0 <= pos && pos + 1 < s.len() && s[pos] == first && s[pos + 1] == second
}

/// The number of line feeds among the characters from `from` up to, not
/// including, `to`.
pub open spec fn count_newlines(s: Seq<char>, from: int, to: int) -> int
    decreases to - from,
{
    if from < to {
        count_newlines(s, from, to - 1) + if s[to - 1] == '\n' {
            1int
        } else {
            0int
        }
    } else {
        0
    }
}

/// Where the longest run of characters of `class` that begins at `from`
/// ends: the first position at or after `from` that holds no character of
/// `class`, or the end of the text.
pub open spec fn run_end(s: Seq<char>, from: int, class: spec_fn(char) -> bool) -> int
    decreases s.len() - from,
{
    if 0 <= from < s.len() && class(s[from]) {
        run_end(s, from + 1, class)
    } else {
        from
    }
}

/// The end of the longest run of digits that begins at `from`.
pub open spec fn digits_end(s: Seq<char>, from: int) -> int {
    run_end(s, from, |c: char| is_digit_char(c))
}

/// The end of the longest run of identifier characters that begins at
/// `from`.
pub open spec fn word_end(s: Seq<char>, from: int) -> int {
    run_end(s, from, |c: char| continues_identifier(c))
}

/// The position of the first line feed at or after `from`, or the end of
/// the text.
pub open spec fn line_end(s: Seq<char>, from: int) -> int {
    run_end(s, from, |c: char| c != '\n')
}

/// The position of the first double quote at or after `from`, or the end
/// of the text.
pub open spec fn quote_position(s: Seq<char>, from: int) -> int {
    run_end(s, from, |c: char| c != '"')
}

/// Whether a point stands at `pos` with a digit behind it.
pub open spec fn has_fraction(s: Seq<char>, pos: int) -> bool {
    0 <= pos && pos + 1 < s.len() && s[pos] == '.' && is_digit_char(s[pos + 1])
}

/// Where the numeral ends whose digits continue at `from`: after the run
/// of digits and, if a point and at least one digit follow it, after the
/// run of digits behind the point.  A point with no digit behind it is not
/// part of the numeral.
pub open spec fn number_end(s: Seq<char>, from: int) -> int {
    let whole = digits_end(s, from);
    if has_fraction(s, whole) {
        digits_end(s, whole + 1)
    } else {
        whole
    }
}

/// Whether `text` is a decimal numeral: one digit or more, and then either
/// nothing, or a point and one digit or more.
pub open spec fn is_numeral(text: Seq<char>) -> bool {
    let whole = digits_end(text, 0);
    &&& 1 <= whole
    &&& whole == text.len() || {
        &&& whole + 1 < text.len()
        &&& text[whole] == '.'
        &&& digits_end(text, whole + 1) == text.len()
    }
}

/// Where the block comment ends that is open `depth` levels deep at `pos`:
/// the position after the `*/` that closes the outermost level, or `None`
/// where the text ends first.  A `/*` inside the comment opens one more
/// level, which has to be closed in turn.
pub open spec fn comment_end(s: Seq<char>, pos: int, depth: nat) -> Option<int>
    decreases s.len() - pos,
{
    if pos < 0 || pos >= s.len() {
        None
    } else if pair_at(s, pos, '*', '/') {
        if depth <= 1 {
            Some(pos + 2)
        } else {
            comment_end(s, pos + 2, (depth - 1) as nat)
        }
    } else if pair_at(s, pos, '/', '*') {
        comment_end(s, pos + 2, depth + 1)
    } else {
        comment_end(s, pos + 1, depth)
    }
}

/// What a stretch of text is to the scanner.
pub ghost enum LexemeKind {
    /// The text of one token of the given type.
    Token(TokenType),
    /// Whitespace or a comment: consumed without a token.
    Trivia,
    /// Text that is reported and gives no token.
    Error(ErrorKind),
}

/// A stretch of the text, from `start` up to, not including, `end`.
pub ghost struct Lexeme {
    pub kind: LexemeKind,
    pub start: int,
    pub end: int,
}

/// The lexeme of one token that begins at `pos` and ends before `end`.
pub open spec fn token_lexeme(ttype: TokenType, pos: int, end: int) -> Lexeme {
    Lexeme { kind: LexemeKind::Token(ttype), start: pos, end }
}

/// The lexeme that begins at `pos`, a position inside the text.
///
/// An operator of two characters is preferred to its first character alone;
/// digits, words, strings and comments extend as far as they can.  Where a
/// string or a block comment is not closed, the lexeme is an error that
/// reaches to the end of the text.
#[verifier::opaque]
pub open spec fn lexeme_at(s: Seq<char>, pos: int) -> Lexeme {
    let c = s[pos];
    if c == '(' {
        token_lexeme(TokenType::LeftParen, pos, pos + 1)
    } else if c == ')' {
        token_lexeme(TokenType::RightParen, pos, pos + 1)
    } else if c == '{' {
        token_lexeme(TokenType::LeftBrace, pos, pos + 1)
    } else if c == '}' {
        token_lexeme(TokenType::RightBrace, pos, pos + 1)
    } else if c == ',' {
        token_lexeme(TokenType::Comma, pos, pos + 1)
    } else if c == '.' {
        token_lexeme(TokenType::Dot, pos, pos + 1)
    } else if c == '-' {
        token_lexeme(TokenType::Minus, pos, pos + 1)
    } else if c == '+' {
        token_lexeme(TokenType::Plus, pos, pos + 1)
    } else if c == ';' {
        token_lexeme(TokenType::Semicolon, pos, pos + 1)
    } else if c == '*' {
        token_lexeme(TokenType::Star, pos, pos + 1)
    } else if c == '!' {
        if pair_at(s, pos, '!', '=') {
            token_lexeme(TokenType::BangEqual, pos, pos + 2)
        } else {
            token_lexeme(TokenType::Bang, pos, pos + 1)
        }
    } else if c == '=' {
        if pair_at(s, pos, '=', '=') {
            token_lexeme(TokenType::EqualEqual, pos, pos + 2)
        } else {
            token_lexeme(TokenType::Equal, pos, pos + 1)
        }
    } else if c == '<' {
        if pair_at(s, pos, '<', '=') {
            token_lexeme(TokenType::LessEqual, pos, pos + 2)
        } else {
            token_lexeme(TokenType::Less, pos, pos + 1)
        }
    } else if c == '>' {
        if pair_at(s, pos, '>', '=') {
            token_lexeme(TokenType::GreaterEqual, pos, pos + 2)
        } else {
            token_lexeme(TokenType::Greater, pos, pos + 1)
        }
    } else if c == '/' {
        if pair_at(s, pos, '/', '/') {
            Lexeme { kind: LexemeKind::Trivia, start: pos, end: line_end(s, pos + 2) }
        } else if pair_at(s, pos, '/', '*') {
            match comment_end(s, pos + 2, 1) {
                Some(end) => Lexeme { kind: LexemeKind::Trivia, start: pos, end },
                None => Lexeme {
                    kind: LexemeKind::Error(ErrorKind::UnterminatedComment),
                    start: pos,
                    end: s.len() as int,
                },
            }
        } else {
            token_lexeme(TokenType::Slash, pos, pos + 1)
        }
    } else if is_blank_char(c) {
        Lexeme { kind: LexemeKind::Trivia, start: pos, end: pos + 1 }
    } else if c == '"' {
        let quote = quote_position(s, pos + 1);
        if quote < s.len() {
            token_lexeme(TokenType::String, pos, quote + 1)
        } else {
            Lexeme {
                kind: LexemeKind::Error(ErrorKind::UnterminatedString),
                start: pos,
                end: s.len() as int,
            }
        }
    } else if is_digit_char(c) {
        token_lexeme(TokenType::Number, pos, number_end(s, pos + 1))
    } else if starts_identifier(c) {
        let end = word_end(s, pos + 1);
        token_lexeme(word_type(s.subrange(pos, end)), pos, end)
    } else {
        Lexeme { kind: LexemeKind::Error(ErrorKind::UnexpectedCharacter), start: pos, end: pos + 1 }
    }
}

/// The lexemes of the text from `pos` to its end, in order: each begins
/// where the one before it ends.
pub open spec fn lexemes_from(s: Seq<char>, pos: int) -> Seq<Lexeme>
    decreases s.len() - pos,
    via lexemes_from_decreases
{
    if 0 <= pos < s.len() {
        seq![lexeme_at(s, pos)] + lexemes_from(s, lexeme_at(s, pos).end)
    } else {
        Seq::empty()
    }
}

#[via_fn]
proof fn lexemes_from_decreases(s: Seq<char>, pos: int) {
    if 0 <= pos < s.len() {
        lemma_lexeme_at_bounds(s, pos);
    }
}

/// The literal value that a token of type `ttype` with the text `lexeme`
/// carries: for a string the text between its quotes, for a number its
/// numeral, for any other token `Nil`.
pub open spec fn literal_of(ttype: TokenType, lexeme: Seq<char>) -> ObjectView {
    match ttype {
        TokenType::String => ObjectView::Str(lexeme.subrange(1, lexeme.len() - 1)),
        TokenType::Number => ObjectView::Num(lexeme),
        _ => ObjectView::Nil,
    }
}

/// The token that the lexeme `l` of the text `s` gives, where `l` begins on
/// line `line`.
pub open spec fn token_at(s: Seq<char>, l: Lexeme, line: int) -> TokenView {
    let lexeme = s.subrange(l.start, l.end);
    let ttype = l.kind->Token_0;
    TokenView { ttype, lexeme, literal: Some(literal_of(ttype, lexeme)), line }
}

/// The diagnostic that the lexeme `l` of the text `s` gives, where `l`
/// begins on line `line`.  An unterminated comment is reported on the line
/// on which the text ends, any other error on the line on which it begins.
pub open spec fn error_at(s: Seq<char>, l: Lexeme, line: int) -> LoxErrorView {
    let kind = l.kind->Error_0;
    LoxErrorView {
        line: if kind == ErrorKind::UnterminatedComment {
            line + count_newlines(s, l.start, l.end)
        } else {
            line
        },
        message: kind.message_text(),
    }
}

/// The lexemes among `ls` that are the text of a token, in order.
pub open spec fn token_lexemes(ls: Seq<Lexeme>) -> Seq<Lexeme> {
    ls.filter(|l: Lexeme| l.kind is Token)
}

/// The lexemes among `ls` that are reported as errors, in order.
pub open spec fn error_lexemes(ls: Seq<Lexeme>) -> Seq<Lexeme> {
    ls.filter(|l: Lexeme| l.kind is Error)
}

/// The tokens that the lexemes `ls` give, in order.  The lexemes are taken
/// from a scan of `s` that began at `pos` on line `line`.
pub open spec fn tokens_of(s: Seq<char>, ls: Seq<Lexeme>, pos: int, line: int) -> Seq<TokenView> {
    token_lexemes(ls).map_values(
        |l: Lexeme| token_at(s, l, line + count_newlines(s, pos, l.start)),
    )
}

/// The diagnostics that the lexemes `ls` give, in order.  The lexemes are
/// taken from a scan of `s` that began at `pos` on line `line`.
pub open spec fn errors_of(s: Seq<char>, ls: Seq<Lexeme>, pos: int, line: int) -> Seq<
    LoxErrorView,
> {
    error_lexemes(ls).map_values(
        |l: Lexeme| error_at(s, l, line + count_newlines(s, pos, l.start)),
    )
}

/// The tokens of a scan of `s` that begins at `pos` on line `line`: one for
/// each token lexeme, then the end-of-input sentinel on the line on which
/// the text ends.
pub open spec fn tokens_from(s: Seq<char>, pos: int, line: int) -> Seq<TokenView> {
    tokens_of(s, lexemes_from(s, pos), pos, line).push(
        eof_view(line + count_newlines(s, pos, s.len() as int)),
    )
}

/// The diagnostics of a scan of `s` that begins at `pos` on line `line`:
/// one for each error lexeme.
pub open spec fn errors_from(s: Seq<char>, pos: int, line: int) -> Seq<LoxErrorView> {
    errors_of(s, lexemes_from(s, pos), pos, line)
}

/// The tokens of the whole text `s`.
pub open spec fn scan_tokens_of(s: Seq<char>) -> Seq<TokenView> {
    tokens_from(s, 0, 1)
}

/// The diagnostics of the whole text `s`.
pub open spec fn scan_errors_of(s: Seq<char>) -> Seq<LoxErrorView> {
    errors_from(s, 0, 1)
}

/// A run ends inside the text or at its end, holds only characters of its
/// class, and is followed by none.
pub proof fn lemma_run_end(s: Seq<char>, from: int, class: spec_fn(char) -> bool)
    requires
        0 <= from <= s.len(),
    ensures
        from <= run_end(s, from, class) <= s.len(),
        forall|i: int| from <= i < run_end(s, from, class) ==> class(#[trigger] s[i]),
        run_end(s, from, class) < s.len() ==> !class(s[run_end(s, from, class)]),
    decreases s.len() - from,
{
    if from < s.len() && class(s[from]) {
        lemma_run_end(s, from + 1, class);
    }
}

/// A run ends at `end` where every character from `from` up to `end` is of
/// its class and `end` is the end of the text or holds a character that is
/// not.
pub proof fn lemma_run_end_is(s: Seq<char>, from: int, class: spec_fn(char) -> bool, end: int)
    requires
        0 <= from <= end <= s.len(),
        forall|i: int| from <= i < end ==> class(#[trigger] s[i]),
        end < s.len() ==> !class(s[end]),
    ensures
        run_end(s, from, class) == end,
    decreases end - from,
{
    if from < end {
        lemma_run_end_is(s, from + 1, class, end);
    }
}

/// Counting over two adjacent stretches adds up.
pub proof fn lemma_count_newlines_split(s: Seq<char>, from: int, mid: int, to: int)
    requires
        from <= mid <= to,
    ensures
        count_newlines(s, from, to) == count_newlines(s, from, mid) + count_newlines(s, mid, to),
    decreases to - mid,
{
    if mid < to {
        lemma_count_newlines_split(s, from, mid, to - 1);
    }
}

/// A stretch holds at most as many line feeds as characters.
pub proof fn lemma_count_newlines_bounds(s: Seq<char>, from: int, to: int)
    requires
        from <= to,
    ensures
        0 <= count_newlines(s, from, to) <= to - from,
    decreases to - from,
{
    if from < to {
        lemma_count_newlines_bounds(s, from, to - 1);
    }
}

/// A stretch without a line feed counts none.
pub proof fn lemma_count_newlines_none(s: Seq<char>, from: int, to: int)
    requires
        forall|i: int| from <= i < to ==> #[trigger] s[i] != '\n',
    ensures
        count_newlines(s, from, to) == 0,
    decreases to - from,
{
    if from < to {
        lemma_count_newlines_none(s, from, to - 1);
    }
}

/// A numeral ends inside the text or at its end and holds no line feed.
pub proof fn lemma_number_end(s: Seq<char>, from: int)
    requires
        0 <= from <= s.len(),
    ensures
        from <= number_end(s, from) <= s.len(),
        count_newlines(s, from, number_end(s, from)) == 0,
{
    let digit = |c: char| is_digit_char(c);
    let whole = digits_end(s, from);
    lemma_run_end(s, from, digit);
    if has_fraction(s, whole) {
        lemma_run_end(s, whole + 1, digit);
    }
    lemma_count_newlines_none(s, from, number_end(s, from));
}

/// A closed comment ends inside the text or at its end, after its closing
/// pair.
pub proof fn lemma_comment_end(s: Seq<char>, pos: int, depth: nat)
    requires
        0 <= pos <= s.len(),
    ensures
        comment_end(s, pos, depth) matches Some(end) ==> pos + 2 <= end <= s.len(),
    decreases s.len() - pos,
{
    if pos < s.len() {
        if pair_at(s, pos, '*', '/') {
            if depth > 1 {
                lemma_comment_end(s, pos + 2, (depth - 1) as nat);
            }
        } else if pair_at(s, pos, '/', '*') {
            lemma_comment_end(s, pos + 2, depth + 1);
        } else {
            lemma_comment_end(s, pos + 1, depth);
        }
    }
}

/// A lexeme begins where it is looked for, holds at least one character
/// and ends inside the text or at its end.
pub proof fn lemma_lexeme_at_bounds(s: Seq<char>, pos: int)
    requires
        0 <= pos < s.len(),
    ensures
        lexeme_at(s, pos).start == pos,
        pos < lexeme_at(s, pos).end <= s.len(),
{
    reveal(lexeme_at);
    lemma_run_end(s, pos + 1, |c: char| is_digit_char(c));
    lemma_run_end(s, pos + 1, |c: char| continues_identifier(c));
    lemma_run_end(s, pos + 1, |c: char| c != '"');
    lemma_number_end(s, pos + 1);
    if pos + 1 < s.len() {
        lemma_run_end(s, pos + 2, |c: char| c != '\n');
        lemma_comment_end(s, pos + 2, 1);
    }
}

/// No lexemes give no tokens and no diagnostics.
pub proof fn lemma_of_none(s: Seq<char>, pos: int, line: int)
    ensures
        tokens_of(s, Seq::empty(), pos, line) == Seq::<TokenView>::empty(),
        errors_of(s, Seq::empty(), pos, line) == Seq::<LoxErrorView>::empty(),
{
    reveal(Seq::filter);
    assert(tokens_of(s, Seq::empty(), pos, line) =~= Seq::empty());
    assert(errors_of(s, Seq::empty(), pos, line) =~= Seq::empty());
}

/// One lexeme gives one token where it is a token lexeme, one diagnostic
/// where it is an error lexeme, and nothing else.
pub proof fn lemma_of_one(s: Seq<char>, l: Lexeme, pos: int, line: int)
    ensures
        tokens_of(s, seq![l], pos, line) == if l.kind is Token {
            seq![token_at(s, l, line + count_newlines(s, pos, l.start))]
        } else {
            Seq::empty()
        },
        errors_of(s, seq![l], pos, line) == if l.kind is Error {
            seq![error_at(s, l, line + count_newlines(s, pos, l.start))]
        } else {
            Seq::empty()
        },
{
    reveal_with_fuel(Seq::filter, 2);
    assert(seq![l].drop_last() =~= Seq::<Lexeme>::empty());
    assert(tokens_of(s, seq![l], pos, line) =~= if l.kind is Token {
        seq![token_at(s, l, line + count_newlines(s, pos, l.start))]
    } else {
        Seq::empty()
    });
    assert(errors_of(s, seq![l], pos, line) =~= if l.kind is Error {
        seq![error_at(s, l, line + count_newlines(s, pos, l.start))]
    } else {
        Seq::empty()
    });
}

/// The tokens and diagnostics of two runs of lexemes, one after the other,
/// are those of the first run followed by those of the second.
pub proof fn lemma_of_concat(s: Seq<char>, a: Seq<Lexeme>, b: Seq<Lexeme>, pos: int, line: int)
    ensures
        tokens_of(s, a + b, pos, line) == tokens_of(s, a, pos, line) + tokens_of(s, b, pos, line),
        errors_of(s, a + b, pos, line) == errors_of(s, a, pos, line) + errors_of(s, b, pos, line),
{
    Seq::filter_distributes_over_add(a, b, |l: Lexeme| l.kind is Token);
    Seq::filter_distributes_over_add(a, b, |l: Lexeme| l.kind is Error);
    assert(tokens_of(s, a + b, pos, line) =~= tokens_of(s, a, pos, line) + tokens_of(
        s,
        b,
        pos,
        line,
    ));
    assert(errors_of(s, a + b, pos, line) =~= errors_of(s, a, pos, line) + errors_of(
        s,
        b,
        pos,
        line,
    ));
}

/// Lexemes that begin at or after `later` give the same tokens and
/// diagnostics whether the scan is taken to begin at `pos` on line `line`,
/// or at `later` on the line that is reached there.
pub proof fn lemma_of_later_start(s: Seq<char>, ls: Seq<Lexeme>, pos: int, line: int, later: int)
    requires
        pos <= later,
        forall|i: int| 0 <= i < ls.len() ==> later <= (#[trigger] ls[i]).start,
    ensures
        tokens_of(s, ls, pos, line) == tokens_of(
            s,
            ls,
            later,
            line + count_newlines(s, pos, later),
        ),
        errors_of(s, ls, pos, line) == errors_of(
            s,
            ls,
            later,
            line + count_newlines(s, pos, later),
        ),
{
    let is_token = |l: Lexeme| l.kind is Token;
    let is_error = |l: Lexeme| l.kind is Error;
    let later_line = line + count_newlines(s, pos, later);
    assert forall|i: int| 0 <= i < ls.filter(is_token).len() implies line + count_newlines(
        s,
        pos,
        (#[trigger] ls.filter(is_token)[i]).start,
    ) == later_line + count_newlines(s, later, ls.filter(is_token)[i].start) by {
        let l = ls.filter(is_token)[i];
        ls.lemma_filter_contains_rev(is_token, l);
        lemma_count_newlines_split(s, pos, later, l.start);
    }
    assert(tokens_of(s, ls, pos, line) =~= tokens_of(s, ls, later, later_line));
    assert forall|i: int| 0 <= i < ls.filter(is_error).len() implies line + count_newlines(
        s,
        pos,
        (#[trigger] ls.filter(is_error)[i]).start,
    ) == later_line + count_newlines(s, later, ls.filter(is_error)[i].start) by {
        let l = ls.filter(is_error)[i];
        ls.lemma_filter_contains_rev(is_error, l);
        lemma_count_newlines_split(s, pos, later, l.start);
    }
    assert(errors_of(s, ls, pos, line) =~= errors_of(s, ls, later, later_line));
}

} // verus!
