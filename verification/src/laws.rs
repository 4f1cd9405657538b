//! What holds of every scan.
//!
//! The statements are about [`tokens_from`] and [`errors_from`], in which
//! [`Scanner::scan_tokens`](crate::scanner::Scanner::scan_tokens) states
//! what it returns.
//!
//! To work out the scan of a given text, take it lexeme by lexeme with
//! [`lemma_scan_unfolds`], after `reveal(lexeme_at)`.

use crate::error::{ErrorKind, LoxErrorView};
use crate::grammar::{
    continues_identifier, count_newlines, digits_end, error_at, error_lexemes, errors_from,
    has_fraction, is_blank_char, is_digit_char, is_numeral, keyword_type,
    lemma_count_newlines_split, lemma_lexeme_at_bounds, lemma_of_concat, lemma_of_later_start,
    lemma_of_none, lemma_of_one, lemma_run_end, lemma_run_end_is, lexeme_at, lexemes_from,
    literal_of,
    pair_at, scan_errors_of, scan_tokens_of, starts_identifier, token_at, token_lexeme,
    token_lexemes, tokens_from, word_type, Lexeme, LexemeKind,
};
use crate::token::{eof_view, ObjectView, TokenType, TokenView};
use vstd::prelude::*;

verus! {

/// The lexemes of a text tile it: the first begins where the scan begins,
/// each next one begins where the one before it ends, the last ends where
/// the text ends, none is empty, and each is the lexeme that the grammar
/// finds at the position where it begins.
pub proof fn lemma_lexemes_tile(s: Seq<char>, pos: int)
    requires
        0 <= pos <= s.len(),
    ensures
        pos < s.len() ==> lexemes_from(s, pos).len() > 0 && lexemes_from(s, pos).first().start
            == pos && lexemes_from(s, pos).last().end == s.len(),
        pos == s.len() ==> lexemes_from(s, pos).len() == 0,
        forall|i: int|
            0 <= i < lexemes_from(s, pos).len() ==> {
                let l = #[trigger] lexemes_from(s, pos)[i];
                &&& pos <= l.start < l.end <= s.len()
                &&& l == lexeme_at(s, l.start)
            },
        forall|i: int, j: int|
            0 <= i && j == i + 1 && j < lexemes_from(s, pos).len() ==> (#[trigger] lexemes_from(
                s,
                pos,
            )[i]).end == (#[trigger] lexemes_from(s, pos)[j]).start,
    decreases s.len() - pos,
{
    if pos < s.len() {
        let first = lexeme_at(s, pos);
        lemma_lexeme_at_bounds(s, pos);
        lemma_lexemes_tile(s, first.end);
        let rest = lexemes_from(s, first.end);
        let all = lexemes_from(s, pos);
        assert(all =~= seq![first] + rest);
        assert forall|i: int| 0 <= i < all.len() implies {
            let l = #[trigger] all[i];
            &&& pos <= l.start < l.end <= s.len()
            &&& l == lexeme_at(s, l.start)
        } by {
            if i > 0 {
                assert(all[i] == rest[i - 1]);
            }
        }
        assert forall|i: int, j: int| 0 <= i && j == i + 1 && j < all.len() implies (
        #[trigger] all[i]).end == (#[trigger] all[j]).start by {
            assert(all[j] == rest[i]);
            if i > 0 {
                assert(all[i] == rest[i - 1]);
            }
        }
        if rest.len() > 0 {
            assert(all.last() == rest.last());
        }
    }
}

/// A scan is the scan of its first lexeme, then the scan of the rest of
/// the text from where that lexeme ends and on the line that has been
/// reached there.  At the end of the text it gives the end-of-input
/// sentinel and no diagnostic.
pub proof fn lemma_scan_unfolds(s: Seq<char>, pos: int, line: int)
    requires
        0 <= pos <= s.len(),
    ensures
        pos == s.len() ==> tokens_from(s, pos, line) == seq![eof_view(line)] && errors_from(
            s,
            pos,
            line,
        ) == Seq::<LoxErrorView>::empty(),
        pos < s.len() ==> ({
            let first = lexeme_at(s, pos);
            let next_line = line + count_newlines(s, pos, first.end);
            &&& tokens_from(s, pos, line) == if first.kind is Token {
                seq![token_at(s, first, line)] + tokens_from(s, first.end, next_line)
            } else {
                tokens_from(s, first.end, next_line)
            }
            &&& errors_from(s, pos, line) == if first.kind is Error {
                seq![error_at(s, first, line)] + errors_from(s, first.end, next_line)
            } else {
                errors_from(s, first.end, next_line)
            }
        }),
{
    if pos == s.len() {
        lemma_of_none(s, pos, line);
        assert(count_newlines(s, pos, pos) == 0);
        assert(lexemes_from(s, pos) =~= Seq::empty());
        assert(tokens_from(s, pos, line) =~= seq![eof_view(line)]);
    } else {
        let first = lexeme_at(s, pos);
        let next_line = line + count_newlines(s, pos, first.end);
        let rest = lexemes_from(s, first.end);
        lemma_lexeme_at_bounds(s, pos);
        lemma_lexemes_tile(s, first.end);
        assert(count_newlines(s, pos, pos) == 0);
        lemma_count_newlines_split(s, pos, first.end, s.len() as int);
        lemma_of_concat(s, seq![first], rest, pos, line);
        lemma_of_one(s, first, pos, line);
        lemma_of_later_start(s, rest, pos, line, first.end);
        assert(tokens_from(s, pos, line) =~= if first.kind is Token {
            seq![token_at(s, first, line)] + tokens_from(s, first.end, next_line)
        } else {
            tokens_from(s, first.end, next_line)
        });
    }
}

/// No lexeme is the text of an end-of-input token.
pub proof fn lemma_no_lexeme_is_eof(s: Seq<char>, pos: int)
    requires
        0 <= pos < s.len(),
    ensures
        lexeme_at(s, pos).kind != LexemeKind::Token(TokenType::Eof),
{
    reveal(lexeme_at);
}

/// Every scan ends with exactly one end-of-input sentinel: its last token
/// is the sentinel, with an empty lexeme and on the line on which the text
/// ends, and no token before it is of that type.
pub proof fn lemma_one_eof(s: Seq<char>, pos: int, line: int)
    requires
        0 <= pos <= s.len(),
    ensures
        tokens_from(s, pos, line).len() >= 1,
        tokens_from(s, pos, line).last() == eof_view(
            line + count_newlines(s, pos, s.len() as int),
        ),
        tokens_from(s, pos, line).last().ttype == TokenType::Eof,
        tokens_from(s, pos, line).last().lexeme.len() == 0,
        forall|i: int|
            0 <= i < tokens_from(s, pos, line).len() - 1 ==> (#[trigger] tokens_from(
                s,
                pos,
                line,
            )[i]).ttype != TokenType::Eof,
{
    let all = lexemes_from(s, pos);
    let found = token_lexemes(all);
    lemma_lexemes_tile(s, pos);
    assert forall|i: int| 0 <= i < tokens_from(s, pos, line).len() - 1 implies (
    #[trigger] tokens_from(s, pos, line)[i]).ttype != TokenType::Eof by {
        let l = found[i];
        all.lemma_filter_contains_rev(|l: Lexeme| l.kind is Token, l);
        let k = choose|k: int| 0 <= k < all.len() && all[k] == l;
        assert(all[k] == lexeme_at(s, all[k].start));
        lemma_no_lexeme_is_eof(s, l.start);
    }
}

/// Where every lexeme of the text is whitespace or a comment, and so too
/// where the text is empty, the scan gives the end-of-input sentinel alone
/// and no diagnostic.
pub proof fn lemma_only_trivia(s: Seq<char>, pos: int, line: int)
    requires
        0 <= pos <= s.len(),
        forall|i: int|
            0 <= i < lexemes_from(s, pos).len() ==> (#[trigger] lexemes_from(s, pos)[i]).kind
                is Trivia,
    ensures
        tokens_from(s, pos, line) == seq![
            eof_view(line + count_newlines(s, pos, s.len() as int)),
        ],
        errors_from(s, pos, line) == Seq::<LoxErrorView>::empty(),
{
    let all = lexemes_from(s, pos);
    let is_token = |l: Lexeme| l.kind is Token;
    let is_error = |l: Lexeme| l.kind is Error;
    if all.filter(is_token).len() > 0 {
        let l = all.filter(is_token)[0];
        all.lemma_filter_pred(is_token, 0);
        all.lemma_filter_contains_rev(is_token, l);
    }
    if all.filter(is_error).len() > 0 {
        let l = all.filter(is_error)[0];
        all.lemma_filter_pred(is_error, 0);
        all.lemma_filter_contains_rev(is_error, l);
    }
    assert(tokens_from(s, pos, line) =~= seq![
        eof_view(line + count_newlines(s, pos, s.len() as int)),
    ]);
    assert(errors_from(s, pos, line) =~= Seq::empty());
}

/// A text of spaces, tabs, carriage returns and line feeds alone gives the
/// end-of-input sentinel alone, on the line after its last line feed, and
/// no diagnostic.
pub proof fn lemma_blank_text(s: Seq<char>)
    requires
        forall|i: int| 0 <= i < s.len() ==> is_blank_char(#[trigger] s[i]),
    ensures
        scan_tokens_of(s) == seq![eof_view(1 + count_newlines(s, 0, s.len() as int))],
        scan_errors_of(s) == Seq::<LoxErrorView>::empty(),
{
    let all = lexemes_from(s, 0);
    lemma_lexemes_tile(s, 0);
    assert forall|i: int| 0 <= i < all.len() implies (#[trigger] all[i]).kind is Trivia by {
        reveal(lexeme_at);
        assert(all[i] == lexeme_at(s, all[i].start));
        assert(is_blank_char(s[all[i].start]));
    }
    lemma_only_trivia(s, 0, 1);
}

/// Whether `token` is the token of the lexeme `l` of the text `s`: its
/// lexeme is the text of `l`, which is not empty, and its line is one more
/// than the number of line feeds that stand before the first character of
/// `l`.
pub open spec fn scanned_on_its_line(s: Seq<char>, l: Lexeme, token: TokenView) -> bool {
    &&& 0 <= l.start < l.end <= s.len()
    &&& l.kind == LexemeKind::Token(token.ttype)
    &&& token.lexeme == s.subrange(l.start, l.end)
    &&& token.line == 1 + count_newlines(s, 0, l.start)
}

/// Each token but the last is the token of one token lexeme of the text,
/// in the order of the text, with the text of that lexeme and on the line
/// on which it begins.  The last token is the sentinel, which stands at the
/// end of the text: its line is one more than the number of line feeds in
/// the whole text.
pub proof fn lemma_token_lines(s: Seq<char>)
    ensures
        scan_tokens_of(s).len() == token_lexemes(lexemes_from(s, 0)).len() + 1,
        forall|i: int|
            0 <= i < scan_tokens_of(s).len() - 1 ==> scanned_on_its_line(
                s,
                token_lexemes(lexemes_from(s, 0))[i],
                #[trigger] scan_tokens_of(s)[i],
            ),
        scan_tokens_of(s).last().line == 1 + count_newlines(s, 0, s.len() as int),
{
    let all = lexemes_from(s, 0);
    let found = token_lexemes(all);
    lemma_lexemes_tile(s, 0);
    assert forall|i: int| 0 <= i < scan_tokens_of(s).len() - 1 implies scanned_on_its_line(
        s,
        found[i],
        #[trigger] scan_tokens_of(s)[i],
    ) by {
        let l = found[i];
        all.lemma_filter_pred(|l: Lexeme| l.kind is Token, i);
        all.lemma_filter_contains_rev(|l: Lexeme| l.kind is Token, l);
        let k = choose|k: int| 0 <= k < all.len() && all[k] == l;
        assert(0 <= all[k].start < all[k].end <= s.len());
    }
}

/// Whether `error` reports the error lexeme `l` of the text `s` with the
/// message of its kind and on its line: for an unterminated comment the
/// line on which the text ends, for any other error, and for any error that
/// holds no line feed, one more than the number of line feeds that stand
/// before the first character of `l`.
pub open spec fn reported_on_its_line(s: Seq<char>, l: Lexeme, error: LoxErrorView) -> bool {
    &&& 0 <= l.start < l.end <= s.len()
    &&& l.kind is Error
    &&& error.message == l.kind->Error_0.message_text()
    &&& if l.kind == LexemeKind::Error(ErrorKind::UnterminatedComment) {
        error.line == 1 + count_newlines(s, 0, s.len() as int)
    } else {
        error.line == 1 + count_newlines(s, 0, l.start)
    }
    &&& count_newlines(s, l.start, l.end) == 0 ==> error.line == 1 + count_newlines(
        s,
        0,
        l.start,
    )
}

/// Each diagnostic reports one error lexeme of the text, in the order of
/// the text, with the message of its kind and on its line.
pub proof fn lemma_error_lines(s: Seq<char>)
    ensures
        scan_errors_of(s).len() == error_lexemes(lexemes_from(s, 0)).len(),
        forall|i: int|
            0 <= i < scan_errors_of(s).len() ==> reported_on_its_line(
                s,
                error_lexemes(lexemes_from(s, 0))[i],
                #[trigger] scan_errors_of(s)[i],
            ),
{
    let all = lexemes_from(s, 0);
    let found = error_lexemes(all);
    lemma_lexemes_tile(s, 0);
    assert forall|i: int| 0 <= i < scan_errors_of(s).len() implies reported_on_its_line(
        s,
        found[i],
        #[trigger] scan_errors_of(s)[i],
    ) by {
        let l = found[i];
        all.lemma_filter_pred(|l: Lexeme| l.kind is Error, i);
        all.lemma_filter_contains_rev(|l: Lexeme| l.kind is Error, l);
        let k = choose|k: int| 0 <= k < all.len() && all[k] == l;
        assert(all[k] == lexeme_at(s, all[k].start));
        lemma_lexeme_at_bounds(s, l.start);
        if l.kind == LexemeKind::Error(ErrorKind::UnterminatedComment) {
            reveal(lexeme_at);
            assert(l.end == s.len());
            lemma_count_newlines_split(s, 0, l.start, l.end);
        }
    }
}

/// An operator of two characters is never cut in two: `!`, `=`, `<` or `>`
/// with `=` behind it is one token of both characters, and is a token of
/// its own only where no `=` follows.
pub proof fn lemma_operators_are_greedy(s: Seq<char>, pos: int)
    requires
        0 <= pos < s.len(),
    ensures
        pair_at(s, pos, '!', '=') ==> lexeme_at(s, pos) == token_lexeme(
            TokenType::BangEqual,
            pos,
            pos + 2,
        ),
        pair_at(s, pos, '=', '=') ==> lexeme_at(s, pos) == token_lexeme(
            TokenType::EqualEqual,
            pos,
            pos + 2,
        ),
        pair_at(s, pos, '<', '=') ==> lexeme_at(s, pos) == token_lexeme(
            TokenType::LessEqual,
            pos,
            pos + 2,
        ),
        pair_at(s, pos, '>', '=') ==> lexeme_at(s, pos) == token_lexeme(
            TokenType::GreaterEqual,
            pos,
            pos + 2,
        ),
        ({
            let kind = lexeme_at(s, pos).kind;
            ||| kind == LexemeKind::Token(TokenType::Bang)
            ||| kind == LexemeKind::Token(TokenType::Equal)
            ||| kind == LexemeKind::Token(TokenType::Less)
            ||| kind == LexemeKind::Token(TokenType::Greater)
        }) ==> lexeme_at(s, pos).end == pos + 1 && !(pos + 1 < s.len() && s[pos + 1] == '='),
{
    reveal(lexeme_at);
    lemma_lexeme_at_bounds(s, pos);
}

/// The keyword table holds sixteen words, each with a type of its own.
pub proof fn lemma_keyword_table()
    ensures
        keyword_type("and"@) == Some(TokenType::And),
        keyword_type("class"@) == Some(TokenType::Class),
        keyword_type("else"@) == Some(TokenType::Else),
        keyword_type("false"@) == Some(TokenType::False),
        keyword_type("for"@) == Some(TokenType::For),
        keyword_type("fun"@) == Some(TokenType::Fun),
        keyword_type("if"@) == Some(TokenType::If),
        keyword_type("nil"@) == Some(TokenType::Nil),
        keyword_type("or"@) == Some(TokenType::Or),
        keyword_type("print"@) == Some(TokenType::Print),
        keyword_type("return"@) == Some(TokenType::Return),
        keyword_type("super"@) == Some(TokenType::Super),
        keyword_type("this"@) == Some(TokenType::This),
        keyword_type("true"@) == Some(TokenType::True),
        keyword_type("var"@) == Some(TokenType::Var),
        keyword_type("while"@) == Some(TokenType::While),
{
    lemma_keyword_spellings();
}

/// Every keyword is a word of two to six lower-case letters.
pub proof fn lemma_keywords_are_lower_case(text: Seq<char>)
    requires
        keyword_type(text) is Some,
    ensures
        2 <= text.len() <= 6,
        forall|i: int| 0 <= i < text.len() ==> 'a' <= #[trigger] text[i] <= 'z',
{
    lemma_keyword_spellings();
}

/// What the sixteen keywords are, character by character.
pub proof fn lemma_keyword_spellings()
    ensures
        "and"@ =~= seq!['a', 'n', 'd'],
        "class"@ =~= seq!['c', 'l', 'a', 's', 's'],
        "else"@ =~= seq!['e', 'l', 's', 'e'],
        "false"@ =~= seq!['f', 'a', 'l', 's', 'e'],
        "for"@ =~= seq!['f', 'o', 'r'],
        "fun"@ =~= seq!['f', 'u', 'n'],
        "if"@ =~= seq!['i', 'f'],
        "nil"@ =~= seq!['n', 'i', 'l'],
        "or"@ =~= seq!['o', 'r'],
        "print"@ =~= seq!['p', 'r', 'i', 'n', 't'],
        "return"@ =~= seq!['r', 'e', 't', 'u', 'r', 'n'],
        "super"@ =~= seq!['s', 'u', 'p', 'e', 'r'],
        "this"@ =~= seq!['t', 'h', 'i', 's'],
        "true"@ =~= seq!['t', 'r', 'u', 'e'],
        "var"@ =~= seq!['v', 'a', 'r'],
        "while"@ =~= seq!['w', 'h', 'i', 'l', 'e'],
{
    reveal_strlit("and");
    reveal_strlit("class");
    reveal_strlit("else");
    reveal_strlit("false");
    reveal_strlit("for");
    reveal_strlit("fun");
    reveal_strlit("if");
    reveal_strlit("nil");
    reveal_strlit("or");
    reveal_strlit("print");
    reveal_strlit("return");
    reveal_strlit("super");
    reveal_strlit("this");
    reveal_strlit("true");
    reveal_strlit("var");
    reveal_strlit("while");
}

/// A word is taken whole: the lexeme that begins with a letter or an
/// underscore holds letters, digits and underscores only, is followed by
/// none, and is a keyword token exactly where the whole of it spells that
/// keyword, else an identifier.
pub proof fn lemma_words_are_whole(s: Seq<char>, pos: int)
    requires
        0 <= pos < s.len(),
        starts_identifier(s[pos]),
    ensures
        ({
            let l = lexeme_at(s, pos);
            &&& pos < l.end <= s.len()
            &&& forall|i: int| pos <= i < l.end ==> continues_identifier(#[trigger] s[i])
            &&& l.end < s.len() ==> !continues_identifier(s[l.end])
            &&& l.kind == LexemeKind::Token(word_type(s.subrange(pos, l.end)))
            &&& l.kind == LexemeKind::Token(TokenType::Identifier) <==> keyword_type(
                s.subrange(pos, l.end),
            ) is None
        }),
{
    reveal(lexeme_at);
    lemma_run_end(s, pos + 1, |c: char| continues_identifier(c));
}

/// The lexeme of a number is a decimal numeral: it begins and ends with a
/// digit, and a point stands in it only between two digits.
pub proof fn lemma_numbers_are_numerals(s: Seq<char>, pos: int)
    requires
        0 <= pos < s.len(),
        lexeme_at(s, pos).kind == LexemeKind::Token(TokenType::Number),
    ensures
        is_numeral(s.subrange(pos, lexeme_at(s, pos).end)),
{
    reveal(lexeme_at);
    let digit = |c: char| is_digit_char(c);
    let end = lexeme_at(s, pos).end;
    let text = s.subrange(pos, end);
    let whole = digits_end(s, pos + 1);
    lemma_lexeme_at_bounds(s, pos);
    lemma_run_end(s, pos + 1, digit);
    assert(is_digit_char(s[pos]));
    if has_fraction(s, whole) {
        lemma_run_end(s, whole + 1, digit);
        lemma_run_end_is(text, 0, digit, whole - pos);
        lemma_run_end_is(text, whole - pos + 1, digit, end - pos);
    } else {
        lemma_run_end_is(text, 0, digit, whole - pos);
    }
}

/// A string lexeme begins and ends with a double quote and holds no other:
/// the value of its token is the text between the two.
pub proof fn lemma_strings_are_quoted(s: Seq<char>, pos: int)
    requires
        0 <= pos < s.len(),
        lexeme_at(s, pos).kind == LexemeKind::Token(TokenType::String),
    ensures
        ({
            let end = lexeme_at(s, pos).end;
            &&& pos + 2 <= end <= s.len()
            &&& s[pos] == '"'
            &&& s[end - 1] == '"'
            &&& forall|i: int| pos < i < end - 1 ==> #[trigger] s[i] != '"'
            &&& literal_of(TokenType::String, s.subrange(pos, end)) == ObjectView::Str(
                s.subrange(pos + 1, end - 1),
            )
        }),
{
    reveal(lexeme_at);
    let end = lexeme_at(s, pos).end;
    lemma_run_end(s, pos + 1, |c: char| c != '"');
    assert(s.subrange(pos, end).subrange(1, end - pos - 1) =~= s.subrange(pos + 1, end - 1));
}

} // verus!
