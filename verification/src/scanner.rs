//! Lexical analysis: turns source text into tokens, one at a time.

use vstd::prelude::*;
use vstd::std_specs::iter::IteratorSpec;

verus! {

#[derive(Clone, Copy, Debug, Hash, PartialEq, Eq, Structural)]
pub enum TokenType {
    // Single-character tokens.
    LeftParen,
    RightParen,
    LeftBrace,
    RightBrace,
    Comma,
    Dot,
    Minus,
    Plus,
    Semicolon,
    Slash,
    Star,
    // One or two character tokens.
    Bang,
    BangEqual,
    Equal,
    EqualEqual,
    Greater,
    GreaterEqual,
    Less,
    LessEqual,
    // Literals.
    Identifier,
    String,
    Number,
    // Keywords.
    And,
    Class,
    Else,
    False,
    For,
    Fun,
    If,
    Nil,
    Or,
    Print,
    Return,
    Super,
    This,
    True,
    Var,
    While,
    Eof,
}

/// The place of a token kind in the order of their declaration, from 0.
pub open spec fn ordinal(token_type: TokenType) -> usize {
    match token_type {
        TokenType::LeftParen => 0,
        TokenType::RightParen => 1,
        TokenType::LeftBrace => 2,
        TokenType::RightBrace => 3,
        TokenType::Comma => 4,
        TokenType::Dot => 5,
        TokenType::Minus => 6,
        TokenType::Plus => 7,
        TokenType::Semicolon => 8,
        TokenType::Slash => 9,
        TokenType::Star => 10,
        TokenType::Bang => 11,
        TokenType::BangEqual => 12,
        TokenType::Equal => 13,
        TokenType::EqualEqual => 14,
        TokenType::Greater => 15,
        TokenType::GreaterEqual => 16,
        TokenType::Less => 17,
        TokenType::LessEqual => 18,
        TokenType::Identifier => 19,
        TokenType::String => 20,
        TokenType::Number => 21,
        TokenType::And => 22,
        TokenType::Class => 23,
        TokenType::Else => 24,
        TokenType::False => 25,
        TokenType::For => 26,
        TokenType::Fun => 27,
        TokenType::If => 28,
        TokenType::Nil => 29,
        TokenType::Or => 30,
        TokenType::Print => 31,
        TokenType::Return => 32,
        TokenType::Super => 33,
        TokenType::This => 34,
        TokenType::True => 35,
        TokenType::Var => 36,
        TokenType::While => 37,
        TokenType::Eof => 38,
    }
}

impl From<TokenType> for usize {
    fn from(value: TokenType) -> (index: Self) {
        match value {
            TokenType::LeftParen => 0,
            TokenType::RightParen => 1,
            TokenType::LeftBrace => 2,
            TokenType::RightBrace => 3,
            TokenType::Comma => 4,
            TokenType::Dot => 5,
            TokenType::Minus => 6,
            TokenType::Plus => 7,
            TokenType::Semicolon => 8,
            TokenType::Slash => 9,
            TokenType::Star => 10,
            TokenType::Bang => 11,
            TokenType::BangEqual => 12,
            TokenType::Equal => 13,
            TokenType::EqualEqual => 14,
            TokenType::Greater => 15,
            TokenType::GreaterEqual => 16,
            TokenType::Less => 17,
            TokenType::LessEqual => 18,
            TokenType::Identifier => 19,
            TokenType::String => 20,
            TokenType::Number => 21,
            TokenType::And => 22,
            TokenType::Class => 23,
            TokenType::Else => 24,
            TokenType::False => 25,
            TokenType::For => 26,
            TokenType::Fun => 27,
            TokenType::If => 28,
            TokenType::Nil => 29,
            TokenType::Or => 30,
            TokenType::Print => 31,
            TokenType::Return => 32,
            TokenType::Super => 33,
            TokenType::This => 34,
            TokenType::True => 35,
            TokenType::Var => 36,
            TokenType::While => 37,
            TokenType::Eof => 38,
        }
    }
}

impl vstd::std_specs::convert::FromSpecImpl<TokenType> for usize {
    open spec fn obeys_from_spec() -> bool {
        true
    }

    open spec fn from_spec(value: TokenType) -> Self {
        ordinal(value)
    }
}

/// A token: its kind, the line it ends on, and its span in the source,
/// counted in characters.
#[derive(Clone, Copy, Debug, PartialEq, Eq, Structural)]
pub struct Token {
    pub token_type: TokenType,
    pub line: i32,
    pub start: usize,
    pub length: usize,
}

/// What the scanner hands out in place of a token when the text at the
/// cursor is no token.
#[derive(Debug, PartialEq)]
pub struct ErrorToken {
    pub line: i32,
    pub start: usize,
    pub length: usize,
    pub message: String,
}

pub type ScanResult = Result<Token, ErrorToken>;

/// The two ways in which scanning a token can fail.
pub ghost enum ScanFault {
    UnexpectedCharacter,
    UnterminatedString,
}

/// What one call of `scan_token` does, as a value: the token or the fault,
/// the span, and where cursor and line counter stand afterwards.
pub ghost struct ScanStep {
    pub fault: Option<ScanFault>,
    pub token_type: TokenType,
    pub start: int,
    pub current: int,
    pub line: int,
}

pub struct Scanner {
    source: Vec<char>,
    line: i32,
    start: usize,
    current: usize,
}

/// Whether Unicode classes `c` as alphabetic.
pub uninterp spec fn alphabetic(c: char) -> bool;

/// `char::is_alphabetic` of std: whether `c` has the Unicode property
/// Alphabetic. The result depends on `c` alone and is named, not spelled out.
#[verifier::external_body]
fn unicode_alphabetic(c: char) -> (b: bool)
    ensures
        b == alphabetic(c),
{
    c.is_alphabetic()
}

/// `String::push` of std: appends one character to the string.
#[verifier::external_body]
pub(crate) fn string_push(s: &mut String, c: char)
    ensures
        final(s)@ == old(s)@.push(c),
{
    s.push(c)
}

pub open spec fn is_digit(c: char) -> bool {
    '0' <= c && c <= '9'
}

pub open spec fn is_alpha(c: char) -> bool {
    alphabetic(c) || c == '_'
}

pub open spec fn is_blank(c: char) -> bool {
    c == ' ' || c == '\t' || c == '\r'
}

/// The line counter after one more line break; it stops at the largest `i32`.
pub open spec fn next_line(line: int) -> int {
    if line < i32::MAX {
        line + 1
    } else {
        line
    }
}

/// First position at or after `pos` that holds no digit.
pub open spec fn digits_end(src: Seq<char>, pos: int) -> int
    decreases src.len() - pos,
{
    if 0 <= pos < src.len() && is_digit(src[pos]) {
        digits_end(src, pos + 1)
    } else {
        pos
    }
}

/// First position at or after `pos` that holds neither a letter, an
/// underscore nor a digit.
pub open spec fn identifier_end(src: Seq<char>, pos: int) -> int
    decreases src.len() - pos,
{
    if 0 <= pos < src.len() && (is_alpha(src[pos]) || is_digit(src[pos])) {
        identifier_end(src, pos + 1)
    } else {
        pos
    }
}

/// First position at or after `pos` that holds a line break, or the end of
/// the source.
pub open spec fn line_end(src: Seq<char>, pos: int) -> int
    decreases src.len() - pos,
{
    if 0 <= pos < src.len() && src[pos] != '\n' {
        line_end(src, pos + 1)
    } else {
        pos
    }
}

/// The position of the first double quote at or after `pos`, or the end of
/// the source, paired with the line counter after the line breaks passed on
/// the way.
pub open spec fn string_close(src: Seq<char>, pos: int, line: int) -> (int, int)
    decreases src.len() - pos,
{
    if 0 <= pos < src.len() && src[pos] != '"' {
        string_close(
            src,
            pos + 1,
            if src[pos] == '\n' {
                next_line(line)
            } else {
                line
            },
        )
    } else {
        (pos, line)
    }
}

/// Where a number that began before `pos` ends: after the digits at `pos`
/// and, if a dot and a digit follow them, after the digits behind the dot.
pub open spec fn number_end(src: Seq<char>, pos: int) -> int {
    let d = digits_end(src, pos);
    if 0 <= d && d + 1 < src.len() && src[d] == '.' && is_digit(src[d + 1]) {
        digits_end(src, d + 1)
    } else {
        d
    }
}

/// Whether a line comment starts at `pos`.
pub open spec fn comment_at(src: Seq<char>, pos: int) -> bool {
    0 <= pos && pos + 1 < src.len() && src[pos] == '/' && src[pos + 1] == '/'
}

/// Position and line counter after the blanks, line breaks and line
/// comments that start at `pos`.
pub open spec fn skip_blanks(src: Seq<char>, pos: int, line: int) -> (int, int)
    decreases src.len() - pos,
    via skip_blanks_decreases
{
    if pos < 0 || pos >= src.len() {
        (pos, line)
    } else if is_blank(src[pos]) {
        skip_blanks(src, pos + 1, line)
    } else if src[pos] == '\n' {
        skip_blanks(src, pos + 1, next_line(line))
    } else if comment_at(src, pos) {
        skip_blanks(src, line_end(src, pos), line)
    } else {
        (pos, line)
    }
}

#[via_fn]
proof fn skip_blanks_decreases(src: Seq<char>, pos: int, line: int) {
    if 0 <= pos < src.len() && comment_at(src, pos) {
        lemma_line_end(src, pos + 1);
    }
}

/// The kind of the word `lexeme`: that of the keyword it spells, or
/// `Identifier`.
pub open spec fn word_kind(lexeme: Seq<char>) -> TokenType {
    if lexeme == "and"@ {
        TokenType::And
    } else if lexeme == "class"@ {
        TokenType::Class
    } else if lexeme == "else"@ {
        TokenType::Else
    } else if lexeme == "false"@ {
        TokenType::False
    } else if lexeme == "for"@ {
        TokenType::For
    } else if lexeme == "fun"@ {
        TokenType::Fun
    } else if lexeme == "if"@ {
        TokenType::If
    } else if lexeme == "nil"@ {
        TokenType::Nil
    } else if lexeme == "or"@ {
        TokenType::Or
    } else if lexeme == "print"@ {
        TokenType::Print
    } else if lexeme == "return"@ {
        TokenType::Return
    } else if lexeme == "super"@ {
        TokenType::Super
    } else if lexeme == "this"@ {
        TokenType::This
    } else if lexeme == "true"@ {
        TokenType::True
    } else if lexeme == "var"@ {
        TokenType::Var
    } else if lexeme == "while"@ {
        TokenType::While
    } else {
        TokenType::Identifier
    }
}

/// The kind of the punctuation or operator token that starts with `c`, given
/// whether an equals sign follows; `None` where `c` starts no such token.
pub open spec fn symbol_kind(c: char, equal_follows: bool) -> Option<(TokenType, int)> {
    if c == '(' {
        Some((TokenType::LeftParen, 1))
    } else if c == ')' {
        Some((TokenType::RightParen, 1))
    } else if c == '{' {
        Some((TokenType::LeftBrace, 1))
    } else if c == '}' {
        Some((TokenType::RightBrace, 1))
    } else if c == ';' {
        Some((TokenType::Semicolon, 1))
    } else if c == ',' {
        Some((TokenType::Comma, 1))
    } else if c == '.' {
        Some((TokenType::Dot, 1))
    } else if c == '-' {
        Some((TokenType::Minus, 1))
    } else if c == '+' {
        Some((TokenType::Plus, 1))
    } else if c == '/' {
        Some((TokenType::Slash, 1))
    } else if c == '*' {
        Some((TokenType::Star, 1))
    } else if c == '!' {
        if equal_follows {
            Some((TokenType::BangEqual, 2))
        } else {
            Some((TokenType::Bang, 1))
        }
    } else if c == '=' {
        if equal_follows {
            Some((TokenType::EqualEqual, 2))
        } else {
            Some((TokenType::Equal, 1))
        }
    } else if c == '<' {
        if equal_follows {
            Some((TokenType::LessEqual, 2))
        } else {
            Some((TokenType::Less, 1))
        }
    } else if c == '>' {
        if equal_follows {
            Some((TokenType::GreaterEqual, 2))
        } else {
            Some((TokenType::Greater, 1))
        }
    } else {
        None
    }
}

/// The token that starts at `start`, where no blank or comment stands, and
/// the state of the scanner behind it.
pub open spec fn scan_at(src: Seq<char>, start: int, line: int) -> ScanStep {
    if start < 0 || start >= src.len() {
        ScanStep { fault: None, token_type: TokenType::Eof, start, current: start, line }
    } else if is_alpha(src[start]) {
        let end = identifier_end(src, start + 1);
        ScanStep {
            fault: None,
            token_type: word_kind(src.subrange(start, end)),
            start,
            current: end,
            line,
        }
    } else if is_digit(src[start]) {
        ScanStep {
            fault: None,
            token_type: TokenType::Number,
            start,
            current: number_end(src, start + 1),
            line,
        }
    } else if src[start] == '"' {
        let (close, line_after) = string_close(src, start + 1, line);
        if close >= src.len() {
            ScanStep {
                fault: Some(ScanFault::UnterminatedString),
                token_type: TokenType::String,
                start,
                current: close,
                line: line_after,
            }
        } else {
            ScanStep {
                fault: None,
                token_type: TokenType::String,
                start,
                current: close + 1,
                line: line_after,
            }
        }
    } else {
        match symbol_kind(src[start], start + 1 < src.len() && src[start + 1] == '=') {
            Some((token_type, length)) => ScanStep {
                fault: None,
                token_type,
                start,
                current: start + length,
                line,
            },
            None => ScanStep {
                fault: Some(ScanFault::UnexpectedCharacter),
                token_type: TokenType::Eof,
                start,
                current: start + 1,
                line,
            },
        }
    }
}

/// One call of `scan_token` on a scanner whose cursor is at `current` and
/// whose line counter is `line`.
pub open spec fn scan(src: Seq<char>, current: int, line: int) -> ScanStep {
    let (start, line_at) = skip_blanks(src, current, line);
    scan_at(src, start, line_at)
}

impl ScanStep {
    /// The token of a step without fault.
    pub open spec fn token(self) -> Token {
        Token {
            token_type: self.token_type,
            line: self.line as i32,
            start: self.start as usize,
            length: (self.current - self.start) as usize,
        }
    }

    /// The text that reports the step's fault.
    pub open spec fn message(self) -> Seq<char> {
        match self.fault {
            Some(ScanFault::UnterminatedString) => "Undetermined string"@,
            _ => "Unexpected character"@,
        }
    }

    /// Whether `result` is what `scan_token` returns for this step.
    pub open spec fn yields(self, result: ScanResult) -> bool {
        match result {
            Ok(token) => self.fault is None && token == self.token(),
            Err(error) => {
                &&& self.fault is Some
                &&& error.line == self.line
                &&& error.start == self.start
                &&& error.length == self.current - self.start
                &&& error.message@ == self.message()
            },
        }
    }
}

pub proof fn lemma_line_end(src: Seq<char>, pos: int)
    requires
        0 <= pos <= src.len(),
    ensures
        pos <= line_end(src, pos) <= src.len(),
        line_end(src, pos) < src.len() ==> src[line_end(src, pos)] == '\n',
    decreases src.len() - pos,
{
    if pos < src.len() && src[pos] != '\n' {
        lemma_line_end(src, pos + 1);
    }
}

pub proof fn lemma_digits_end(src: Seq<char>, pos: int)
    requires
        0 <= pos <= src.len(),
    ensures
        pos <= digits_end(src, pos) <= src.len(),
    decreases src.len() - pos,
{
    if pos < src.len() && is_digit(src[pos]) {
        lemma_digits_end(src, pos + 1);
    }
}

pub proof fn lemma_identifier_end(src: Seq<char>, pos: int)
    requires
        0 <= pos <= src.len(),
    ensures
        pos <= identifier_end(src, pos) <= src.len(),
    decreases src.len() - pos,
{
    if pos < src.len() && (is_alpha(src[pos]) || is_digit(src[pos])) {
        lemma_identifier_end(src, pos + 1);
    }
}

pub proof fn lemma_string_close(src: Seq<char>, pos: int, line: int)
    requires
        0 <= pos <= src.len(),
    ensures
        pos <= string_close(src, pos, line).0 <= src.len(),
        1 <= line <= i32::MAX ==> line <= string_close(src, pos, line).1 <= i32::MAX,
    decreases src.len() - pos,
{
    if pos < src.len() && src[pos] != '"' {
        lemma_string_close(
            src,
            pos + 1,
            if src[pos] == '\n' {
                next_line(line)
            } else {
                line
            },
        );
    }
}

pub proof fn lemma_skip_blanks(src: Seq<char>, pos: int, line: int)
    requires
        0 <= pos <= src.len(),
    ensures
        pos <= skip_blanks(src, pos, line).0 <= src.len(),
        1 <= line <= i32::MAX ==> line <= skip_blanks(src, pos, line).1 <= i32::MAX,
    decreases src.len() - pos,
{
    if pos < src.len() {
        if is_blank(src[pos]) {
            lemma_skip_blanks(src, pos + 1, line);
        } else if src[pos] == '\n' {
            lemma_skip_blanks(src, pos + 1, next_line(line));
        } else if comment_at(src, pos) {
            lemma_line_end(src, pos + 1);
            lemma_skip_blanks(src, line_end(src, pos), line);
        }
    }
}

/// Every step keeps the cursor in range and never moves it back; a step
/// that finds a token or a fault before the end of the source moves it
/// forward, and the end is found at the end only. The line counter stays in
/// range and never goes back.
pub proof fn lemma_scan_progress(src: Seq<char>, current: int, line: int)
    requires
        0 <= current <= src.len(),
    ensures
        current <= scan(src, current, line).start <= scan(src, current, line).current <= src.len(),
        1 <= line <= i32::MAX ==> line <= scan(src, current, line).line <= i32::MAX,
        scan(src, current, line).fault is Some || scan(src, current, line).token_type
            != TokenType::Eof ==> current < scan(src, current, line).current,
        scan(src, current, line).fault is Some ==> scan(src, current, line).start < scan(
            src,
            current,
            line,
        ).current,
        scan(src, current, line).fault is None && scan(src, current, line).token_type
            == TokenType::Eof ==> scan(src, current, line).current == src.len(),
        scan(src, current, line).fault is None && scan(src, current, line).token_type
            == TokenType::String ==> scan(src, current, line).start + 2 <= scan(
            src,
            current,
            line,
        ).current,
{
    lemma_skip_blanks(src, current, line);
    let (start, line_at) = skip_blanks(src, current, line);
    if start < src.len() {
        lemma_identifier_end(src, start + 1);
        lemma_digits_end(src, start + 1);
        let d = digits_end(src, start + 1);
        if d + 1 < src.len() {
            lemma_digits_end(src, d + 1);
        }
        lemma_string_close(src, start + 1, line_at);
        lemma_word_kind(src.subrange(start, identifier_end(src, start + 1)));
    }
}

/// A word is an identifier or a keyword.
pub proof fn lemma_word_kind(lexeme: Seq<char>)
    ensures
        word_kind(lexeme) != TokenType::Eof,
        word_kind(lexeme) != TokenType::String,
{
}

/// A word that begins as `whole` does spells `whole` exactly when what
/// follows its first `k` characters is `rest`, the ending of `whole`.
proof fn lemma_keyword_tail(word: Seq<char>, k: int, whole: Seq<char>, rest: Seq<char>)
    requires
        0 <= k <= word.len(),
        whole.len() == k + rest.len(),
        forall|j: int| 0 <= j < rest.len() ==> whole[k + j] == rest[j],
    ensures
        (forall|i: int| 0 <= i < k ==> word[i] == whole[i]) ==> (word == whole
            <==> word.subrange(k, word.len() as int) == rest),
        word == whole ==> forall|i: int| 0 <= i < k ==> word[i] == whole[i],
{
    let tail = word.subrange(k, word.len() as int);
    if forall|i: int| 0 <= i < k ==> word[i] == whole[i] {
        if word == whole {
            assert(tail =~= rest);
        }
        if tail == rest {
            assert forall|i: int| 0 <= i < word.len() implies word[i] == whole[i] by {
                if i >= k {
                    assert(word[i] == tail[i - k]);
                }
            }
            assert(word =~= whole);
        }
    }
}

/// What the keywords and their endings read, character by character.
proof fn lemma_keyword_texts()
    ensures
        "and"@ =~= seq!['a', 'n', 'd'],
        "class"@ =~= seq!['c', 'l', 'a', 's', 's'],
        "else"@ =~= seq!['e', 'l', 's', 'e'],
        "false"@ =~= seq!['f', 'a', 'l', 's', 'e'],
        "for"@ =~= seq!['f', 'o', 'r'],
        "fun"@ =~= seq!['f', 'u', 'n'],
        "if"@ =~= seq!['i', 'f'],
        "nil"@ =~= seq!['n', 'i', 'l'],
        "or"@ =~= seq!['o', 'r'],
        "print"@ =~= seq!['p', 'r', 'i', 'n', 't'],
        "return"@ =~= seq!['r', 'e', 't', 'u', 'r', 'n'],
        "super"@ =~= seq!['s', 'u', 'p', 'e', 'r'],
        "this"@ =~= seq!['t', 'h', 'i', 's'],
        "true"@ =~= seq!['t', 'r', 'u', 'e'],
        "var"@ =~= seq!['v', 'a', 'r'],
        "while"@ =~= seq!['w', 'h', 'i', 'l', 'e'],
        "nd"@ =~= seq!['n', 'd'],
        "lass"@ =~= seq!['l', 'a', 's', 's'],
        "lse"@ =~= seq!['l', 's', 'e'],
        "r"@ =~= seq!['r'],
        "n"@ =~= seq!['n'],
        "f"@ =~= seq!['f'],
        "il"@ =~= seq!['i', 'l'],
        "rint"@ =~= seq!['r', 'i', 'n', 't'],
        "eturn"@ =~= seq!['e', 't', 'u', 'r', 'n'],
        "uper"@ =~= seq!['u', 'p', 'e', 'r'],
        "is"@ =~= seq!['i', 's'],
        "ue"@ =~= seq!['u', 'e'],
        "ar"@ =~= seq!['a', 'r'],
        "hile"@ =~= seq!['h', 'i', 'l', 'e'],
{
    reveal_strlit("and");
    reveal_strlit("class");
    reveal_strlit("else");
    reveal_strlit("false");
    reveal_strlit("for");
    reveal_strlit("fun");
    reveal_strlit("if");
    reveal_strlit("nil");
    reveal_strlit("or");
    reveal_strlit("print");
    reveal_strlit("return");
    reveal_strlit("super");
    reveal_strlit("this");
    reveal_strlit("true");
    reveal_strlit("var");
    reveal_strlit("while");
    reveal_strlit("nd");
    reveal_strlit("lass");
    reveal_strlit("lse");
    reveal_strlit("r");
    reveal_strlit("n");
    reveal_strlit("f");
    reveal_strlit("il");
    reveal_strlit("rint");
    reveal_strlit("eturn");
    reveal_strlit("uper");
    reveal_strlit("is");
    reveal_strlit("ue");
    reveal_strlit("ar");
    reveal_strlit("hile");
}

impl Scanner {
    /// The text being scanned.
    pub closed spec fn src(&self) -> Seq<char> {
        self.source@
    }

    /// The current line, counted from 1.
    pub closed spec fn line(&self) -> int {
        self.line as int
    }

    /// Where the token last scanned starts.
    pub closed spec fn start(&self) -> int {
        self.start as int
    }

    /// The cursor: the position of the next character to read.
    pub closed spec fn current(&self) -> int {
        self.current as int
    }

    /// The invariant of a scanner: the cursor is inside the text or at its
    /// end, the last token starts at or before it, and lines count from 1.
    pub closed spec fn wf(&self) -> bool {
        &&& self.start <= self.current <= self.source@.len()
        &&& 1 <= self.line
    }

    /// Whether `token` spans a part of the text.
    pub open spec fn spans(&self, start: usize, length: usize) -> bool {
        start + length <= self.src().len()
    }

    /// A text is never longer than the largest `usize`.
    pub proof fn lemma_text_fits(&self)
        ensures
            self.src().len() <= usize::MAX,
    {
        assert(self.source@.len() == self.source.len());
    }

    pub fn new(source: &str) -> (s: Self)
        ensures
            s.wf(),
            s.src() == source@,
            s.line() == 1,
            s.start() == 0,
            s.current() == 0,
    {
        let mut chars: Vec<char> = Vec::new();
        let mut rest = source.chars();
        loop
            invariant
                chars@ + rest.remaining() == source@,
                rest.obeys_prophetic_iter_laws(),
                rest.decrease() is Some,
            ensures
                chars@ == source@,
            decreases rest.decrease()->0,
        {
            let ghost before = rest;
            match rest.next() {
                Some(c) => {
                    proof {
                        assert(before.remaining().len() > 0);
                        assert(chars@.push(c) + rest.remaining() =~= chars@ + before.remaining());
                    }
                    chars.push(c);
                },
                None => {
                    assert(chars@ =~= chars@ + rest.remaining());
                    break ;
                },
            }
        }
        Self { source: chars, line: 1, start: 0, current: 0 }
    }

    /// The text of `token`.
    pub fn lexeme(&self, token: &Token) -> (text: String)
        requires
            self.spans(token.start, token.length),
        ensures
            text@ == self.src().subrange(token.start as int, token.start + token.length),
    {
        proof {
            self.lemma_text_fits();
        }
        self.text_between(token.start, token.start + token.length)
    }

    /// The text of a string token without its quotes.
    pub fn lexeme_string(&self, token: &Token) -> (text: String)
        requires
            token.token_type == TokenType::String,
            token.length >= 2,
            self.spans(token.start, token.length),
        ensures
            text@ == self.src().subrange(token.start + 1, token.start + token.length - 1),
    {
        proof {
            self.lemma_text_fits();
        }
        self.text_between(token.start + 1, token.start + token.length - 1)
    }

    /// Scans the next token: skips blanks and comments, then reads one token
    /// or reports the character or string that is none.
    pub fn scan_token(&mut self) -> (result: ScanResult)
        requires
            old(self).wf(),
        ensures
            final(self).wf(),
            final(self).src() == old(self).src(),
            scan(old(self).src(), old(self).current(), old(self).line()).yields(result),
            final(self).start() == scan(old(self).src(), old(self).current(), old(self).line()).start,
            final(self).current() == scan(
                old(self).src(),
                old(self).current(),
                old(self).line(),
            ).current,
            final(self).line() == scan(old(self).src(), old(self).current(), old(self).line()).line,
            match result {
                Ok(token) => final(self).spans(token.start, token.length),
                Err(error) => final(self).spans(error.start, error.length),
            },
    {
        proof {
            lemma_scan_progress(self.source@, self.current as int, self.line as int);
            self.lemma_text_fits();
        }
        self.skip_whitespace();
        self.start = self.current;
        if self.is_at_end() {
            return self.make_token(TokenType::Eof);
        }
        let c = self.advance();

        if self.is_alpha(c) {
            return self.identifier();
        }
        if c >= '0' && c <= '9' {
            return self.number();
        }
        match c {
            '(' => return self.make_token(TokenType::LeftParen),
            ')' => return self.make_token(TokenType::RightParen),
            '{' => return self.make_token(TokenType::LeftBrace),
            '}' => return self.make_token(TokenType::RightBrace),
            ';' => return self.make_token(TokenType::Semicolon),
            ',' => return self.make_token(TokenType::Comma),
            '.' => return self.make_token(TokenType::Dot),
            '-' => return self.make_token(TokenType::Minus),
            '+' => return self.make_token(TokenType::Plus),
            '/' => return self.make_token(TokenType::Slash),
            '*' => return self.make_token(TokenType::Star),
            '!' => {
                return if self.match_char('=') {
                    self.make_token(TokenType::BangEqual)
                } else {
                    self.make_token(TokenType::Bang)
                };
            },
            '=' => {
                return if self.match_char('=') {
                    self.make_token(TokenType::EqualEqual)
                } else {
                    self.make_token(TokenType::Equal)
                };
            },
            '<' => {
                return if self.match_char('=') {
                    self.make_token(TokenType::LessEqual)
                } else {
                    self.make_token(TokenType::Less)
                };
            },
            '>' => {
                return if self.match_char('=') {
                    self.make_token(TokenType::GreaterEqual)
                } else {
                    self.make_token(TokenType::Greater)
                };
            },
            '"' => return self.string(),
            _ => (),
        }

        Err(self.error_token("Unexpected character"))
    }

    fn skip_whitespace(&mut self)
        requires
            old(self).wf(),
        ensures
            final(self).wf(),
            final(self).source == old(self).source,
            final(self).start == old(self).start,
            (final(self).current as int, final(self).line as int) == skip_blanks(
                old(self).source@,
                old(self).current as int,
                old(self).line as int,
            ),
    {
        loop
            invariant
                self.wf(),
                self.source == old(self).source,
                self.start == old(self).start,
                skip_blanks(self.source@, self.current as int, self.line as int) == skip_blanks(
                    old(self).source@,
                    old(self).current as int,
                    old(self).line as int,
                ),
            ensures
                self.wf(),
                self.source == old(self).source,
                self.start == old(self).start,
                (self.current as int, self.line as int) == skip_blanks(
                    old(self).source@,
                    old(self).current as int,
                    old(self).line as int,
                ),
            decreases self.source@.len() - self.current,
        {
            let c = self.peek();
            if c == '\t' || c == '\r' || c == ' ' {
                self.advance();
            } else if c == '\n' {
                if self.line < i32::MAX {
                    self.line += 1;
                }
                self.advance();
            } else if c == '/' && self.peek_next() == '/' {
                let ghost from = self.current as int;
                let ghost line = self.line;
                proof {
                    lemma_line_end(self.source@, from + 1);
                }
                while self.peek() != '\n' && !self.is_at_end()
                    invariant
                        self.wf(),
                        self.source == old(self).source,
                        self.start == old(self).start,
                        self.line == line,
                        from <= self.current,
                        line_end(self.source@, self.current as int) == line_end(
                            self.source@,
                            from,
                        ),
                    decreases self.source@.len() - self.current,
                {
                    self.advance();
                }
            } else {
                break ;
            }
        }
    }

    fn string(&mut self) -> (result: ScanResult)
        requires
            old(self).wf(),
            old(self).current == old(self).start + 1,
            old(self).source@[old(self).start as int] == '"',
            !is_alpha(old(self).source@[old(self).start as int]),
        ensures
            final(self).wf(),
            final(self).source == old(self).source,
            final(self).start == old(self).start,
            scan_at(old(self).source@, old(self).start as int, old(self).line as int).yields(
                result,
            ),
            final(self).current == scan_at(
                old(self).source@,
                old(self).start as int,
                old(self).line as int,
            ).current,
            final(self).line == scan_at(
                old(self).source@,
                old(self).start as int,
                old(self).line as int,
            ).line,
    {
        proof {
            lemma_string_close(self.source@, self.current as int, self.line as int);
            assert(self.wf());
        }
        while self.peek() != '"' && !self.is_at_end()
            invariant
                self.wf(),
                self.source == old(self).source,
                self.start == old(self).start,
                string_close(self.source@, self.current as int, self.line as int) == string_close(
                    old(self).source@,
                    old(self).current as int,
                    old(self).line as int,
                ),
            decreases self.source@.len() - self.current,
        {
            if self.peek() == '\n' {
                if self.line < i32::MAX {
                    self.line += 1;
                }
            }
            self.advance();
        }

        if self.is_at_end() {
            return Err(self.error_token("Undetermined string"));
        }
        self.advance();

        self.make_token(TokenType::String)
    }

    fn number(&mut self) -> (result: ScanResult)
        requires
            old(self).wf(),
            old(self).current == old(self).start + 1,
            is_digit(old(self).source@[old(self).start as int]),
            !is_alpha(old(self).source@[old(self).start as int]),
        ensures
            final(self).wf(),
            final(self).source == old(self).source,
            final(self).start == old(self).start,
            final(self).line == old(self).line,
            scan_at(old(self).source@, old(self).start as int, old(self).line as int).yields(
                result,
            ),
            final(self).current == scan_at(
                old(self).source@,
                old(self).start as int,
                old(self).line as int,
            ).current,
    {
        proof {
            lemma_digits_end(self.source@, self.current as int);
        }
        self.skip_digits();

        if self.peek() == '.' && self.next_is_digit() {
            self.advance();
            proof {
                lemma_digits_end(self.source@, self.current as int);
            }
            self.skip_digits();
        }
        self.make_token(TokenType::Number)
    }

    /// Moves the cursor behind the digits that stand at it.
    fn skip_digits(&mut self)
        requires
            old(self).wf(),
        ensures
            final(self).wf(),
            final(self).source == old(self).source,
            final(self).start == old(self).start,
            final(self).line == old(self).line,
            final(self).current == digits_end(old(self).source@, old(self).current as int),
    {
        while self.current < self.source.len() && self.source[self.current] >= '0'
            && self.source[self.current] <= '9'
            invariant
                self.wf(),
                self.source == old(self).source,
                self.start == old(self).start,
                self.line == old(self).line,
                digits_end(self.source@, self.current as int) == digits_end(
                    old(self).source@,
                    old(self).current as int,
                ),
            decreases self.source@.len() - self.current,
        {
            self.advance();
        }
    }

    /// Whether the character behind the one at the cursor is a digit.
    fn next_is_digit(&self) -> (b: bool)
        requires
            self.wf(),
        ensures
            b == (self.current + 1 < self.source@.len() && is_digit(
                self.source@[self.current + 1],
            )),
    {
        let c = self.peek_next();
        self.current < self.source.len() && self.source.len() - self.current > 1 && c >= '0' && c
            <= '9'
    }

    fn identifier(&mut self) -> (result: ScanResult)
        requires
            old(self).wf(),
            old(self).current == old(self).start + 1,
            is_alpha(old(self).source@[old(self).start as int]),
        ensures
            final(self).wf(),
            final(self).source == old(self).source,
            final(self).start == old(self).start,
            final(self).line == old(self).line,
            scan_at(old(self).source@, old(self).start as int, old(self).line as int).yields(
                result,
            ),
            final(self).current == scan_at(
                old(self).source@,
                old(self).start as int,
                old(self).line as int,
            ).current,
    {
        proof {
            lemma_identifier_end(self.source@, self.current as int);
        }
        while !self.is_at_end() && self.is_word_char(self.peek())
            invariant
                self.wf(),
                self.source == old(self).source,
                self.start == old(self).start,
                self.line == old(self).line,
                self.current > self.start,
                identifier_end(self.source@, self.current as int) == identifier_end(
                    old(self).source@,
                    old(self).current as int,
                ),
            decreases self.source@.len() - self.current,
        {
            self.advance();
        }

        self.make_token(self.identifier_type())
    }

    /// Whether `c` may stand inside an identifier.
    fn is_word_char(&self, c: char) -> (b: bool)
        ensures
            b == (is_alpha(c) || is_digit(c)),
    {
        self.is_alpha(c) || (c >= '0' && c <= '9')
    }

    fn make_token(&self, token_type: TokenType) -> (result: ScanResult)
        requires
            self.wf(),
        ensures
            result == Ok::<Token, ErrorToken>(
                Token {
                    token_type,
                    line: self.line,
                    start: self.start,
                    length: (self.current - self.start) as usize,
                },
            ),
    {
        Ok(
            Token {
                token_type,
                line: self.line,
                start: self.start,
                length: self.current - self.start,
            },
        )
    }

    fn error_token(&self, message: &str) -> (error: ErrorToken)
        requires
            self.wf(),
        ensures
            error.line == self.line,
            error.start == self.start,
            error.length == self.current - self.start,
            error.message@ == message@,
    {
        ErrorToken {
            message: message.to_owned(),
            line: self.line,
            start: self.start,
            length: self.current - self.start,
        }
    }

    fn identifier_type(&self) -> (kind: TokenType)
        requires
            self.wf(),
            self.start < self.current,
        ensures
            kind == word_kind(self.source@.subrange(self.start as int, self.current as int)),
    {
        let ghost word = self.source@.subrange(self.start as int, self.current as int);
        proof {
            lemma_keyword_texts();
            assert(word[0] == self.source@[self.start as int]);
            assert(self.source@.subrange(self.start + 1, self.current as int) =~= word.subrange(
                1,
                word.len() as int,
            ));
            lemma_keyword_tail(word, 1, "and"@, "nd"@);
            lemma_keyword_tail(word, 1, "class"@, "lass"@);
            lemma_keyword_tail(word, 1, "else"@, "lse"@);
            lemma_keyword_tail(word, 1, "if"@, "f"@);
            lemma_keyword_tail(word, 1, "nil"@, "il"@);
            lemma_keyword_tail(word, 1, "or"@, "r"@);
            lemma_keyword_tail(word, 1, "print"@, "rint"@);
            lemma_keyword_tail(word, 1, "return"@, "eturn"@);
            lemma_keyword_tail(word, 1, "super"@, "uper"@);
            lemma_keyword_tail(word, 1, "var"@, "ar"@);
            lemma_keyword_tail(word, 1, "while"@, "hile"@);
            if self.current - self.start > 1 {
                assert(word[1] == self.source@[self.start + 1]);
                assert(self.source@.subrange(self.start + 2, self.current as int)
                    =~= word.subrange(2, word.len() as int));
                lemma_keyword_tail(word, 2, "false"@, "lse"@);
                lemma_keyword_tail(word, 2, "for"@, "r"@);
                lemma_keyword_tail(word, 2, "fun"@, "n"@);
                lemma_keyword_tail(word, 2, "this"@, "is"@);
                lemma_keyword_tail(word, 2, "true"@, "ue"@);
            }
        }
        match self.source[self.start] {
            'a' => self.check_keyword(1, "nd", TokenType::And),
            'c' => self.check_keyword(1, "lass", TokenType::Class),
            'e' => self.check_keyword(1, "lse", TokenType::Else),
            'f' => {
                if self.current - self.start > 1 {
                    match self.source[self.start + 1] {
                        'a' => self.check_keyword(2, "lse", TokenType::False),
                        'o' => self.check_keyword(2, "r", TokenType::For),
                        'u' => self.check_keyword(2, "n", TokenType::Fun),
                        _ => TokenType::Identifier,
                    }
                } else {
                    TokenType::Identifier
                }
            },
            'i' => self.check_keyword(1, "f", TokenType::If),
            'n' => self.check_keyword(1, "il", TokenType::Nil),
            'o' => self.check_keyword(1, "r", TokenType::Or),
            'p' => self.check_keyword(1, "rint", TokenType::Print),
            'r' => self.check_keyword(1, "eturn", TokenType::Return),
            's' => self.check_keyword(1, "uper", TokenType::Super),
            't' => {
                if self.current - self.start > 1 {
                    match self.source[self.start + 1] {
                        'h' => self.check_keyword(2, "is", TokenType::This),
                        'r' => self.check_keyword(2, "ue", TokenType::True),
                        _ => TokenType::Identifier,
                    }
                } else {
                    TokenType::Identifier
                }
            },
            'v' => self.check_keyword(1, "ar", TokenType::Var),
            'w' => self.check_keyword(1, "hile", TokenType::While),
            _ => TokenType::Identifier,
        }
    }

    /// `token_type` if the current word, from its character number `start`
    /// on, reads `rest`; else `Identifier`.
    fn check_keyword(&self, start: usize, rest: &str, token_type: TokenType) -> (kind: TokenType)
        requires
            self.wf(),
            start <= self.current - self.start,
        ensures
            kind == if self.source@.subrange(self.start + start, self.current as int) == rest@ {
                token_type
            } else {
                TokenType::Identifier
            },
    {
        let from = self.start + start;
        let length = rest.unicode_len();
        let ghost tail = self.source@.subrange(from as int, self.current as int);
        if self.current - from != length {
            assert(tail.len() != rest@.len());
            return TokenType::Identifier;
        }
        let mut i: usize = 0;
        while i < length
            invariant
                self.wf(),
                from == self.start + start,
                from + length == self.current,
                length == rest@.len(),
                i <= length,
                tail == self.source@.subrange(from as int, self.current as int),
                forall|j: int| 0 <= j < i ==> self.source@[from + j] == rest@[j],
            decreases length - i,
        {
            if self.source[from + i] != rest.get_char(i) {
                assert(tail[i as int] != rest@[i as int]);
                return TokenType::Identifier;
            }
            i += 1;
        }
        assert(tail =~= rest@);
        token_type
    }

    fn is_at_end(&self) -> (b: bool)
        requires
            self.wf(),
        ensures
            b == (self.current == self.source@.len()),
    {
        self.current == self.source.len()
    }

    fn advance(&mut self) -> (c: char)
        requires
            old(self).wf(),
            old(self).current < old(self).source@.len(),
        ensures
            final(self).wf(),
            final(self).source == old(self).source,
            final(self).start == old(self).start,
            final(self).line == old(self).line,
            final(self).current == old(self).current + 1,
            c == old(self).source@[old(self).current as int],
    {
        proof {
            self.lemma_text_fits();
        }
        self.current += 1;
        self.source[self.current - 1]
    }

    fn match_char(&mut self, c: char) -> (matched: bool)
        requires
            old(self).wf(),
        ensures
            final(self).wf(),
            final(self).source == old(self).source,
            final(self).start == old(self).start,
            final(self).line == old(self).line,
            matched == (old(self).current < old(self).source@.len() && old(self).source@[old(
                self,
            ).current as int] == c),
            final(self).current == if matched {
                old(self).current + 1
            } else {
                old(self).current as int
            },
    {
        if self.is_at_end() {
            return false;
        }
        if self.source[self.current] == c {
            proof {
                self.lemma_text_fits();
            }
            self.current += 1;
            true
        } else {
            false
        }
    }

    /// The character at the cursor, or NUL at the end of the text.
    fn peek(&self) -> (c: char)
        requires
            self.wf(),
        ensures
            c == if self.current < self.source@.len() {
                self.source@[self.current as int]
            } else {
                '\0'
            },
    {
        if self.is_at_end() {
            '\0'
        } else {
            self.source[self.current]
        }
    }

    /// The character behind the one at the cursor, or NUL where the text
    /// ends before it.
    fn peek_next(&self) -> (c: char)
        requires
            self.wf(),
        ensures
            c == if self.current + 1 < self.source@.len() {
                self.source@[self.current + 1]
            } else {
                '\0'
            },
    {
        if self.is_at_end() || self.source.len() - self.current == 1 {
            '\0'
        } else {
            self.source[self.current + 1]
        }
    }

    fn is_alpha(&self, c: char) -> (b: bool)
        ensures
            b == is_alpha(c),
    {
        unicode_alphabetic(c) || c == '_'
    }

    /// The text of `token`.
    pub fn get_lexeme(&self, token: &Token) -> (text: String)
        requires
            self.spans(token.start, token.length),
        ensures
            text@ == self.src().subrange(token.start as int, token.start + token.length),
    {
        proof {
            self.lemma_text_fits();
        }
        self.text_between(token.start, token.start + token.length)
    }

    /// Whether the two tokens read the same.
    pub fn identifiers_equal(&self, a: &Token, b: &Token) -> (equal: bool)
        requires
            self.spans(a.start, a.length),
            self.spans(b.start, b.length),
        ensures
            equal == (self.src().subrange(a.start as int, a.start + a.length) == self.src().subrange(
                b.start as int,
                b.start + b.length,
            )),
    {
        let ghost left = self.source@.subrange(a.start as int, a.start + a.length);
        let ghost right = self.source@.subrange(b.start as int, b.start + b.length);
        if a.length != b.length {
            assert(left.len() != right.len());
            return false;
        }
        proof {
            self.lemma_text_fits();
        }
        let mut i: usize = 0;
        while i < a.length
            invariant
                a.length == b.length,
                a.start + a.length <= self.source@.len(),
                b.start + b.length <= self.source@.len(),
                self.source@.len() <= usize::MAX,
                i <= a.length,
                left == self.source@.subrange(a.start as int, a.start + a.length),
                right == self.source@.subrange(b.start as int, b.start + b.length),
                forall|j: int| 0 <= j < i ==> left[j] == right[j],
            decreases a.length - i,
        {
            if self.source[a.start + i] != self.source[b.start + i] {
                assert(left[i as int] != right[i as int]);
                return false;
            }
            i += 1;
        }
        assert(left =~= right);
        true
    }

    /// The text that `token` reports on.
    pub fn get_lexeme_error(&self, token: &ErrorToken) -> (text: String)
        requires
            self.spans(token.start, token.length),
        ensures
            text@ == self.src().subrange(token.start as int, token.start + token.length),
    {
        proof {
            self.lemma_text_fits();
        }
        self.text_between(token.start, token.start + token.length)
    }

    /// The characters from position `from` up to, not including, `to`.
    fn text_between(&self, from: usize, to: usize) -> (text: String)
        requires
            from <= to <= self.source@.len(),
        ensures
            text@ == self.source@.subrange(from as int, to as int),
    {
        let mut text = String::new();
        let mut i: usize = from;
        while i < to
            invariant
                from <= i <= to <= self.source@.len(),
                text@ == self.source@.subrange(from as int, i as int),
            decreases to - i,
        {
            string_push(&mut text, self.source[i]);
            proof {
                assert(self.source@.subrange(from as int, i as int).push(self.source@[i as int])
                    =~= self.source@.subrange(from as int, i + 1));
            }
            i += 1;
        }
        text
    }
}

} // verus!
