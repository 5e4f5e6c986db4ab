//! Compile errors as values, and the text that reports them.

use vstd::prelude::*;
use crate::scanner::TokenType;

verus! {

/// Where in the source an error was found.
#[derive(Debug, PartialEq)]
pub enum ErrorPlace {
    /// At the end of the source.
    End,
    /// At a token, given by its text and kind.
    Token(String, TokenType),
    /// At text that is no token.
    Text(String),
}

/// One reported compile error.
#[derive(Debug, PartialEq)]
pub struct Diagnostic {
    pub line: i32,
    pub place: ErrorPlace,
    pub message: String,
}

pub ghost enum ErrorPlaceView {
    End,
    Token(Seq<char>, TokenType),
    Text(Seq<char>),
}

pub ghost struct DiagnosticView {
    pub line: i32,
    pub place: ErrorPlaceView,
    pub message: Seq<char>,
}

impl View for ErrorPlace {
    type V = ErrorPlaceView;

    open spec fn view(&self) -> ErrorPlaceView {
        match self {
            ErrorPlace::End => ErrorPlaceView::End,
            ErrorPlace::Token(text, kind) => ErrorPlaceView::Token(text@, *kind),
            ErrorPlace::Text(text) => ErrorPlaceView::Text(text@),
        }
    }
}

impl View for Diagnostic {
    type V = DiagnosticView;

    open spec fn view(&self) -> DiagnosticView {
        DiagnosticView { line: self.line, place: self.place@, message: self.message@ }
    }
}

/// The decimal digits of `n`, with a minus sign before them if it is
/// negative.
pub uninterp spec fn line_digits(n: i32) -> Seq<char>;

/// `to_string` of std on an `i32`: the number written in decimal digits.
/// The result depends on the number alone and is named, not spelled out.
#[verifier::external_body]
fn line_text(n: i32) -> (text: String)
    ensures
        text@ == line_digits(n),
{
    n.to_string()
}

/// The name of a kind of token.
pub open spec fn kind_name(token_type: TokenType) -> Seq<char> {
    match token_type {
        TokenType::LeftParen => "LeftParen"@,
        TokenType::RightParen => "RightParen"@,
        TokenType::LeftBrace => "LeftBrace"@,
        TokenType::RightBrace => "RightBrace"@,
        TokenType::Comma => "Comma"@,
        TokenType::Dot => "Dot"@,
        TokenType::Minus => "Minus"@,
        TokenType::Plus => "Plus"@,
        TokenType::Semicolon => "Semicolon"@,
        TokenType::Slash => "Slash"@,
        TokenType::Star => "Star"@,
        TokenType::Bang => "Bang"@,
        TokenType::BangEqual => "BangEqual"@,
        TokenType::Equal => "Equal"@,
        TokenType::EqualEqual => "EqualEqual"@,
        TokenType::Greater => "Greater"@,
        TokenType::GreaterEqual => "GreaterEqual"@,
        TokenType::Less => "Less"@,
        TokenType::LessEqual => "LessEqual"@,
        TokenType::Identifier => "Identifier"@,
        TokenType::String => "String"@,
        TokenType::Number => "Number"@,
        TokenType::And => "And"@,
        TokenType::Class => "Class"@,
        TokenType::Else => "Else"@,
        TokenType::False => "False"@,
        TokenType::For => "For"@,
        TokenType::Fun => "Fun"@,
        TokenType::If => "If"@,
        TokenType::Nil => "Nil"@,
        TokenType::Or => "Or"@,
        TokenType::Print => "Print"@,
        TokenType::Return => "Return"@,
        TokenType::Super => "Super"@,
        TokenType::This => "This"@,
        TokenType::True => "True"@,
        TokenType::Var => "Var"@,
        TokenType::While => "While"@,
        TokenType::Eof => "Eof"@,
    }
}

/// The name of a kind of token.
pub fn token_type_name(token_type: TokenType) -> (name: &'static str)
    ensures
        name@ == kind_name(token_type),
{
    match token_type {
        TokenType::LeftParen => "LeftParen",
        TokenType::RightParen => "RightParen",
        TokenType::LeftBrace => "LeftBrace",
        TokenType::RightBrace => "RightBrace",
        TokenType::Comma => "Comma",
        TokenType::Dot => "Dot",
        TokenType::Minus => "Minus",
        TokenType::Plus => "Plus",
        TokenType::Semicolon => "Semicolon",
        TokenType::Slash => "Slash",
        TokenType::Star => "Star",
        TokenType::Bang => "Bang",
        TokenType::BangEqual => "BangEqual",
        TokenType::Equal => "Equal",
        TokenType::EqualEqual => "EqualEqual",
        TokenType::Greater => "Greater",
        TokenType::GreaterEqual => "GreaterEqual",
        TokenType::Less => "Less",
        TokenType::LessEqual => "LessEqual",
        TokenType::Identifier => "Identifier",
        TokenType::String => "String",
        TokenType::Number => "Number",
        TokenType::And => "And",
        TokenType::Class => "Class",
        TokenType::Else => "Else",
        TokenType::False => "False",
        TokenType::For => "For",
        TokenType::Fun => "Fun",
        TokenType::If => "If",
        TokenType::Nil => "Nil",
        TokenType::Or => "Or",
        TokenType::Print => "Print",
        TokenType::Return => "Return",
        TokenType::Super => "Super",
        TokenType::This => "This",
        TokenType::True => "True",
        TokenType::Var => "Var",
        TokenType::While => "While",
        TokenType::Eof => "Eof",
    }
}

/// The text that reports `diagnostic`: the line, the place and the message.
pub open spec fn diagnostic_text(diagnostic: DiagnosticView) -> Seq<char> {
    "[line "@ + line_digits(diagnostic.line) + "] Error"@ + match diagnostic.place {
        ErrorPlaceView::End => " at end"@,
        ErrorPlaceView::Token(text, token_type) => " at "@ + text + " ("@ + kind_name(token_type)
            + ")"@,
        ErrorPlaceView::Text(text) => " at "@ + text,
    } + ": "@ + diagnostic.message
}

impl Diagnostic {
    /// The text that reports the error.
    pub fn text(&self) -> (text: String)
        ensures
            text@ == diagnostic_text(self@),
    {
        let mut text = "[line ".to_owned();
        text.append(line_text(self.line).as_str());
        text.append("] Error");
        let ghost head = text@;
        match &self.place {
            ErrorPlace::End => {
                text.append(" at end");
            },
            ErrorPlace::Token(lexeme, token_type) => {
                text.append(" at ");
                text.append(lexeme.as_str());
                text.append(" (");
                text.append(token_type_name(*token_type));
                text.append(")");
                assert(text@ =~= head + (" at "@ + lexeme@ + " ("@ + kind_name(*token_type) + ")"@));
            },
            ErrorPlace::Text(lexeme) => {
                text.append(" at ");
                text.append(lexeme.as_str());
                assert(text@ =~= head + (" at "@ + lexeme@));
            },
        }
        text.append(": ");
        text.append(self.message.as_str());
        text
    }
}

} // verus!
