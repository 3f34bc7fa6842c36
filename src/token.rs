//! Tokens and requests: what the receiver hands to the command grammars.
use vstd::prelude::*;

use crate::command::Command;

verus! {

/// One lexical unit of a command line.
#[derive(Debug, PartialEq, Eq)]
pub enum Token {
    Argument(Vec<u8>),
    ParenthesisOpen,
    ParenthesisClose,
    Nil,
}

/// The mathematical value of a [`Token`].
pub enum Lexeme {
    Argument(Seq<u8>),
    ParenthesisOpen,
    ParenthesisClose,
    Nil,
}

impl View for Token {
    type V = Lexeme;

    open spec fn view(&self) -> Lexeme {
        match self {
            Token::Argument(v) => Lexeme::Argument(v@),
            Token::ParenthesisOpen => Lexeme::ParenthesisOpen,
            Token::ParenthesisClose => Lexeme::ParenthesisClose,
            Token::Nil => Lexeme::Nil,
        }
    }
}

/// The lexemes of a sequence of tokens, in order.
pub open spec fn lexemes(t: Seq<Token>) -> Seq<Lexeme> {
    t.map_values(|x: Token| x@)
}

/// A fully received command: its tag, its command word and its arguments.
#[derive(Debug, PartialEq, Eq)]
pub struct Request {
    pub tag: String,
    pub command: Command,
    pub tokens: Vec<Token>,
}

/// The mathematical value of a [`Request`].
pub struct RequestView {
    pub tag: Seq<char>,
    pub command: Command,
    pub tokens: Seq<Lexeme>,
}

impl View for Request {
    type V = RequestView;

    open spec fn view(&self) -> RequestView {
        RequestView { tag: self.tag@, command: self.command, tokens: lexemes(self.tokens@) }
    }
}

} // verus!
