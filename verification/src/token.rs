use vstd::prelude::*;

verus! {

/// A classified lexical token.
///
/// `Whitespace` stands for a maximal run of blank characters, `Comment` for a
/// line or block comment, `CharacterLiteral` carries the quoted character,
/// `Identifier` carries the decoded identifier text (basic or extended form),
/// and `Unknown` stands for one source character no other rule matched.
#[derive(Debug, PartialEq, Eq)]
pub enum Token {
    Whitespace,
    Comment,
    CharacterLiteral(char),
    Identifier(String),
    Unknown,
}

/// The mathematical model of a token: the same shape as [`Token`], with the
/// identifier text abstracted to a sequence of characters.
pub enum TokenModel {
    Whitespace,
    Comment,
    CharacterLiteral(char),
    Identifier(Seq<char>),
    Unknown,
}

impl View for Token {
    type V = TokenModel;

    open spec fn view(&self) -> TokenModel {
        match self {
            Token::Whitespace => TokenModel::Whitespace,
            Token::Comment => TokenModel::Comment,
            Token::CharacterLiteral(c) => TokenModel::CharacterLiteral(*c),
            Token::Identifier(name) => TokenModel::Identifier(name@),
            Token::Unknown => TokenModel::Unknown,
        }
    }
}

} // verus!
