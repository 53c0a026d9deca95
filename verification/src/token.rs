use vstd::prelude::*;

verus! {

/// The delimiter of a bracketed token group.
#[derive(Clone, Copy, Debug, PartialEq, Eq, Structural)]
pub enum Delimiter {
    /// `( ... )`
    Parenthesis,
    /// `{ ... }`
    Brace,
    /// `[ ... ]`
    Bracket,
    /// A group without visible delimiters.
    Invisible,
}

/// What a token is, with the text that the formatter reads from it.
#[derive(Debug)]
pub enum TokenKind {
    /// An identifier, spelled as written (a raw identifier keeps its `r#`).
    Ident(String),
    /// A literal, spelled as written.
    Literal(String),
    /// A single punctuation character.
    Punct(char),
    /// A delimited group and the tokens inside it.
    Group(Delimiter, Vec<Token>),
}

/// A token of the assembly block together with the source line it starts on.
#[derive(Debug)]
pub struct Token {
    pub kind: TokenKind,
    pub line: usize,
}

} // verus!
