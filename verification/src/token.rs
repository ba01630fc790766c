//! The tokens of a score: one for each line of the file.

use crate::time::Timestamp;
use vstd::prelude::*;

verus! {

/// What a line of a score says.
#[derive(Clone, Debug, PartialEq, Eq)]
pub enum TokenContent {
    /// A time mark.
    Time(Timestamp),
    /// A command, by its keyword.
    Command(String),
    /// A text to show while the lyrics run.
    Caption(String),
    /// A property of the score.
    Property { key: String, value: String },
    /// The reading of the lyrics before it.
    Yomigana(String),
    /// A break between two sections.
    Section,
    /// A piece of a lyric line.
    Lyrics(String),
    /// A comment or an empty line.
    Comment,
}

/// What a token's content holds.
pub enum TokenContentView {
    Time(Timestamp),
    Command(Seq<char>),
    Caption(Seq<char>),
    Property { key: Seq<char>, value: Seq<char> },
    Yomigana(Seq<char>),
    Section,
    Lyrics(Seq<char>),
    Comment,
}

impl View for TokenContent {
    type V = TokenContentView;

    open spec fn view(&self) -> TokenContentView {
        match self {
            TokenContent::Time(time) => TokenContentView::Time(*time),
            TokenContent::Command(command) => TokenContentView::Command(command@),
            TokenContent::Caption(caption) => TokenContentView::Caption(caption@),
            TokenContent::Property { key, value } => TokenContentView::Property {
                key: key@,
                value: value@,
            },
            TokenContent::Yomigana(reading) => TokenContentView::Yomigana(reading@),
            TokenContent::Section => TokenContentView::Section,
            TokenContent::Lyrics(lyrics) => TokenContentView::Lyrics(lyrics@),
            TokenContent::Comment => TokenContentView::Comment,
        }
    }
}

/// One line of a score, with the number of the line it stood on.
#[derive(Clone, Debug, PartialEq, Eq)]
pub struct Token {
    pub line_num: usize,
    pub content: TokenContent,
}

/// What a token holds.
pub struct TokenView {
    pub line_num: usize,
    pub content: TokenContentView,
}

impl View for Token {
    type V = TokenView;

    open spec fn view(&self) -> TokenView {
        TokenView { line_num: self.line_num, content: self.content@ }
    }
}

/// The views of a list of tokens.
pub open spec fn token_views(tokens: Seq<Token>) -> Seq<TokenView> {
    tokens.map_values(|t: Token| t@)
}

} // verus!
