//! The errors of loading a score. Each names the line it arose on and the
//! reason, and each ends the load.

use vstd::prelude::*;

verus! {

/// Why a line of a score was refused.
#[derive(Clone, Copy, Debug, PartialEq, Eq, Hash, Structural)]
pub enum Reason {
    /// A time mark is not written as minutes, a colon and seconds.
    MalformedTimestamp,
    /// A time mark stands outside the lyrics.
    TimeOutsideLyrics,
    /// `start` stands inside the lyrics.
    StartInsideLyrics,
    /// `end` stands outside the lyrics.
    EndOutsideLyrics,
    /// The command is none of `start`, `break` and `end`.
    UnknownCommand,
    /// A caption stands outside the lyrics.
    CaptionOutsideLyrics,
    /// A reading stands outside the lyrics.
    YomiganaOutsideLyrics,
    /// A reading stands before any lyrics that it could read.
    YomiganaBeforeLyrics,
    /// A property stands inside the lyrics.
    PropertyInsideLyrics,
    /// A property lacks its key or its value.
    InvalidProperty,
    /// The key of a property is not one that a score can state.
    UnsupportedProperty,
    /// The time mark that ends a note does not come after the note's start.
    DurationNotIncreasing,
}

impl Reason {
    /// The text that tells the player of the reason.
    pub open spec fn spec_message(self) -> Seq<char> {
        match self {
            Reason::MalformedTimestamp => "時間指定は「分:秒」の形式で書いてください。"@,
            Reason::TimeOutsideLyrics => "時間指定は歌詞定義の中のみ有効です。"@,
            Reason::StartInsideLyrics => "start コマンドは end コマンドより前で有効です。"@,
            Reason::EndOutsideLyrics => "end コマンドは start コマンドより後で有効です。"@,
            Reason::UnknownCommand => "start、break、end コマンドのみが有効です。"@,
            Reason::CaptionOutsideLyrics => "キャプションの指定は歌詞定義の中のみ有効です。"@,
            Reason::YomiganaOutsideLyrics => "読み仮名の指定は歌詞定義の中のみ有効です。"@,
            Reason::YomiganaBeforeLyrics => "読み仮名は歌詞より後にしてください。"@,
            Reason::PropertyInsideLyrics => "プロパティの指定は歌詞定義の外のみ有効です。"@,
            Reason::InvalidProperty => "プロパティにはキーと値の両方が必要です。"@,
            Reason::UnsupportedProperty => "対応していないプロパティです。"@,
            Reason::DurationNotIncreasing => "次の時間指定は現在の時間より後にしてください。"@,
        }
    }

    /// The text that tells the player of the reason.
    pub fn message(self) -> (text: &'static str)
        ensures
            text@ == self.spec_message(),
    {
        match self {
            Reason::MalformedTimestamp => "時間指定は「分:秒」の形式で書いてください。",
            Reason::TimeOutsideLyrics => "時間指定は歌詞定義の中のみ有効です。",
            Reason::StartInsideLyrics => "start コマンドは end コマンドより前で有効です。",
            Reason::EndOutsideLyrics => "end コマンドは start コマンドより後で有効です。",
            Reason::UnknownCommand => "start、break、end コマンドのみが有効です。",
            Reason::CaptionOutsideLyrics => "キャプションの指定は歌詞定義の中のみ有効です。",
            Reason::YomiganaOutsideLyrics => "読み仮名の指定は歌詞定義の中のみ有効です。",
            Reason::YomiganaBeforeLyrics => "読み仮名は歌詞より後にしてください。",
            Reason::PropertyInsideLyrics => "プロパティの指定は歌詞定義の外のみ有効です。",
            Reason::InvalidProperty => "プロパティにはキーと値の両方が必要です。",
            Reason::UnsupportedProperty => "対応していないプロパティです。",
            Reason::DurationNotIncreasing => "次の時間指定は現在の時間より後にしてください。",
        }
    }
}

/// A line that the lexer refuses.
#[derive(Clone, Copy, Debug, PartialEq, Eq, Structural)]
pub enum ScoremapLexError {
    /// A time mark that cannot be read.
    MalformedTimestamp { line_num: usize, reason: Reason },
}

/// A token that the parser refuses.
#[derive(Clone, Copy, Debug, PartialEq, Eq, Structural)]
pub enum ScoremapParseError {
    /// A time mark where none may stand.
    TimingDefinition { line_num: usize, reason: Reason },
    /// A command that is unknown or out of place.
    Command { line_num: usize, reason: Reason },
    /// A caption or a reading that is out of place.
    StatementDefinition { line_num: usize, reason: Reason },
    /// A property that is out of place or not accepted.
    PropertyDefinition { line_num: usize, reason: Reason },
    /// A note whose end would not come after its start.
    DurationInvalid { line_num: usize, reason: Reason },
}

impl ScoremapParseError {
    /// The line of the score that the error arose on.
    pub open spec fn spec_line_num(self) -> usize {
        match self {
            ScoremapParseError::TimingDefinition { line_num, .. } => line_num,
            ScoremapParseError::Command { line_num, .. } => line_num,
            ScoremapParseError::StatementDefinition { line_num, .. } => line_num,
            ScoremapParseError::PropertyDefinition { line_num, .. } => line_num,
            ScoremapParseError::DurationInvalid { line_num, .. } => line_num,
        }
    }

    /// The reason of the error.
    pub open spec fn spec_reason(self) -> Reason {
        match self {
            ScoremapParseError::TimingDefinition { reason, .. } => reason,
            ScoremapParseError::Command { reason, .. } => reason,
            ScoremapParseError::StatementDefinition { reason, .. } => reason,
            ScoremapParseError::PropertyDefinition { reason, .. } => reason,
            ScoremapParseError::DurationInvalid { reason, .. } => reason,
        }
    }

    /// The line of the score that the error arose on.
    #[verifier::when_used_as_spec(spec_line_num)]
    pub fn line_num(self) -> (line_num: usize)
        ensures
            line_num == self.spec_line_num(),
    {
        match self {
            ScoremapParseError::TimingDefinition { line_num, .. } => line_num,
            ScoremapParseError::Command { line_num, .. } => line_num,
            ScoremapParseError::StatementDefinition { line_num, .. } => line_num,
            ScoremapParseError::PropertyDefinition { line_num, .. } => line_num,
            ScoremapParseError::DurationInvalid { line_num, .. } => line_num,
        }
    }

    /// The reason of the error.
    #[verifier::when_used_as_spec(spec_reason)]
    pub fn reason(self) -> (reason: Reason)
        ensures
            reason == self.spec_reason(),
    {
        match self {
            ScoremapParseError::TimingDefinition { reason, .. } => reason,
            ScoremapParseError::Command { reason, .. } => reason,
            ScoremapParseError::StatementDefinition { reason, .. } => reason,
            ScoremapParseError::PropertyDefinition { reason, .. } => reason,
            ScoremapParseError::DurationInvalid { reason, .. } => reason,
        }
    }
}

/// Why a score could not be loaded.
#[derive(Clone, Copy, Debug, PartialEq, Eq, Structural)]
pub enum ScoremapError {
    /// The lexer refused a line.
    Lex(ScoremapLexError),
    /// The parser refused a token.
    Parse(ScoremapParseError),
}

impl ScoremapError {
    /// The line of the score that the error arose on.
    pub open spec fn spec_line_num(self) -> usize {
        match self {
            ScoremapError::Lex(ScoremapLexError::MalformedTimestamp { line_num, .. }) => line_num,
            ScoremapError::Parse(err) => err.spec_line_num(),
        }
    }

    /// The reason of the error.
    pub open spec fn spec_reason(self) -> Reason {
        match self {
            ScoremapError::Lex(ScoremapLexError::MalformedTimestamp { reason, .. }) => reason,
            ScoremapError::Parse(err) => err.spec_reason(),
        }
    }

    /// The line of the score that the error arose on.
    #[verifier::when_used_as_spec(spec_line_num)]
    pub fn line_num(self) -> (line_num: usize)
        ensures
            line_num == self.spec_line_num(),
    {
        match self {
            ScoremapError::Lex(ScoremapLexError::MalformedTimestamp { line_num, .. }) => line_num,
            ScoremapError::Parse(err) => err.line_num(),
        }
    }

    /// The reason of the error.
    #[verifier::when_used_as_spec(spec_reason)]
    pub fn reason(self) -> (reason: Reason)
        ensures
            reason == self.spec_reason(),
    {
        match self {
            ScoremapError::Lex(ScoremapLexError::MalformedTimestamp { reason, .. }) => reason,
            ScoremapError::Parse(err) => err.reason(),
        }
    }
}

} // verus!
