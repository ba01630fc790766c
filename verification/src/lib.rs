//! A score-driven typing trainer.
//!
//! A score is a text file of lyric lines, their readings and time marks. The
//! lexer turns it into tokens, the parser folds the tokens into a timeline of
//! notes, and the game engine matches keystrokes against the phonetic
//! spellings of the active sentence while the clock advances.
//!
//! Time is counted in whole milliseconds and every ratio is a pair of
//! integers: the library holds no floating-point number.
//!
//! # The score file
//!
//! A score is read line by line; the blank characters at the ends of a line
//! do not count.
//!
//! | line | meaning |
//! |------|---------|
//! | empty, or `# ...` | a comment |
//! | `*1:23` or `*1:23.45` | a time mark: minutes, seconds, fraction |
//! | `[start]`, `[break]`, `[end]` | a command; the lyrics stand between `start` and `end` |
//! | `>> text` | a caption, shown until the next time mark |
//! | `:key = value` | a property; only outside the lyrics |
//! | `:reading` | the reading of the lyric lines before it |
//! | `@` | a break between two sections |
//! | anything else | a piece of a lyric line |
//!
//! The properties that a score can state are `title`, `song_author`,
//! `singer`, `score_author` and `bgm`.

pub mod error;
pub mod game;
pub mod game_activity;
pub mod kana;
pub mod lexer;
pub mod loader;
pub mod note;
pub mod parser;
pub mod processor;
pub mod roman_char;
pub mod scoremap;
pub mod sentence;
pub mod text;
pub mod time;
pub mod token;
pub mod typing;
pub mod view;

pub use error::{Reason, ScoremapError, ScoremapLexError, ScoremapParseError};
pub use game::{EventView, GamePhase, MusicalTypeResult, MusicalTyper, MusicalTyperEvent, TyperView};
pub use game_activity::{GameActivity, GameScore, GameState, Ratio};
pub use note::{Note, NoteContent, NoteContentView, NoteId, NoteView, Section};
pub use processor::{ParseResult, ParserCtx};
pub use roman_char::{RomanChar, RomanCharView};
pub use scoremap::{MusicInfo, Scoremap, ScoremapLoadConfig, ScoremapMetadata, ScoremapView};
pub use sentence::{Sentence, SentenceView, TypingStr};
pub use time::{Duration, DurationInvalid, Timestamp};
pub use token::{Token, TokenContent, TokenContentView, TokenView};
pub use view::{HeaderProps, KeyboardProps, Rgb, RouterStep, SEKind, SentenceResult, TypeTimes, ViewRoute};
