//! Loading a score from its text: the lexer and then the parser.

use crate::error::ScoremapError;
use crate::lexer::{lex, spec_lex};
use crate::parser::{lemma_run_scope, parse, spec_parse};
use crate::processor::ParserState;
use crate::scoremap::{Scoremap, ScoremapLoadConfig, ScoremapView};
use vstd::prelude::*;

verus! {

/// The score that the text `text` makes with the notes named in the scope
/// `scope`, or the first error: that of the lexer if a line cannot be read,
/// else that of the parser.
pub open spec fn spec_load(text: Seq<char>, config: ScoremapLoadConfig, scope: u64) -> Result<
    ScoremapView,
    ScoremapError,
> {
    match spec_lex(text) {
        Err(err) => Err(ScoremapError::Lex(err)),
        Ok(tokens) => match spec_parse(tokens, config, scope) {
            Ok(score) => Ok(score),
            Err(err) => Err(ScoremapError::Parse(err)),
        },
    }
}

/// Whether the outcome `r` of a load is the one that `expected` describes.
pub open spec fn load_agrees(
    r: Result<Scoremap, ScoremapError>,
    expected: Result<ScoremapView, ScoremapError>,
) -> bool {
    match expected {
        Ok(score) => r is Ok && r->Ok_0@ == score && score.wf(),
        Err(err) => r == Err::<Scoremap, ScoremapError>(err),
    }
}

/// A score that loads names its notes in the scope it was given.
pub proof fn lemma_load_scope(text: Seq<char>, config: ScoremapLoadConfig, scope: u64)
    requires
        spec_load(text, config, scope) is Ok,
    ensures
        spec_load(text, config, scope)->Ok_0.scope == scope,
{
    lemma_run_scope(ParserState::initial(config, scope), spec_lex(text)->Ok_0);
}

/// Draws the scope for the identifiers of one score.
///
/// This calls `rand::random::<u64>()`, which samples a number from the
/// thread's generator. Nothing is claimed of the number.
#[verifier::external_body]
fn draw_scope() -> u64 {
    rand::random::<u64>()
}

impl Scoremap {
    /// Loads the score `text` with the notes named in the scope `scope`.
    pub fn from_str_scoped(text: &str, config: ScoremapLoadConfig, scope: u64) -> (r: Result<
        Scoremap,
        ScoremapError,
    >)
        ensures
            load_agrees(r, spec_load(text@, config, scope)),
    {
        let tokens = match lex(text) {
            Ok(tokens) => tokens,
            Err(err) => {
                return Err(ScoremapError::Lex(err));
            },
        };
        match parse(&tokens, config, scope) {
            Ok(score) => Ok(score),
            Err(err) => Err(ScoremapError::Parse(err)),
        }
    }

    /// Loads the score `text`. The scope that names the notes is drawn at
    /// random, so that the identifiers of two scores are unlikely to meet;
    /// whatever is drawn, the outcome is that of `from_str_scoped` with it.
    pub fn from_str(text: &str, config: ScoremapLoadConfig) -> (r: Result<
        Scoremap,
        ScoremapError,
    >)
        ensures
            exists|scope: u64| load_agrees(r, #[trigger] spec_load(text@, config, scope)),
            r is Ok ==> load_agrees(r, spec_load(text@, config, r->Ok_0@.scope)),
    {
        let scope = draw_scope();
        let r = Scoremap::from_str_scoped(text, config, scope);
        proof {
            if r is Ok {
                lemma_load_scope(text@, config, scope);
            }
        }
        r
    }
}

} // verus!
