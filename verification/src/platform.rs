//! The answer of the messaging platform's emoji listing.

use crate::emoji_map::pairs_view;
use crate::emoji_map::EmojiMap;
use crate::pipeline::PipelineError;
use vstd::prelude::*;

verus! {

/// The decoded answer of the platform: the listed emoji, as pairs of name and
/// image or alias, and the error text that a failed call carries.
#[derive(Clone, Debug)]
pub struct RawPlatformResponse {
    /// The pairs of the `emoji` object, in the order in which they were read.
    pub emoji: Vec<(String, String)>,
    /// The `error` member; it is there only where the call has failed.
    pub error: Option<String>,
}

impl RawPlatformResponse {
    /// The team's emoji map. An answer that carries an error text is not a
    /// listing: it gives a decode error with that text, whatever else it
    /// holds.
    pub fn into_emoji_map(self) -> (r: Result<EmojiMap, PipelineError>)
        ensures
            match r {
                Ok(m) => self.error.is_none() && m@ == pairs_view(self.emoji@),
                Err(e) => self.error.is_some() && e == PipelineError::Decode(self.error.unwrap()),
            },
    {
        match self.error {
            Some(cause) => Err(PipelineError::Decode(cause)),
            None => Ok(EmojiMap::from_pairs(&self.emoji)),
        }
    }
}

} // verus!
