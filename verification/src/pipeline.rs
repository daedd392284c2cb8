//! The plan of a run and what it writes.

use crate::emoji_map::json_object_text;
use crate::emoji_map::merge;
use crate::emoji_map::merged;
use crate::emoji_map::EmojiMap;
use vstd::prelude::*;
use vstd::string::StringExecFns;

verus! {

/// Why a run stopped. Every one of them ends the run: none is retried.
#[derive(Clone, Debug, PartialEq, Eq)]
pub enum PipelineError {
    /// The credential is missing or empty.
    Config,
    /// A request could not be sent or its response not received; the cause.
    Network(String),
    /// A response was not JSON of the expected shape; the cause.
    Decode(String),
    /// The output file could not be created or written; the cause.
    Io(String),
}

/// What a run is to do, once its credential and arguments are read.
#[derive(Clone, Debug, PartialEq, Eq)]
pub struct RunPlan {
    /// The credential sent with the request for the team's emoji.
    pub token: String,
    /// Whether the default emoji are fetched and merged in.
    pub include_default: bool,
}

/// The name of the file that a run writes.
pub const OUTPUT_PATH: &'static str = "emojis.json";

/// The name of the environment variable that holds the credential.
pub const TOKEN_VARIABLE: &'static str = "SLACK_TOKEN";

/// The argument that asks for the default emoji.
pub const DEFAULT_ARGUMENT: &'static str = "default";

/// The line reported when the credential is missing.
pub const MISSING_TOKEN_MESSAGE: &'static str =
    "Error: SLACK_TOKEN environment variable is not set.";

/// Whether the arguments, the program's name first, ask for the default
/// emoji: the first one after the name is `default`.
pub open spec fn default_requested(args: Seq<String>) -> bool {
    args.len() > 1 && args[1]@ == DEFAULT_ARGUMENT@
}

/// Whether a credential can be used: it is there and not empty.
pub open spec fn usable_token(token: Option<String>) -> bool {
    token matches Some(t) && t@.len() > 0
}

/// The line that reports an error.
pub open spec fn message_text(e: PipelineError) -> Seq<char> {
    match e {
        PipelineError::Config => MISSING_TOKEN_MESSAGE@,
        PipelineError::Network(cause) => "Error: "@ + cause@,
        PipelineError::Decode(cause) => "Error: "@ + cause@,
        PipelineError::Io(cause) => "Error: "@ + cause@,
    }
}

/// The map that a run writes: the primary map, with the secondary one merged
/// in where there is one.
pub open spec fn assembled(
    primary: Map<Seq<char>, Seq<char>>,
    secondary: Option<Map<Seq<char>, Seq<char>>>,
) -> Map<Seq<char>, Seq<char>> {
    match secondary {
        Some(s) => merged(primary, s),
        None => primary,
    }
}

impl PipelineError {
    /// The line to print for this error.
    pub fn message(&self) -> (line: String)
        ensures
            line@ == message_text(*self),
    {
        match self {
            PipelineError::Config => String::from_str(MISSING_TOKEN_MESSAGE),
            PipelineError::Network(cause) => String::from_str("Error: ").concat(cause.as_str()),
            PipelineError::Decode(cause) => String::from_str("Error: ").concat(cause.as_str()),
            PipelineError::Io(cause) => String::from_str("Error: ").concat(cause.as_str()),
        }
    }
}

/// Whether the arguments ask for the default emoji.
pub fn secondary_requested(args: &Vec<String>) -> (b: bool)
    ensures
        b == default_requested(args@),
{
    if args.len() > 1 {
        let wanted = String::from_str(DEFAULT_ARGUMENT);
        args[1] == wanted
    } else {
        false
    }
}

/// Plans a run. Without a usable credential there is no plan, so nothing is
/// fetched and nothing written.
pub fn plan_run(token: Option<String>, args: &Vec<String>) -> (r: Result<RunPlan, PipelineError>)
    ensures
        match r {
            Ok(plan) => usable_token(token) && plan.token@ == token.unwrap()@
                && plan.include_default == default_requested(args@),
            Err(e) => !usable_token(token) && e == PipelineError::Config,
        },
{
    match token {
        Some(t) => {
            if t.as_str().is_empty() {
                Err(PipelineError::Config)
            } else {
                Ok(RunPlan { token: t, include_default: secondary_requested(args) })
            }
        },
        None => Err(PipelineError::Config),
    }
}

/// Puts together the map to write from what was fetched.
pub fn assemble(primary: EmojiMap, secondary: Option<EmojiMap>) -> (out: EmojiMap)
    ensures
        out@ == assembled(
            primary@,
            match secondary {
                Some(s) => Some(s@),
                None => None,
            },
        ),
{
    match secondary {
        Some(s) => merge(primary, &s),
        None => primary,
    }
}

/// The text of the output file for what was fetched; `None` where the
/// encoder refuses the map.
pub fn output_text(primary: EmojiMap, secondary: Option<EmojiMap>) -> (text: Option<String>)
    ensures
        match text {
            Some(t) => Some(t@),
            None => None,
        } == json_object_text(
            assembled(
                primary@,
                match secondary {
                    Some(s) => Some(s@),
                    None => None,
                },
            ),
        ),
{
    assemble(primary, secondary).to_json()
}

/// A run without the default emoji writes the primary map as it came.
pub proof fn lemma_assembled_without_secondary(primary: Map<Seq<char>, Seq<char>>)
    ensures
        assembled(primary, None) == primary,
        assembled(primary, Some(Map::empty())) == primary,
{
    crate::emoji_map::lemma_merge_empty(primary);
}

} // verus!
