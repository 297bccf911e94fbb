//! What a status line is asked to show.

use crate::display::context::ContextWindow;
use crate::display::line::{Cost, Repo};
use crate::display::pieces::{PromptCache, RateLimits};
use crate::text::opt_view;
use vstd::prelude::*;

verus! {

/// Where the session works.
#[derive(Debug)]
pub struct Workspace {
    pub current_dir: Option<String>,
    pub repo: Option<Repo>,
}

/// The model that the session uses.
#[derive(Debug)]
pub struct Model {
    pub display_name: Option<String>,
    pub id: Option<String>,
}

impl Model {
    /// The name that a model is known by: the one that is displayed, else its id.
    pub open spec fn known_name(self) -> Option<Seq<char>> {
        if self.display_name is Some {
            opt_view(self.display_name)
        } else {
            opt_view(self.id)
        }
    }

    /// The name that a model is known by: the one that is displayed, else its id.
    pub fn detection_name(&self) -> (r: Option<&str>)
        ensures
            crate::text::opt_str(r) == self.known_name(),
    {
        match &self.display_name {
            Some(n) => Some(n.as_str()),
            None => match &self.id {
                Some(n) => Some(n.as_str()),
                None => None,
            },
        }
    }
}

/// How hard the model is to think.
#[derive(Debug)]
pub struct Effort {
    pub level: Option<String>,
}

/// What a session says of itself.
#[derive(Debug)]
pub struct StatuslineInput {
    pub workspace: Option<Workspace>,
    pub model: Option<Model>,
    pub session_id: Option<String>,
    pub transcript: Option<String>,
    pub cost: Option<Cost>,
    pub context_window: Option<ContextWindow>,
    pub rate_limits: Option<RateLimits>,
    pub effort: Option<Effort>,
    pub exceeds_200k_tokens: Option<bool>,
    pub version: Option<String>,
    pub prompt_cache: Option<PromptCache>,
}

impl Default for StatuslineInput {
    fn default() -> (r: Self)
        ensures
            r.workspace is None,
            r.model is None,
            r.session_id is None,
            r.transcript is None,
            r.cost is None,
            r.context_window is None,
            r.rate_limits is None,
            r.effort is None,
            r.exceeds_200k_tokens is None,
            r.version is None,
            r.prompt_cache is None,
    {
        StatuslineInput {
            workspace: None,
            model: None,
            session_id: None,
            transcript: None,
            cost: None,
            context_window: None,
            rate_limits: None,
            effort: None,
            exceeds_200k_tokens: None,
            version: None,
            prompt_cache: None,
        }
    }
}

} // verus!
