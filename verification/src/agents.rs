//! Agent presets a session or an automation is built from, and the choice
//! between a preset and a stored agent when a session is created.

use vstd::prelude::*;

use crate::api::{api_error, ApiError};
use crate::text::str_eq;

verus! {

/// The agent surfaces of the model catalog.
#[derive(Debug, Clone, Copy, PartialEq, Eq, Structural)]
pub enum CatalogAgentType {
    Coworker,
    DeepResearch,
}

/// Wire name of a catalog surface.
pub open spec fn catalog_name(t: CatalogAgentType) -> Seq<char> {
    match t {
        CatalogAgentType::Coworker => "coworker"@,
        CatalogAgentType::DeepResearch => "deep-research"@,
    }
}

impl CatalogAgentType {
    /// Every catalog surface.
    pub fn all() -> (r: Vec<CatalogAgentType>)
        ensures
            r@ == seq![CatalogAgentType::Coworker, CatalogAgentType::DeepResearch],
    {
        let mut r: Vec<CatalogAgentType> = Vec::new();
        r.push(CatalogAgentType::Coworker);
        r.push(CatalogAgentType::DeepResearch);
        r
    }

    /// Wire name of the surface.
    pub fn as_str(&self) -> (r: &'static str)
        ensures
            r@ == catalog_name(*self),
    {
        match self {
            CatalogAgentType::Coworker => "coworker",
            CatalogAgentType::DeepResearch => "deep-research",
        }
    }

    /// The surface with wire name `s`.
    pub fn parse(s: &str) -> (r: Option<CatalogAgentType>)
        ensures
            r == (if s@ == "coworker"@ {
                Some(CatalogAgentType::Coworker)
            } else if s@ == "deep-research"@ {
                Some(CatalogAgentType::DeepResearch)
            } else {
                None
            }),
    {
        if str_eq(s, "coworker") {
            Some(CatalogAgentType::Coworker)
        } else if str_eq(s, "deep-research") {
            Some(CatalogAgentType::DeepResearch)
        } else {
            None
        }
    }
}

/// The preset a session is built from. Wire values are kebab-case, as the
/// catalog advertises them; `deep_research` stays accepted as a legacy
/// alias.
#[derive(Debug, Clone, Copy, PartialEq, Eq, Structural)]
pub enum AgentType {
    Coworker,
    DeepResearch,
}

/// What a wire value names.
pub open spec fn agent_type_of(s: Seq<char>) -> Option<AgentType> {
    if s == "coworker"@ {
        Some(AgentType::Coworker)
    } else if s == "deep-research"@ || s == "deep_research"@ {
        Some(AgentType::DeepResearch)
    } else {
        None
    }
}

impl AgentType {
    /// The preset a wire value names.
    pub fn parse(s: &str) -> (r: Option<AgentType>)
        ensures
            r == agent_type_of(s@),
    {
        if str_eq(s, "coworker") {
            Some(AgentType::Coworker)
        } else if str_eq(s, "deep-research") || str_eq(s, "deep_research") {
            Some(AgentType::DeepResearch)
        } else {
            None
        }
    }

    /// The catalog surface whose model chain the preset follows.
    pub fn catalog(self) -> (r: CatalogAgentType)
        ensures
            r == (match self {
                AgentType::Coworker => CatalogAgentType::Coworker,
                AgentType::DeepResearch => CatalogAgentType::DeepResearch,
            }),
    {
        match self {
            AgentType::Coworker => CatalogAgentType::Coworker,
            AgentType::DeepResearch => CatalogAgentType::DeepResearch,
        }
    }
}

/// Every catalog surface name parses back into the preset that maps to it.
pub proof fn lemma_catalog_names_round_trip(t: CatalogAgentType)
    ensures
        agent_type_of(catalog_name(t)) matches Some(a) && (match a {
            AgentType::Coworker => CatalogAgentType::Coworker,
            AgentType::DeepResearch => CatalogAgentType::DeepResearch,
        }) == t,
{
    reveal_strlit("coworker");
    reveal_strlit("deep-research");
    reveal_strlit("deep_research");
    assert("coworker"@[0] != "deep-research"@[0]);
    assert("coworker"@[0] != "deep_research"@[0]);
}

/// The preset an automation's stored agent type names; an unknown value
/// (refused at create and update) falls back to the coworker.
pub fn automation_agent(agent_type: &str) -> (r: AgentType)
    ensures
        r == (match agent_type_of(agent_type@) {
            Some(a) => a,
            None => AgentType::Coworker,
        }),
{
    match AgentType::parse(agent_type) {
        Some(a) => a,
        None => AgentType::Coworker,
    }
}

/// Where a new session's spec comes from.
pub enum SessionSource {
    /// A stored agent, by id.
    Agent(u128),
    /// A preset.
    Preset(AgentType),
}

/// The source of a new session's spec: exactly one of a stored agent and a
/// preset must be named, else 400.
pub fn session_source(agent_id: Option<u128>, agent_type: Option<AgentType>) -> (r: Result<
    SessionSource,
    ApiError,
>)
    ensures
        match (agent_id, agent_type) {
            (Some(id), None) => r matches Ok(SessionSource::Agent(x)) && x == id,
            (None, Some(t)) => r matches Ok(SessionSource::Preset(x)) && x == t,
            _ => r matches Err(e) && e.status == 400 && e.message@
                == "provide exactly one of agent_id or agent_type"@,
        },
{
    match (agent_id, agent_type) {
        (Some(id), None) => Ok(SessionSource::Agent(id)),
        (None, Some(t)) => Ok(SessionSource::Preset(t)),
        _ => Err(api_error(400, "provide exactly one of agent_id or agent_type")),
    }
}

/// A stored agent can start a session only while it is active: 409.
pub fn require_active_agent(active: bool) -> (r: Result<(), ApiError>)
    ensures
        r is Ok <==> active,
        r matches Err(e) ==> e.status == 409 && e.message@ == "agent is not active"@,
{
    if active {
        Ok(())
    } else {
        Err(api_error(409, "agent is not active"))
    }
}

} // verus!
