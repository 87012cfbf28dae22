use agent_k_backend::agents::{
    automation_agent, require_active_agent, session_source, AgentType, CatalogAgentType,
    SessionSource,
};

#[test]
fn agent_type_accepts_catalog_wire_values() {
    for catalog in CatalogAgentType::all() {
        let parsed = AgentType::parse(catalog.as_str())
            .unwrap_or_else(|| panic!("{} must parse", catalog.as_str()));
        assert_eq!(parsed.catalog(), catalog);
    }
}

#[test]
fn agent_type_accepts_legacy_snake_case_alias() {
    assert!(matches!(AgentType::parse("deep_research"), Some(AgentType::DeepResearch)));
    assert!(AgentType::parse("deep research").is_none());
    assert!(AgentType::parse("speedwagon").is_none());
}

#[test]
fn unknown_automation_agent_falls_back_to_coworker() {
    assert_eq!(automation_agent("deep-research"), AgentType::DeepResearch);
    assert_eq!(automation_agent("nonsense"), AgentType::Coworker);
}

#[test]
fn a_session_names_exactly_one_source() {
    assert!(matches!(session_source(Some(7), None), Ok(SessionSource::Agent(7))));
    assert!(matches!(
        session_source(None, Some(AgentType::Coworker)),
        Ok(SessionSource::Preset(AgentType::Coworker))
    ));
    let e = session_source(Some(7), Some(AgentType::Coworker)).err().unwrap();
    assert_eq!((e.status, e.message.as_str()), (400, "provide exactly one of agent_id or agent_type"));
    assert_eq!(session_source(None, None).err().unwrap().status, 400);
    assert_eq!(require_active_agent(false).err().unwrap().status, 409);
    assert!(require_active_agent(true).is_ok());
}
