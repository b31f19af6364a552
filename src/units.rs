//! Descriptions of loadable units and the records the manager keeps of them.
use vstd::prelude::*;
use crate::unit::{UnitKind, UnitName, UnitNameView};

verus! {

/// Where a loaded unit stands in its lifecycle.
#[derive(PartialEq, Eq, Structural, Clone, Copy, Debug)]
pub enum UnitState {
    Loaded,
    Selected,
    Active,
}

/// What a unit of each kind carries besides its identity and display text.
#[derive(Debug, Clone)]
pub enum UnitPayload {
    Jig { default_scenario: Option<UnitName> },
    Scenario { tests: Vec<UnitName>, exec_stop: Option<String>, timeout: Option<u64> },
    Test { exec_start: String },
    Interface { exec_start: String },
}

/// A parsed unit description, ready to be loaded.
#[derive(Debug, Clone)]
pub struct UnitDescription {
    pub id: UnitName,
    pub name: String,
    pub description: String,
    pub payload: UnitPayload,
}

/// A unit held by the manager: its description and its lifecycle state.
#[derive(Debug, Clone)]
pub struct Unit {
    pub desc: UnitDescription,
    pub state: UnitState,
}

/// The kind that a payload belongs to.
pub open spec fn payload_kind(p: UnitPayload) -> UnitKind {
    match p {
        UnitPayload::Jig { .. } => UnitKind::Jig,
        UnitPayload::Scenario { .. } => UnitKind::Scenario,
        UnitPayload::Test { .. } => UnitKind::Test,
        UnitPayload::Interface { .. } => UnitKind::Interface,
    }
}

/// The test names a scenario payload lists, as views; empty for other kinds.
pub open spec fn test_names(p: UnitPayload) -> Seq<UnitNameView> {
    match p {
        UnitPayload::Scenario { tests, .. } => tests@.map_values(|t: UnitName| t@),
        _ => Seq::empty(),
    }
}

/// The default scenario a jig payload names; none for other kinds.
pub open spec fn default_scenario(p: UnitPayload) -> Option<UnitNameView> {
    match p {
        UnitPayload::Jig { default_scenario: Some(s) } => Some(s@),
        _ => None,
    }
}

impl UnitDescription {
    pub fn kind_of_payload(&self) -> (r: UnitKind)
        ensures
            r == payload_kind(self.payload),
    {
        match &self.payload {
            UnitPayload::Jig { .. } => UnitKind::Jig,
            UnitPayload::Scenario { .. } => UnitKind::Scenario,
            UnitPayload::Test { .. } => UnitKind::Test,
            UnitPayload::Interface { .. } => UnitKind::Interface,
        }
    }
}

} // verus!
