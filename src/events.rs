//! Events carried on the bus, and the messages exchanged with interfaces.
use vstd::prelude::*;
use crate::unit::{UnitKind, UnitName, UnitNameView};

verus! {

/// A change in a unit's lifecycle, as announced to every subscriber.
#[derive(Debug, Clone)]
pub enum UnitStatus {
    Loaded,
    UnitIncompatible(String),
    Active,
    ActiveFailed(String),
    Deselected(String),
    DeactivateSuccess(String),
    DeactivateFailure(String),
}

#[derive(Debug, Clone)]
pub struct UnitStatusEvent {
    pub name: UnitName,
    pub status: UnitStatus,
}

#[derive(PartialEq, Eq, Structural, Clone, Copy, Debug)]
pub enum LogLevel {
    Info,
    Error,
    Debug,
}

/// One line of log output, tagged with the unit it came from.
#[derive(Debug)]
pub struct LogEntry {
    pub source: UnitName,
    pub level: LogLevel,
    pub text: String,
    /// When the line was logged, as the caller's clock gave it to the manager.
    pub timestamp: u64,
}

impl Clone for LogEntry {
    fn clone(&self) -> (r: LogEntry)
        ensures
            r == *self,
    {
        LogEntry {
            source: self.source.clone(),
            level: self.level,
            text: self.text.clone(),
            timestamp: self.timestamp,
        }
    }
}

/// Which descriptive field a `Describe` message carries.
#[derive(PartialEq, Eq, Structural, Clone, Copy, Debug)]
pub enum FieldType {
    Name,
    Description,
}

impl FieldType {
    /// The lowercase word for this field.
    pub fn to_string(&self) -> (r: String)
        ensures
            r@ == (match *self {
                FieldType::Name => seq!['n', 'a', 'm', 'e'],
                FieldType::Description => seq![
                    'd', 'e', 's', 'c', 'r', 'i', 'p', 't', 'i', 'o', 'n'
                ],
            }),
    {
        match self {
            FieldType::Name => {
                proof {
                    reveal_strlit("name");
                }
                String::from_str("name")
            },
            FieldType::Description => {
                proof {
                    reveal_strlit("description");
                }
                String::from_str("description")
            },
        }
    }
}

/// Messages from the manager to an interface.
#[derive(Debug, Clone)]
pub enum ManagerStatusMessage {
    /// The current jig, or the empty-id jig name when there is none.
    Jig(UnitName),
    /// The loaded scenarios.
    Scenarios(Vec<UnitName>),
    /// The current scenario, if any.
    Scenario(Option<UnitName>),
    /// A scenario and its test sequence.
    Tests(UnitName, Vec<UnitName>),
    /// The server's greeting banner.
    Hello(String),
    /// One descriptive field of a unit: its kind, the field, its identifier and the value.
    Describe(UnitKind, FieldType, String, String),
    /// A log line from a unit or the system.
    Log(LogEntry),
}

/// Commands from an interface or a running unit to the manager.
#[derive(Debug, Clone)]
pub enum ManagerControlMessageContents {
    /// Ask for the current jig.
    Jig,
    /// Ask for the loaded scenarios.
    Scenarios,
    /// Make the named scenario current.
    Scenario(UnitName),
    /// Ask for the tests of the named scenario, or of the current one.
    Tests(Option<UnitName>),
    /// An error reported by the sender.
    Error(String),
    /// The sender has just connected and wants the greeting.
    InitialGreeting,
    /// The sender's child process exited unexpectedly.
    ChildExited,
    /// The client sent a verb that is not understood: the verb and the rest of its line.
    Unimplemented(String, String),
    /// An informational log line.
    Log(String),
    /// An error log line.
    LogError(String),
    /// Start the named scenario, or the current one.
    Start(Option<UnitName>),
    /// A scenario run ended: 0 on success, and a summary.
    ScenarioFinished(i32, String),
}

#[derive(Debug, Clone)]
pub struct ManagerControlMessage {
    pub sender: UnitName,
    pub contents: ManagerControlMessageContents,
}

impl ManagerControlMessage {
    pub fn new(id: &UnitName, contents: ManagerControlMessageContents) -> (r: Self)
        ensures
            r.sender == *id,
            r.contents == contents,
    {
        ManagerControlMessage { sender: id.clone(), contents: contents }
    }
}

/// Everything that travels on the event bus.
#[derive(Debug, Clone)]
pub enum UnitEvent {
    Status(UnitStatusEvent),
    Log(LogEntry),
    ManagerRequest(ManagerControlMessage),
    RescanRequest,
    Shutdown,
    Category(UnitKind, u64),
}

/// What a message to an interface carries, as values.
pub enum MessageView {
    Jig(UnitNameView),
    Scenarios(Seq<UnitNameView>),
    Scenario(Option<UnitNameView>),
    Tests(UnitNameView, Seq<UnitNameView>),
    Hello(Seq<char>),
    Describe(UnitKind, FieldType, Seq<char>, Seq<char>),
    Log(UnitNameView, LogLevel, Seq<char>),
}

pub open spec fn names_view(ns: Seq<UnitName>) -> Seq<UnitNameView> {
    ns.map_values(|n: UnitName| n@)
}

impl View for ManagerStatusMessage {
    type V = MessageView;

    open spec fn view(&self) -> MessageView {
        match self {
            ManagerStatusMessage::Jig(n) => MessageView::Jig(n@),
            ManagerStatusMessage::Scenarios(ns) => MessageView::Scenarios(names_view(ns@)),
            ManagerStatusMessage::Scenario(o) => MessageView::Scenario(
                match o {
                    Some(n) => Some(n@),
                    None => None,
                },
            ),
            ManagerStatusMessage::Tests(n, ts) => MessageView::Tests(n@, names_view(ts@)),
            ManagerStatusMessage::Hello(h) => MessageView::Hello(h@),
            ManagerStatusMessage::Describe(k, f, id, val) => MessageView::Describe(*k, *f, id@, val@),
            ManagerStatusMessage::Log(l) => MessageView::Log(l.source@, l.level, l.text@),
        }
    }
}

/// What a status carries, with its text as characters.
pub enum StatusView {
    Loaded,
    UnitIncompatible(Seq<char>),
    Active,
    ActiveFailed(Seq<char>),
    Deselected(Seq<char>),
    DeactivateSuccess(Seq<char>),
    DeactivateFailure(Seq<char>),
}

impl View for UnitStatus {
    type V = StatusView;

    open spec fn view(&self) -> StatusView {
        match self {
            UnitStatus::Loaded => StatusView::Loaded,
            UnitStatus::UnitIncompatible(m) => StatusView::UnitIncompatible(m@),
            UnitStatus::Active => StatusView::Active,
            UnitStatus::ActiveFailed(m) => StatusView::ActiveFailed(m@),
            UnitStatus::Deselected(m) => StatusView::Deselected(m@),
            UnitStatus::DeactivateSuccess(m) => StatusView::DeactivateSuccess(m@),
            UnitStatus::DeactivateFailure(m) => StatusView::DeactivateFailure(m@),
        }
    }
}

/// What an event carries, as values: a status with its unit, or a log line.
pub enum EventView {
    Status(UnitNameView, StatusView),
    Log(UnitNameView, LogLevel, Seq<char>, u64),
    Request(UnitNameView),
    Rescan,
    Shutdown,
    Category(UnitKind, u64),
}

impl View for UnitEvent {
    type V = EventView;

    open spec fn view(&self) -> EventView {
        match self {
            UnitEvent::Status(s) => EventView::Status(s.name@, s.status@),
            UnitEvent::Log(l) => EventView::Log(l.source@, l.level, l.text@, l.timestamp),
            UnitEvent::ManagerRequest(m) => EventView::Request(m.sender@),
            UnitEvent::RescanRequest => EventView::Rescan,
            UnitEvent::Shutdown => EventView::Shutdown,
            UnitEvent::Category(k, c) => EventView::Category(*k, *c),
        }
    }
}

} // verus!
