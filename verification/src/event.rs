//! Immutable records of everything notable that happens in a simulation.

use vstd::prelude::*;
use crate::clock::now_stamp;

verus! {

/// One agent acting towards another.
#[derive(Clone, Copy, Debug, PartialEq, Eq, Structural)]
pub enum Action {
    Help,
    Hurt,
    Plot,
}

/// A change of an agent's own state.
#[derive(Clone, Copy, Debug, PartialEq, Eq, Structural)]
pub enum StateChange {
    EnergyUpdate,
    SatisfactionUpdate,
    InfluenceUpdate,
    Reproduction,
    Death,
}

/// A need an agent reports or has answered.
#[derive(Clone, Copy, Debug, PartialEq, Eq, Structural)]
pub enum Need {
    Food,
    Reproduction,
    Ambition,
}

/// The tagged variant of an event.
#[derive(Clone, Copy, Debug, PartialEq, Eq, Structural)]
pub enum EventType {
    Action(Action),
    StateChange(StateChange),
    Need(Need),
}

/// An immutable record: a timestamp, a tagged variant and a detail text.
///
/// Events are never mutated after creation. They belong either to one
/// agent's own history or to the world-level stream; the two logs hold
/// independent copies.
#[derive(Debug)]
pub struct Event {
    pub timestamp: String,
    pub event_type: EventType,
    pub details: String,
}

/// The short display label of an action.
pub open spec fn action_label(a: Action) -> Seq<char> {
    match a {
        Action::Help => "HELP"@,
        Action::Hurt => "HURT"@,
        Action::Plot => "PLOT"@,
    }
}

/// The short display label of a state change.
pub open spec fn state_change_label(c: StateChange) -> Seq<char> {
    match c {
        StateChange::EnergyUpdate => "ENERGY"@,
        StateChange::SatisfactionUpdate => "SATISFACTION"@,
        StateChange::InfluenceUpdate => "INFLUENCE"@,
        StateChange::Reproduction => "REPRODUCTION"@,
        StateChange::Death => "DEAD"@,
    }
}

/// The short display label of a need.
pub open spec fn need_label(n: Need) -> Seq<char> {
    match n {
        Need::Food => "FOOD"@,
        Need::Reproduction => "REPRODUCTION"@,
        Need::Ambition => "AMBITION"@,
    }
}

/// The display label of an event's variant.
pub open spec fn event_type_label(t: EventType) -> Seq<char> {
    match t {
        EventType::Action(a) => action_label(a),
        EventType::StateChange(c) => state_change_label(c),
        EventType::Need(n) => need_label(n),
    }
}

/// One line of the event log: timestamp, variant label, details.
pub open spec fn event_line(e: Event) -> Seq<char> {
    e.timestamp@ + " "@ + event_type_label(e.event_type) + " "@ + e.details@
}

/// The variant name of an action, as written in the persisted record.
pub open spec fn action_name(a: Action) -> Seq<char> {
    match a {
        Action::Help => "Help"@,
        Action::Hurt => "Hurt"@,
        Action::Plot => "Plot"@,
    }
}

/// The variant name of a state change, as written in the persisted record.
pub open spec fn state_change_name(c: StateChange) -> Seq<char> {
    match c {
        StateChange::EnergyUpdate => "EnergyUpdate"@,
        StateChange::SatisfactionUpdate => "SatisfactionUpdate"@,
        StateChange::InfluenceUpdate => "InfluenceUpdate"@,
        StateChange::Reproduction => "Reproduction"@,
        StateChange::Death => "Death"@,
    }
}

/// The variant name of a need, as written in the persisted record.
pub open spec fn need_name(n: Need) -> Seq<char> {
    match n {
        Need::Food => "Food"@,
        Need::Reproduction => "Reproduction"@,
        Need::Ambition => "Ambition"@,
    }
}

impl Action {
    /// The variant name of this action.
    pub fn variant_name(&self) -> (r: &'static str)
        ensures
            r@ == action_name(*self),
    {
        match self {
            Action::Help => "Help",
            Action::Hurt => "Hurt",
            Action::Plot => "Plot",
        }
    }

    /// The display label of this action.
    pub fn label(&self) -> (r: &'static str)
        ensures
            r@ == action_label(*self),
    {
        match self {
            Action::Help => "HELP",
            Action::Hurt => "HURT",
            Action::Plot => "PLOT",
        }
    }
}

impl StateChange {
    /// The variant name of this state change.
    pub fn variant_name(&self) -> (r: &'static str)
        ensures
            r@ == state_change_name(*self),
    {
        match self {
            StateChange::EnergyUpdate => "EnergyUpdate",
            StateChange::SatisfactionUpdate => "SatisfactionUpdate",
            StateChange::InfluenceUpdate => "InfluenceUpdate",
            StateChange::Reproduction => "Reproduction",
            StateChange::Death => "Death",
        }
    }

    /// The display label of this state change.
    pub fn label(&self) -> (r: &'static str)
        ensures
            r@ == state_change_label(*self),
    {
        match self {
            StateChange::EnergyUpdate => "ENERGY",
            StateChange::SatisfactionUpdate => "SATISFACTION",
            StateChange::InfluenceUpdate => "INFLUENCE",
            StateChange::Reproduction => "REPRODUCTION",
            StateChange::Death => "DEAD",
        }
    }
}

impl Need {
    /// The variant name of this need.
    pub fn variant_name(&self) -> (r: &'static str)
        ensures
            r@ == need_name(*self),
    {
        match self {
            Need::Food => "Food",
            Need::Reproduction => "Reproduction",
            Need::Ambition => "Ambition",
        }
    }

    /// The display label of this need.
    pub fn label(&self) -> (r: &'static str)
        ensures
            r@ == need_label(*self),
    {
        match self {
            Need::Food => "FOOD",
            Need::Reproduction => "REPRODUCTION",
            Need::Ambition => "AMBITION",
        }
    }
}

impl EventType {
    /// The display label of this variant.
    pub fn label(&self) -> (r: &'static str)
        ensures
            r@ == event_type_label(*self),
    {
        match self {
            EventType::Action(a) => a.label(),
            EventType::StateChange(c) => c.label(),
            EventType::Need(n) => n.label(),
        }
    }
}

impl Event {
    /// A new event stamped with the current time.
    pub fn new(event_type: EventType, details: String) -> (r: Event)
        ensures
            r.event_type == event_type,
            r.details == details,
    {
        Event { timestamp: now_stamp(), event_type, details }
    }

    /// An identical copy, for keeping one event in two logs.
    pub fn duplicate(&self) -> (r: Event)
        ensures
            r == *self,
    {
        Event {
            timestamp: self.timestamp.clone(),
            event_type: self.event_type,
            details: self.details.clone(),
        }
    }

    /// One line of the event log: timestamp, variant label, details.
    pub fn display_line(&self) -> (r: String)
        ensures
            r@ == event_line(*self),
    {
        let mut line: String = self.timestamp.clone();
        line.append(" ");
        line.append(self.event_type.label());
        line.append(" ");
        line.append(self.details.as_str());
        proof {
            assert(line@ =~= event_line(*self));
        }
        line
    }
}

} // verus!
