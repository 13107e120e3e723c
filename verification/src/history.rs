//! The run's accumulating record and its persisted form.
//!
//! The store keeps every world-level event of the run in memory, in
//! emission order, together with the run's identity and parameters.
//! `save` renders the whole record as one JSON document; the embedding
//! writes it to the file named by `file_name`, overwriting in place.

use vstd::prelude::*;
use crate::clock::now_stamp;
use crate::event::{action_name, need_name, state_change_name, Event, EventType};
use crate::params::SimulationParams;
use crate::text::{compact_stamp, compacted, escape_json, escaped, spec_dec, u32_to_string};

verus! {

/// The JSON writing of a string: the escaped body in quotes.
pub open spec fn json_string(s: Seq<char>) -> Seq<char> {
    seq!['"'] + escaped(s) + seq!['"']
}

/// The JSON writing of an event's tagged variant.
pub open spec fn event_type_json(t: EventType) -> Seq<char> {
    match t {
        EventType::Action(a) => "{\"Action\": \""@ + action_name(a) + "\"}"@,
        EventType::StateChange(c) => "{\"StateChange\": \""@ + state_change_name(c) + "\"}"@,
        EventType::Need(n) => "{\"Need\": \""@ + need_name(n) + "\"}"@,
    }
}

/// The JSON writing of one event, on a single line.
pub open spec fn event_json(e: Event) -> Seq<char> {
    "{\"timestamp\": "@ + json_string(e.timestamp@) + ", \"event_type\": "@ + event_type_json(
        e.event_type,
    ) + ", \"details\": "@ + json_string(e.details@) + "}"@
}

/// The JSON writings of a sequence of events, one per line.
pub open spec fn events_json_items(s: Seq<Event>) -> Seq<char>
    decreases s.len(),
{
    if s.len() == 0 {
        Seq::empty()
    } else if s.len() == 1 {
        event_json(s[0])
    } else {
        events_json_items(s.drop_last()) + ",\n    "@ + event_json(s.last())
    }
}

/// The JSON writing of the event array, pretty-printed.
pub open spec fn events_json(s: Seq<Event>) -> Seq<char> {
    if s.len() == 0 {
        "[]"@
    } else {
        "[\n    "@ + events_json_items(s) + "\n  ]"@
    }
}

/// The JSON writing of the parameter snapshot, pretty-printed.
pub open spec fn params_json(p: SimulationParams) -> Seq<char> {
    "{\n    \"interaction_chance\": "@ + spec_dec(p.interaction_chance as int)
        + ",\n    \"reproduction_chance\": "@ + spec_dec(p.reproduction_chance as int)
        + ",\n    \"hunger_tick_chance\": "@ + spec_dec(p.hunger_tick_chance as int)
        + ",\n    \"ambition_tick_chance\": "@ + spec_dec(p.ambition_tick_chance as int)
        + ",\n    \"simulation_duration\": "@ + spec_dec(p.simulation_duration as int)
        + ",\n    \"initial_population\": "@ + spec_dec(p.initial_population as int)
        + "\n  }"@
}

/// One record per run: identity, start time, parameter snapshot, and
/// the ordered world-level event stream.
#[derive(Debug)]
pub struct SimulationRecord {
    pub simulation_id: String,
    pub start_time: String,
    pub parameters: SimulationParams,
    pub events: Vec<Event>,
}

/// The JSON document persisted for a run, pretty-printed.
pub open spec fn record_json(r: SimulationRecord) -> Seq<char> {
    "{\n  \"simulation_id\": "@ + json_string(r.simulation_id@) + ",\n  \"start_time\": "@
        + json_string(r.start_time@) + ",\n  \"parameters\": "@ + params_json(r.parameters)
        + ",\n  \"events\": "@ + events_json(r.events@) + "\n}"@
}

/// Appends the JSON writing of a string.
fn append_json_string(out: &mut String, s: &str)
    ensures
        final(out)@ == old(out)@ + json_string(s@),
{
    proof {
        reveal_strlit("\"");
    }
    out.append("\"");
    let body: String = escape_json(s);
    out.append(body.as_str());
    out.append("\"");
    proof {
        assert(final(out)@ =~= old(out)@ + json_string(s@));
    }
}

/// Appends the JSON writing of an event's tagged variant.
fn append_event_type_json(out: &mut String, t: &EventType)
    ensures
        final(out)@ == old(out)@ + event_type_json(*t),
{
    proof {
        reveal_strlit("{\"Action\": \"");
        reveal_strlit("{\"StateChange\": \"");
        reveal_strlit("{\"Need\": \"");
        reveal_strlit("\"}");
    }
    match t {
        EventType::Action(a) => {
            out.append("{\"Action\": \"");
            out.append(a.variant_name());
        },
        EventType::StateChange(c) => {
            out.append("{\"StateChange\": \"");
            out.append(c.variant_name());
        },
        EventType::Need(n) => {
            out.append("{\"Need\": \"");
            out.append(n.variant_name());
        },
    }
    out.append("\"}");
    proof {
        assert(final(out)@ =~= old(out)@ + event_type_json(*t));
    }
}

/// Appends the JSON writing of one event.
fn append_event_json(out: &mut String, e: &Event)
    ensures
        final(out)@ == old(out)@ + event_json(*e),
{
    proof {
        reveal_strlit("{\"timestamp\": ");
        reveal_strlit(", \"event_type\": ");
        reveal_strlit(", \"details\": ");
        reveal_strlit("}");
    }
    out.append("{\"timestamp\": ");
    append_json_string(out, e.timestamp.as_str());
    out.append(", \"event_type\": ");
    append_event_type_json(out, &e.event_type);
    out.append(", \"details\": ");
    append_json_string(out, e.details.as_str());
    out.append("}");
    proof {
        assert(final(out)@ =~= old(out)@ + event_json(*e));
    }
}

/// Appends the JSON writing of the event array.
#[verifier::loop_isolation(false)]
fn append_events_json(out: &mut String, events: &Vec<Event>)
    ensures
        final(out)@ == old(out)@ + events_json(events@),
{
    proof {
        reveal_strlit("[]");
        reveal_strlit("[\n    ");
        reveal_strlit(",\n    ");
        reveal_strlit("\n  ]");
    }
    if events.len() == 0 {
        out.append("[]");
        proof {
            assert(final(out)@ =~= old(out)@ + events_json(events@));
        }
        return ;
    }
    out.append("[\n    ");
    let mut i: usize = 0;
    while i < events.len()
        invariant
            i <= events@.len(),
            out@ == old(out)@ + "[\n    "@ + events_json_items(events@.subrange(0, i as int)),
        decreases events@.len() - i,
    {
        if i > 0 {
            out.append(",\n    ");
        }
        append_event_json(out, &events[i]);
        proof {
            let s = events@.subrange(0, i as int + 1);
            assert(s.drop_last() =~= events@.subrange(0, i as int));
            assert(s.last() == events@[i as int]);
            if i == 0 {
                assert(events_json_items(s) == event_json(events@[0]));
                assert(out@ =~= old(out)@ + "[\n    "@ + events_json_items(s));
            } else {
                assert(events_json_items(s) == events_json_items(events@.subrange(0, i as int))
                    + ",\n    "@ + event_json(events@[i as int]));
                assert(out@ =~= old(out)@ + "[\n    "@ + events_json_items(s));
            }
        }
        i = i + 1;
    }
    out.append("\n  ]");
    proof {
        assert(events@.subrange(0, events@.len() as int) =~= events@);
        assert(final(out)@ =~= old(out)@ + events_json(events@));
    }
}

/// Appends the decimal writing of a number.
fn append_u32(out: &mut String, n: u32)
    ensures
        final(out)@ == old(out)@ + spec_dec(n as int),
{
    let s: String = u32_to_string(n);
    out.append(s.as_str());
}

/// Appends the JSON writing of the parameter snapshot.
fn append_params_json(out: &mut String, p: &SimulationParams)
    ensures
        final(out)@ == old(out)@ + params_json(*p),
{
    proof {
        reveal_strlit("{\n    \"interaction_chance\": ");
        reveal_strlit(",\n    \"reproduction_chance\": ");
        reveal_strlit(",\n    \"hunger_tick_chance\": ");
        reveal_strlit(",\n    \"ambition_tick_chance\": ");
        reveal_strlit(",\n    \"simulation_duration\": ");
        reveal_strlit(",\n    \"initial_population\": ");
        reveal_strlit("\n  }");
    }
    out.append("{\n    \"interaction_chance\": ");
    append_u32(out, p.interaction_chance);
    out.append(",\n    \"reproduction_chance\": ");
    append_u32(out, p.reproduction_chance);
    out.append(",\n    \"hunger_tick_chance\": ");
    append_u32(out, p.hunger_tick_chance);
    out.append(",\n    \"ambition_tick_chance\": ");
    append_u32(out, p.ambition_tick_chance);
    out.append(",\n    \"simulation_duration\": ");
    append_u32(out, p.simulation_duration);
    out.append(",\n    \"initial_population\": ");
    append_u32(out, p.initial_population);
    out.append("\n  }");
    proof {
        assert(final(out)@ =~= old(out)@ + params_json(*p));
    }
}

/// Renders the whole record as one JSON document.
fn render_record(rec: &SimulationRecord) -> (r: String)
    ensures
        r@ == record_json(*rec),
{
    proof {
        reveal_strlit("{\n  \"simulation_id\": ");
        reveal_strlit(",\n  \"start_time\": ");
        reveal_strlit(",\n  \"parameters\": ");
        reveal_strlit(",\n  \"events\": ");
        reveal_strlit("\n}");
    }
    let mut out: String = String::new();
    out.append("{\n  \"simulation_id\": ");
    append_json_string(&mut out, rec.simulation_id.as_str());
    out.append(",\n  \"start_time\": ");
    append_json_string(&mut out, rec.start_time.as_str());
    out.append(",\n  \"parameters\": ");
    append_params_json(&mut out, &rec.parameters);
    out.append(",\n  \"events\": ");
    append_events_json(&mut out, &rec.events);
    out.append("\n}");
    proof {
        assert(out@ =~= record_json(*rec));
    }
    out
}

/// Relies on uuid::Uuid::new_v4 and its Display impl: a random UUID
/// written in the hyphenated form, which is 36 characters long.
#[verifier::external_body]
fn fresh_run_id() -> (r: String)
    ensures
        r@.len() == 36,
{
    uuid::Uuid::new_v4().to_string()
}

/// Accumulates the run's world-level events and renders them for
/// persistence. The embedding owns the durable destination; it writes
/// what `save` returns to the file named by `file_name`.
#[derive(Debug)]
pub struct HistoryStorage {
    pub current_simulation: SimulationRecord,
    pub file_name: String,
    pub save_count: u32,
}

impl HistoryStorage {
    /// A fresh store: a generated run identifier, the current start
    /// time, the given parameter snapshot, no events yet, and a file
    /// name derived from the start time.
    pub fn new(parameters: SimulationParams) -> (r: HistoryStorage)
        ensures
            r.current_simulation.parameters == parameters,
            r.current_simulation.events@.len() == 0,
            r.current_simulation.simulation_id@.len() == 36,
            r.save_count == 0,
            r.file_name@ == "simulation_"@ + compacted(r.current_simulation.start_time@)
                + ".json"@,
    {
        let simulation_id: String = fresh_run_id();
        let start_time: String = now_stamp();
        let mut file_name: String = String::from_str("simulation_");
        let compact: String = compact_stamp(start_time.as_str());
        file_name.append(compact.as_str());
        file_name.append(".json");
        HistoryStorage {
            current_simulation: SimulationRecord {
                simulation_id,
                start_time,
                parameters,
                events: Vec::new(),
            },
            file_name,
            save_count: 0,
        }
    }

    /// Appends one event to the in-memory record; nothing durable happens.
    pub fn record_event(&mut self, event: Event)
        ensures
            final(self).current_simulation.events@ == old(
                self,
            ).current_simulation.events@.push(event),
            final(self).current_simulation.simulation_id == old(
                self,
            ).current_simulation.simulation_id,
            final(self).current_simulation.start_time == old(self).current_simulation.start_time,
            final(self).current_simulation.parameters == old(self).current_simulation.parameters,
            final(self).file_name == old(self).file_name,
            final(self).save_count == old(self).save_count,
    {
        self.current_simulation.events.push(event);
    }

    /// One persistence request: renders the full record as the JSON
    /// document to be written, and counts the request. The caller
    /// writes the result to `file_name`, overwriting prior contents.
    pub fn save(&mut self) -> (r: String)
        requires
            old(self).save_count < u32::MAX,
        ensures
            r@ == record_json(old(self).current_simulation),
            final(self).current_simulation == old(self).current_simulation,
            final(self).file_name == old(self).file_name,
            final(self).save_count == old(self).save_count + 1,
    {
        self.save_count = self.save_count + 1;
        render_record(&self.current_simulation)
    }

    /// Up to `count` most recent events, most recent first.
    pub fn get_recent_events(&self, count: usize) -> (r: Vec<Event>)
        ensures
            r@.len() == if count <= self.current_simulation.events@.len() {
                count as int
            } else {
                self.current_simulation.events@.len() as int
            },
            forall|i: int|
                0 <= i < r@.len() ==> r@[i] == self.current_simulation.events@[
                    self.current_simulation.events@.len() - 1 - i
                ],
    {
        let n: usize = self.current_simulation.events.len();
        let limit: usize = if count <= n {
            count
        } else {
            n
        };
        let mut r: Vec<Event> = Vec::new();
        let mut i: usize = 0;
        while i < limit
            invariant
                i <= limit,
                limit <= n,
                n == self.current_simulation.events@.len(),
                r@.len() == i,
                forall|j: int|
                    0 <= j < i ==> r@[j] == self.current_simulation.events@[n - 1 - j],
            decreases limit - i,
        {
            r.push(self.current_simulation.events[n - 1 - i].duplicate());
            i = i + 1;
        }
        r
    }
}

} // verus!
