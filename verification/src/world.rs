//! The world: the live population, the run's parameters, and the
//! per-tick update algorithm.

use vstd::prelude::*;
use crate::estajo::{
    child_name, damaged, mixed_genes, needs_advanced, Estajo, Sex, AGING_DAMAGE,
};
use crate::event::{Action, Event, EventType, Need, StateChange};
use crate::history::{record_json, HistoryStorage};
use crate::params::{SimulationParams, CHANCE_SCALE};
use crate::rng::rand_below;
use crate::text::{spec_dec, u32_to_string};

verus! {

/// Below this hunger an agent qualifies for feeding (30.0 points).
pub const FEED_LIMIT: u32 = 300;

/// Hunger restored by one feeding (30.0 points).
pub const FEED_AMOUNT: u32 = 300;

/// Above this ambition an agent acts on its ambition (70.0 points).
pub const AMBITION_LIMIT: u32 = 700;

/// Every this many ticks the history is asked to persist.
pub const SAVE_PERIOD: u32 = 10;

/// The population may not outgrow this bound, so that an index always
/// fits the id type.
pub const POP_LIMIT: u32 = 0xffff_0000;

/// The name an agent of the starting cohort carries, and the name every
/// agent is called by in event details.
pub open spec fn agent_name(id: int) -> Seq<char> {
    "Estajo_"@ + spec_dec(id)
}

/// The detail text of a feeding event.
pub open spec fn ate_details(id: int) -> Seq<char> {
    agent_name(id) + " ate"@
}

/// The detail text of an ambition event.
pub open spec fn ambition_details(a: int, t: int) -> Seq<char> {
    agent_name(a) + " shows ambition towards "@ + agent_name(t)
}

/// The detail text of an interaction event.
pub open spec fn interaction_details(a: int, t: int) -> Seq<char> {
    agent_name(a) + " -> "@ + agent_name(t)
}

/// The detail text of a reproduction event.
pub open spec fn reproduction_details(a: int, b: int) -> Seq<char> {
    "New estajo born from "@ + spec_dec(a) + " and "@ + spec_dec(b)
}

/// True when the coming tick's aging will leave nobody alive; an empty
/// population counts as extinct.
pub open spec fn all_doomed(s: Seq<Estajo>) -> bool {
    forall|i: int| 0 <= i < s.len() ==> s[i].life <= AGING_DAMAGE
}

/// The event kinds a tick may emit into the world-level stream.
pub open spec fn world_event_kind(t: EventType) -> bool {
    ||| t matches EventType::Action(_)
    ||| t == EventType::StateChange(StateChange::Reproduction)
    ||| t == EventType::Need(Need::Food)
    ||| t == EventType::Need(Need::Ambition)
}

/// True when every stochastic sub-process is switched off.
pub open spec fn chances_zero(p: SimulationParams) -> bool {
    p.interaction_chance == 0 && p.reproduction_chance == 0 && p.hunger_tick_chance == 0
        && p.ambition_tick_chance == 0
}

/// How many save points lie in the tick interval (a, b].
pub open spec fn periodic_saves(a: int, b: int) -> int
    decreases b - a,
{
    if b <= a {
        0
    } else {
        periodic_saves(a, b - 1) + if b % (SAVE_PERIOD as int) == 0 {
            1int
        } else {
            0int
        }
    }
}

/// An agent after one feeding.
pub open spec fn fed(pre: Estajo) -> Estajo {
    Estajo {
        needs: crate::needs::Needs {
            hunger: crate::needs::clamped(pre.needs.hunger + FEED_AMOUNT) as u32,
            ambition: pre.needs.ambition,
        },
        ..pre
    }
}

/// The new population after inserting `c`: appended if its id is new,
/// else replacing the one entry that carried the id.
pub open spec fn inserted(old_s: Seq<Estajo>, new_s: Seq<Estajo>, c: Estajo) -> bool {
    ||| new_s == old_s.push(c)
    ||| exists|j: int| 0 <= j < old_s.len() && old_s[j].id == c.id && new_s == old_s.update(j, c)
}

/// One optional birth applied to a population: unchanged, or exactly
/// one newborn child inserted keyed by its id.
pub open spec fn birth_step(pre: Seq<Estajo>, post: Seq<Estajo>) -> bool {
    ||| post == pre
    ||| exists|c: Estajo| (#[trigger] c.newborn()) && inserted(pre, post, c)
}

/// One optional feeding applied to a population: unchanged, or exactly
/// one hungry agent fed the fixed amount.
pub open spec fn fed_step(pre: Seq<Estajo>, post: Seq<Estajo>) -> bool {
    ||| post == pre
    ||| exists|i: int|
        0 <= i < pre.len() && (#[trigger] pre[i]).needs.hunger < FEED_LIMIT && post == pre.update(
            i,
            fed(pre[i]),
        )
}

/// What one tick's gated sub-processes may do to the population: at
/// most one birth, then at most one feeding, and each only when its
/// gate is switched on at all.
pub open spec fn subprocess_outcome(
    p: SimulationParams,
    pre: Seq<Estajo>,
    post: Seq<Estajo>,
) -> bool {
    exists|mid: Seq<Estajo>|
        #![trigger birth_step(pre, mid)]
        {
            &&& birth_step(pre, mid)
            &&& (p.reproduction_chance == 0 ==> mid == pre)
            &&& fed_step(mid, post)
            &&& (p.hunger_tick_chance == 0 ==> post == mid)
        }
}

/// The terminal condition a tick can report instead of events. Faults
/// of the persistence destination are the embedding's to handle, since
/// the embedding performs the writes; extinction is the one condition
/// the engine itself reports.
#[derive(Clone, Copy, Debug, PartialEq, Eq, Structural)]
pub enum TickError {
    PopulationExtinct,
}

/// The world owns the live population, one parameter snapshot, a tick
/// counter and the run's history store.
///
/// When a tick asks the history to persist, the rendered document is
/// left in `pending_save` for the embedding to write out.
#[derive(Debug)]
pub struct World {
    pub estajoj: Vec<Estajo>,
    pub current_tick: u32,
    pub params: SimulationParams,
    pub history: HistoryStorage,
    pub pending_save: Option<String>,
}

impl World {
    /// Every agent is within range, no id occurs twice, and the
    /// parameters are probabilities.
    pub open spec fn wf(self) -> bool {
        &&& forall|i: int, j: int|
            0 <= i < j < self.estajoj@.len() ==> self.estajoj@[i].id != self.estajoj@[j].id
        &&& forall|i: int| 0 <= i < self.estajoj@.len() ==> self.estajoj@[i].wf()
        &&& self.params.wf()
    }

    /// The world-level event stream recorded so far.
    pub open spec fn recorded_events(self) -> Seq<Event> {
        self.history.current_simulation.events@
    }

    /// A new world over the given parameters: a fresh history store and
    /// the starting cohort, with one male and one female guaranteed.
    pub fn new(params: SimulationParams) -> (r: World)
        requires
            params.wf(),
        ensures
            r.wf(),
            r.current_tick == 0,
            r.params == params,
            r.history.current_simulation.parameters == params,
            r.recorded_events().len() == 0,
            r.history.save_count == 0,
            r.pending_save is None,
            r.estajoj@.len() == if params.initial_population >= 2 {
                params.initial_population as int
            } else {
                2
            },
            forall|i: int|
                0 <= i < r.estajoj@.len() ==> (#[trigger] r.estajoj@[i]).id == i
                    && r.estajoj@[i].newborn() && r.estajoj@[i].name@ == agent_name(i),
            r.estajoj@[0].sex == Sex::Male,
            r.estajoj@[1].sex == Sex::Female,
    {
        let history: HistoryStorage = HistoryStorage::new(params);
        let mut w: World = World {
            estajoj: Vec::new(),
            current_tick: 0,
            params,
            history,
            pending_save: None,
        };
        w.initialize_population();
        w
    }

    /// Fills the starting cohort: agents with ids 0, 1, 2, ..., the
    /// first one male and the second female, the rest of random sex.
    #[verifier::loop_isolation(false)]
    fn initialize_population(&mut self)
        requires
            old(self).estajoj@.len() == 0,
            old(self).params.wf(),
        ensures
            final(self).estajoj@.len() == if old(self).params.initial_population >= 2 {
                old(self).params.initial_population as int
            } else {
                2
            },
            forall|i: int|
                0 <= i < final(self).estajoj@.len() ==> (#[trigger] final(self).estajoj@[i]).id
                    == i && final(self).estajoj@[i].newborn() && final(self).estajoj@[i].name@
                    == agent_name(i),
            final(self).estajoj@[0].sex == Sex::Male,
            final(self).estajoj@[1].sex == Sex::Female,
            final(self).current_tick == old(self).current_tick,
            final(self).params == old(self).params,
            final(self).history == old(self).history,
            final(self).pending_save == old(self).pending_save,
    {
        let mut first: Estajo = Estajo::new(0, agent_name_string(0));
        first.sex = Sex::Male;
        self.estajoj.push(first);
        let mut second: Estajo = Estajo::new(1, agent_name_string(1));
        second.sex = Sex::Female;
        self.estajoj.push(second);
        let mut id: u32 = 2;
        while id < self.params.initial_population
            invariant
                2 <= id,
                self.params.initial_population >= 2 ==> id <= self.params.initial_population,
                self.params.initial_population < 2 ==> id == 2,
                self.estajoj@.len() == id as int,
                forall|i: int|
                    0 <= i < id as int ==> (#[trigger] self.estajoj@[i]).id == i
                        && self.estajoj@[i].newborn() && self.estajoj@[i].name@ == agent_name(i),
                self.estajoj@[0].sex == Sex::Male,
                self.estajoj@[1].sex == Sex::Female,
                self.current_tick == old(self).current_tick,
                self.params == old(self).params,
                self.history == old(self).history,
                self.pending_save == old(self).pending_save,
            decreases self.params.initial_population - id,
        {
            self.estajoj.push(Estajo::new(id, agent_name_string(id)));
            id = id + 1;
        }
    }
}

/// The display name of the agent with the given id.
pub fn agent_name_string(id: u32) -> (r: String)
    ensures
        r@ == agent_name(id as int),
{
    let mut s: String = String::from_str("Estajo_");
    let num: String = u32_to_string(id);
    s.append(num.as_str());
    proof {
        assert(s@ =~= agent_name(id as int));
    }
    s
}

impl World {
    /// Chooses two distinct agents and an action uniformly at random and
    /// reports the one acting towards the other; nothing else changes.
    /// Skipped without event when fewer than two agents live.
    pub fn random_interaction(&mut self) -> (r: Option<Event>)
        requires
            old(self).wf(),
            old(self).estajoj@.len() <= POP_LIMIT as int,
        ensures
            *final(self) == *old(self),
            r is Some <==> old(self).estajoj@.len() >= 2,
            r matches Some(e) ==> e.event_type matches EventType::Action(_),
            r matches Some(e) ==> exists|a: int, t: int|
                0 <= a < old(self).estajoj@.len() && 0 <= t < old(self).estajoj@.len() && a != t
                    && e.details@ == interaction_details(
                    (#[trigger] old(self).estajoj@[a]).id as int,
                    (#[trigger] old(self).estajoj@[t]).id as int,
                ),
    {
        let n: usize = self.estajoj.len();
        if n < 2 {
            return None;
        }
        let a: usize = rand_below(n as u32) as usize;
        let j: usize = rand_below((n - 1) as u32) as usize;
        let t: usize = if j >= a {
            j + 1
        } else {
            j
        };
        let m: u32 = rand_below(3);
        let action: Action = if m == 0 {
            Action::Help
        } else if m == 1 {
            Action::Hurt
        } else {
            Action::Plot
        };
        let details: String = interaction_details_string(self.estajoj[a].id, self.estajoj[t].id);
        proof {
            assert(0 <= a < self.estajoj@.len() && 0 <= t < self.estajoj@.len() && a != t);
        }
        Some(Event::new(EventType::Action(action), details))
    }

    /// Chooses one agent of high ambition uniformly at random, and a
    /// target uniformly among all live agents (possibly the same one),
    /// and reports the ambition; no agent state changes. Skipped without
    /// event when nobody's ambition is high.
    pub fn process_ambitions(&mut self) -> (r: Option<Event>)
        requires
            old(self).wf(),
            old(self).estajoj@.len() <= POP_LIMIT as int,
        ensures
            *final(self) == *old(self),
            r is Some <==> exists|i: int|
                0 <= i < old(self).estajoj@.len() && (#[trigger] old(self).estajoj@[i]).needs.ambition > AMBITION_LIMIT,
            r matches Some(e) ==> e.event_type == EventType::Need(Need::Ambition),
            r matches Some(e) ==> exists|i: int, t: int|
                0 <= i < old(self).estajoj@.len() && 0 <= t < old(self).estajoj@.len() && (
                #[trigger] old(self).estajoj@[i]).needs.ambition > AMBITION_LIMIT && e.details@
                    == ambition_details(
                    old(self).estajoj@[i].id as int,
                    (#[trigger] old(self).estajoj@[t]).id as int,
                ),
    {
        let n: usize = self.estajoj.len();
        let mut ambitious: Vec<usize> = Vec::new();
        let mut i: usize = 0;
        while i < n
            invariant
                i <= n,
                n == self.estajoj@.len(),
                ambitious@.len() <= i,
                forall|k: int|
                    0 <= k < ambitious@.len() ==> (#[trigger] ambitious@[k]) < n
                        && self.estajoj@[ambitious@[k] as int].needs.ambition > AMBITION_LIMIT,
                ambitious@.len() == 0 ==> forall|j: int|
                    0 <= j < i ==> (#[trigger] self.estajoj@[j]).needs.ambition <= AMBITION_LIMIT,
            decreases n - i,
        {
            if self.estajoj[i].needs.ambition > AMBITION_LIMIT {
                ambitious.push(i);
            }
            i = i + 1;
        }
        if ambitious.len() == 0 {
            return None;
        }
        let k: usize = rand_below(ambitious.len() as u32) as usize;
        let who: usize = ambitious[k];
        let t: usize = rand_below(n as u32) as usize;
        let details: String = ambition_details_string(self.estajoj[who].id, self.estajoj[t].id);
        Some(Event::new(EventType::Need(Need::Ambition), details))
    }

    /// Feeds one uniformly chosen hungry agent, restoring a fixed amount
    /// of hunger, and reports it. Skipped without event when no agent is
    /// hungry enough to qualify.
    pub fn try_feeding(&mut self) -> (r: Option<Event>)
        requires
            old(self).wf(),
            old(self).estajoj@.len() <= POP_LIMIT as int,
        ensures
            final(self).wf(),
            final(self).current_tick == old(self).current_tick,
            final(self).params == old(self).params,
            final(self).history == old(self).history,
            final(self).pending_save == old(self).pending_save,
            final(self).estajoj@.len() == old(self).estajoj@.len(),
            r is Some <==> exists|i: int|
                0 <= i < old(self).estajoj@.len() && (#[trigger] old(self).estajoj@[i]).needs.hunger < FEED_LIMIT,
            r is None ==> final(self).estajoj == old(self).estajoj,
            all_alive(old(self).estajoj@) ==> all_alive(final(self).estajoj@),
            r matches Some(e) ==> exists|i: int|
                {
                    &&& 0 <= i < old(self).estajoj@.len()
                    &&& (#[trigger] old(self).estajoj@[i]).needs.hunger < FEED_LIMIT
                    &&& final(self).estajoj@ == old(self).estajoj@.update(
                        i,
                        fed(old(self).estajoj@[i]),
                    )
                    &&& e.event_type == EventType::Need(Need::Food)
                    &&& e.details@ == ate_details(old(self).estajoj@[i].id as int)
                },
    {
        let n: usize = self.estajoj.len();
        let mut hungry: Vec<usize> = Vec::new();
        let mut i: usize = 0;
        while i < n
            invariant
                i <= n,
                n == self.estajoj@.len(),
                hungry@.len() <= i,
                forall|k: int|
                    0 <= k < hungry@.len() ==> (#[trigger] hungry@[k]) < n
                        && self.estajoj@[hungry@[k] as int].needs.hunger < FEED_LIMIT,
                hungry@.len() == 0 ==> forall|j: int|
                    0 <= j < i ==> (#[trigger] self.estajoj@[j]).needs.hunger >= FEED_LIMIT,
            decreases n - i,
        {
            if self.estajoj[i].needs.hunger < FEED_LIMIT {
                hungry.push(i);
            }
            i = i + 1;
        }
        if hungry.len() == 0 {
            return None;
        }
        let k: usize = rand_below(hungry.len() as u32) as usize;
        let who: usize = hungry[k];
        let id: u32 = self.estajoj[who].id;
        self.estajoj[who].needs.eat(FEED_AMOUNT);
        proof {
            assert(self.estajoj@ =~= old(self).estajoj@.update(
                who as int,
                fed(old(self).estajoj@[who as int]),
            ));
            if all_alive(old(self).estajoj@) {
                assert forall|p: int| 0 <= p < self.estajoj@.len() implies (
                #[trigger] self.estajoj@[p]).life > 0 by {
                    assert(old(self).estajoj@[p].life > 0);
                }
            }
        }
        let details: String = ate_details_string(id);
        Some(Event::new(EventType::Need(Need::Food), details))
    }
}

impl World {
    /// Inserts an agent into the population keyed by its id: appended
    /// if the id is new, else replacing the entry that carried it.
    #[verifier::loop_isolation(false)]
    fn insert_agent(&mut self, agent: Estajo)
        requires
            old(self).wf(),
            agent.wf(),
        ensures
            final(self).wf(),
            inserted(old(self).estajoj@, final(self).estajoj@, agent),
            old(self).estajoj@.len() <= final(self).estajoj@.len() <= old(self).estajoj@.len()
                + 1,
            final(self).current_tick == old(self).current_tick,
            final(self).params == old(self).params,
            final(self).history == old(self).history,
            final(self).pending_save == old(self).pending_save,
    {
        let n: usize = self.estajoj.len();
        let mut i: usize = 0;
        while i < n
            invariant
                i <= n,
                self.estajoj@ == old(self).estajoj@,
                forall|k: int| 0 <= k < i ==> (#[trigger] self.estajoj@[k]).id != agent.id,
                self.current_tick == old(self).current_tick,
                self.params == old(self).params,
                self.history == old(self).history,
                self.pending_save == old(self).pending_save,
            decreases n - i,
        {
            if self.estajoj[i].id == agent.id {
                self.estajoj.set(i, agent);
                proof {
                    assert(self.estajoj@ == old(self).estajoj@.update(i as int, agent));
                    assert forall|p: int, q: int|
                        0 <= p < q < self.estajoj@.len() implies (#[trigger] self.estajoj@[p]).id
                        != (#[trigger] self.estajoj@[q]).id by {
                        assert(old(self).estajoj@[p].id != old(self).estajoj@[q].id);
                    }
                }
                return ;
            }
            i = i + 1;
        }
        self.estajoj.push(agent);
        proof {
            assert(inserted(old(self).estajoj@, self.estajoj@, agent));
            assert forall|p: int, q: int|
                0 <= p < q < self.estajoj@.len() implies (#[trigger] self.estajoj@[p]).id != (
            #[trigger] self.estajoj@[q]).id by {
                if q < old(self).estajoj@.len() {
                    assert(old(self).estajoj@[p].id != old(self).estajoj@[q].id);
                }
            }
        }
    }

    /// Chooses two distinct agents uniformly at random and attempts
    /// reproduction in that order; on success the child joins the
    /// population keyed by its id and the birth is reported. Skipped
    /// without event when fewer than two agents live, and eventless
    /// when the chosen pair shares a sex.
    pub fn try_reproduction(&mut self) -> (r: Option<Event>)
        requires
            old(self).wf(),
            old(self).estajoj@.len() <= POP_LIMIT as int,
        ensures
            final(self).wf(),
            final(self).current_tick == old(self).current_tick,
            final(self).params == old(self).params,
            final(self).history == old(self).history,
            final(self).pending_save == old(self).pending_save,
            old(self).estajoj@.len() <= final(self).estajoj@.len() <= old(self).estajoj@.len()
                + 1,
            r is None ==> final(self).estajoj == old(self).estajoj,
            all_alive(old(self).estajoj@) ==> all_alive(final(self).estajoj@),
            old(self).estajoj@.len() < 2 ==> r is None,
            (old(self).estajoj@.len() >= 2 && forall|i: int, j: int|
                0 <= i < j < old(self).estajoj@.len() ==> (#[trigger] old(self).estajoj@[i]).sex
                    != (#[trigger] old(self).estajoj@[j]).sex) ==> r is Some,
            r matches Some(e) ==> {
                &&& e.event_type == EventType::StateChange(StateChange::Reproduction)
                &&& exists|a: int, b: int, c: Estajo|
                    #![trigger old(self).estajoj@[a], old(self).estajoj@[b], inserted(old(self).estajoj@, final(self).estajoj@, c)]
                    {
                        &&& 0 <= a < old(self).estajoj@.len()
                        &&& 0 <= b < old(self).estajoj@.len()
                        &&& a != b
                        &&& old(self).estajoj@[a].sex != old(self).estajoj@[b].sex
                        &&& c.newborn()
                        &&& c.name@ == child_name(
                            old(self).estajoj@[a].id as int,
                            old(self).estajoj@[b].id as int,
                        )
                        &&& mixed_genes(
                            old(self).estajoj@[a].genetics,
                            old(self).estajoj@[b].genetics,
                            c.genetics,
                        )
                        &&& inserted(old(self).estajoj@, final(self).estajoj@, c)
                        &&& e.details@ == reproduction_details(
                            old(self).estajoj@[a].id as int,
                            old(self).estajoj@[b].id as int,
                        )
                    }
            },
    {
        let n: usize = self.estajoj.len();
        if n < 2 {
            return None;
        }
        let a: usize = rand_below(n as u32) as usize;
        let j: usize = rand_below((n - 1) as u32) as usize;
        let b: usize = if j >= a {
            j + 1
        } else {
            j
        };
        let ida: u32 = self.estajoj[a].id;
        let idb: u32 = self.estajoj[b].id;
        let child_opt: Option<Estajo> = self.estajoj[a].reproduce_with(&self.estajoj[b]);
        match child_opt {
            Option::None => {
                proof {
                    if a < b {
                        assert(old(self).estajoj@[a as int].sex == old(self).estajoj@[b as int].sex);
                    } else {
                        assert(old(self).estajoj@[b as int].sex == old(self).estajoj@[a as int].sex);
                    }
                }
                None
            },
            Option::Some(child) => {
                let ghost c = child;
                self.insert_agent(child);
                proof {
                    if all_alive(old(self).estajoj@) {
                        assert(c.life > 0);
                        if self.estajoj@ == old(self).estajoj@.push(c) {
                            assert forall|p: int| 0 <= p < self.estajoj@.len() implies (
                            #[trigger] self.estajoj@[p]).life > 0 by {
                                if p < old(self).estajoj@.len() {
                                    assert(old(self).estajoj@[p].life > 0);
                                }
                            }
                        } else {
                            let j = choose|j: int|
                                0 <= j < old(self).estajoj@.len() && old(self).estajoj@[j].id
                                    == c.id && self.estajoj@ == old(self).estajoj@.update(j, c);
                            assert forall|p: int| 0 <= p < self.estajoj@.len() implies (
                            #[trigger] self.estajoj@[p]).life > 0 by {
                                if p != j {
                                    assert(self.estajoj@[p] == old(self).estajoj@[p]);
                                    assert(old(self).estajoj@[p].life > 0);
                                }
                            }
                        }
                    }
                }
                let details: String = reproduction_details_string(ida, idb);
                let e: Event = Event::new(
                    EventType::StateChange(StateChange::Reproduction),
                    details,
                );
                proof {
                    assert({
                        &&& 0 <= (a as int) < old(self).estajoj@.len()
                        &&& 0 <= (b as int) < old(self).estajoj@.len()
                        &&& a != b
                        &&& old(self).estajoj@[a as int].sex != old(self).estajoj@[b as int].sex
                        &&& c.newborn()
                        &&& c.name@ == child_name(
                            old(self).estajoj@[a as int].id as int,
                            old(self).estajoj@[b as int].id as int,
                        )
                        &&& mixed_genes(
                            old(self).estajoj@[a as int].genetics,
                            old(self).estajoj@[b as int].genetics,
                            c.genetics,
                        )
                        &&& inserted(old(self).estajoj@, self.estajoj@, c)
                        &&& e.details@ == reproduction_details(
                            old(self).estajoj@[a as int].id as int,
                            old(self).estajoj@[b as int].id as int,
                        )
                    });
                }
                Some(e)
            },
        }
    }
}

/// True of a population in which nobody is dead.
pub open spec fn all_alive(s: Seq<Estajo>) -> bool {
    forall|i: int| 0 <= i < s.len() ==> (#[trigger] s[i]).life > 0
}

/// Filtering a one-longer prefix keeps the filtered prefix and appends
/// the new element exactly when it passes.
proof fn lemma_filter_step(s: Seq<Estajo>, k: int, pred: spec_fn(Estajo) -> bool)
    requires
        0 <= k < s.len(),
    ensures
        s.subrange(0, k + 1).filter(pred) == if pred(s[k]) {
            s.subrange(0, k).filter(pred).push(s[k])
        } else {
            s.subrange(0, k).filter(pred)
        },
{
    reveal(Seq::filter);
    let t = s.subrange(0, k + 1);
    assert(t.drop_last() =~= s.subrange(0, k));
    assert(t.last() == s[k]);
}

impl World {
    /// Natural aging: every agent takes the fixed aging damage.
    #[verifier::loop_isolation(false)]
    fn age_all(&mut self)
        requires
            old(self).wf(),
        ensures
            final(self).wf(),
            final(self).estajoj@.len() == old(self).estajoj@.len(),
            forall|k: int|
                0 <= k < old(self).estajoj@.len() ==> damaged(
                    old(self).estajoj@[k],
                    AGING_DAMAGE,
                    #[trigger] final(self).estajoj@[k],
                ),
            final(self).current_tick == old(self).current_tick,
            final(self).params == old(self).params,
            final(self).history == old(self).history,
            final(self).pending_save == old(self).pending_save,
    {
        let n: usize = self.estajoj.len();
        let mut i: usize = 0;
        while i < n
            invariant
                i <= n,
                self.estajoj@.len() == n,
                forall|k: int|
                    0 <= k < i ==> damaged(
                        old(self).estajoj@[k],
                        AGING_DAMAGE,
                        #[trigger] self.estajoj@[k],
                    ) && self.estajoj@[k].wf(),
                forall|k: int| i <= k < n ==> #[trigger] self.estajoj@[k] == old(self).estajoj@[k],
                self.current_tick == old(self).current_tick,
                self.params == old(self).params,
                self.history == old(self).history,
                self.pending_save == old(self).pending_save,
            decreases n - i,
        {
            self.estajoj[i].take_damage(AGING_DAMAGE);
            i = i + 1;
        }
        proof {
            assert forall|p: int, q: int|
                0 <= p < q < self.estajoj@.len() implies (#[trigger] self.estajoj@[p]).id != (
            #[trigger] self.estajoj@[q]).id by {
                assert(old(self).estajoj@[p].id != old(self).estajoj@[q].id);
            }
        }
    }

    /// True iff nobody is left alive.
    #[verifier::loop_isolation(false)]
    fn all_gone(&self) -> (r: bool)
        ensures
            r == (forall|i: int|
                0 <= i < self.estajoj@.len() ==> (#[trigger] self.estajoj@[i]).life == 0),
    {
        let n: usize = self.estajoj.len();
        let mut i: usize = 0;
        while i < n
            invariant
                i <= n,
                n == self.estajoj@.len(),
                forall|k: int| 0 <= k < i ==> (#[trigger] self.estajoj@[k]).life == 0,
            decreases n - i,
        {
            if self.estajoj[i].is_alive() {
                proof {
                    assert(self.estajoj@[i as int].life != 0);
                }
                return false;
            }
            i = i + 1;
        }
        true
    }

    /// Culling: removes every dead agent, keeping the survivors' order.
    #[verifier::loop_isolation(false)]
    fn remove_dead(&mut self)
        requires
            old(self).wf(),
        ensures
            final(self).wf(),
            final(self).estajoj@ == old(self).estajoj@.filter(|e: Estajo| e.life > 0),
            all_alive(final(self).estajoj@),
            final(self).current_tick == old(self).current_tick,
            final(self).params == old(self).params,
            final(self).history == old(self).history,
            final(self).pending_save == old(self).pending_save,
    {
        let ghost orig = self.estajoj@;
        let ghost pred = |e: Estajo| e.life > 0;
        let mut i: usize = 0;
        let ghost k: int = 0;
        proof {
            assert(orig.subrange(0, 0).filter(pred) =~= Seq::<Estajo>::empty());
            assert(orig.subrange(0, orig.len() as int) =~= orig);
        }
        while i < self.estajoj.len()
            invariant
                0 <= k <= orig.len(),
                self.estajoj@ =~= orig.subrange(0, k).filter(pred) + orig.subrange(
                    k,
                    orig.len() as int,
                ),
                i == orig.subrange(0, k).filter(pred).len(),
                forall|p: int, q: int|
                    0 <= p < q < self.estajoj@.len() ==> (#[trigger] self.estajoj@[p]).id != (
                    #[trigger] self.estajoj@[q]).id,
                forall|p: int| 0 <= p < self.estajoj@.len() ==> (#[trigger] self.estajoj@[p]).wf(),
                self.current_tick == old(self).current_tick,
                self.params == old(self).params,
                self.history == old(self).history,
                self.pending_save == old(self).pending_save,
            decreases self.estajoj@.len() - i,
        {
            proof {
                assert(k < orig.len());
                assert(self.estajoj@[i as int] == orig.subrange(k, orig.len() as int)[0]);
                assert(self.estajoj@[i as int] == orig[k]);
                lemma_filter_step(orig, k, pred);
                assert(orig.subrange(0, k + 1) =~= orig.subrange(0, k) + seq![orig[k]]);
            }
            if self.estajoj[i].is_alive() {
                proof {
                    assert(pred(orig[k]));
                    assert(self.estajoj@ =~= orig.subrange(0, k + 1).filter(pred)
                        + orig.subrange(k + 1, orig.len() as int));
                    k = k + 1;
                }
                i = i + 1;
            } else {
                let ghost before = self.estajoj@;
                self.estajoj.remove(i);
                proof {
                    assert(!pred(orig[k]));
                    assert(self.estajoj@ =~= orig.subrange(0, k + 1).filter(pred)
                        + orig.subrange(k + 1, orig.len() as int));
                    assert forall|p: int, q: int|
                        0 <= p < q < self.estajoj@.len() implies (#[trigger] self.estajoj@[p]).id
                        != (#[trigger] self.estajoj@[q]).id by {
                        let p0 = if p < i as int {
                            p
                        } else {
                            p + 1
                        };
                        let q0 = if q < i as int {
                            q
                        } else {
                            q + 1
                        };
                        assert(self.estajoj@[p] == before[p0]);
                        assert(self.estajoj@[q] == before[q0]);
                        assert(before[p0].id != before[q0].id);
                    }
                    assert forall|p: int| 0 <= p < self.estajoj@.len() implies (
                    #[trigger] self.estajoj@[p]).wf() by {
                        let p0 = if p < i as int {
                            p
                        } else {
                            p + 1
                        };
                        assert(self.estajoj@[p] == before[p0]);
                    }
                    k = k + 1;
                }
            }
        }
        proof {
            assert(orig.subrange(k, orig.len() as int).len() == 0);
            assert(k == orig.len());
            assert(self.estajoj@ =~= orig.filter(pred));
            assert forall|p: int| 0 <= p < self.estajoj@.len() implies (
            #[trigger] self.estajoj@[p]).life > 0 by {
                orig.lemma_filter_pred(pred, p);
            }
        }
    }

    /// Advances every agent's needs by one tick.
    #[verifier::loop_isolation(false)]
    fn update_all_needs(&mut self)
        requires
            old(self).wf(),
        ensures
            final(self).wf(),
            final(self).estajoj@.len() == old(self).estajoj@.len(),
            forall|k: int|
                0 <= k < old(self).estajoj@.len() ==> needs_advanced(
                    old(self).estajoj@[k],
                    #[trigger] final(self).estajoj@[k],
                ),
            final(self).current_tick == old(self).current_tick,
            final(self).params == old(self).params,
            final(self).history == old(self).history,
            final(self).pending_save == old(self).pending_save,
    {
        let n: usize = self.estajoj.len();
        let mut i: usize = 0;
        while i < n
            invariant
                i <= n,
                self.estajoj@.len() == n,
                forall|k: int|
                    0 <= k < i ==> needs_advanced(
                        old(self).estajoj@[k],
                        #[trigger] self.estajoj@[k],
                    ) && self.estajoj@[k].wf(),
                forall|k: int| i <= k < n ==> #[trigger] self.estajoj@[k] == old(self).estajoj@[k],
                self.current_tick == old(self).current_tick,
                self.params == old(self).params,
                self.history == old(self).history,
                self.pending_save == old(self).pending_save,
            decreases n - i,
        {
            self.estajoj[i].update_needs();
            i = i + 1;
        }
        proof {
            assert forall|p: int, q: int|
                0 <= p < q < self.estajoj@.len() implies (#[trigger] self.estajoj@[p]).id != (
            #[trigger] self.estajoj@[q]).id by {
                assert(old(self).estajoj@[p].id != old(self).estajoj@[q].id);
            }
        }
    }
}

impl World {
    /// The four independently gated stochastic sub-processes of one
    /// tick, in their fixed order: interaction, reproduction, feeding,
    /// ambition. Each is run only when its own chance draw hits, and
    /// contributes at most one event; a certain gate owes its event
    /// whenever the sub-process itself cannot decline.
    #[verifier::rlimit(100)]
    #[verifier::spinoff_prover]
    fn run_subprocesses(&mut self) -> (evts: Vec<Event>)
        requires
            old(self).wf(),
            old(self).estajoj@.len() < POP_LIMIT as int,
            all_alive(old(self).estajoj@),
        ensures
            final(self).wf(),
            all_alive(final(self).estajoj@),
            final(self).estajoj@.len() <= old(self).estajoj@.len() + 1,
            subprocess_outcome(old(self).params, old(self).estajoj@, final(self).estajoj@),
            evts@.len() <= 4,
            forall|k: int|
                0 <= k < evts@.len() ==> world_event_kind((#[trigger] evts@[k]).event_type),
            chances_zero(old(self).params) ==> evts@.len() == 0,
            (old(self).params.interaction_chance == CHANCE_SCALE && old(self).estajoj@.len()
                >= 2) ==> exists|k: int|
                0 <= k < evts@.len() && (#[trigger] evts@[k]).event_type matches EventType::Action(
                    _,
                ),
            (old(self).params.reproduction_chance == CHANCE_SCALE && old(self).estajoj@.len() >= 2
                && (forall|i: int, j: int|
                0 <= i < j < old(self).estajoj@.len() ==> (#[trigger] old(self).estajoj@[i]).sex
                    != (#[trigger] old(self).estajoj@[j]).sex)) ==> exists|k: int|
                0 <= k < evts@.len() && (#[trigger] evts@[k]).event_type
                    == EventType::StateChange(StateChange::Reproduction),
            final(self).current_tick == old(self).current_tick,
            final(self).params == old(self).params,
            final(self).history == old(self).history,
            final(self).pending_save == old(self).pending_save,
    {
        let ghost pre = self.estajoj@;
        let mut events: Vec<Event> = Vec::new();
        let ghost ia: int = -1;
        let ghost rb: int = -1;
        if chance_hits(self.params.interaction_chance) {
            match self.random_interaction() {
                Some(e) => {
                    proof {
                        ia = events@.len() as int;
                    }
                    events.push(e);
                },
                None => {},
            }
        }
        if chance_hits(self.params.reproduction_chance) {
            match self.try_reproduction() {
                Some(e) => {
                    proof {
                        rb = events@.len() as int;
                    }
                    events.push(e);
                },
                None => {},
            }
        }
        proof {
            assert(birth_step(pre, self.estajoj@));
        }
        let ghost mid = self.estajoj@;
        if chance_hits(self.params.hunger_tick_chance) {
            match self.try_feeding() {
                Some(e) => events.push(e),
                None => {},
            }
        }
        proof {
            assert(fed_step(mid, self.estajoj@));
        }
        if chance_hits(self.params.ambition_tick_chance) {
            match self.process_ambitions() {
                Some(e) => events.push(e),
                None => {},
            }
        }
        proof {
            assert(birth_step(pre, mid) && (self.params.reproduction_chance == 0 ==> mid == pre)
                && fed_step(mid, self.estajoj@) && (self.params.hunger_tick_chance == 0
                ==> self.estajoj@ == mid));
            assert(subprocess_outcome(self.params, pre, self.estajoj@));
            if self.params.interaction_chance == CHANCE_SCALE && pre.len() >= 2 {
                assert(0 <= ia < events@.len());
                assert(events@[ia].event_type matches EventType::Action(_));
            }
            if self.params.reproduction_chance == CHANCE_SCALE && pre.len() >= 2 && (forall|
                i: int,
                j: int,
            |
                0 <= i < j < pre.len() ==> (#[trigger] pre[i]).sex != (#[trigger] pre[j]).sex) {
                assert(0 <= rb < events@.len());
                assert(events@[rb].event_type == EventType::StateChange(StateChange::Reproduction));
            }
        }
        events
    }

    /// One tick of simulated time, in strict order: aging, the
    /// extinction check, culling, needs updates, the four independently
    /// gated stochastic sub-processes, event propagation to the history
    /// store, and the periodic persistence request.
    ///
    /// The returned events are exactly the world-level events of this
    /// tick, in emission order; the per-agent events of aging and needs
    /// updates stay in each agent's own history. When aging leaves
    /// nobody alive the tick asks for one final save and reports the
    /// population extinct instead.
    #[verifier::loop_isolation(false)]
    #[verifier::rlimit(100)]
    #[verifier::spinoff_prover]
    pub fn tick(&mut self) -> (r: Result<Vec<Event>, TickError>)
        requires
            old(self).wf(),
            old(self).current_tick < u32::MAX,
            old(self).history.save_count < u32::MAX,
            old(self).estajoj@.len() < POP_LIMIT as int,
        ensures
            final(self).wf(),
            final(self).current_tick == old(self).current_tick + 1,
            final(self).params == old(self).params,
            final(self).history.current_simulation.parameters == old(self).history.current_simulation.parameters,
            final(self).history.current_simulation.simulation_id == old(self).history.current_simulation.simulation_id,
            final(self).history.current_simulation.start_time == old(self).history.current_simulation.start_time,
            final(self).history.file_name == old(self).history.file_name,
            final(self).estajoj@.len() <= old(self).estajoj@.len() + 1,
            r is Err <==> all_doomed(old(self).estajoj@),
            r is Err ==> {
                &&& final(self).recorded_events() == old(self).recorded_events()
                &&& final(self).history.save_count == old(self).history.save_count + 1
                &&& (final(self).pending_save matches Some(s) && s@ == record_json(
                    final(self).history.current_simulation,
                ))
                &&& final(self).estajoj@.len() == old(self).estajoj@.len()
                &&& forall|i: int|
                    0 <= i < final(self).estajoj@.len() ==> (#[trigger] final(self).estajoj@[i]).life == 0
            },
            r matches Ok(evts) ==> {
                &&& all_alive(final(self).estajoj@)
                &&& final(self).recorded_events() == old(self).recorded_events() + evts@
                &&& evts@.len() <= 4
                &&& forall|k: int|
                    0 <= k < evts@.len() ==> world_event_kind((#[trigger] evts@[k]).event_type)
                &&& (chances_zero(old(self).params) ==> evts@.len() == 0)
                &&& exists|aged_pop: Seq<Estajo>, advanced: Seq<Estajo>|
                    #![trigger aged_pop.len(), advanced.len()]
                    {
                        &&& aged_pop.len() == old(self).estajoj@.len()
                        &&& (forall|k: int|
                            0 <= k < aged_pop.len() ==> damaged(
                                old(self).estajoj@[k],
                                AGING_DAMAGE,
                                #[trigger] aged_pop[k],
                            ))
                        &&& advanced.len() == aged_pop.filter(|e: Estajo| e.life > 0).len()
                        &&& (forall|p: int|
                            0 <= p < advanced.len() ==> needs_advanced(
                                aged_pop.filter(|e: Estajo| e.life > 0)[p],
                                #[trigger] advanced[p],
                            ))
                        &&& subprocess_outcome(old(self).params, advanced, final(self).estajoj@)
                        &&& ((old(self).params.interaction_chance == CHANCE_SCALE
                            && advanced.len() >= 2) ==> exists|k: int|
                            0 <= k < evts@.len() && (#[trigger] evts@[k]).event_type matches EventType::Action(
                                _,
                            ))
                        &&& ((old(self).params.reproduction_chance == CHANCE_SCALE
                            && advanced.len() >= 2 && (forall|i: int, j: int|
                            0 <= i < j < advanced.len() ==> (#[trigger] advanced[i]).sex != (
                            #[trigger] advanced[j]).sex)) ==> exists|k: int|
                            0 <= k < evts@.len() && (#[trigger] evts@[k]).event_type
                                == EventType::StateChange(StateChange::Reproduction))
                    }
                &&& final(self).history.save_count == old(self).history.save_count + (if (old(self).current_tick + 1) % (SAVE_PERIOD as int) == 0 {
                    1int
                } else {
                    0int
                })
                &&& ((old(self).current_tick + 1) % (SAVE_PERIOD as int) == 0 ==> (final(self).pending_save matches Some(s) && s@ == record_json(
                    final(self).history.current_simulation,
                )))
                &&& ((old(self).current_tick + 1) % (SAVE_PERIOD as int) != 0 ==> final(self).pending_save == old(self).pending_save)
            },
    {
        self.current_tick = self.current_tick + 1;
        self.age_all();
        let ghost aged = self.estajoj@;
        if self.all_gone() {
            proof {
                assert forall|k: int| 0 <= k < old(self).estajoj@.len() implies (#[trigger] old(self).estajoj@[k]).life <= AGING_DAMAGE by {
                    assert(damaged(old(self).estajoj@[k], AGING_DAMAGE, aged[k]));
                    assert(aged[k].life == 0);
                }
            }
            let snapshot: String = self.history.save();
            self.pending_save = Some(snapshot);
            return Err(TickError::PopulationExtinct);
        }
        proof {
            let w = choose|k: int|
                !(0 <= k < aged.len() ==> (#[trigger] aged[k]).life == 0);
            assert(damaged(old(self).estajoj@[w], AGING_DAMAGE, aged[w]));
            assert(old(self).estajoj@[w].life > AGING_DAMAGE);
            assert(!all_doomed(old(self).estajoj@));
        }
        self.remove_dead();
        let ghost culled = self.estajoj@;
        self.update_all_needs();
        proof {
            assert forall|p: int| 0 <= p < self.estajoj@.len() implies (
            #[trigger] self.estajoj@[p]).life > 0 by {
                assert(needs_advanced(culled[p], self.estajoj@[p]));
                assert(culled[p].life > 0);
            }
        }
        let ghost advanced = self.estajoj@;
        let events: Vec<Event> = self.run_subprocesses();
        let ghost rec0 = self.recorded_events();
        let ghost world0 = *self;
        let mut i: usize = 0;
        while i < events.len()
            invariant
                i <= events@.len(),
                self.recorded_events() == rec0 + events@.subrange(0, i as int),
                self.estajoj@ == world0.estajoj@,
                self.current_tick == world0.current_tick,
                self.params == world0.params,
                self.pending_save == world0.pending_save,
                self.history.current_simulation.parameters
                    == world0.history.current_simulation.parameters,
                self.history.current_simulation.simulation_id
                    == world0.history.current_simulation.simulation_id,
                self.history.current_simulation.start_time
                    == world0.history.current_simulation.start_time,
                self.history.file_name == world0.history.file_name,
                self.history.save_count == world0.history.save_count,
            decreases events@.len() - i,
        {
            self.history.record_event(events[i].duplicate());
            proof {
                assert(events@.subrange(0, i as int).push(events@[i as int]) =~= events@.subrange(
                    0,
                    i as int + 1,
                ));
            }
            i = i + 1;
        }
        proof {
            assert(events@.subrange(0, events@.len() as int) =~= events@);
        }
        if self.current_tick % SAVE_PERIOD == 0 {
            let snapshot: String = self.history.save();
            self.pending_save = Some(snapshot);
        }
        proof {
            assert(aged.len() == old(self).estajoj@.len());
            assert(advanced.len() == aged.filter(|e: Estajo| e.life > 0).len());
            assert(forall|p: int|
                0 <= p < advanced.len() ==> needs_advanced(
                    aged.filter(|e: Estajo| e.life > 0)[p],
                    #[trigger] advanced[p],
                ));
            assert(subprocess_outcome(old(self).params, advanced, self.estajoj@));
        }
        Ok(events)
    }
}

/// A population with nobody dead is left whole by the culling filter:
/// the bridge from a fully alive cohort to the survivor sequence that
/// the tick contract speaks of.
pub proof fn lemma_living_whole(s: Seq<Estajo>)
    requires
        all_alive(s),
    ensures
        s.filter(|e: Estajo| e.life > 0) == s,
    decreases s.len(),
{
    reveal(Seq::filter);
    if s.len() > 0 {
        assert(all_alive(s.drop_last()));
        lemma_living_whole(s.drop_last());
        assert(s.filter(|e: Estajo| e.life > 0) =~= s);
    }
}

/// No interval holds more save points than ticks.
pub proof fn lemma_periodic_saves_bound(a: int, b: int)
    requires
        a <= b,
    ensures
        0 <= periodic_saves(a, b) <= b - a,
    decreases b - a,
{
    if a < b {
        lemma_periodic_saves_bound(a, b - 1);
    }
}

/// A run of `n` ticks from a fresh world passes exactly ⌊n / 10⌋ save
/// points, so with the final save it issues ⌊n / 10⌋ + 1 saves in all.
pub proof fn lemma_periodic_save_count(n: int)
    requires
        n >= 0,
    ensures
        periodic_saves(0, n) == n / (SAVE_PERIOD as int),
    decreases n,
{
    let d = SAVE_PERIOD as int;
    if n == 0 {
    } else {
        lemma_periodic_save_count(n - 1);
        vstd::arithmetic::div_mod::lemma_fundamental_div_mod(n, d);
        let q = n / d;
        let r = n % d;
        if r == 0 {
            vstd::arithmetic::div_mod::lemma_fundamental_div_mod_converse(n - 1, d, q - 1, d - 1);
        } else {
            vstd::arithmetic::div_mod::lemma_fundamental_div_mod_converse(n - 1, d, q, r - 1);
        }
    }
}

impl World {
    /// Drives `tick` until the tick counter reaches the configured
    /// duration, concatenating every returned event sequence, then asks
    /// for one unconditional final save. Extinction is passed on as
    /// soon as a tick reports it.
    #[verifier::loop_isolation(false)]
    pub fn run_simulation(&mut self) -> (r: Result<Vec<Event>, TickError>)
        requires
            old(self).wf(),
            old(self).params.simulation_duration < u32::MAX,
            old(self).history.save_count + old(self).params.simulation_duration + 1
                <= u32::MAX,
            old(self).estajoj@.len() + old(self).params.simulation_duration <= POP_LIMIT as int,
        ensures
            final(self).wf(),
            final(self).params == old(self).params,
            old(self).current_tick <= final(self).current_tick,
            r matches Ok(evts) ==> {
                &&& final(self).current_tick == if old(self).current_tick >= old(self).params.simulation_duration {
                    old(self).current_tick as int
                } else {
                    old(self).params.simulation_duration as int
                }
                &&& final(self).recorded_events() == old(self).recorded_events() + evts@
                &&& final(self).history.save_count == old(self).history.save_count
                    + periodic_saves(
                    old(self).current_tick as int,
                    final(self).current_tick as int,
                ) + 1
                &&& (old(self).current_tick == 0 ==> final(self).history.save_count == old(
                    self,
                ).history.save_count + old(self).params.simulation_duration as int / (
                SAVE_PERIOD as int) + 1)
                &&& (final(self).pending_save matches Some(s) && s@ == record_json(
                    final(self).history.current_simulation,
                ))
            },
            r is Err ==> {
                &&& forall|i: int|
                    0 <= i < final(self).estajoj@.len() ==> (#[trigger] final(self).estajoj@[i]).life == 0
                &&& (final(self).pending_save matches Some(s) && s@ == record_json(
                    final(self).history.current_simulation,
                ))
            },
    {
        let ghost target: int = if old(self).current_tick >= old(self).params.simulation_duration {
            old(self).current_tick as int
        } else {
            old(self).params.simulation_duration as int
        };
        let mut all_events: Vec<Event> = Vec::new();
        while self.current_tick < self.params.simulation_duration
            invariant
                self.wf(),
                self.params == old(self).params,
                old(self).current_tick <= self.current_tick,
                self.current_tick <= target,
                self.recorded_events() == old(self).recorded_events() + all_events@,
                self.history.save_count == old(self).history.save_count + periodic_saves(
                    old(self).current_tick as int,
                    self.current_tick as int,
                ),
                self.estajoj@.len() + (target - self.current_tick) <= POP_LIMIT as int,
            decreases self.params.simulation_duration - self.current_tick,
        {
            proof {
                lemma_periodic_saves_bound(
                    old(self).current_tick as int,
                    self.current_tick as int,
                );
            }
            let ghost tick_before: int = self.current_tick as int;
            match self.tick() {
                Ok(evts) => {
                    let mut fresh_events: Vec<Event> = evts;
                    all_events.append(&mut fresh_events);
                    proof {
                        assert(periodic_saves(old(self).current_tick as int, tick_before + 1)
                            == periodic_saves(old(self).current_tick as int, tick_before) + if (
                        tick_before + 1) % (SAVE_PERIOD as int) == 0 {
                            1int
                        } else {
                            0int
                        });
                    }
                },
                Err(halt) => {
                    return Err(halt);
                },
            }
        }
        proof {
            lemma_periodic_saves_bound(old(self).current_tick as int, self.current_tick as int);
            if old(self).current_tick == 0 {
                lemma_periodic_save_count(self.current_tick as int);
            }
        }
        let snapshot: String = self.history.save();
        self.pending_save = Some(snapshot);
        Ok(all_events)
    }

    /// Up to `count` most recent world-level events, most recent first.
    pub fn get_recent_events(&self, count: usize) -> (r: Vec<Event>)
        ensures
            r@.len() == if count <= self.recorded_events().len() {
                count as int
            } else {
                self.recorded_events().len() as int
            },
            forall|i: int|
                0 <= i < r@.len() ==> r@[i] == self.recorded_events()[
                    self.recorded_events().len() - 1 - i
                ],
    {
        self.history.get_recent_events(count)
    }
}

/// How many agents of a population are male.
pub open spec fn males_in(s: Seq<Estajo>) -> int
    decreases s.len(),
{
    if s.len() == 0 {
        0
    } else {
        males_in(s.drop_last()) + if s.last().sex == Sex::Male {
            1int
        } else {
            0int
        }
    }
}

/// How many agents of a population are hungry by the feeding threshold.
pub open spec fn hungry_in(s: Seq<Estajo>) -> int
    decreases s.len(),
{
    if s.len() == 0 {
        0
    } else {
        hungry_in(s.drop_last()) + if s.last().needs.hunger < FEED_LIMIT {
            1int
        } else {
            0int
        }
    }
}

/// How many agents of a population are ambitious by the acting threshold.
pub open spec fn ambitious_in(s: Seq<Estajo>) -> int
    decreases s.len(),
{
    if s.len() == 0 {
        0
    } else {
        ambitious_in(s.drop_last()) + if s.last().needs.ambition > AMBITION_LIMIT {
            1int
        } else {
            0int
        }
    }
}

impl World {
    /// Population counts for display: total, males, and females.
    #[verifier::loop_isolation(false)]
    pub fn population_counts(&self) -> (r: (usize, usize, usize))
        ensures
            r.0 == self.estajoj@.len(),
            r.1 == males_in(self.estajoj@),
            r.2 == r.0 - r.1,
    {
        let n: usize = self.estajoj.len();
        let mut c: usize = 0;
        let mut i: usize = 0;
        while i < n
            invariant
                i <= n,
                n == self.estajoj@.len(),
                c <= i,
                c == males_in(self.estajoj@.subrange(0, i as int)),
            decreases n - i,
        {
            proof {
                let t = self.estajoj@.subrange(0, i as int + 1);
                assert(t.drop_last() =~= self.estajoj@.subrange(0, i as int));
                assert(t.last() == self.estajoj@[i as int]);
            }
            if self.estajoj[i].sex == Sex::Male {
                c = c + 1;
            }
            i = i + 1;
        }
        proof {
            assert(self.estajoj@.subrange(0, n as int) =~= self.estajoj@);
        }
        (n, c, n - c)
    }

    /// Needs pressure for display: how many agents are hungry and how
    /// many ambitious, by the feeding and acting thresholds.
    #[verifier::loop_isolation(false)]
    pub fn needs_pressure(&self) -> (r: (usize, usize))
        ensures
            r.0 == hungry_in(self.estajoj@),
            r.1 == ambitious_in(self.estajoj@),
    {
        let n: usize = self.estajoj.len();
        let mut hungry: usize = 0;
        let mut ambitious: usize = 0;
        let mut i: usize = 0;
        while i < n
            invariant
                i <= n,
                n == self.estajoj@.len(),
                hungry <= i,
                ambitious <= i,
                hungry == hungry_in(self.estajoj@.subrange(0, i as int)),
                ambitious == ambitious_in(self.estajoj@.subrange(0, i as int)),
            decreases n - i,
        {
            proof {
                let t = self.estajoj@.subrange(0, i as int + 1);
                assert(t.drop_last() =~= self.estajoj@.subrange(0, i as int));
                assert(t.last() == self.estajoj@[i as int]);
            }
            if self.estajoj[i].needs.hunger < FEED_LIMIT {
                hungry = hungry + 1;
            }
            if self.estajoj[i].needs.ambition > AMBITION_LIMIT {
                ambitious = ambitious + 1;
            }
            i = i + 1;
        }
        proof {
            assert(self.estajoj@.subrange(0, n as int) =~= self.estajoj@);
        }
        (hungry, ambitious)
    }

    /// The ids of the live agents, in population order.
    #[verifier::loop_isolation(false)]
    pub fn agent_ids(&self) -> (r: Vec<u32>)
        ensures
            r@.len() == self.estajoj@.len(),
            forall|i: int| 0 <= i < r@.len() ==> r@[i] == (#[trigger] self.estajoj@[i]).id,
    {
        let n: usize = self.estajoj.len();
        let mut ids: Vec<u32> = Vec::new();
        let mut i: usize = 0;
        while i < n
            invariant
                i <= n,
                n == self.estajoj@.len(),
                ids@.len() == i,
                forall|k: int| 0 <= k < i ==> ids@[k] == (#[trigger] self.estajoj@[k]).id,
            decreases n - i,
        {
            ids.push(self.estajoj[i].id);
            i = i + 1;
        }
        ids
    }

    /// The live agent carrying the given id, if there is one.
    #[verifier::loop_isolation(false)]
    pub fn find_agent(&self, id: u32) -> (r: Option<&Estajo>)
        ensures
            r is Some <==> exists|i: int|
                0 <= i < self.estajoj@.len() && (#[trigger] self.estajoj@[i]).id == id,
            r matches Some(a) ==> a.id == id && exists|i: int|
                0 <= i < self.estajoj@.len() && #[trigger] self.estajoj@[i] == *a,
    {
        let n: usize = self.estajoj.len();
        let mut i: usize = 0;
        while i < n
            invariant
                i <= n,
                n == self.estajoj@.len(),
                forall|k: int| 0 <= k < i ==> (#[trigger] self.estajoj@[k]).id != id,
            decreases n - i,
        {
            if self.estajoj[i].id == id {
                return Some(&self.estajoj[i]);
            }
            i = i + 1;
        }
        None
    }
}

/// The detail text of a feeding event.
fn ate_details_string(id: u32) -> (r: String)
    ensures
        r@ == ate_details(id as int),
{
    proof {
        reveal_strlit(" ate");
    }
    let mut s: String = agent_name_string(id);
    s.append(" ate");
    proof {
        assert(s@ =~= ate_details(id as int));
    }
    s
}

/// The detail text of an ambition event.
fn ambition_details_string(a: u32, t: u32) -> (r: String)
    ensures
        r@ == ambition_details(a as int, t as int),
{
    proof {
        reveal_strlit(" shows ambition towards ");
    }
    let mut s: String = agent_name_string(a);
    s.append(" shows ambition towards ");
    let target: String = agent_name_string(t);
    s.append(target.as_str());
    proof {
        assert(s@ =~= ambition_details(a as int, t as int));
    }
    s
}

/// The detail text of an interaction event.
fn interaction_details_string(a: u32, t: u32) -> (r: String)
    ensures
        r@ == interaction_details(a as int, t as int),
{
    proof {
        reveal_strlit(" -> ");
    }
    let mut s: String = agent_name_string(a);
    s.append(" -> ");
    let target: String = agent_name_string(t);
    s.append(target.as_str());
    proof {
        assert(s@ =~= interaction_details(a as int, t as int));
    }
    s
}

/// The detail text of a reproduction event.
fn reproduction_details_string(a: u32, b: u32) -> (r: String)
    ensures
        r@ == reproduction_details(a as int, b as int),
{
    proof {
        reveal_strlit("New estajo born from ");
        reveal_strlit(" and ");
    }
    let mut s: String = String::from_str("New estajo born from ");
    let first: String = u32_to_string(a);
    s.append(first.as_str());
    s.append(" and ");
    let second: String = u32_to_string(b);
    s.append(second.as_str());
    proof {
        assert(s@ =~= reproduction_details(a as int, b as int));
    }
    s
}

/// One gate draw: true with the given probability (in thousandths).
fn chance_hits(chance: u32) -> (r: bool)
    requires
        chance <= CHANCE_SCALE,
    ensures
        chance == 0 ==> !r,
        chance == CHANCE_SCALE ==> r,
{
    rand_below(CHANCE_SCALE) < chance
}

} // verus!
