//! An individual agent: identity, vitality, needs, genetics and its own
//! append-only event history.

use vstd::prelude::*;
use crate::event::{Event, EventType, Need, StateChange};
use crate::needs::{
    Needs, AMBITION_START_MIN, AMBITION_START_SPAN, DRIFT_SPAN, VITAL_MAX, decayed, drifted,
};
use crate::rng::rand_below;
use crate::text::{spec_dec, u32_to_string};

verus! {

/// Damage every living agent takes on each tick (0.1 points).
pub const AGING_DAMAGE: u32 = 1;

/// Below this hunger an agent reports being hungry (20.0 points).
pub const HUNGRY_EVENT_LIMIT: u32 = 200;

/// Above this ambition an agent reports being ambitious (80.0 points).
pub const AMBITIOUS_EVENT_LIMIT: u32 = 800;

/// Lower bound of a freshly drawn genetic factor (a multiplier of 0.8).
pub const GENE_MIN: u32 = 800;

/// Width of the range a fresh genetic factor is drawn from: [0.8, 1.2).
pub const GENE_SPAN: u32 = 400;

/// Genetic factors are multipliers in thousandths: 1000 stands for 1.0.
pub const GENE_SCALE: u32 = 1000;

/// Lower bound of the perturbation applied when crossing (0.9).
pub const MIX_MIN: u32 = 900;

/// Width of the crossing perturbation range: [0.9, 1.1).
pub const MIX_SPAN: u32 = 200;

/// The binary sex attribute of an agent.
#[derive(Clone, Copy, Debug, PartialEq, Eq, Structural)]
pub enum Sex {
    Male,
    Female,
}

/// Inherited trait multipliers, in thousandths; immutable after creation.
#[derive(Clone, Copy, Debug, PartialEq, Eq, Structural)]
pub struct Genetics {
    pub energy_factor: u32,
    pub satisfaction_factor: u32,
    pub influence_factor: u32,
}

/// One factor of a crossing: the parents' average scaled by the
/// perturbation `m`, saturating at the factor type's maximum.
pub open spec fn mixed_factor(a: int, b: int, m: int) -> int {
    let v = ((a + b) / 2) * m / (GENE_SCALE as int);
    if v > u32::MAX {
        u32::MAX as int
    } else {
        v
    }
}

/// The child's genetics come from the parents' by pairwise averaging,
/// each factor independently perturbed by a multiplier in [0.9, 1.1).
pub open spec fn mixed_genes(a: Genetics, b: Genetics, c: Genetics) -> bool {
    &&& exists|m: int|
        MIX_MIN <= m < MIX_MIN + MIX_SPAN && c.energy_factor == mixed_factor(
            a.energy_factor as int,
            b.energy_factor as int,
            m,
        )
    &&& exists|m: int|
        MIX_MIN <= m < MIX_MIN + MIX_SPAN && c.satisfaction_factor == mixed_factor(
            a.satisfaction_factor as int,
            b.satisfaction_factor as int,
            m,
        )
    &&& exists|m: int|
        MIX_MIN <= m < MIX_MIN + MIX_SPAN && c.influence_factor == mixed_factor(
            a.influence_factor as int,
            b.influence_factor as int,
            m,
        )
}

/// One freshly drawn factor, in [0.8, 1.2).
fn fresh_factor() -> (r: u32)
    ensures
        GENE_MIN <= r < GENE_MIN + GENE_SPAN,
{
    GENE_MIN + rand_below(GENE_SPAN)
}

/// One crossed factor: the average of `a` and `b`, perturbed.
fn mix_one(a: u32, b: u32) -> (r: u32)
    ensures
        exists|m: int|
            MIX_MIN <= m < MIX_MIN + MIX_SPAN && r == mixed_factor(a as int, b as int, m),
{
    let m: u32 = MIX_MIN + rand_below(MIX_SPAN);
    let avg: u64 = ((a as u64) + (b as u64)) / 2;
    proof {
        assert(avg * (m as u64) <= 0xffff_ffffu64 * 1100) by (nonlinear_arith)
            requires
                avg <= 0xffff_ffffu64,
                m <= 1100,
        ;
    }
    let v: u64 = (avg * (m as u64)) / (GENE_SCALE as u64);
    let r: u32 = if v > (u32::MAX as u64) {
        u32::MAX
    } else {
        v as u32
    };
    proof {
        assert(r == mixed_factor(a as int, b as int, m as int));
    }
    r
}

impl Genetics {
    /// Every factor lies in the range fresh factors are drawn from.
    pub open spec fn fresh_range(self) -> bool {
        GENE_MIN <= self.energy_factor < GENE_MIN + GENE_SPAN && GENE_MIN
            <= self.satisfaction_factor < GENE_MIN + GENE_SPAN && GENE_MIN <= self.influence_factor
            < GENE_MIN + GENE_SPAN
    }

    /// Fresh genetics: each factor drawn independently in [0.8, 1.2).
    pub fn new() -> (r: Genetics)
        ensures
            r.fresh_range(),
    {
        Genetics {
            energy_factor: fresh_factor(),
            satisfaction_factor: fresh_factor(),
            influence_factor: fresh_factor(),
        }
    }

    /// Crossing: a new Genetics whose factors are the pairwise averages,
    /// each perturbed by a small independent random multiplier.
    pub fn mix_with(&self, other: &Genetics) -> (r: Genetics)
        ensures
            mixed_genes(*self, *other, r),
    {
        Genetics {
            energy_factor: mix_one(self.energy_factor, other.energy_factor),
            satisfaction_factor: mix_one(self.satisfaction_factor, other.satisfaction_factor),
            influence_factor: mix_one(self.influence_factor, other.influence_factor),
        }
    }
}

/// The name a child takes, derived from both parent ids.
pub open spec fn child_name(a: int, b: int) -> Seq<char> {
    "Child_"@ + spec_dec(a) + "_"@ + spec_dec(b)
}

/// An agent: identity, vitality, needs, genetics and its own history.
///
/// An agent whose life has reached 0 is dead; the owning world removes
/// it from the population at the end of the tick in which it died.
#[derive(Debug)]
pub struct Estajo {
    pub id: u32,
    pub name: String,
    pub sex: Sex,
    pub life: u32,
    pub needs: Needs,
    pub genetics: Genetics,
    pub history: Vec<Event>,
}

/// What taking `amount` damage does to an agent: life drops, floored at
/// zero, and the first crossing to zero appends exactly one Death event.
pub open spec fn damaged(pre: Estajo, amount: u32, post: Estajo) -> bool {
    &&& post.life == if amount >= pre.life {
        0int
    } else {
        pre.life - amount
    }
    &&& post.id == pre.id
    &&& post.name == pre.name
    &&& post.sex == pre.sex
    &&& post.needs == pre.needs
    &&& post.genetics == pre.genetics
    &&& if pre.life > 0 && amount >= pre.life {
        &&& post.history@.len() == pre.history@.len() + 1
        &&& post.history@.subrange(0, pre.history@.len() as int) == pre.history@
        &&& post.history@.last().event_type == EventType::StateChange(StateChange::Death)
        &&& post.history@.last().details@ == "Has died"@
    } else {
        post.history@ == pre.history@
    }
}

/// What one needs update does to an agent: the needs advance one tick
/// and the agent notes hunger or ambition in its own history.
pub open spec fn needs_advanced(pre: Estajo, post: Estajo) -> bool {
    &&& post.id == pre.id
    &&& post.name == pre.name
    &&& post.sex == pre.sex
    &&& post.life == pre.life
    &&& post.genetics == pre.genetics
    &&& post.needs.hunger == decayed(pre.needs.hunger as int)
    &&& exists|d: int| 0 <= d < DRIFT_SPAN && post.needs.ambition == drifted(
        pre.needs.ambition as int,
        d,
    )
    &&& post.needs.wf()
    &&& {
        let hungry = post.needs.hunger < HUNGRY_EVENT_LIMIT;
        let ambitious = post.needs.ambition > AMBITIOUS_EVENT_LIMIT;
        &&& post.history@.len() == pre.history@.len() + (if hungry {
            1int
        } else {
            0int
        }) + (if ambitious {
            1int
        } else {
            0int
        })
        &&& post.history@.subrange(0, pre.history@.len() as int) == pre.history@
        &&& (hungry ==> post.history@[pre.history@.len() as int].event_type == EventType::Need(
            Need::Food,
        ) && post.history@[pre.history@.len() as int].details@ == "Hungry"@)
        &&& (ambitious ==> post.history@.last().event_type == EventType::Need(Need::Ambition)
            && post.history@.last().details@ == "Ambitious"@)
    }
}

/// Across any two damage steps, only the crossing to zero appends a
/// Death event: the step that kills appends exactly one, and damage to
/// an agent already dead appends nothing more.
pub proof fn lemma_death_noted_once(pre: Estajo, first: u32, mid: Estajo, second: u32, post: Estajo)
    requires
        pre.life > 0,
        first >= pre.life,
        damaged(pre, first, mid),
        damaged(mid, second, post),
    ensures
        mid.history@.len() == pre.history@.len() + 1,
        mid.history@.last().event_type == EventType::StateChange(StateChange::Death),
        post.history@ == mid.history@,
        post.life == 0,
{
}

impl Estajo {
    /// Life and needs stay within their nominal ranges.
    pub open spec fn wf(self) -> bool {
        self.life <= VITAL_MAX && self.needs.wf()
    }

    /// A newborn agent: full life, fresh needs, fresh genetics, no past.
    pub open spec fn newborn(self) -> bool {
        &&& self.life == VITAL_MAX
        &&& self.needs.hunger == VITAL_MAX
        &&& AMBITION_START_MIN <= self.needs.ambition < AMBITION_START_MIN + AMBITION_START_SPAN
        &&& self.history@.len() == 0
        &&& self.wf()
    }

    /// A new agent with the given identity, a uniformly random sex, full
    /// life, fresh needs and fresh genetics.
    pub fn new(id: u32, name: String) -> (r: Estajo)
        ensures
            r.newborn(),
            r.id == id,
            r.name == name,
            r.genetics.fresh_range(),
    {
        let sex: Sex = if rand_below(2) == 0 {
            Sex::Male
        } else {
            Sex::Female
        };
        Estajo {
            id,
            name,
            sex,
            life: VITAL_MAX,
            needs: Needs::new(),
            genetics: Genetics::new(),
            history: Vec::new(),
        }
    }

    /// True iff the agent is alive.
    pub fn is_alive(&self) -> (r: bool)
        ensures
            r == (self.life > 0),
    {
        self.life > 0
    }

    /// Life drops by `amount`, floored at zero; the first crossing to
    /// zero appends exactly one Death event to the agent's own history,
    /// and later damage appends nothing further.
    pub fn take_damage(&mut self, amount: u32)
        requires
            old(self).wf(),
        ensures
            damaged(*old(self), amount, *final(self)),
            final(self).wf(),
    {
        if amount >= self.life {
            let was_alive: bool = self.life > 0;
            self.life = 0;
            if was_alive {
                self.add_event(
                    Event::new(
                        EventType::StateChange(StateChange::Death),
                        String::from_str("Has died"),
                    ),
                );
                proof {
                    assert(self.history@.subrange(0, old(self).history@.len() as int)
                        =~= old(self).history@);
                }
            }
        } else {
            self.life = self.life - amount;
        }
    }

    /// No child for a same-sex pair; otherwise a newborn child with a
    /// random id, a name derived from both parent ids, a random sex and
    /// crossed genetics. Neither parent is changed.
    pub fn reproduce_with(&self, partner: &Estajo) -> (r: Option<Estajo>)
        ensures
            r is None <==> self.sex == partner.sex,
            r matches Some(c) ==> {
                &&& c.newborn()
                &&& c.name@ == child_name(self.id as int, partner.id as int)
                &&& mixed_genes(self.genetics, partner.genetics, c.genetics)
            },
    {
        if self.sex == partner.sex {
            return None;
        }
        let mut name: String = String::from_str("Child_");
        name.append(u32_to_string(self.id).as_str());
        name.append("_");
        name.append(u32_to_string(partner.id).as_str());
        proof {
            assert(name@ =~= child_name(self.id as int, partner.id as int));
        }
        let sex: Sex = if rand_below(2) == 0 {
            Sex::Male
        } else {
            Sex::Female
        };
        Some(
            Estajo {
                id: rand_below(u32::MAX),
                name,
                sex,
                life: VITAL_MAX,
                needs: Needs::new(),
                genetics: self.genetics.mix_with(&partner.genetics),
                history: Vec::new(),
            },
        )
    }

    /// Advances the needs one tick; if the new hunger is low the agent
    /// notes a Food need, and if the new ambition is high an Ambition
    /// need. Both checks are independent and may both fire.
    pub fn update_needs(&mut self)
        requires
            old(self).wf(),
        ensures
            needs_advanced(*old(self), *final(self)),
            final(self).wf(),
    {
        self.needs.update();
        if self.needs.hunger < HUNGRY_EVENT_LIMIT {
            self.add_event(Event::new(EventType::Need(Need::Food), String::from_str("Hungry")));
        }
        if self.needs.ambition > AMBITIOUS_EVENT_LIMIT {
            self.add_event(
                Event::new(EventType::Need(Need::Ambition), String::from_str("Ambitious")),
            );
        }
        proof {
            assert(self.history@.subrange(0, old(self).history@.len() as int) =~= old(
                self,
            ).history@);
        }
    }

    /// Appends one event to the agent's own history.
    pub fn add_event(&mut self, event: Event)
        ensures
            final(self).history@ == old(self).history@.push(event),
            final(self).id == old(self).id,
            final(self).name == old(self).name,
            final(self).sex == old(self).sex,
            final(self).life == old(self).life,
            final(self).needs == old(self).needs,
            final(self).genetics == old(self).genetics,
    {
        self.history.push(event);
    }
}

} // verus!
