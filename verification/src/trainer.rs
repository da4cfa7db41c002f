//! The population engine: one generation transition at a time.
//!
//! The trainer owns the fixed target waveform and a population of
//! `POP_SIZE` candidates.  Each step breeds children from the elite slice
//! into the remaining slots, rescores them, and re-sorts the whole
//! population by descending fitness, so the first candidate is the
//! best-known one.
#![allow(unused_imports)]
use vstd::prelude::*;
use vstd::seq_lib::{group_to_multiset_ensures, lemma_multiset_commutative};
use crate::agent::{
    agent_value, crossover_shape, fitness_of, formula_chars, mutation_shape, sample_x, Agent,
    FunctionCoefficients,
};
use crate::rng::RandomSource;
use crate::{
    FP_ONE, POP_SIZE, SAMPLE_COUNT, SELECTION_TOP, STARTING_FUNCTIONS, TARGET_LIMIT, TrainError,
};

verus! {

/// Every target sample stays within the representable range.
pub open spec fn goal_ok(goal: Seq<i64>) -> bool {
    forall|i: int| 0 <= i < goal.len() ==> -TARGET_LIMIT <= #[trigger] goal[i] <= TARGET_LIMIT
}

/// The population reads non-increasing by cached fitness.
pub open spec fn sorted_desc(s: Seq<Agent>) -> bool {
    forall|i: int, j: int|
        0 <= i <= j < s.len() ==> #[trigger] s[i].fitness >= #[trigger] s[j].fitness
}

/// A replacement candidate bred this generation: a crossover of two
/// elite parents, mutated, and then scored against the target.
pub open spec fn bred_from(child: Agent, elite: Seq<Agent>, goal: Seq<i64>) -> bool {
    exists|pa: int, pb: int, mid: Seq<FunctionCoefficients>|
        0 <= pa < elite.len() && 0 <= pb < elite.len() && #[trigger] crossover_shape(
            mid,
            elite[pa].functions@,
            elite[pb].functions@,
        ) && mutation_shape(child.functions@, mid) && child.fitness == fitness_of(
            child.functions@,
            goal,
        )
}

/// On a population sorted by descending fitness the leading candidate
/// carries the best fitness: no member's fitness exceeds it.  Together
/// with the clauses of [`Trainer::step`] this gives the monotonicity of
/// the best fitness from one completed generation to the next.
pub proof fn lemma_sorted_first_is_best(s: Seq<Agent>)
    requires
        sorted_desc(s),
        s.len() > 0,
    ensures
        forall|i: int| 0 <= i < s.len() ==> s[0].fitness >= #[trigger] s[i].fitness,
{
}

/// The population engine.
#[derive(Debug)]
pub struct Trainer {
    /// The fixed target waveform, in ticks; set once, never mutated.
    pub goal: Vec<i64>,
    /// The population of candidates.
    pub agents: Vec<Agent>,
    /// The random source every evolutionary decision is drawn from.
    pub source: RandomSource,
}

impl Trainer {
    /// The engine is intact: the target has its fixed size and bounded
    /// samples, the population has its fixed size, and every candidate is
    /// well formed with its cached fitness equal to its true fitness
    /// against the target.
    pub open spec fn wf(self) -> bool {
        &&& self.goal@.len() == SAMPLE_COUNT
        &&& goal_ok(self.goal@)
        &&& self.agents@.len() == POP_SIZE
        &&& forall|i: int| 0 <= i < self.agents@.len() ==> (#[trigger] self.agents@[i]).wf()
        &&& forall|i: int|
            0 <= i < self.agents@.len() ==> (#[trigger] self.agents@[i]).fitness == fitness_of(
                self.agents@[i].functions@,
                self.goal@,
            )
        &&& self.source.wf()
    }

    /// Builds an engine over `goal`: `POP_SIZE` fresh random candidates of
    /// `STARTING_FUNCTIONS` basis instances each, every one scored against
    /// the target.  No sort is performed yet.  Fails, exactly when the
    /// target does not hold `SAMPLE_COUNT` samples, with a length
    /// mismatch.
    pub fn new_rand(goal: Vec<i64>, source: RandomSource) -> (r: Result<Trainer, TrainError>)
        requires
            source.wf(),
            goal_ok(goal@),
        ensures
            r is Ok <==> goal@.len() == SAMPLE_COUNT,
            r is Ok ==> r->Ok_0.wf() && r->Ok_0.goal == goal && forall|i: int|
                0 <= i < POP_SIZE ==> (#[trigger] r->Ok_0.agents@[i]).functions@.len()
                    == STARTING_FUNCTIONS,
            r is Err ==> r->Err_0 == TrainError::LengthMismatch,
    {
        if goal.len() != SAMPLE_COUNT {
            return Err(TrainError::LengthMismatch);
        }
        let mut source = source;
        let mut agents: Vec<Agent> = Vec::new();
        let mut i: usize = 0;
        while i < POP_SIZE
            invariant
                source.wf(),
                goal@.len() == SAMPLE_COUNT,
                goal_ok(goal@),
                0 <= i <= POP_SIZE,
                agents@.len() == i,
                forall|j: int| 0 <= j < agents@.len() ==> (#[trigger] agents@[j]).wf(),
                forall|j: int|
                    0 <= j < agents@.len() ==> (#[trigger] agents@[j]).fitness == fitness_of(
                        agents@[j].functions@,
                        goal@,
                    ),
                forall|j: int|
                    0 <= j < agents@.len() ==> (#[trigger] agents@[j]).functions@.len()
                        == STARTING_FUNCTIONS,
            decreases POP_SIZE - i,
        {
            let mut a = Agent::new_rand(STARTING_FUNCTIONS, &mut source);
            a.calculate_fitness(&goal);
            agents.push(a);
            i = i + 1;
        }
        Ok(Trainer { goal, agents, source })
    }

    /// One generation transition: every slot past the elite slice is
    /// refilled by a scored, mutated crossover of two uniformly drawn
    /// elite parents, and the population is then sorted by descending
    /// fitness.  The elite candidates of the previous generation all
    /// survive into the new population, so the leading fitness never
    /// falls below any of theirs.
    pub fn step(&mut self)
        requires
            old(self).wf(),
        ensures
            final(self).wf(),
            final(self).goal == old(self).goal,
            sorted_desc(final(self).agents@),
            old(self).agents@.subrange(0, SELECTION_TOP as int).to_multiset().subset_of(
                final(self).agents@.to_multiset(),
            ),
            forall|i: int|
                0 <= i < SELECTION_TOP ==> final(self).agents@[0].fitness >= #[trigger] old(
                    self,
                ).agents@[i].fitness,
            exists|children: Seq<Agent>|
                #![trigger children.to_multiset()]
                children.len() == POP_SIZE - SELECTION_TOP && (forall|k: int|
                    0 <= k < children.len() ==> bred_from(
                        #[trigger] children[k],
                        old(self).agents@.subrange(0, SELECTION_TOP as int),
                        old(self).goal@,
                    )) && final(self).agents@.to_multiset() == old(self).agents@.subrange(
                    0,
                    SELECTION_TOP as int,
                ).to_multiset().add(children.to_multiset()),
    {
        let mut i: usize = 0;
        while i < POP_SIZE - SELECTION_TOP
            invariant
                old(self).wf(),
                self.goal == old(self).goal,
                self.goal@.len() == SAMPLE_COUNT,
                goal_ok(self.goal@),
                self.agents@.len() == POP_SIZE,
                self.source.wf(),
                0 <= i <= POP_SIZE - SELECTION_TOP,
                forall|j: int|
                    0 <= j < SELECTION_TOP ==> #[trigger] self.agents@[j] == old(self).agents@[j],
                forall|j: int| 0 <= j < self.agents@.len() ==> (#[trigger] self.agents@[j]).wf(),
                forall|j: int|
                    0 <= j < self.agents@.len() ==> (#[trigger] self.agents@[j]).fitness
                        == fitness_of(self.agents@[j].functions@, self.goal@),
                forall|j: int|
                    SELECTION_TOP <= j < SELECTION_TOP + i ==> bred_from(
                        #[trigger] self.agents@[j],
                        old(self).agents@.subrange(0, SELECTION_TOP as int),
                        old(self).goal@,
                    ),
            decreases POP_SIZE - SELECTION_TOP - i,
        {
            let pa = self.source.draw_below(SELECTION_TOP as u64) as usize;
            let pb = self.source.draw_below(SELECTION_TOP as u64) as usize;
            let parent_a = &self.agents[pa];
            let parent_b = &self.agents[pb];
            let mut child = parent_a.crossover(parent_b, &mut self.source);
            let ghost mid = child.functions@;
            child.mutate(&mut self.source);
            child.calculate_fitness(&self.goal);
            proof {
                let elite = old(self).agents@.subrange(0, SELECTION_TOP as int);
                assert(elite[pa as int] == self.agents@[pa as int]);
                assert(elite[pb as int] == self.agents@[pb as int]);
                assert(crossover_shape(mid, elite[pa as int].functions@, elite[pb as int].functions@));
                assert(mutation_shape(child.functions@, mid));
                assert(child.fitness == fitness_of(child.functions@, old(self).goal@));
                assert(bred_from(child, elite, old(self).goal@));
            }
            let slot = SELECTION_TOP + i;
            let ghost before = self.agents@;
            self.agents.remove(slot);
            self.agents.insert(slot, child);
            proof {
                vstd::seq_lib::lemma_update_is_remove_insert(before, slot as int, child);
                assert(self.agents@ =~= before.update(slot as int, child));
            }
            i = i + 1;
        }
        let ghost pre = self.agents@;
        sort_by_fitness(&mut self.agents);
        proof {
            broadcast use group_to_multiset_ensures;

            let top = SELECTION_TOP as int;
            let elite = old(self).agents@.subrange(0, top);
            assert(pre.subrange(0, top) =~= elite);
            pre.lemma_split_at(top);
            lemma_multiset_commutative(pre.subrange(0, top), pre.subrange(top, pre.len() as int));
            assert(pre.to_multiset() =~= elite.to_multiset().add(
                pre.subrange(top, pre.len() as int).to_multiset(),
            ));
            assert forall|v: Agent| elite.to_multiset().count(v) <= self.agents@.to_multiset().count(
                v,
            ) by {
                assert(pre.to_multiset().count(v) == elite.to_multiset().count(v) + pre.subrange(
                    top,
                    pre.len() as int,
                ).to_multiset().count(v));
            }
            assert forall|k: int|
                0 <= k < self.agents@.len() implies (#[trigger] self.agents@[k]).wf()
                && self.agents@[k].fitness == fitness_of(
                self.agents@[k].functions@,
                self.goal@,
            ) by {
                let v = self.agents@[k];
                assert(self.agents@.contains(v));
                assert(self.agents@.to_multiset().count(v) > 0);
                assert(pre.to_multiset().count(v) > 0);
                assert(pre.contains(v));
                let m = choose|m: int| 0 <= m < pre.len() && pre[m] == v;
                assert(pre[m].wf());
            }
            let kids = pre.subrange(top, pre.len() as int);
            assert(kids.len() == POP_SIZE - SELECTION_TOP);
            assert forall|k: int| 0 <= k < kids.len() implies bred_from(
                #[trigger] kids[k],
                elite,
                old(self).goal@,
            ) by {
                assert(kids[k] == pre[top + k]);
            }
            assert(self.agents@.to_multiset() == elite.to_multiset().add(kids.to_multiset()));
            assert forall|i: int| 0 <= i < SELECTION_TOP implies self.agents@[0].fitness
                >= old(self).agents@[i].fitness by {
                let e = old(self).agents@[i];
                assert(pre[i] == e);
                assert(pre.contains(e));
                assert(pre.to_multiset().count(e) > 0);
                assert(self.agents@.to_multiset().count(e) > 0);
                assert(self.agents@.contains(e));
                let j = choose|j: int| 0 <= j < self.agents@.len() && self.agents@[j] == e;
                assert(self.agents@[0].fitness >= self.agents@[j].fitness);
            }
        }
    }

    /// The current best-known candidate: the population's first entry,
    /// which leads only once a completed step has sorted the population.
    pub fn best(&self) -> (r: &Agent)
        requires
            self.wf(),
        ensures
            r == self.agents@[0],
    {
        &self.agents[0]
    }

    /// The best candidate's waveform: its evaluation at the same sample
    /// points the fitness uses.
    pub fn best_waveform(&self) -> (r: Vec<i64>)
        requires
            self.wf(),
        ensures
            r@.len() == SAMPLE_COUNT,
            forall|i: int|
                0 <= i < r@.len() ==> #[trigger] r@[i] == agent_value(
                    self.agents@[0].functions@,
                    sample_x(i),
                ),
    {
        let mut out: Vec<i64> = Vec::new();
        let mut i: usize = 0;
        while i < SAMPLE_COUNT
            invariant
                self.wf(),
                0 <= i <= SAMPLE_COUNT,
                out@.len() == i,
                forall|j: int|
                    0 <= j < out@.len() ==> #[trigger] out@[j] == agent_value(
                        self.agents@[0].functions@,
                        sample_x(j),
                    ),
            decreases SAMPLE_COUNT - i,
        {
            proof {
                assert(0 <= 2 * (i as int) * (FP_ONE as int) <= 2 * 511 * (FP_ONE as int))
                    by (nonlinear_arith)
                    requires
                        0 <= i as int <= 511,
                        FP_ONE as int == 10_000,
                ;
            }
            let xi: u64 = (2 * (i as u64) * (FP_ONE as u64)) / (SAMPLE_COUNT as u64);
            proof {
                vstd::arithmetic::div_mod::lemma_div_is_ordered(
                    2 * (i as int) * FP_ONE as int,
                    2 * 511 * FP_ONE as int,
                    SAMPLE_COUNT as int,
                );
            }
            let x: i64 = xi as i64 - FP_ONE;
            let v = self.agents[0].evaluate(x);
            out.push(v);
            i = i + 1;
        }
        out
    }

    /// The best candidate's cached fitness, equal to its true fitness
    /// against the target.
    pub fn best_fitness(&self) -> (r: i64)
        requires
            self.wf(),
        ensures
            r == fitness_of(self.agents@[0].functions@, self.goal@),
    {
        self.agents[0].fitness
    }

    /// The best candidate's display string.
    pub fn best_formula(&self) -> (r: String)
        requires
            self.wf(),
        ensures
            r@ == formula_chars(self.agents@[0].functions@),
    {
        self.agents[0].display()
    }
}

/// Sorts the population by descending cached fitness; the population
/// keeps exactly its members.
fn sort_by_fitness(agents: &mut Vec<Agent>)
    ensures
        final(agents)@.len() == old(agents)@.len(),
        sorted_desc(final(agents)@),
        final(agents)@.to_multiset() == old(agents)@.to_multiset(),
{
    if agents.len() <= 1 {
        return;
    }
    let mut i: usize = 1;
    while i < agents.len()
        invariant
            agents@.len() == old(agents)@.len(),
            agents@.to_multiset() == old(agents)@.to_multiset(),
            1 <= i <= agents@.len(),
            sorted_desc(agents@.take(i as int)),
        decreases agents@.len() - i,
    {
        let key_fitness = agents[i].fitness;
        let mut j: usize = 0;
        while j < i && agents[j].fitness >= key_fitness
            invariant
                0 <= j <= i < agents@.len(),
                key_fitness == agents@[i as int].fitness,
                forall|k: int| 0 <= k < j ==> (#[trigger] agents@[k]).fitness >= key_fitness,
            decreases i - j,
        {
            j = j + 1;
        }
        let ghost s = agents@;
        let a = agents.remove(i);
        agents.insert(j, a);
        proof {
            broadcast use group_to_multiset_ensures;

            let ii = i as int;
            let jj = j as int;
            let s3 = agents@;
            assert(s.contains(a)) by {
                assert(s[ii] == a);
            }
            assert(s.to_multiset().count(a) > 0);
            assert(s3.to_multiset() =~= s.to_multiset());
            let t = s.take(ii);
            assert forall|p: int, q: int| 0 <= p <= q < ii + 1 implies s3[p].fitness
                >= s3[q].fitness by {
                assert(forall|k: int| 0 <= k < jj ==> s3[k] == #[trigger] s[k]);
                assert(s3[jj] == a);
                assert(forall|k: int| jj < k <= ii ==> s3[k] == #[trigger] s[k - 1]);
                assert(forall|k: int| 0 <= k < ii ==> t[k] == #[trigger] s[k]);
                if q < jj {
                    assert(t[p].fitness >= t[q].fitness);
                } else if q == jj {
                    if p < jj {
                        assert(s[p].fitness >= a.fitness);
                    }
                } else {
                    assert(jj < ii ==> a.fitness > s[jj].fitness);
                    if p < jj {
                        assert(t[p].fitness >= t[q - 1].fitness);
                    } else if p == jj {
                        assert(t[jj].fitness >= t[q - 1].fitness);
                    } else {
                        assert(t[p - 1].fitness >= t[q - 1].fitness);
                    }
                }
            }
            assert(sorted_desc(s3.take(ii + 1)));
        }
        i = i + 1;
    }
    proof {
        if agents@.len() > 0 {
            assert(agents@.take(agents@.len() as int) =~= agents@);
        }
    }
}

} // verus!
