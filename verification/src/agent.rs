//! Candidate solutions: weighted basis instances and the agents that own
//! them.
//!
//! An agent is an ordered list of between one and `MAX_FUNCTIONS` weighted
//! basis instances together with a cached fitness.  The cache is filled by
//! an explicit call to [`Agent::calculate_fitness`]; structural or
//! parametric changes do not refresh it.
#![allow(unused_imports)]
use vstd::prelude::*;
use vstd::math::min;
use vstd::string::StringExecFns;
use crate::rng::{cursor_after, next_cursor, RandomSource};
use crate::wave::{mag, term_chars, wave_value, WaveFunction};
use crate::{
    ADDITION_TENTHS, DRIFT_TENTHS, EVAL_LIMIT, FP_ONE, MAX_FUNCTIONS, NOISE_STEP, PARAM_LIMIT,
    SAMPLE_COUNT, SUBTRACTION_TENTHS, TARGET_LIMIT,
};

verus! {

/// One weighted basis instance: a kind with its scale and translation.
#[derive(Clone, Copy, Debug, PartialEq, Eq, Structural)]
pub struct FunctionCoefficients {
    /// The basis-function kind; fixed at creation, never mutated.
    pub function_type: WaveFunction,
    /// The amplitude, in ticks.
    pub scale: i64,
    /// The phase translation, in ticks.
    pub x_translation: i64,
}

impl FunctionCoefficients {
    /// Both parameters stay within the representable range.
    pub open spec fn wf(self) -> bool {
        &&& -PARAM_LIMIT <= self.scale <= PARAM_LIMIT
        &&& -PARAM_LIMIT <= self.x_translation <= PARAM_LIMIT
    }

    /// The value of this instance at `x` ticks.
    pub open spec fn value(self, x: int) -> int {
        wave_value(self.function_type, x, self.scale as int, self.x_translation as int)
    }

    /// Evaluates this instance at `x` ticks.
    pub fn evaluate(&self, x: i64) -> (r: i64)
        requires
            self.wf(),
            -FP_ONE <= x <= FP_ONE,
        ensures
            r == self.value(x as int),
            -PARAM_LIMIT <= r <= PARAM_LIMIT,
    {
        self.function_type.evaluate(x, self.scale, self.x_translation)
    }

    /// A fresh instance: the kind drawn uniformly from the closed set,
    /// scale and translation drawn uniformly from one unit around zero.
    pub fn new_rand(source: &mut RandomSource) -> (r: FunctionCoefficients)
        requires
            old(source).wf(),
        ensures
            final(source).wf(),
            r.wf(),
            -FP_ONE <= r.scale <= FP_ONE,
            -FP_ONE <= r.x_translation <= FP_ONE,
            final(source).is_scripted() == old(source).is_scripted(),
            final(source).feed() == old(source).feed(),
            !old(source).is_scripted() ==> *final(source) == *old(source),
            old(source).is_scripted() ==> r == scripted_instance(
                old(source).feed(),
                old(source).cursor(),
            ) && final(source).cursor() == cursor_after(
                old(source).feed().len() as int,
                old(source).cursor(),
                3,
            ),
    {
        let function_type = if source.coin() {
            WaveFunction::Sine
        } else {
            WaveFunction::SawTooth
        };
        let scale = source.draw_range(-FP_ONE, FP_ONE);
        let x_translation = source.draw_range(-FP_ONE, FP_ONE);
        proof {
            if old(source).is_scripted() {
                let f = old(source).feed();
                let len = f.len() as int;
                let c0 = old(source).cursor();
                assert(cursor_after(len, c0, 0) == c0);
                assert(cursor_after(len, c0, 1) == next_cursor(len, c0));
                assert(cursor_after(len, c0, 2) == next_cursor(len, cursor_after(len, c0, 1)));
                assert(cursor_after(len, c0, 3) == next_cursor(len, cursor_after(len, c0, 2)));
            }
        }
        FunctionCoefficients { function_type, scale, x_translation }
    }

    /// The display string of this instance.
    pub fn display(&self) -> (r: String)
        requires
            self.wf(),
        ensures
            r@ == term_chars(self.function_type, self.scale as int, self.x_translation as int),
    {
        self.function_type.generate_string(self.scale, self.x_translation)
    }
}

/// The instance that three scripted draws at cursor `c` determine: the
/// kind by one coin, then scale and translation by one ranged draw each.
pub open spec fn scripted_instance(f: Seq<u64>, c: int) -> FunctionCoefficients {
    let len = f.len() as int;
    let c1 = next_cursor(len, c);
    let c2 = next_cursor(len, c1);
    (FunctionCoefficients {
        function_type: if (f[c] as int) % 2 == 0 {
            WaveFunction::Sine
        } else {
            WaveFunction::SawTooth
        },
        scale: (-(FP_ONE as int) + (f[c1] as int) % 20001) as i64,
        x_translation: (-(FP_ONE as int) + (f[c2] as int) % 20001) as i64,
    })
}

/// The shape of a crossover child: as long as the shorter parent, each
/// instance copied from one parent or the other at the same index.
pub open spec fn crossover_shape(
    child: Seq<FunctionCoefficients>,
    a: Seq<FunctionCoefficients>,
    b: Seq<FunctionCoefficients>,
) -> bool {
    &&& child.len() == min(a.len() as int, b.len() as int)
    &&& forall|i: int| 0 <= i < child.len() ==> #[trigger] child[i] == a[i] || child[i] == b[i]
}

/// The parameter moved by at most the full span of one noise sum,
/// saturated at the representable range; an unmutated parameter lies in
/// the interval too.
pub open spec fn drift_ok(new: i64, prev: i64) -> bool {
    &&& (if prev - 6 * NOISE_STEP >= -PARAM_LIMIT {
        new >= prev - 6 * NOISE_STEP
    } else {
        new >= -PARAM_LIMIT
    })
    &&& (if prev + 6 * NOISE_STEP <= PARAM_LIMIT {
        new <= prev + 6 * NOISE_STEP
    } else {
        new <= PARAM_LIMIT
    })
}

/// The list after the growth chance: unchanged, or — only below the
/// length cap — the old list with one fresh instance appended, its
/// parameters within one unit of zero.
pub open spec fn grown_from(g: Seq<FunctionCoefficients>, pre: Seq<FunctionCoefficients>) -> bool {
    ||| g == pre
    ||| (pre.len() < MAX_FUNCTIONS && g.len() == pre.len() + 1 && g.take(pre.len() as int) == pre
        && -FP_ONE <= g.last().scale <= FP_ONE && -FP_ONE <= g.last().x_translation <= FP_ONE)
}

/// The list after the shrink chance: unchanged, or — only above length
/// one — the list with one element removed.
pub open spec fn shrunk_from(s: Seq<FunctionCoefficients>, g: Seq<FunctionCoefficients>) -> bool {
    ||| s == g
    ||| (g.len() > 1 && exists|k: int| 0 <= k < g.len() && s == #[trigger] g.remove(k))
}

/// The list after the two drift passes: same length, every instance
/// keeping its kind, both parameters within one bounded drift of their
/// previous values.
pub open spec fn drifted_from(
    post: Seq<FunctionCoefficients>,
    s: Seq<FunctionCoefficients>,
) -> bool {
    &&& post.len() == s.len()
    &&& forall|i: int|
        0 <= i < post.len() ==> (#[trigger] post[i]).function_type == s[i].function_type
            && drift_ok(post[i].scale, s[i].scale) && drift_ok(post[i].x_translation, s[i].x_translation)
}

/// What one mutation pass can do to a basis list, in its fixed order: an
/// optional growth by one fresh instance, an optional removal of one
/// element, then bounded parameter drift — the kind of every surviving
/// instance is never mutated.
pub open spec fn mutation_shape(
    post: Seq<FunctionCoefficients>,
    pre: Seq<FunctionCoefficients>,
) -> bool {
    exists|g: Seq<FunctionCoefficients>, s: Seq<FunctionCoefficients>|
        #[trigger] grown_from(g, pre) && #[trigger] shrunk_from(s, g) && drifted_from(post, s)
}

/// The value of a basis list at `x` ticks: the sum of its instances'
/// values.
pub open spec fn agent_value(fs: Seq<FunctionCoefficients>, x: int) -> int
    decreases fs.len(),
{
    if fs.len() == 0 {
        0
    } else {
        agent_value(fs.drop_last(), x) + fs.last().value(x)
    }
}

/// The domain point, in ticks, of sample `i`: `SAMPLE_COUNT` points evenly
/// spread over one unit around zero.
pub open spec fn sample_x(i: int) -> int {
    (2 * i * FP_ONE as int) / (SAMPLE_COUNT as int) - FP_ONE as int
}

/// The total absolute error of a basis list against the first `n` target
/// samples.
pub open spec fn error_sum(fs: Seq<FunctionCoefficients>, goal: Seq<i64>, n: int) -> int
    decreases n,
{
    if n <= 0 {
        0
    } else {
        error_sum(fs, goal, n - 1) + mag(agent_value(fs, sample_x(n - 1)) - goal[n - 1] as int)
    }
}

/// The fitness of a basis list against a target: the negated total
/// absolute error, so zero is a perfect match and more negative is worse.
pub open spec fn fitness_of(fs: Seq<FunctionCoefficients>, goal: Seq<i64>) -> int {
    -error_sum(fs, goal, goal.len() as int)
}

/// The display string of a basis list: its instances joined by `" + "`.
pub open spec fn formula_chars(fs: Seq<FunctionCoefficients>) -> Seq<char>
    decreases fs.len(),
{
    if fs.len() == 0 {
        Seq::<char>::empty()
    } else if fs.len() == 1 {
        term_chars(fs[0].function_type, fs[0].scale as int, fs[0].x_translation as int)
    } else {
        formula_chars(fs.drop_last()) + " + "@ + term_chars(
            fs.last().function_type,
            fs.last().scale as int,
            fs.last().x_translation as int,
        )
    }
}

/// One candidate solution: an ordered basis list and a cached fitness.
#[derive(Clone, Debug, PartialEq)]
pub struct Agent {
    /// The ordered list of weighted basis instances.
    pub functions: Vec<FunctionCoefficients>,
    /// The cached fitness, meaningful only after `calculate_fitness`.
    pub fitness: i64,
}

impl Agent {
    /// The basis list keeps its length invariant and representable
    /// parameters.
    pub open spec fn wf(self) -> bool {
        &&& 1 <= self.functions@.len() <= MAX_FUNCTIONS
        &&& forall|i: int| 0 <= i < self.functions@.len() ==> self.functions@[i].wf()
    }

    /// Evaluates the candidate at `x` ticks: the sum of its instances.
    pub fn evaluate(&self, x: i64) -> (r: i64)
        requires
            self.wf(),
            -FP_ONE <= x <= FP_ONE,
        ensures
            r == agent_value(self.functions@, x as int),
            -EVAL_LIMIT <= r <= EVAL_LIMIT,
    {
        let mut sum: i64 = 0;
        let mut i: usize = 0;
        while i < self.functions.len()
            invariant
                self.wf(),
                -FP_ONE <= x <= FP_ONE,
                0 <= i <= self.functions@.len(),
                sum == agent_value(self.functions@.take(i as int), x as int),
                -(i as int) * PARAM_LIMIT <= sum <= (i as int) * PARAM_LIMIT,
            decreases self.functions@.len() - i,
        {
            let t = self.functions[i].evaluate(x);
            proof {
                assert(self.functions@.take(i as int + 1).drop_last() =~= self.functions@.take(
                    i as int,
                ));
                assert(self.functions@.take(i as int + 1).last() == self.functions@[i as int]);
            }
            sum = sum + t;
            i = i + 1;
        }
        proof {
            assert(self.functions@.take(self.functions@.len() as int) =~= self.functions@);
        }
        sum
    }

    /// A fresh candidate of `functions` random instances; the fitness is a
    /// placeholder until it is computed.
    pub fn new_rand(functions: usize, source: &mut RandomSource) -> (r: Agent)
        requires
            old(source).wf(),
            1 <= functions <= MAX_FUNCTIONS,
        ensures
            final(source).wf(),
            r.wf(),
            r.functions@.len() == functions,
            r.fitness == 0,
            final(source).is_scripted() == old(source).is_scripted(),
            final(source).feed() == old(source).feed(),
            !old(source).is_scripted() ==> *final(source) == *old(source),
            old(source).is_scripted() ==> (forall|j: int|
                0 <= j < functions ==> #[trigger] r.functions@[j] == scripted_instance(
                    old(source).feed(),
                    cursor_after(old(source).feed().len() as int, old(source).cursor(), 3 * j),
                )) && final(source).cursor() == cursor_after(
                old(source).feed().len() as int,
                old(source).cursor(),
                3 * functions,
            ),
    {
        let mut fs: Vec<FunctionCoefficients> = Vec::new();
        let mut i: usize = 0;
        while i < functions
            invariant
                old(source).wf(),
                source.wf(),
                1 <= functions <= MAX_FUNCTIONS,
                0 <= i <= functions,
                fs@.len() == i,
                forall|j: int| 0 <= j < fs@.len() ==> fs@[j].wf(),
                source.is_scripted() == old(source).is_scripted(),
                source.feed() == old(source).feed(),
                !old(source).is_scripted() ==> *source == *old(source),
                old(source).is_scripted() ==> (forall|j: int|
                    0 <= j < i ==> #[trigger] fs@[j] == scripted_instance(
                        old(source).feed(),
                        cursor_after(old(source).feed().len() as int, old(source).cursor(), 3 * j),
                    )) && source.cursor() == cursor_after(
                    old(source).feed().len() as int,
                    old(source).cursor(),
                    3 * i,
                ),
            decreases functions - i,
        {
            proof {
                if old(source).is_scripted() {
                    crate::rng::lemma_cursor_after_add(
                        old(source).feed().len() as int,
                        old(source).cursor(),
                        3 * (i as int),
                        3,
                    );
                }
            }
            let c = FunctionCoefficients::new_rand(source);
            fs.push(c);
            i = i + 1;
        }
        Agent { functions: fs, fitness: 0 }
    }

    /// Uniform gene-wise recombination over the shared index range: each
    /// of the child's instances is copied from one parent or the other
    /// with equal probability, and the child's length is the shorter
    /// parent's length.
    pub fn crossover(&self, other: &Agent, source: &mut RandomSource) -> (child: Agent)
        requires
            self.wf(),
            other.wf(),
            old(source).wf(),
        ensures
            final(source).wf(),
            child.wf(),
            crossover_shape(child.functions@, self.functions@, other.functions@),
            child.fitness == 0,
            final(source).is_scripted() == old(source).is_scripted(),
            final(source).feed() == old(source).feed(),
            !old(source).is_scripted() ==> *final(source) == *old(source),
            old(source).is_scripted() ==> (forall|i: int|
                0 <= i < child.functions@.len() ==> #[trigger] child.functions@[i] == (if (old(
                    source,
                ).feed()[cursor_after(
                    old(source).feed().len() as int,
                    old(source).cursor(),
                    i,
                )] as int) % 2 == 0 {
                    self.functions@[i]
                } else {
                    other.functions@[i]
                })) && final(source).cursor() == cursor_after(
                old(source).feed().len() as int,
                old(source).cursor(),
                child.functions@.len() as int,
            ),
    {
        let shared = if self.functions.len() < other.functions.len() {
            self.functions.len()
        } else {
            other.functions.len()
        };
        let mut fs: Vec<FunctionCoefficients> = Vec::new();
        let mut i: usize = 0;
        while i < shared
            invariant
                self.wf(),
                other.wf(),
                source.wf(),
                shared == min(self.functions@.len() as int, other.functions@.len() as int),
                0 <= i <= shared,
                fs@.len() == i,
                forall|j: int|
                    0 <= j < fs@.len() ==> fs@[j] == self.functions@[j] || fs@[j]
                        == other.functions@[j],
                source.is_scripted() == old(source).is_scripted(),
                source.feed() == old(source).feed(),
                !old(source).is_scripted() ==> *source == *old(source),
                old(source).is_scripted() ==> (forall|j: int|
                    0 <= j < i ==> #[trigger] fs@[j] == (if (old(source).feed()[cursor_after(
                        old(source).feed().len() as int,
                        old(source).cursor(),
                        j,
                    )] as int) % 2 == 0 {
                        self.functions@[j]
                    } else {
                        other.functions@[j]
                    })) && source.cursor() == cursor_after(
                    old(source).feed().len() as int,
                    old(source).cursor(),
                    i as int,
                ),
            decreases shared - i,
        {
            proof {
                if old(source).is_scripted() {
                    crate::rng::lemma_cursor_after_add(
                        old(source).feed().len() as int,
                        old(source).cursor(),
                        i as int,
                        1,
                    );
                    assert(cursor_after(old(source).feed().len() as int, source.cursor(), 0)
                        == source.cursor());
                    assert(cursor_after(
                        old(source).feed().len() as int,
                        source.cursor(),
                        1,
                    ) == next_cursor(old(source).feed().len() as int, source.cursor()));
                }
            }
            if source.coin() {
                fs.push(self.functions[i]);
            } else {
                fs.push(other.functions[i]);
            }
            i = i + 1;
        }
        Agent { functions: fs, fitness: 0 }
    }

    /// One mutation pass, in fixed order: a chance to append a fresh
    /// instance while below the length cap, a chance to remove a uniformly
    /// chosen instance while above one, then an independent chance of
    /// drift on every scale, then on every translation.  The basis list
    /// keeps its length invariant, and the cached fitness is untouched.
    pub fn mutate(&mut self, source: &mut RandomSource)
        requires
            old(self).wf(),
            old(source).wf(),
        ensures
            final(self).wf(),
            final(source).wf(),
            final(self).fitness == old(self).fitness,
            old(self).functions@.len() - 1 <= final(self).functions@.len() <= old(
                self,
            ).functions@.len() + 1,
            mutation_shape(final(self).functions@, old(self).functions@),
    {
        let ghost pre = self.functions@;
        if self.functions.len() < MAX_FUNCTIONS && source.chance_tenths(ADDITION_TENTHS) {
            let c = FunctionCoefficients::new_rand(source);
            self.functions.push(c);
            proof {
                assert(self.functions@.take(pre.len() as int) =~= pre);
                assert(grown_from(self.functions@, pre));
            }
        } else {
            proof {
                assert(grown_from(self.functions@, pre));
            }
        }
        let ghost grown = self.functions@;
        if self.functions.len() > 1 && source.chance_tenths(SUBTRACTION_TENTHS) {
            let idx = source.draw_below(self.functions.len() as u64) as usize;
            self.functions.remove(idx);
            proof {
                assert(self.functions@ == grown.remove(idx as int));
                assert(shrunk_from(self.functions@, grown));
            }
        } else {
            proof {
                assert(shrunk_from(self.functions@, grown));
            }
        }
        let ghost shrunk = self.functions@;
        let mut scaled: Vec<FunctionCoefficients> = Vec::new();
        let mut i: usize = 0;
        while i < self.functions.len()
            invariant
                self.wf(),
                source.wf(),
                shrunk == self.functions@,
                0 <= i <= self.functions@.len(),
                scaled@.len() == i,
                forall|j: int|
                    0 <= j < scaled@.len() ==> (#[trigger] scaled@[j]).wf() && scaled@[j].function_type
                        == self.functions@[j].function_type && drift_ok(
                        scaled@[j].scale,
                        self.functions@[j].scale,
                    ) && scaled@[j].x_translation == self.functions@[j].x_translation,
            decreases self.functions@.len() - i,
        {
            let mut c = self.functions[i];
            if source.chance_tenths(DRIFT_TENTHS) {
                c.scale = clamp_param(c.scale + gaussian_step(source));
            }
            scaled.push(c);
            i = i + 1;
        }
        self.functions = scaled;
        let ghost mid = self.functions@;
        let mut translated: Vec<FunctionCoefficients> = Vec::new();
        let mut k: usize = 0;
        while k < self.functions.len()
            invariant
                self.wf(),
                source.wf(),
                mid == self.functions@,
                0 <= k <= self.functions@.len(),
                translated@.len() == k,
                forall|j: int|
                    0 <= j < translated@.len() ==> (#[trigger] translated@[j]).wf()
                        && translated@[j].function_type == self.functions@[j].function_type
                        && drift_ok(translated@[j].x_translation, self.functions@[j].x_translation)
                        && translated@[j].scale == self.functions@[j].scale,
            decreases self.functions@.len() - k,
        {
            let mut c = self.functions[k];
            if source.chance_tenths(DRIFT_TENTHS) {
                c.x_translation = clamp_param(c.x_translation + gaussian_step(source));
            }
            translated.push(c);
            k = k + 1;
        }
        self.functions = translated;
        proof {
            assert(drifted_from(mid, shrunk));
            assert(drifted_from(self.functions@, mid));
            assert(drifted_from(self.functions@, shrunk));
            assert(mutation_shape(self.functions@, pre));
        }
    }

    /// Recomputes the cached fitness against the target: the negated sum,
    /// over all samples, of the absolute difference between the
    /// candidate's evaluation and the target.  The result depends on the
    /// basis list and the target alone.
    pub fn calculate_fitness(&mut self, goal: &Vec<i64>)
        requires
            old(self).wf(),
            goal@.len() == SAMPLE_COUNT,
            forall|i: int| 0 <= i < goal@.len() ==> -TARGET_LIMIT <= #[trigger] goal@[i] <= TARGET_LIMIT,
        ensures
            final(self).functions == old(self).functions,
            final(self).wf(),
            final(self).fitness == fitness_of(old(self).functions@, goal@),
            final(self).fitness <= 0,
    {
        let mut err: i64 = 0;
        let mut i: usize = 0;
        while i < SAMPLE_COUNT
            invariant
                *self == *old(self),
                self.wf(),
                goal@.len() == SAMPLE_COUNT,
                forall|j: int| 0 <= j < goal@.len() ==> -TARGET_LIMIT <= #[trigger] goal@[j] <= TARGET_LIMIT,
                0 <= i <= SAMPLE_COUNT,
                err == error_sum(self.functions@, goal@, i as int),
                // one sample contributes at most EVAL_LIMIT + TARGET_LIMIT ticks
                0 <= err <= (i as int) * 13_000_000_000,
            decreases SAMPLE_COUNT - i,
        {
            let xi: u64 = (2 * (i as u64) * (FP_ONE as u64)) / (SAMPLE_COUNT as u64);
            proof {
                vstd::arithmetic::div_mod::lemma_div_is_ordered(
                    2 * (i as int) * FP_ONE as int,
                    2 * 511 * FP_ONE as int,
                    SAMPLE_COUNT as int,
                );
            }
            let x: i64 = xi as i64 - FP_ONE;
            let v = self.evaluate(x);
            let g = goal[i];
            let d = v - g;
            let a = if d < 0 {
                -d
            } else {
                d
            };
            err = err + a;
            i = i + 1;
        }
        self.fitness = -err;
    }

    /// The display string of the candidate: its instances' strings joined
    /// by `" + "` in list order.
    pub fn display(&self) -> (r: String)
        requires
            self.wf(),
        ensures
            r@ == formula_chars(self.functions@),
    {
        let mut out = String::new();
        let mut i: usize = 0;
        while i < self.functions.len()
            invariant
                self.wf(),
                0 <= i <= self.functions@.len(),
                out@ == formula_chars(self.functions@.take(i as int)),
            decreases self.functions@.len() - i,
        {
            if i > 0 {
                out.append(" + ");
            }
            let t = self.functions[i].display();
            out.append(t.as_str());
            proof {
                assert(self.functions@.take(i as int + 1).drop_last() =~= self.functions@.take(
                    i as int,
                ));
                assert(self.functions@.take(i as int + 1).last() == self.functions@[i as int]);
                assert(out@ =~= formula_chars(self.functions@.take(i as int + 1)));
            }
            i = i + 1;
        }
        proof {
            assert(self.functions@.take(self.functions@.len() as int) =~= self.functions@);
        }
        out
    }
}

/// Keeps a drifted parameter within the representable range; inside it,
/// the value passes unchanged.
fn clamp_param(v: i64) -> (r: i64)
    requires
        -PARAM_LIMIT - 6 * NOISE_STEP <= v <= PARAM_LIMIT + 6 * NOISE_STEP,
    ensures
        r as int == (if v > PARAM_LIMIT {
            PARAM_LIMIT as int
        } else if v < -PARAM_LIMIT {
            -(PARAM_LIMIT as int)
        } else {
            v as int
        }),
{
    if v > PARAM_LIMIT {
        PARAM_LIMIT
    } else if v < -PARAM_LIMIT {
        -PARAM_LIMIT
    } else {
        v
    }
}

/// A zero-mean drift step of standard deviation `NOISE_STEP` ticks: the
/// centred sum of twelve uniform draws, which approximates the Gaussian
/// noise of the mutation rule.
fn gaussian_step(source: &mut RandomSource) -> (r: i64)
    requires
        old(source).wf(),
    ensures
        final(source).wf(),
        -6 * NOISE_STEP <= r <= 6 * NOISE_STEP,
{
    let mut acc: i64 = 0;
    let mut k: usize = 0;
    while k < 12
        invariant
            source.wf(),
            0 <= k <= 12,
            0 <= acc <= (k as int) * NOISE_STEP,
        decreases 12 - k,
    {
        let d = source.draw_below((NOISE_STEP + 1) as u64);
        acc = acc + d as i64;
        k = k + 1;
    }
    acc - 6 * NOISE_STEP
}

} // verus!
