//! The parameters and the memory of the fuzz effect.
//!
//! The effect's filter is floating-point arithmetic and runs outside this
//! library. What the library holds is the parameter record, checked once
//! against the ranges that the effect is defined for, and the filter's
//! memory of the samples that it saw and gave last.

use crate::sample::{
    is_finite, lemma_magnitude_increases, lemma_magnitude_of_one, magnitude, unit, value, INFINITY,
    ONE, SIGN_BIT, UNSIGNED_MASK,
};
use vstd::prelude::*;

verus! {

/// Whether the pattern is a number between 0 and 1, both included.
pub open spec fn in_unit_interval(bits: u32) -> bool {
    is_finite(bits) && 0 <= value(bits) <= unit()
}

/// Whether the pattern is a finite number above 0.
pub open spec fn is_positive(bits: u32) -> bool {
    is_finite(bits) && value(bits) > 0
}

/// Tests a pattern for a number between 0 and 1.
pub fn check_unit_interval(bits: u32) -> (inside: bool)
    ensures
        inside == in_unit_interval(bits),
{
    let a: u32 = bits & UNSIGNED_MASK;
    assert(a == bits % 0x8000_0000) by (bit_vector)
        requires
            a == bits & 0x7fff_ffff,
    ;
    proof {
        lemma_magnitude_of_one();
        if a < ONE {
            lemma_magnitude_increases(a, ONE);
        }
        if ONE < a && a <= INFINITY {
            lemma_magnitude_increases(ONE, a);
        }
        if 0 < a && a <= INFINITY {
            lemma_magnitude_increases(0, a);
        }
    }
    (bits < SIGN_BIT || a == 0) && a <= ONE
}

/// Tests a pattern for a finite number above 0.
pub fn check_positive(bits: u32) -> (positive: bool)
    ensures
        positive == is_positive(bits),
{
    proof {
        if 0 < bits && bits <= INFINITY {
            lemma_magnitude_increases(0, bits);
        }
    }
    0 < bits && bits < INFINITY
}

/// The three parameters of the effect, each as the bit pattern of a
/// single-precision number: fuzz and level between 0 and 1, and a positive
/// sample rate. A record is fixed once made.
#[derive(Clone, Copy, Debug, PartialEq, Eq, Structural)]
pub struct EffectParameters {
    fuzz: u32,
    level: u32,
    sample_rate: u32,
}

impl EffectParameters {
    /// The three values lie in the ranges of the effect.
    #[verifier::type_invariant]
    spec fn in_range(self) -> bool {
        Self::accepts(self.fuzz, self.level, self.sample_rate)
    }

    /// Whether the three values lie in the ranges of the effect.
    pub open spec fn accepts(fuzz: u32, level: u32, sample_rate: u32) -> bool {
        in_unit_interval(fuzz) && in_unit_interval(level) && is_positive(sample_rate)
    }

    /// The fuzz amount.
    pub closed spec fn fuzz_bits(self) -> u32 {
        self.fuzz
    }

    /// The output level.
    pub closed spec fn level_bits(self) -> u32 {
        self.level
    }

    /// The sample rate.
    pub closed spec fn sample_rate_bits(self) -> u32 {
        self.sample_rate
    }

    /// The record of the three values, where each lies in its range.
    pub fn new(fuzz: u32, level: u32, sample_rate: u32) -> (parameters: Option<Self>)
        ensures
            Self::accepts(fuzz, level, sample_rate) ==> parameters is Some && ({
                let made = parameters->Some_0;
                made.fuzz_bits() == fuzz && made.level_bits() == level && made.sample_rate_bits()
                    == sample_rate
            }),
            !Self::accepts(fuzz, level, sample_rate) ==> parameters is None,
    {
        if check_unit_interval(fuzz) && check_unit_interval(level) && check_positive(sample_rate) {
            Some(EffectParameters { fuzz, level, sample_rate })
        } else {
            None
        }
    }

    /// The fuzz amount, a number between 0 and 1.
    pub fn fuzz(&self) -> (bits: u32)
        ensures
            bits == self.fuzz_bits(),
            in_unit_interval(bits),
    {
        proof {
            use_type_invariant(self);
        }
        self.fuzz
    }

    /// The output level, a number between 0 and 1.
    pub fn level(&self) -> (bits: u32)
        ensures
            bits == self.level_bits(),
            in_unit_interval(bits),
    {
        proof {
            use_type_invariant(self);
        }
        self.level
    }

    /// The sample rate, a finite number above 0.
    pub fn sample_rate(&self) -> (bits: u32)
        ensures
            bits == self.sample_rate_bits(),
            is_positive(bits),
    {
        proof {
            use_type_invariant(self);
        }
        self.sample_rate
    }
}


/// The three most recent entries of a history, the newest first, with
/// zeros where the history is shorter.
pub open spec fn recent(history: Seq<u32>) -> Seq<u32> {
    Seq::new(
        3,
        |k: int|
            if k < history.len() {
                history[history.len() - 1 - k]
            } else {
                0u32
            },
    )
}

/// The memory of one channel's filter: the three most recent input
/// samples and the three most recent output samples, the newest first, as
/// bit patterns. It starts with zeros and changes by one sample at a time.
#[derive(Clone, Copy, Debug, PartialEq, Eq)]
pub struct FilterState {
    inputs: [u32; 3],
    outputs: [u32; 3],
}

impl FilterState {
    /// The input samples, the newest first.
    pub closed spec fn input_taps(self) -> Seq<u32> {
        self.inputs@
    }

    /// The output samples, the newest first.
    pub closed spec fn output_taps(self) -> Seq<u32> {
        self.outputs@
    }

    /// The memory of a filter that has seen nothing: all zeros.
    pub fn new() -> (state: Self)
        ensures
            state.input_taps() == recent(Seq::<u32>::empty()),
            state.output_taps() == recent(Seq::<u32>::empty()),
    {
        let state = FilterState { inputs: [0, 0, 0], outputs: [0, 0, 0] };
        assert(state.inputs@ =~= recent(Seq::<u32>::empty()));
        assert(state.outputs@ =~= recent(Seq::<u32>::empty()));
        state
    }

    /// The input samples, the newest first.
    pub fn inputs(&self) -> (taps: [u32; 3])
        ensures
            taps@ == self.input_taps(),
    {
        self.inputs
    }

    /// The output samples, the newest first.
    pub fn outputs(&self) -> (taps: [u32; 3])
        ensures
            taps@ == self.output_taps(),
    {
        self.outputs
    }

    /// Takes in one step of the filter: the sample that came in and the
    /// sample that went out. The oldest sample of each side is forgotten.
    pub fn push(&mut self, input: u32, output: u32)
        ensures
            final(self).input_taps() == seq![input, old(self).input_taps()[0], old(self).input_taps()[1]],
            final(self).output_taps() == seq![
                output,
                old(self).output_taps()[0],
                old(self).output_taps()[1],
            ],
    {
        let inputs: [u32; 3] = [input, self.inputs[0], self.inputs[1]];
        let outputs: [u32; 3] = [output, self.outputs[0], self.outputs[1]];
        assert(inputs@ =~= seq![input, self.inputs@[0], self.inputs@[1]]);
        assert(outputs@ =~= seq![output, self.outputs@[0], self.outputs@[1]]);
        self.inputs = inputs;
        self.outputs = outputs;
    }
}

/// The memory keeps up with the stream: where the taps are the three most
/// recent entries of a history, the taps after one more sample are the
/// three most recent entries of the history with that sample added.
pub proof fn lemma_taps_follow_history(history: Seq<u32>, sample: u32)
    ensures
        recent(history.push(sample)) == seq![sample, recent(history)[0], recent(history)[1]],
{
    assert(recent(history.push(sample)) =~= seq![sample, recent(history)[0], recent(history)[1]]);
}

} // verus!
