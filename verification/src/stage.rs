//! The processing stage of a channel.

use crate::fuzz::EffectParameters;
use crate::utils::{convert_to_f24_like, is_quantized_block};
use vstd::prelude::*;

verus! {

/// What a channel does to each block.
#[derive(Clone, Copy, Debug, PartialEq, Eq, Structural)]
pub enum Stage {
    /// The output is the input.
    PassThrough,
    /// The fuzz effect with the given parameters, followed by the reduction
    /// to 24-bit precision.
    Fuzz(EffectParameters),
}

impl Stage {
    /// Whether `after` is what the stage makes of the block `before`, once
    /// the effect's filter, where the stage has one, has been run on it.
    pub open spec fn yields(self, before: Seq<u32>, after: Seq<u32>) -> bool {
        match self {
            Stage::PassThrough => after == before,
            Stage::Fuzz(_) => is_quantized_block(after, before),
        }
    }

    /// The parameters of the effect's filter, where the stage has one. The
    /// filter is to be run on a block before `process`.
    pub fn parameters(&self) -> (parameters: Option<EffectParameters>)
        ensures
            parameters == match *self {
                Stage::PassThrough => None::<EffectParameters>,
                Stage::Fuzz(given) => Some(given),
            },
    {
        match self {
            Stage::PassThrough => None,
            Stage::Fuzz(given) => Some(*given),
        }
    }

    /// Applies the stage to a block of sample patterns, in place. A
    /// pass-through stage leaves the block as it is. A fuzz stage expects
    /// the block as its filter left it and reduces each sample to 24-bit
    /// precision.
    pub fn process(&self, block: &mut Vec<u32>)
        ensures
            self.yields(old(block)@, final(block)@),
    {
        match self {
            Stage::PassThrough => {},
            Stage::Fuzz(_) => {
                convert_to_f24_like(block);
            },
        }
    }
}

} // verus!
