use vstd::arithmetic::power2::lemma2_to64;
use vstd::arithmetic::power2::lemma_pow2_strictly_increases;
use vstd::arithmetic::power2::lemma_pow2_unfold;
use vstd::arithmetic::power2::pow2;
use vstd::bits::lemma_u32_pow2_no_overflow;
use vstd::bits::lemma_u32_shl_is_mul;
use vstd::prelude::*;

use crate::active::ActiveOutlineModes;

verus! {

/// Number of step lengths in the jump-flood lookup table (one per bit of a `u32`).
pub const JUMP_FLOOD_STEP_TABLE_LEN: usize = 32;

/// `e` is the exponent of the smallest power of two that is at least `k`.
pub open spec fn is_ceil_log2(e: nat, k: nat) -> bool {
    &&& k <= pow2(e)
    &&& e == 0 || pow2((e - 1) as nat) < k
}

/// The step lengths a jump-flood pass can use: entry `bit` is `2^bit`.
pub fn jump_flood_step_lengths() -> (lengths: Vec<u32>)
    ensures
        lengths.len() == JUMP_FLOOD_STEP_TABLE_LEN,
        forall|i: int| 0 <= i < lengths.len() ==> lengths[i] == pow2(i as nat),
{
    let mut lengths: Vec<u32> = Vec::new();
    for bit in 0..32u32
        invariant
            lengths.len() == bit,
            forall|i: int| 0 <= i < lengths.len() ==> lengths[i] == pow2(i as nat),
    {
        proof {
            lemma_u32_pow2_no_overflow(bit as nat);
            lemma_u32_shl_is_mul(1, bit);
        }
        lengths.push(1u32 << bit);
    }
    lengths
}

/// The number of jump-flood passes for an outline whose doubled width, rounded up
/// to whole pixels, is `doubled_width` (`None` when the width is not positive).
///
/// With `k = doubled_width / 2 + 1`, the passes use step lengths `2^(passes-1)`
/// down to `1`, where `2^(passes-1)` is the smallest power of two at least `k`.
pub fn jump_flood_pass_count(doubled_width: Option<u32>) -> (passes: u32)
    ensures
        doubled_width is None ==> passes == 0,
        doubled_width matches Some(n) ==> {
            &&& 1 <= passes <= JUMP_FLOOD_STEP_TABLE_LEN
            &&& is_ceil_log2((passes - 1) as nat, (n / 2 + 1) as nat)
        },
{
    match doubled_width {
        None => 0,
        Some(n) => {
            let k: u32 = n / 2 + 1;
            let mut exponent: u32 = 0;
            let mut power: u32 = 1;
            proof {
                lemma2_to64();
            }
            while power < k
                invariant
                    power == pow2(exponent as nat),
                    k <= pow2(31),
                    pow2(31) == 0x8000_0000,
                    exponent <= 31,
                    exponent == 0 || pow2((exponent - 1) as nat) < k,
                decreases 31 - exponent,
            {
                proof {
                    if exponent == 31 {
                        assert(false);
                    }
                    lemma_pow2_unfold((exponent + 1) as nat);
                    if exponent < 30 {
                        lemma_pow2_strictly_increases((exponent + 1) as nat, 31);
                    }
                }
                power = power * 2;
                exponent = exponent + 1;
            }
            exponent + 1
        },
    }
}

/// The step-length indices of the passes, in the order they run: `passes - 1`
/// down to `0`.
pub fn jump_flood_pass_sizes(passes: u32) -> (sizes: Vec<u32>)
    ensures
        sizes.len() == passes,
        forall|i: int| 0 <= i < sizes.len() ==> sizes[i] == passes - 1 - i,
{
    let mut sizes: Vec<u32> = Vec::new();
    let mut remaining = passes;
    while remaining > 0
        invariant
            remaining <= passes,
            sizes.len() == passes - remaining,
            forall|i: int| 0 <= i < sizes.len() ==> sizes[i] == passes - 1 - i,
        decreases remaining,
    {
        remaining = remaining - 1;
        sizes.push(remaining);
    }
    sizes
}

/// Whether a view's flood textures include the owner texture: exactly when hull
/// outlines are active.
pub fn allocates_owner_texture(active: &ActiveOutlineModes) -> (r: bool)
    ensures
        r == active.has_hull,
{
    active.has_hull
}

/// The flood textures of a view: two ping-pong textures for the passes, the
/// outline depth texture, the appearance texture and, when hull outlines are
/// active, the owner texture.
#[derive(Debug, Clone)]
pub struct FloodTextures<T, D> {
    /// Whether the ping-pong roles of `input` and `output` are swapped.
    pub flip: bool,
    /// First ping-pong texture; the mask pass renders into `output`.
    pub input: T,
    /// Second ping-pong texture.
    pub output: T,
    /// Dedicated depth texture for the outlined meshes.
    pub outline_depth_texture: D,
    /// Outline color and mesh data.
    pub appearance_texture: T,
    /// Per-mesh owner ids, present only when hull outlines are active.
    pub owner_texture: Option<T>,
}

impl<T, D> FloodTextures<T, D> {
    /// The texture the next pass reads.
    pub open spec fn spec_input(&self) -> T {
        if self.flip {
            self.output
        } else {
            self.input
        }
    }

    /// The texture the next pass writes.
    pub open spec fn spec_output(&self) -> T {
        if self.flip {
            self.input
        } else {
            self.output
        }
    }

    /// Returns the texture the next pass reads.
    pub fn input(&self) -> (r: &T)
        ensures
            *r == self.spec_input(),
    {
        if self.flip {
            &self.output
        } else {
            &self.input
        }
    }

    /// Returns the texture the next pass writes.
    pub fn output(&self) -> (r: &T)
        ensures
            *r == self.spec_output(),
    {
        if self.flip {
            &self.input
        } else {
            &self.output
        }
    }

    /// Swaps the ping-pong roles of the two textures.
    pub fn flip(&mut self)
        ensures
            final(self).flip == !old(self).flip,
            final(self).input == old(self).input,
            final(self).output == old(self).output,
            final(self).outline_depth_texture == old(self).outline_depth_texture,
            final(self).appearance_texture == old(self).appearance_texture,
            final(self).owner_texture == old(self).owner_texture,
    {
        self.flip = !self.flip;
    }
}

} // verus!
