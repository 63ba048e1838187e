//! The decorative mask that is echoed in place of a typed character.
//!
//! The mask is visual noise. It says nothing about what was typed and protects nothing.

use rand::Rng;
use vstd::prelude::*;

verus! {

/// The number of glyphs in a mask.
pub const MASK_LEN: usize = 11;

#[verifier::external_type_specification]
#[verifier::external_body]
pub struct ExThreadRng(rand::rngs::ThreadRng);

/// `rand::thread_rng` hands out the calling thread's generator, which the system
/// seeds on first use. Nothing is claimed of it. It fails where the system
/// gives no seed, which no argument decides.
pub assume_specification[ rand::thread_rng ]() -> (rng: rand::rngs::ThreadRng)
;

/// `Rng::gen` draws a `bool` from the generator. Nothing is claimed of the
/// outcome: either value may come, whatever came before.
#[verifier::external_body]
fn flip(rng: &mut rand::rngs::ThreadRng) -> (heads: bool) {
    rng.gen()
}

/// The emphasised glyph for heads, the plain one for tails.
pub open spec fn glyph(heads: bool) -> char {
    if heads {
        'O'
    } else {
        'o'
    }
}

/// The mask that a sequence of coin flips spells.
pub open spec fn mask_of(flips: Seq<bool>) -> Seq<char> {
    Seq::new(flips.len(), |i: int| glyph(flips[i]))
}

/// `MASK_LEN` glyphs, each emphasised or plain.
pub open spec fn is_mask(mask: Seq<char>) -> bool {
    &&& mask.len() == MASK_LEN
    &&& forall|i: int| 0 <= i < mask.len() ==> mask[i] == 'O' || mask[i] == 'o'
}

/// Spells the mask for the given coin flips.
pub fn render_mask(flips: &Vec<bool>) -> (mask: String)
    ensures
        mask@ == mask_of(flips@),
{
    let mut mask = String::new();
    let mut at: usize = 0;
    while at < flips.len()
        invariant
            at <= flips.len(),
            mask@ == mask_of(flips@.take(at as int)),
        decreases flips.len() - at,
    {
        if flips[at] {
            mask.push('O');
        } else {
            mask.push('o');
        }
        at = at + 1;
        assert(mask@ =~= mask_of(flips@.take(at as int)));
    }
    assert(flips@.take(at as int) =~= flips@);
    mask
}

/// Draws a fresh mask: one fair coin flip for each of its `MASK_LEN` glyphs.
pub fn gen_pwmask() -> (mask: String)
    ensures
        is_mask(mask@),
{
    let mut rng = rand::thread_rng();
    let mut flips: Vec<bool> = Vec::new();
    while flips.len() < MASK_LEN
        invariant
            flips.len() <= MASK_LEN,
        decreases MASK_LEN - flips.len(),
    {
        let heads = flip(&mut rng);
        flips.push(heads);
    }
    render_mask(&flips)
}

/// Whatever the coins show, `MASK_LEN` flips spell a mask.
pub proof fn lemma_flips_spell_a_mask(flips: Seq<bool>)
    requires
        flips.len() == MASK_LEN,
    ensures
        is_mask(mask_of(flips)),
{
}

} // verus!
