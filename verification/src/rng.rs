use rand::seq::SliceRandom;
use rand::Rng;
use rand::SeedableRng;
use vstd::prelude::*;

verus! {

/// The generator that boards and final-round questions are drawn with. What
/// it yields is fixed by the bytes it was made from, but nothing in this
/// library looks inside it.
#[verifier::external_type_specification]
#[verifier::external_body]
pub struct ExChaCha20Rng(rand_chacha::ChaCha20Rng);

/// The generator that is keyed with `bytes`, before anything is drawn from
/// it.
pub uninterp spec fn seeded_generator(bytes: Seq<u8>) -> rand_chacha::ChaCha20Rng;

/// A generator whose stream is fixed by `bytes`.
///
/// Trusted: calls `rand_chacha::ChaCha20Rng::from_seed`, which makes the
/// generator's state from the thirty-two bytes and from nothing else. The
/// generator is known here only by its name.
#[verifier::external_body]
pub(crate) fn rng_from_bytes(bytes: [u8; 32]) -> (rng: rand_chacha::ChaCha20Rng)
    ensures
        rng == seeded_generator(bytes@),
{
    rand_chacha::ChaCha20Rng::from_seed(bytes)
}

/// The position that the generator `rng`, as it stands, draws next among
/// `length` items, where there are any.
pub uninterp spec fn drawn_position(rng: rand_chacha::ChaCha20Rng, length: nat) -> nat;

/// The generator `rng` after it has drawn among `length` items.
pub uninterp spec fn after_draw(rng: rand_chacha::ChaCha20Rng, length: nat) -> rand_chacha::ChaCha20Rng;

/// One item of `pool`, drawn with `rng`.
///
/// Trusted: calls `rand::seq::SliceRandom::choose`, which returns nothing for
/// an empty slice, without a draw, and otherwise the item at a position
/// that it draws below the slice's length. The position and what the draw
/// leaves of the generator depend on the generator and the length alone and
/// are known here only by their names.
#[verifier::external_body]
pub(crate) fn choose_with<'a, T>(rng: &mut rand_chacha::ChaCha20Rng, pool: &'a Vec<T>) -> (chosen:
    Option<&'a T>)
    ensures
        pool@.len() == 0 ==> chosen is None && *final(rng) == *old(rng),
        pool@.len() > 0 ==> {
            &&& drawn_position(*old(rng), pool@.len()) < pool@.len()
            &&& chosen matches Some(item) && *item == pool@[drawn_position(
                *old(rng),
                pool@.len(),
            ) as int]
            &&& *final(rng) == after_draw(*old(rng), pool@.len())
        },
{
    pool.choose(rng)
}

/// One item of `pool`, drawn with the generator of the running thread.
///
/// Trusted: calls `rand::thread_rng` and `rand::seq::SliceRandom::choose`,
/// which returns nothing for an empty slice and otherwise the item at an
/// index that it draws below the slice's length.
#[verifier::external_body]
pub(crate) fn choose_at_random<'a, T>(pool: &'a Vec<T>) -> (chosen: Option<&'a T>)
    ensures
        pool@.len() == 0 ==> chosen is None,
        pool@.len() > 0 ==> chosen is Some && pool@.contains(*chosen.unwrap()),
{
    pool.choose(&mut rand::thread_rng())
}

/// Thirty-two bits drawn with the generator of the running thread.
///
/// Trusted: calls `rand::thread_rng` and `rand::Rng::gen`. Nothing is claimed
/// of the result.
#[verifier::external_body]
pub(crate) fn random_u32() -> (value: u32) {
    rand::thread_rng().gen()
}

} // verus!
