//! Sources of randomness: the system generator, and a scripted sequence that
//! repeats its values in a cycle, for deterministic runs.

use vstd::prelude::*;

verus! {

/// Relies on `rand::random::<bool>`: an unpredictable draw; nothing can be
/// promised of its value.
#[verifier::external_body]
pub fn random() -> bool {
    rand::random()
}

#[verifier::external_type_specification]
#[verifier::external_body]
pub struct ExThreadRng(rand::rngs::ThreadRng);

/// Relies on `rand::thread_rng`: a handle to the thread-local generator.
#[verifier::external_body]
pub fn thread_rng() -> rand::rngs::ThreadRng {
    rand::thread_rng()
}

/// Relies on `rand::Rng::gen_range` on an inclusive range: the documentation
/// promises a value within the range; an empty range panics and is ruled out
/// by the precondition.
#[verifier::external_body]
fn gen_range_u32(rng: &mut rand::rngs::ThreadRng, lo: u32, hi: u32) -> (r: u32)
    requires
        lo <= hi,
    ensures
        lo <= r <= hi,
{
    rand::Rng::gen_range(rng, lo..=hi)
}

/// Where a handler's random values come from.
#[derive(Debug)]
pub enum RandomSource {
    /// The process-wide generator.
    System,
    /// A fixed sequence, consumed in order and repeated in a cycle.
    Scripted { values: Vec<u64>, next: usize },
}

/// The value a scripted source yields at position `next`.
pub open spec fn scripted_at(values: Seq<u64>, next: int) -> u64 {
    values[next % (values.len() as int)]
}

/// The position after one scripted draw.
pub open spec fn advanced(next: int, len: int) -> int {
    ((next % len) + 1) % len
}

/// The die value a scripted source yields at position `pos` for a die with
/// this many sides: the scripted value when it is in range, else one.
pub open spec fn scripted_roll(values: Seq<u64>, pos: int, sides: int) -> u32 {
    let v = scripted_at(values, pos);
    if 1 <= v <= sides {
        v as u32
    } else {
        1u32
    }
}

/// Advancing a position in a cycle is addition by one, modulo the length.
pub proof fn lemma_advanced_is_add(next: int, len: int)
    requires
        len > 0,
        0 <= next,
    ensures
        advanced(next, len) == (next + 1) % len,
        0 <= advanced(next, len) < len,
{
    vstd::arithmetic::div_mod::lemma_mod_bound(next, len);
    vstd::arithmetic::div_mod::lemma_mod_bound(next + 1, len);
    let r = next % len;
    vstd::arithmetic::div_mod::lemma_mod_bound(r + 1, len);
    if len == 1 {
        assert(advanced(next, len) == (next + 1) % len);
    } else {
        vstd::arithmetic::div_mod::lemma_small_mod(1nat, len as nat);
        vstd::arithmetic::div_mod::lemma_mod_adds(next, 1, len);
        if r + 1 < len {
            vstd::arithmetic::div_mod::lemma_small_mod((r + 1) as nat, len as nat);
        } else {
            vstd::arithmetic::div_mod::lemma_mod_self_0(len);
            let q = (r + 1) / len;
            assert((next + 1) % len == 0) by (nonlinear_arith)
                requires
                    r + 1 == len,
                    r + 1 == (next + 1) % len + len * q,
                    0 <= (next + 1) % len < len,
            ;
        }
    }
}

impl RandomSource {
    /// Draws one bit. A scripted source yields whether its next value is
    /// non-zero (an exhausted script yields false) and advances in its
    /// cycle; nothing is promised of the system generator's bit.
    pub fn flip(&mut self) -> (r: bool)
        ensures
            match *old(self) {
                RandomSource::System => *final(self) == *old(self),
                RandomSource::Scripted { values, next } => {
                    if values@.len() == 0 {
                        r == false && *final(self) == *old(self)
                    } else {
                        r == (scripted_at(values@, next as int) != 0) && (*final(self) matches
                            RandomSource::Scripted { values: v2, next: n2 } && v2 == values
                            && n2 as int == advanced(next as int, values@.len() as int))
                    }
                },
            },
    {
        match self {
            RandomSource::System => {
                random()
            },
            RandomSource::Scripted { values, next } => {
                if values.len() == 0 {
                    false
                } else {
                    let len = values.len();
                    let i = *next % len;
                    let v = values[i];
                    *next = if i + 1 == len {
                        0
                    } else {
                        i + 1
                    };
                    proof {
                        lemma_advanced(*old(self), i as int, *next as int, len as int);
                    }
                    v != 0
                }
            },
        }
    }

    /// Draws one die roll in `[1, sides]`. A scripted source yields its next
    /// value when that value is in range and `1` otherwise, and advances in
    /// its cycle; a system draw is uniform but only its range is promised.
    pub fn die(&mut self, sides: u16) -> (r: u32)
        requires
            sides >= 1,
        ensures
            1 <= r <= sides as u32,
            match *old(self) {
                RandomSource::System => *final(self) == *old(self),
                RandomSource::Scripted { values, next } => {
                    if values@.len() == 0 {
                        r == 1 && *final(self) == *old(self)
                    } else {
                        ({
                            let v = scripted_at(values@, next as int);
                            r == if 1 <= v <= sides as u64 {
                                v as u32
                            } else {
                                1u32
                            }
                        }) && (*final(self) matches RandomSource::Scripted {
                            values: v2,
                            next: n2,
                        } && v2 == values && n2 as int == advanced(
                            next as int,
                            values@.len() as int,
                        ))
                    }
                },
            },
    {
        match self {
            RandomSource::System => {
                let mut rng = thread_rng();
                gen_range_u32(&mut rng, 1, sides as u32)
            },
            RandomSource::Scripted { values, next } => {
                if values.len() == 0 {
                    1
                } else {
                    let len = values.len();
                    let i = *next % len;
                    let v = values[i];
                    *next = if i + 1 == len {
                        0
                    } else {
                        i + 1
                    };
                    proof {
                        lemma_advanced(*old(self), i as int, *next as int, len as int);
                    }
                    if 1 <= v && v <= sides as u64 {
                        v as u32
                    } else {
                        1
                    }
                }
            },
        }
    }
}

proof fn lemma_advanced(src: RandomSource, i: int, newnext: int, len: int)
    requires
        len > 0,
        src matches RandomSource::Scripted { values, next } && i == next as int % len && newnext
            == (if i + 1 == len {
            0int
        } else {
            i + 1
        }),
    ensures
        src matches RandomSource::Scripted { values, next } ==> newnext == advanced(
            next as int,
            len,
        ),
{
    if src matches RandomSource::Scripted { values, next } {
        if i + 1 == len {
            vstd::arithmetic::div_mod::lemma_mod_self_0(len);
        } else {
            vstd::arithmetic::div_mod::lemma_small_mod((i + 1) as nat, len as nat);
        }
    }
}

} // verus!
