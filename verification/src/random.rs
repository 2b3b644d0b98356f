//! Random integers from the operating system's generator.
use rand::rngs::OsRng;
use rand::RngCore;
use vstd::prelude::*;

verus! {

#[verifier::external_type_specification]
#[verifier::external_body]
pub struct ExOsRng(rand::rngs::OsRng);

/// `rand::rngs::OsRng::new`: the handle on the operating system's generator,
/// or `None` where the call reports that the system offers no random source.
/// Nothing is claimed of the result.
#[verifier::external_body]
fn os_generator() -> (r: Option<OsRng>) {
    OsRng::new().ok()
}

/// `rand::RngCore::try_fill_bytes` on the operating system's generator, for
/// four bytes: the 32 random bits that it gave, or `None` where the call
/// reports an error. Nothing is claimed of the result.
#[verifier::external_body]
fn next_word(rng: &mut OsRng) -> (r: Option<u32>) {
    let mut bytes = [0u8; 4];
    match rng.try_fill_bytes(&mut bytes) {
        Ok(()) => Some(u32::from_le_bytes(bytes)),
        Err(_) => None,
    }
}

pub struct Rng {
    rng: OsRng,
}

/// `word` is what the generator gave when it was asked for 32 bits.
pub closed spec fn is_draw(word: u32) -> bool {
    exists|rng: &mut OsRng| #[trigger] call_ensures(next_word, (rng,), Some(word))
}

impl Rng {
    /// The number that a draw of `word` selects in `min ..= max`:
    /// `min + word mod (max - min + 1)`.
    pub open spec fn pick_spec(word: u32, min: i32, max: i32) -> int {
        min + word as int % (max - min + 1)
    }

    /// `r` is a number drawn from `min ..= max`: what 32 bits that the
    /// generator gave select there.
    pub open spec fn drawn_in(min: i32, max: i32, r: int) -> bool {
        exists|word: u32| #[trigger] is_draw(word) && r == Self::pick_spec(word, min, max)
    }

    /// The generator holds the handle that the operating system gave when it
    /// was asked for its random source, and nothing has been drawn from it.
    pub closed spec fn opened(&self) -> bool {
        call_ensures(os_generator, (), Some(self.rng))
    }

    /// A generator on the operating system's random source; `None` where the
    /// system reports that it has none.
    pub fn new() -> (r: Option<Self>)
        ensures
            r is Some ==> r->0.opened(),
    {
        match os_generator() {
            Some(rng) => Some(Self { rng }),
            None => None,
        }
    }

    /// Maps 32 random bits to a number in `min ..= max`.
    pub fn pick(word: u32, min: i32, max: i32) -> (r: i32)
        requires
            min <= max,
            max - min < i32::MAX,
        ensures
            r == Self::pick_spec(word, min, max),
            min <= r <= max,
    {
        let span: u32 = (max - min + 1) as u32;
        let offset: u32 = word % span;
        offset as i32 + min
    }

    /// Draws a number in `min ..= max`: 32 fresh random bits, reduced modulo
    /// the size of the range. `None` where the system's random source reports
    /// an error.
    pub fn gen_range(&mut self, min: i32, max: i32) -> (r: Option<i32>)
        requires
            min <= max,
            max - min < i32::MAX,
        ensures
            r is Some ==> min <= r->0 <= max && Self::drawn_in(min, max, r->0 as int),
    {
        match next_word(&mut self.rng) {
            Some(word) => {
                assert(is_draw(word));
                Some(Self::pick(word, min, max))
            },
            None => None,
        }
    }
}

} // verus!
