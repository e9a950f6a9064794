use vstd::prelude::*;

use crate::ids::{actor_subject, ActorId};

verus! {

/// Upper bound (exclusive) of a tamagotchi's power; defence is `MAX_POWER - power`.
pub const MAX_POWER: u16 = 10_000;
/// Upper end of the preferred power range.
pub const MAX_RANGE: u16 = 7_000;
/// Lower end of the preferred power range.
pub const MIN_RANGE: u16 = 3_000;

/// The big-endian 16-bit number made of two bytes.
pub open spec fn be_u16(hi: u8, lo: u8) -> int {
    hi as int * 256 + lo as int
}

/// The power candidate read from bytes `i` and `i + 1` of a random value.
pub open spec fn power_candidate(random: Seq<u8>, i: int) -> int {
    be_u16(random[i], random[i + 1]) % (MAX_POWER as int)
}

pub open spec fn in_power_range(p: int) -> bool {
    MIN_RANGE <= p <= MAX_RANGE
}

/// The first candidate from position `i` on (up to position 30) that lies in
/// the preferred range, or the candidate at position 30 when none does.
pub open spec fn power_from(random: Seq<u8>, i: int) -> int
    decreases 30 - i,
{
    if i >= 30 {
        power_candidate(random, 30)
    } else if in_power_range(power_candidate(random, i)) {
        power_candidate(random, i)
    } else {
        power_from(random, i + 1)
    }
}

/// The power that a random value gives a tamagotchi.
pub open spec fn spec_power(random: Seq<u8>) -> int {
    power_from(random, 0)
}

/// The penalty that a random value gives for a skipped move.
pub open spec fn spec_damage(random: Seq<u8>) -> int {
    be_u16(random[0], random[1]) % 500
}

/// The index in `0..range` that a random value picks (0 for an empty range).
pub open spec fn spec_random_value(range: u8, random: Seq<u8>) -> int {
    if range == 0 {
        0
    } else {
        (random[0] % range) as int
    }
}

/// Picks an index in `0..range` from a value returned by the runtime's random source.
pub fn random_value_of(range: u8, random: &[u8; 32]) -> (v: u8)
    ensures
        v == spec_random_value(range, random@),
        range > 0 ==> v < range,
{
    if range == 0 {
        return 0;
    }
    random[0] % range
}

/// The penalty (below 500) for a skipped move, from a value returned by the
/// runtime's random source.
pub fn damage_of(random: &[u8; 32]) -> (d: u16)
    ensures
        d == spec_damage(random@),
        d < 500,
{
    let hi: u16 = random[0] as u16;
    let lo: u16 = random[1] as u16;
    (hi * 256 + lo) % 500
}

/// The power of a tamagotchi from the value that the runtime's random source
/// returns for its id: the first big-endian pair of neighbouring bytes that,
/// taken modulo `MAX_POWER`, lies in `MIN_RANGE..=MAX_RANGE`, else the last pair.
pub fn power_of(random: &[u8; 32]) -> (p: u16)
    ensures
        p == spec_power(random@),
        p < MAX_POWER,
        forall|k: int| #![trigger random@[k]]
            0 <= k <= 30 && 3000 <= (random@[k] as int * 256 + random@[k + 1] as int) % 10000 <= 7000
            && (forall|j: int| #![trigger random@[j]]
                0 <= j < k ==> !(3000 <= (random@[j] as int * 256 + random@[j + 1] as int) % 10000 <= 7000))
            ==> p == (random@[k] as int * 256 + random@[k + 1] as int) % 10000,
        (forall|j: int| #![trigger random@[j]]
            0 <= j <= 30 ==> !(3000 <= (random@[j] as int * 256 + random@[j + 1] as int) % 10000 <= 7000))
            ==> p == (random@[30] as int * 256 + random@[31] as int) % 10000,
{
    let mut i: usize = 0;
    loop
        invariant
            i < 31,
            spec_power(random@) == power_from(random@, i as int),
        decreases 31 - i,
    {
        let hi: u16 = random[i] as u16;
        let lo: u16 = random[i + 1] as u16;
        let candidate: u16 = (hi * 256 + lo) % MAX_POWER;
        assert(candidate == power_candidate(random@, i as int));
        if i == 30 || (candidate >= MIN_RANGE && candidate <= MAX_RANGE) {
            proof {
                lemma_power_first_in_range(random@);
            }
            return candidate;
        }
        i = i + 1;
    }
}

/// The power is the first candidate (bytes `i` and `i + 1` read big-endian,
/// modulo 10000, for `i` up to 30) that lies in 3000..=7000; when none does,
/// it is the candidate at 30.
pub proof fn lemma_power_first_in_range(random: Seq<u8>)
    requires
        random.len() == 32,
    ensures
        forall|k: int| #![trigger random[k]]
            0 <= k <= 30 && 3000 <= (random[k] as int * 256 + random[k + 1] as int) % 10000 <= 7000
            && (forall|j: int| #![trigger random[j]]
                0 <= j < k ==> !(3000 <= (random[j] as int * 256 + random[j + 1] as int) % 10000 <= 7000))
            ==> spec_power(random) == (random[k] as int * 256 + random[k + 1] as int) % 10000,
        (forall|j: int| #![trigger random[j]]
            0 <= j <= 30 ==> !(3000 <= (random[j] as int * 256 + random[j + 1] as int) % 10000 <= 7000))
            ==> spec_power(random) == (random[30] as int * 256 + random[31] as int) % 10000,
{
    assert forall|k: int| #![trigger random[k]]
        0 <= k <= 30 && 3000 <= (random[k] as int * 256 + random[k + 1] as int) % 10000 <= 7000
        && (forall|j: int| #![trigger random[j]]
            0 <= j < k ==> !(3000 <= (random[j] as int * 256 + random[j + 1] as int) % 10000 <= 7000))
        implies spec_power(random) == (random[k] as int * 256 + random[k + 1] as int) % 10000 by {
        lemma_power_from_first(random, 0, k);
    }
    if forall|j: int| #![trigger random[j]]
        0 <= j <= 30 ==> !(3000 <= (random[j] as int * 256 + random[j + 1] as int) % 10000 <= 7000) {
        lemma_power_from_none(random, 0);
    }
}

proof fn lemma_power_from_first(random: Seq<u8>, i: int, k: int)
    requires
        0 <= i <= k <= 30,
        in_power_range(power_candidate(random, k)),
        forall|j: int| #![trigger random[j]]
            0 <= j < k ==> !(3000 <= (random[j] as int * 256 + random[j + 1] as int) % 10000 <= 7000),
    ensures
        power_from(random, i) == power_candidate(random, k),
    decreases k - i,
{
    if i < k {
        assert(!(3000 <= (random[i] as int * 256 + random[i + 1] as int) % 10000 <= 7000));
        lemma_power_from_first(random, i + 1, k);
    }
}

proof fn lemma_power_from_none(random: Seq<u8>, i: int)
    requires
        0 <= i <= 30,
        forall|j: int| #![trigger random[j]]
            0 <= j <= 30 ==> !(3000 <= (random[j] as int * 256 + random[j + 1] as int) % 10000 <= 7000),
    ensures
        power_from(random, i) == power_candidate(random, 30),
    decreases 30 - i,
{
    if i < 30 {
        assert(!(3000 <= (random[i] as int * 256 + random[i + 1] as int) % 10000 <= 7000));
        lemma_power_from_none(random, i + 1);
    }
}

/// If some pair of neighbouring bytes gives a candidate in the preferred
/// range, the power lies in that range.
pub proof fn lemma_power_in_range(random: Seq<u8>, k: int)
    requires
        random.len() == 32,
        0 <= k <= 30,
        in_power_range(power_candidate(random, k)),
    ensures
        in_power_range(spec_power(random)),
{
    lemma_power_from_in_range(random, 0, k);
}

proof fn lemma_power_from_in_range(random: Seq<u8>, i: int, k: int)
    requires
        0 <= i <= k <= 30,
        in_power_range(power_candidate(random, k)),
    ensures
        in_power_range(power_from(random, i)),
    decreases k - i,
{
    if i < k && !in_power_range(power_candidate(random, i)) {
        lemma_power_from_in_range(random, i + 1, k);
    }
}

/// Every power lies below `MAX_POWER`.
pub proof fn lemma_power_below_max(random: Seq<u8>, i: int)
    ensures
        0 <= power_from(random, i) < MAX_POWER,
    decreases 30 - i,
{
    if i < 30 && !in_power_range(power_candidate(random, i)) {
        lemma_power_below_max(random, i + 1);
    }
}

/// The counter that makes successive draws from the runtime's random source differ.
pub struct RandomSeed {
    pub value: u8,
}

/// The subject handed to the random source for a draw at seed `s`: 32 copies of `s`.
pub open spec fn seed_subject(s: u8, subject: Seq<u8>) -> bool {
    subject.len() == 32 && forall|i: int| 0 <= i < 32 ==> subject[i] == s
}

impl RandomSeed {
    pub fn new() -> (seed: RandomSeed)
        ensures
            seed.value == 0,
    {
        RandomSeed { value: 0 }
    }

    /// The subject for the next draw; the seed moves on by one (wrapping).
    pub fn next_subject(&mut self) -> (subject: [u8; 32])
        ensures
            seed_subject(old(self).value, subject@),
            final(self).value == (old(self).value + 1) % 256,
    {
        let subject = [self.value; 32];
        self.value = self.value.wrapping_add(1);
        subject
    }

    /// The subject for a draw of an index in `0..range`: none for an empty range,
    /// which takes no draw and leaves the seed as it is.
    pub fn subject_for_range(&mut self, range: u8) -> (subject: Option<[u8; 32]>)
        ensures
            range == 0 ==> subject is None && final(self).value == old(self).value,
            range != 0 ==> subject is Some && seed_subject(old(self).value, subject->0@)
                && final(self).value == (old(self).value + 1) % 256,
    {
        if range == 0 {
            None
        } else {
            Some(self.next_subject())
        }
    }
}

/// Calls `gstd::exec::random`, the Gear runtime's random source: the value it
/// derives for `subject` from the current block's randomness. Nothing is
/// claimed of the value, which depends on the block; the call is a syscall of
/// the runtime and only returns inside it.
#[verifier::external_body]
pub(crate) fn runtime_random(subject: [u8; 32]) -> (random: [u8; 32]) {
    let (random, _) = gstd::exec::random(subject).expect("Error in getting random number");
    random
}

/// Draws an index in `0..range` from the runtime's random source, with the
/// next seed as subject; an empty range gives 0 without a draw.
pub fn get_random_value(seed: &mut RandomSeed, range: u8) -> (v: u8)
    ensures
        range == 0 ==> v == 0 && final(seed).value == old(seed).value,
        range != 0 ==> v < range && final(seed).value == (old(seed).value + 1) % 256,
{
    match seed.subject_for_range(range) {
        None => 0,
        Some(subject) => random_value_of(range, &runtime_random(subject)),
    }
}

/// Draws the penalty (below 500) for a skipped move from the runtime's random
/// source, with the next seed as subject.
pub fn generate_damage(seed: &mut RandomSeed) -> (d: u16)
    ensures
        d < 500,
        final(seed).value == (old(seed).value + 1) % 256,
{
    let subject = seed.next_subject();
    damage_of(&runtime_random(subject))
}

/// Draws the power of tamagotchi `tmg_id` from the runtime's random source,
/// with the id's bytes as subject.
pub fn generate_power(tmg_id: &ActorId) -> (p: u16)
    ensures
        p < MAX_POWER,
{
    power_of(&runtime_random(actor_subject(tmg_id)))
}

} // verus!
