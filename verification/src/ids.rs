use vstd::prelude::*;

verus! {

/// A 32-byte account or program identifier, held as four big-endian 64-bit words.
#[derive(Clone, Copy, Debug, PartialEq, Eq, Structural)]
pub struct ActorId {
    pub w0: u64,
    pub w1: u64,
    pub w2: u64,
    pub w3: u64,
}

/// A 32-byte message identifier, held as four big-endian 64-bit words.
#[derive(Clone, Copy, Debug, PartialEq, Eq, Structural)]
pub struct MessageId {
    pub w0: u64,
    pub w1: u64,
    pub w2: u64,
    pub w3: u64,
}

/// A 32-byte gas reservation identifier, held as four big-endian 64-bit words.
#[derive(Clone, Copy, Debug, PartialEq, Eq, Structural)]
pub struct ReservationId {
    pub w0: u64,
    pub w1: u64,
    pub w2: u64,
    pub w3: u64,
}

pub open spec fn zero_actor() -> ActorId {
    ActorId { w0: 0, w1: 0, w2: 0, w3: 0 }
}

pub open spec fn zero_message() -> MessageId {
    MessageId { w0: 0, w1: 0, w2: 0, w3: 0 }
}

impl ActorId {
    /// The all-zero identifier.
    pub fn zero() -> (id: ActorId)
        ensures
            id == zero_actor(),
    {
        ActorId { w0: 0, w1: 0, w2: 0, w3: 0 }
    }
}

impl MessageId {
    /// The all-zero identifier.
    pub fn zero() -> (id: MessageId)
        ensures
            id == zero_message(),
    {
        MessageId { w0: 0, w1: 0, w2: 0, w3: 0 }
    }
}

/// The eight bytes of a word, most significant first.
pub open spec fn word_bytes(w: u64) -> Seq<u8> {
    seq![
        ((w >> 56u64) & 0xffu64) as u8,
        ((w >> 48u64) & 0xffu64) as u8,
        ((w >> 40u64) & 0xffu64) as u8,
        ((w >> 32u64) & 0xffu64) as u8,
        ((w >> 24u64) & 0xffu64) as u8,
        ((w >> 16u64) & 0xffu64) as u8,
        ((w >> 8u64) & 0xffu64) as u8,
        (w & 0xffu64) as u8,
    ]
}

/// The 32 bytes of an actor id.
pub open spec fn actor_bytes(id: ActorId) -> Seq<u8> {
    word_bytes(id.w0) + word_bytes(id.w1) + word_bytes(id.w2) + word_bytes(id.w3)
}

fn word_to_bytes(w: u64) -> (b: [u8; 8])
    ensures
        b@ == word_bytes(w),
{
    let b = [
        ((w >> 56u64) & 0xffu64) as u8,
        ((w >> 48u64) & 0xffu64) as u8,
        ((w >> 40u64) & 0xffu64) as u8,
        ((w >> 32u64) & 0xffu64) as u8,
        ((w >> 24u64) & 0xffu64) as u8,
        ((w >> 16u64) & 0xffu64) as u8,
        ((w >> 8u64) & 0xffu64) as u8,
        (w & 0xffu64) as u8,
    ];
    assert(b@ =~= word_bytes(w));
    b
}

/// The bytes of `id`, as the runtime sees it.
pub fn actor_subject(id: &ActorId) -> (b: [u8; 32])
    ensures
        b@ == actor_bytes(*id),
{
    let a = word_to_bytes(id.w0);
    let c = word_to_bytes(id.w1);
    let d = word_to_bytes(id.w2);
    let e = word_to_bytes(id.w3);
    let b = [
        a[0], a[1], a[2], a[3], a[4], a[5], a[6], a[7],
        c[0], c[1], c[2], c[3], c[4], c[5], c[6], c[7],
        d[0], d[1], d[2], d[3], d[4], d[5], d[6], d[7],
        e[0], e[1], e[2], e[3], e[4], e[5], e[6], e[7],
    ];
    assert(b@ =~= actor_bytes(*id));
    b
}

} // verus!

verus! {

impl View for ReservationId {
    type V = ReservationId;

    open spec fn view(&self) -> ReservationId {
        *self
    }
}

} // verus!
