//! The key of a lookup: a grid cell and an instant.

use crate::encoding::{
    be_bytes_u32, be_bytes_u64, i32_bits, lemma_be_bytes_u32_injective,
    lemma_be_bytes_u64_injective, lemma_twos_complement_injective, push_u32_be, push_u64_be,
    twos_complement_u32,
};
use crate::time::{lemma_minutes_of_a_day_differ, CalendarMinute, Timestamp};
use vstd::prelude::*;

verus! {

/// The length of an encoded key in bytes: eight for the cell, four for each
/// of the five calendar fields.
pub const MESSAGE_LEN: usize = 28;

/// A cell of the hexagonal grid, by its index, and an instant.
#[derive(Clone, Copy, Debug, PartialEq, Eq, Structural)]
pub struct Spacetime {
    pub space: u64,
    pub time: Timestamp,
}

/// The BLAKE3 digest of a byte string, in its default mode and length.
pub uninterp spec fn blake3_of(input: Seq<u8>) -> Seq<u8>;

/// Calls `blake3::hash` and takes the digest's 32 bytes. Trusted: the digest
/// is a function of the input bytes alone.
#[verifier::external_body]
fn blake3_digest(input: &Vec<u8>) -> (r: [u8; 32])
    ensures
        r@ == blake3_of(input@),
{
    blake3::hash(input.as_slice()).into()
}

/// The bytes that are hashed for a cell and a calendar minute: the cell's
/// index, then year, month, day, hour and minute, each big-endian at its fixed
/// width, with nothing between them.
pub open spec fn encode_key(space: u64, cal: CalendarMinute) -> Seq<u8> {
    be_bytes_u64(space) + be_bytes_u32(twos_complement_u32(cal.year)) + be_bytes_u32(cal.month)
        + be_bytes_u32(cal.day) + be_bytes_u32(cal.hour) + be_bytes_u32(cal.minute)
}

impl Spacetime {
    /// The key's instant has calendar fields and lies on a minute boundary.
    pub open spec fn wf(self) -> bool {
        self.time.wf() && self.time.on_minute()
    }

    /// The key of a cell at an instant: the cell and the instant rounded down
    /// to its minute.
    pub open spec fn spec_new(space: u64, date_time: Timestamp) -> Spacetime {
        Spacetime { space, time: date_time.spec_floor_minute() }
    }

    /// The bytes that are hashed for this key.
    pub open spec fn spec_message(self) -> Seq<u8> {
        encode_key(self.space, self.time.spec_calendar())
    }

    /// The digest of this key.
    pub open spec fn spec_hash(self) -> Seq<u8> {
        blake3_of(self.spec_message())
    }

    /// The key of the cell `space` at the instant `date_time`: its time is
    /// `date_time` rounded down to the minute.
    pub fn new(space: u64, date_time: Timestamp) -> (r: Spacetime)
        requires
            date_time.wf(),
        ensures
            r == Spacetime::spec_new(space, date_time),
            r.space == space,
            r.time.secs == date_time.spec_minute_start(),
            r.time.nanos == 0,
            r.wf(),
    {
        Spacetime { space, time: date_time.floor_minute() }
    }

    /// The bytes that are hashed for this key.
    pub fn message(&self) -> (r: Vec<u8>)
        requires
            self.wf(),
        ensures
            r@ == self.spec_message(),
            r@.len() == MESSAGE_LEN,
    {
        let cal = self.time.calendar();
        let mut buf: Vec<u8> = Vec::new();
        push_u64_be(&mut buf, self.space);
        push_u32_be(&mut buf, i32_bits(cal.year));
        push_u32_be(&mut buf, cal.month);
        push_u32_be(&mut buf, cal.day);
        push_u32_be(&mut buf, cal.hour);
        push_u32_be(&mut buf, cal.minute);
        assert(buf@ =~= self.spec_message());
        buf
    }

    /// The digest of this key: the same for every instant of one minute.
    pub fn hash(&self) -> (r: [u8; 32])
        requires
            self.wf(),
        ensures
            r@ == self.spec_hash(),
    {
        let msg = self.message();
        blake3_digest(&msg)
    }
}

/// Instants of one minute give the same key on a cell, and so the same
/// digest.
pub proof fn lemma_same_minute_same_key(cell: u64, t1: Timestamp, t2: Timestamp)
    requires
        t1.same_minute(t2),
    ensures
        Spacetime::spec_new(cell, t1) == Spacetime::spec_new(cell, t2),
        Spacetime::spec_new(cell, t1).spec_hash() == Spacetime::spec_new(cell, t2).spec_hash(),
{
}

/// A key's time is a fixed point of rounding down: building a key from a
/// key's own time changes nothing.
pub proof fn lemma_new_idempotent(cell: u64, t: Timestamp)
    requires
        t.wf(),
    ensures
        Spacetime::spec_new(cell, t).wf(),
        Spacetime::spec_new(cell, Spacetime::spec_new(cell, t).time) == Spacetime::spec_new(
            cell,
            t,
        ),
{
}

/// Keys of different minutes of one day are hashed from different bytes.
pub proof fn lemma_distinct_minutes_distinct_messages(cell: u64, t1: Timestamp, t2: Timestamp)
    requires
        t1.wf(),
        t2.wf(),
        t1.secs / 86_400 == t2.secs / 86_400,
        !t1.same_minute(t2),
    ensures
        Spacetime::spec_new(cell, t1).spec_message() != Spacetime::spec_new(cell, t2).spec_message(),
{
    let k1 = Spacetime::spec_new(cell, t1);
    let k2 = Spacetime::spec_new(cell, t2);
    if k1.spec_message() == k2.spec_message() {
        lemma_encode_key_injective(cell, k1.time.spec_calendar(), cell, k2.time.spec_calendar());
        lemma_minutes_of_a_day_differ(t1, t2);
        assert(k1.time.spec_minute_start() == t1.spec_minute_start());
        assert(k2.time.spec_minute_start() == t2.spec_minute_start());
        assert(false);
    }
}

/// The encoding is free of ambiguity: keys that are hashed from the same bytes
/// have the same cell and the same calendar fields.
pub proof fn lemma_encode_key_injective(s1: u64, c1: CalendarMinute, s2: u64, c2: CalendarMinute)
    requires
        encode_key(s1, c1) == encode_key(s2, c2),
    ensures
        s1 == s2,
        c1 == c2,
{
    let m1 = encode_key(s1, c1);
    let m2 = encode_key(s2, c2);
    assert(m1.subrange(0, 8) =~= be_bytes_u64(s1));
    assert(m2.subrange(0, 8) =~= be_bytes_u64(s2));
    lemma_be_bytes_u64_injective(s1, s2);
    assert(m1.subrange(8, 12) =~= be_bytes_u32(twos_complement_u32(c1.year)));
    assert(m2.subrange(8, 12) =~= be_bytes_u32(twos_complement_u32(c2.year)));
    lemma_be_bytes_u32_injective(twos_complement_u32(c1.year), twos_complement_u32(c2.year));
    lemma_twos_complement_injective(c1.year, c2.year);
    assert(m1.subrange(12, 16) =~= be_bytes_u32(c1.month));
    assert(m2.subrange(12, 16) =~= be_bytes_u32(c2.month));
    lemma_be_bytes_u32_injective(c1.month, c2.month);
    assert(m1.subrange(16, 20) =~= be_bytes_u32(c1.day));
    assert(m2.subrange(16, 20) =~= be_bytes_u32(c2.day));
    lemma_be_bytes_u32_injective(c1.day, c2.day);
    assert(m1.subrange(20, 24) =~= be_bytes_u32(c1.hour));
    assert(m2.subrange(20, 24) =~= be_bytes_u32(c2.hour));
    lemma_be_bytes_u32_injective(c1.hour, c2.hour);
    assert(m1.subrange(24, 28) =~= be_bytes_u32(c1.minute));
    assert(m2.subrange(24, 28) =~= be_bytes_u32(c2.minute));
    lemma_be_bytes_u32_injective(c1.minute, c2.minute);
}

} // verus!
