//! Snowflake-style id generation: 64-bit identifiers laid out as
//! `[timestamp (41 bits) | datacenter (5 bits) | machine (5 bits) | sequence (12 bits)]`,
//! strictly increasing for a single generator even when the wall clock
//! stalls or runs backwards.

use vstd::prelude::*;

verus! {

pub const MACHINE_ID_BITS: u64 = 5;

pub const DATACENTER_ID_BITS: u64 = 5;

pub const SEQUENCE_BITS: u64 = 12;

pub const MAX_MACHINE_ID: u64 = 0x1F;

pub const MAX_DATACENTER_ID: u64 = 0x1F;

pub const MAX_SEQUENCE: u64 = 0xFFF;

pub const MACHINE_ID_SHIFT: u64 = 12;

pub const DATACENTER_ID_SHIFT: u64 = 17;

pub const TIMESTAMP_SHIFT: u64 = 22;

/// Largest timestamp that fits the 41-bit field of the id layout.
pub const MAX_TIMESTAMP: u64 = 0x1FF_FFFF_FFFF;

/// How an id is assembled from its four fields; matches the executable
/// composition bit for bit, with the same truncation of oversized fields.
pub open spec fn spec_compose_id(timestamp: u64, datacenter_id: u64, machine_id: u64, sequence: u64) -> u64 {
    (timestamp << TIMESTAMP_SHIFT) | (datacenter_id << DATACENTER_ID_SHIFT) | (machine_id
        << MACHINE_ID_SHIFT) | sequence
}

/// Generates snowflake ids. The `(last_timestamp, sequence)` pair is the
/// generator's whole mutable state; every successful call moves that pair
/// strictly upward in lexicographic order, which is what makes the ids
/// unique. A process that shares one generator must guard it with a mutex
/// so the state update stays atomic.
pub struct SnowflakeGenerator {
    pub machine_id: u64,
    pub datacenter_id: u64,
    pub last_timestamp: u64,
    pub sequence: u64,
}

impl SnowflakeGenerator {
    /// The configuration fields fit their 5-bit slots and the counter its
    /// 12-bit slot, so composed ids decode back to these fields.
    pub open spec fn wf(self) -> bool {
        &&& self.machine_id <= MAX_MACHINE_ID
        &&& self.datacenter_id <= MAX_DATACENTER_ID
        &&& self.sequence <= MAX_SEQUENCE
    }

    /// The state pair `(last_timestamp, sequence)` of `post` is strictly
    /// greater, lexicographically, than that of `pre`.
    pub open spec fn state_advanced(pre: Self, post: Self) -> bool {
        ||| post.last_timestamp > pre.last_timestamp
        ||| (post.last_timestamp == pre.last_timestamp && post.sequence > pre.sequence)
    }

    pub fn new(machine_id: u64, datacenter_id: u64) -> (r: Self)
        ensures
            r.machine_id == machine_id,
            r.datacenter_id == datacenter_id,
            r.last_timestamp == 0,
            r.sequence == 0,
    {
        SnowflakeGenerator { machine_id, datacenter_id, last_timestamp: 0, sequence: 0 }
    }

    pub fn next_id(&mut self) -> (id: u64)
        requires
            old(self).wf(),
        ensures
            final(self).wf(),
            final(self).machine_id == old(self).machine_id,
            final(self).datacenter_id == old(self).datacenter_id,
            final(self).last_timestamp >= old(self).last_timestamp,
            old(self).last_timestamp < u64::MAX ==> Self::state_advanced(*old(self), *final(self)),
            final(self).last_timestamp > old(self).last_timestamp ==> final(self).sequence == 0,
            final(self).last_timestamp == old(self).last_timestamp ==> final(self).sequence
                <= old(self).sequence + 1,
            id == spec_compose_id(
                final(self).last_timestamp,
                final(self).datacenter_id,
                final(self).machine_id,
                final(self).sequence,
            ),
            old(self).last_timestamp <= MAX_TIMESTAMP && final(self).last_timestamp
                <= MAX_TIMESTAMP ==> id > spec_compose_id(
                old(self).last_timestamp,
                old(self).datacenter_id,
                old(self).machine_id,
                old(self).sequence,
            ),
    {
        let now = self.current_timestamp();

        // A clock running backwards is clamped to the last value seen, so the
        // timestamp component never regresses.
        let mut current_timestamp = if now < self.last_timestamp {
            self.last_timestamp
        } else {
            now
        };

        if current_timestamp == self.last_timestamp {
            if self.sequence == MAX_SEQUENCE {
                // The 12-bit counter is exhausted for this millisecond.
                if current_timestamp < u64::MAX {
                    current_timestamp = self.wait_next_millis(current_timestamp);
                    self.sequence = 0;
                }
                // At the (unreachable) ceiling of the 64-bit millisecond
                // counter the state cannot move; the counter stays saturated.
            } else {
                self.sequence = self.sequence + 1;
            }
        } else {
            self.sequence = 0;
        }

        self.last_timestamp = current_timestamp;

        let id = (current_timestamp << TIMESTAMP_SHIFT) | (self.datacenter_id
            << DATACENTER_ID_SHIFT) | (self.machine_id << MACHINE_ID_SHIFT) | self.sequence;
        proof {
            if old(self).last_timestamp <= MAX_TIMESTAMP && self.last_timestamp <= MAX_TIMESTAMP {
                lemma_id_monotonic(
                    old(self).last_timestamp,
                    old(self).sequence,
                    self.last_timestamp,
                    self.sequence,
                    self.datacenter_id,
                    self.machine_id,
                );
            }
        }
        id
    }

    /// Reads the wall clock in milliseconds, clamped below `2^63`.
    fn current_timestamp(&self) -> (r: u64)
        ensures
            r < 0x8000_0000_0000_0000u64,
    {
        let raw = clock_millis_raw();
        if raw > 0x7FFF_FFFF_FFFF_FFFFu128 {
            0x7FFF_FFFF_FFFF_FFFFu64
        } else {
            raw as u64
        }
    }

    /// Polls the clock until it passes `last_timestamp`. The poll count is
    /// bounded so the loop provably terminates; if the clock never advances
    /// within the bound, the logical timestamp moves one millisecond ahead of
    /// it, which later calls treat exactly like clock regression.
    fn wait_next_millis(&self, last_timestamp: u64) -> (r: u64)
        requires
            last_timestamp < u64::MAX,
        ensures
            r > last_timestamp,
    {
        let mut polls_left: u64 = 0xFFFF_FFFF_FFFF_FFFFu64;
        let mut now = self.current_timestamp();
        while now <= last_timestamp && polls_left > 0
            decreases polls_left,
        {
            now = self.current_timestamp();
            polls_left = polls_left - 1;
        }
        if now > last_timestamp {
            now
        } else {
            last_timestamp + 1
        }
    }

    pub fn parse_timestamp(id: u64) -> (r: u64)
        ensures
            r == id >> TIMESTAMP_SHIFT,
    {
        id >> TIMESTAMP_SHIFT
    }

    pub fn parse_datacenter_id(id: u64) -> (r: u64)
        ensures
            r == (id >> DATACENTER_ID_SHIFT) & MAX_DATACENTER_ID,
    {
        (id >> DATACENTER_ID_SHIFT) & MAX_DATACENTER_ID
    }

    pub fn parse_machine_id(id: u64) -> (r: u64)
        ensures
            r == (id >> MACHINE_ID_SHIFT) & MAX_MACHINE_ID,
    {
        (id >> MACHINE_ID_SHIFT) & MAX_MACHINE_ID
    }

    pub fn parse_sequence(id: u64) -> (r: u64)
        ensures
            r == id & MAX_SEQUENCE,
    {
        id & MAX_SEQUENCE
    }
}

/// A fresh generator's first id; the one-shot form of the generator. The
/// configuration fields decode back out of the id whatever the clock read,
/// and the counter field is at most one (zero unless the clock read the
/// epoch itself).
pub fn generate_snowflake_id_with_config(machine_id: u64, datacenter_id: u64) -> (id: u64)
    requires
        machine_id <= MAX_MACHINE_ID,
        datacenter_id <= MAX_DATACENTER_ID,
    ensures
        (id >> DATACENTER_ID_SHIFT) & MAX_DATACENTER_ID == datacenter_id,
        (id >> MACHINE_ID_SHIFT) & MAX_MACHINE_ID == machine_id,
        id & MAX_SEQUENCE <= 1,
{
    let mut generator = SnowflakeGenerator::new(machine_id, datacenter_id);
    let id = generator.next_id();
    proof {
        lemma_id_low_fields_recovered(
            generator.last_timestamp,
            datacenter_id,
            machine_id,
            generator.sequence,
        );
    }
    id
}

/// Composed ids decode back to the fields they were built from, as long as
/// each field fits its slot of the layout.
pub proof fn lemma_id_fields_recovered(timestamp: u64, datacenter_id: u64, machine_id: u64, sequence: u64)
    requires
        timestamp <= MAX_TIMESTAMP,
        datacenter_id <= MAX_DATACENTER_ID,
        machine_id <= MAX_MACHINE_ID,
        sequence <= MAX_SEQUENCE,
    ensures
        spec_compose_id(timestamp, datacenter_id, machine_id, sequence) >> TIMESTAMP_SHIFT == timestamp,
        (spec_compose_id(timestamp, datacenter_id, machine_id, sequence) >> DATACENTER_ID_SHIFT)
            & MAX_DATACENTER_ID == datacenter_id,
        (spec_compose_id(timestamp, datacenter_id, machine_id, sequence) >> MACHINE_ID_SHIFT)
            & MAX_MACHINE_ID == machine_id,
        spec_compose_id(timestamp, datacenter_id, machine_id, sequence) & MAX_SEQUENCE == sequence,
{
    assert(((timestamp << 22) | (datacenter_id << 17) | (machine_id << 12) | sequence) >> 22
        == timestamp) by (bit_vector)
        requires
            timestamp < 0x200_0000_0000u64,
            datacenter_id < 0x20u64,
            machine_id < 0x20u64,
            sequence < 0x1000u64,
    ;
    assert((((timestamp << 22) | (datacenter_id << 17) | (machine_id << 12) | sequence) >> 17)
        & 0x1Fu64 == datacenter_id) by (bit_vector)
        requires
            timestamp < 0x200_0000_0000u64,
            datacenter_id < 0x20u64,
            machine_id < 0x20u64,
            sequence < 0x1000u64,
    ;
    assert((((timestamp << 22) | (datacenter_id << 17) | (machine_id << 12) | sequence) >> 12)
        & 0x1Fu64 == machine_id) by (bit_vector)
        requires
            timestamp < 0x200_0000_0000u64,
            datacenter_id < 0x20u64,
            machine_id < 0x20u64,
            sequence < 0x1000u64,
    ;
    assert(((timestamp << 22) | (datacenter_id << 17) | (machine_id << 12) | sequence) & 0xFFFu64
        == sequence) by (bit_vector)
        requires
            timestamp < 0x200_0000_0000u64,
            datacenter_id < 0x20u64,
            machine_id < 0x20u64,
            sequence < 0x1000u64,
    ;
}

/// Id monotonicity: of two ids composed by one generator (same datacenter
/// and machine fields), the one whose `(timestamp, sequence)` state pair is
/// lexicographically greater is the numerically greater id. Together with
/// the strict state advance that `next_id` guarantees, successively issued
/// ids strictly increase, so no two of them collide.
pub proof fn lemma_id_monotonic(
    ts1: u64,
    seq1: u64,
    ts2: u64,
    seq2: u64,
    datacenter_id: u64,
    machine_id: u64,
)
    requires
        ts1 <= MAX_TIMESTAMP,
        ts2 <= MAX_TIMESTAMP,
        seq1 <= MAX_SEQUENCE,
        seq2 <= MAX_SEQUENCE,
        datacenter_id <= MAX_DATACENTER_ID,
        machine_id <= MAX_MACHINE_ID,
        ts1 < ts2 || (ts1 == ts2 && seq1 < seq2),
    ensures
        spec_compose_id(ts1, datacenter_id, machine_id, seq1) < spec_compose_id(
            ts2,
            datacenter_id,
            machine_id,
            seq2,
        ),
{
    let d = datacenter_id;
    let m = machine_id;
    assert(((ts1 << 22) | (d << 17) | (m << 12) | seq1) < ((ts2 << 22) | (d << 17) | (m << 12)
        | seq2)) by (bit_vector)
        requires
            ts1 < 0x200_0000_0000u64,
            ts2 < 0x200_0000_0000u64,
            seq1 < 0x1000u64,
            seq2 < 0x1000u64,
            d < 0x20u64,
            m < 0x20u64,
            ts1 < ts2 || (ts1 == ts2 && seq1 < seq2),
    ;
}


/// The configuration and counter fields decode out of any composed id,
/// whatever the timestamp: the low 22 bits of the composition hold only
/// the datacenter, machine and sequence fields.
pub proof fn lemma_id_low_fields_recovered(
    timestamp: u64,
    datacenter_id: u64,
    machine_id: u64,
    sequence: u64,
)
    requires
        datacenter_id <= MAX_DATACENTER_ID,
        machine_id <= MAX_MACHINE_ID,
        sequence <= MAX_SEQUENCE,
    ensures
        (spec_compose_id(timestamp, datacenter_id, machine_id, sequence) >> DATACENTER_ID_SHIFT)
            & MAX_DATACENTER_ID == datacenter_id,
        (spec_compose_id(timestamp, datacenter_id, machine_id, sequence) >> MACHINE_ID_SHIFT)
            & MAX_MACHINE_ID == machine_id,
        spec_compose_id(timestamp, datacenter_id, machine_id, sequence) & MAX_SEQUENCE == sequence,
{
    let d = datacenter_id;
    let m = machine_id;
    assert((((timestamp << 22) | (d << 17) | (m << 12) | sequence) >> 17) & 0x1Fu64 == d)
        by (bit_vector)
        requires
            d < 0x20u64,
            m < 0x20u64,
            sequence < 0x1000u64,
    ;
    assert((((timestamp << 22) | (d << 17) | (m << 12) | sequence) >> 12) & 0x1Fu64 == m)
        by (bit_vector)
        requires
            d < 0x20u64,
            m < 0x20u64,
            sequence < 0x1000u64,
    ;
    assert(((timestamp << 22) | (d << 17) | (m << 12) | sequence) & 0xFFFu64 == sequence)
        by (bit_vector)
        requires
            d < 0x20u64,
            m < 0x20u64,
            sequence < 0x1000u64,
    ;
}

/// Ids issued in succession by one generator strictly increase, and two
/// ids of the same logical clock tick carry strictly increasing sequence
/// numbers. Together with the strict state advance that `next_id`
/// guarantees, this is the generator's id-level monotonicity, for
/// timestamps within the 41-bit field. Callers drawing ids concurrently
/// serialize on the lock guarding the generator, so their calls compose
/// these steps.
pub proof fn lemma_issued_ids_increase(
    pre: SnowflakeGenerator,
    post: SnowflakeGenerator,
    id1: u64,
    id2: u64,
)
    requires
        pre.wf(),
        post.wf(),
        post.machine_id == pre.machine_id,
        post.datacenter_id == pre.datacenter_id,
        pre.last_timestamp <= MAX_TIMESTAMP,
        post.last_timestamp <= MAX_TIMESTAMP,
        SnowflakeGenerator::state_advanced(pre, post),
        id1 == spec_compose_id(pre.last_timestamp, pre.datacenter_id, pre.machine_id, pre.sequence),
        id2 == spec_compose_id(
            post.last_timestamp,
            post.datacenter_id,
            post.machine_id,
            post.sequence,
        ),
    ensures
        id2 > id1,
        id2 >> TIMESTAMP_SHIFT == id1 >> TIMESTAMP_SHIFT ==> (id2 & MAX_SEQUENCE) > (id1
            & MAX_SEQUENCE),
{
    lemma_id_fields_recovered(pre.last_timestamp, pre.datacenter_id, pre.machine_id, pre.sequence);
    lemma_id_fields_recovered(
        post.last_timestamp,
        post.datacenter_id,
        post.machine_id,
        post.sequence,
    );
    lemma_id_monotonic(
        pre.last_timestamp,
        pre.sequence,
        post.last_timestamp,
        post.sequence,
        pre.datacenter_id,
        pre.machine_id,
    );
}

/// No two distinct field tuples compose to the same id: timestamp,
/// sequence, datacenter and machine all decode back out of the id, so two
/// generators with different configuration, or one generator at two
/// states, never collide.
pub proof fn lemma_id_unique(
    ts1: u64,
    dc1: u64,
    m1: u64,
    seq1: u64,
    ts2: u64,
    dc2: u64,
    m2: u64,
    seq2: u64,
)
    requires
        ts1 <= MAX_TIMESTAMP,
        ts2 <= MAX_TIMESTAMP,
        dc1 <= MAX_DATACENTER_ID,
        dc2 <= MAX_DATACENTER_ID,
        m1 <= MAX_MACHINE_ID,
        m2 <= MAX_MACHINE_ID,
        seq1 <= MAX_SEQUENCE,
        seq2 <= MAX_SEQUENCE,
        ts1 != ts2 || dc1 != dc2 || m1 != m2 || seq1 != seq2,
    ensures
        spec_compose_id(ts1, dc1, m1, seq1) != spec_compose_id(ts2, dc2, m2, seq2),
{
    lemma_id_fields_recovered(ts1, dc1, m1, seq1);
    lemma_id_fields_recovered(ts2, dc2, m2, seq2);
}

/// Relies on `std::time::SystemTime::now`: milliseconds elapsed since the
/// Unix epoch, or zero if the system clock reads before the epoch.
#[verifier::external_body]
fn clock_millis_raw() -> u128 {
    match std::time::SystemTime::now().duration_since(std::time::UNIX_EPOCH) {
        Ok(elapsed) => elapsed.as_millis(),
        Err(_) => 0,
    }
}

} // verus!
