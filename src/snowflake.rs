use vstd::prelude::*;

use crate::clock::wall_clock_millis;

verus! {

/// The instant that id timestamps count from: 2018-01-01T00:00:00Z, in
/// milliseconds since the Unix epoch.
pub const STANDARD_EPOCH: u64 = 1514736000000;

const WORKER_ID_SHIFT: u64 = 12;

const TIMESTAMP_LEFT_SHIFT: u64 = 22;

const SEQUENCE_MASK: u16 = 0xFFF;

const WORKER_ID_MASK: u16 = 0x3FF;

/// How many polls of the clock `wait_for_next_milli_sec` makes at most.
const MAX_CLOCK_POLLS: u64 = 0xFFFF_FFFF_FFFF_FFFF;

/// Why no id was issued.
#[derive(Clone, Copy, Debug, PartialEq, Eq, Structural)]
pub enum GenerateError {
    /// The clock reads earlier than the last id's timestamp.
    ClockMovedBackwards,
    /// The clock reads earlier than `STANDARD_EPOCH`.
    ClockBeforeEpoch,
    /// The clock did not move past the last id's millisecond.
    ClockStalled,
}

/// The id bits: milliseconds since `STANDARD_EPOCH` above bit 22, the worker
/// id in bits 12 to 21, the sequence in bits 0 to 11.
pub open spec fn encode(timestamp: u64, worker_id: u16, sequence: u16) -> u64 {
    (((timestamp - STANDARD_EPOCH) as u64) << 22u64) | ((worker_id as u64) << 12u64) | (
    sequence as u64)
}

/// The timestamp that the bits of an id carry.
pub open spec fn timestamp_of(v: u64) -> int {
    (v >> 22u64) + STANDARD_EPOCH
}

/// The worker id that the bits of an id carry.
pub open spec fn worker_of(v: u64) -> u16 {
    ((v >> 12u64) & 0x3FFu64) as u16
}

/// The sequence that the bits of an id carry.
pub open spec fn sequence_of(v: u64) -> u16 {
    (v & 0xFFFu64) as u16
}

/// The fields of an id come back out of its bits, as long as the time since
/// the epoch fits in 42 bits.
pub proof fn lemma_decode(t: u64, w: u64, s: u64)
    requires
        t < 0x400_0000_0000u64,
        w < 1024,
        s < 4096,
    ensures
        ((t << 22u64) | (w << 12u64) | s) >> 22u64 == t,
        (((t << 22u64) | (w << 12u64) | s) >> 12u64) & 0x3FFu64 == w,
        ((t << 22u64) | (w << 12u64) | s) & 0xFFFu64 == s,
{
    assert(((t << 22u64) | (w << 12u64) | s) >> 22u64 == t) by (bit_vector)
        requires
            t < 0x400_0000_0000u64,
            w < 1024,
            s < 4096,
    ;
    assert((((t << 22u64) | (w << 12u64) | s) >> 12u64) & 0x3FFu64 == w) by (bit_vector)
        requires
            t < 0x400_0000_0000u64,
            w < 1024,
            s < 4096,
    ;
    assert(((t << 22u64) | (w << 12u64) | s) & 0xFFFu64 == s) by (bit_vector)
        requires
            s < 4096,
    ;
}

/// Decoding an issued id gives back its timestamp, worker id and sequence.
pub proof fn lemma_encode_decode(timestamp: u64, worker_id: u16, sequence: u16)
    requires
        STANDARD_EPOCH <= timestamp,
        timestamp - STANDARD_EPOCH < 0x400_0000_0000u64,
        worker_id < 1024,
        sequence < 4096,
    ensures
        timestamp_of(encode(timestamp, worker_id, sequence)) == timestamp,
        worker_of(encode(timestamp, worker_id, sequence)) == worker_id,
        sequence_of(encode(timestamp, worker_id, sequence)) == sequence,
{
    lemma_decode((timestamp - STANDARD_EPOCH) as u64, worker_id as u64, sequence as u64);
}

/// Ids compare as their fields do: first by timestamp, then by sequence.
proof fn lemma_encode_order(t1: u64, t2: u64, w: u64, s1: u64, s2: u64)
    requires
        t1 <= t2 < 0x400_0000_0000u64,
        w < 1024,
        s1 < 4096,
        s2 < 4096,
        t1 < t2 || s1 < s2,
    ensures
        ((t1 << 22u64) | (w << 12u64) | s1) < ((t2 << 22u64) | (w << 12u64) | s2),
{
    assert(((t1 << 22u64) | (w << 12u64) | s1) < ((t2 << 22u64) | (w << 12u64) | s2)) by (bit_vector)
        requires
            t1 <= t2 < 0x400_0000_0000u64,
            w < 1024,
            s1 < 4096,
            s2 < 4096,
            t1 < t2 || s1 < s2,
    ;
}

/// A 64-bit id issued by a `Snowflake`.
#[derive(Debug)]
pub struct SnowFlakeId(u64);

impl View for SnowFlakeId {
    type V = u64;

    closed spec fn view(&self) -> u64 {
        self.0
    }
}

impl SnowFlakeId {
    /// The id as an integer.
    pub fn value(&self) -> (r: u64)
        ensures
            r == self@,
    {
        self.0
    }

    /// The millisecond at which the id was issued.
    pub fn snowflake_timestamp(&self) -> (r: u64)
        ensures
            r == timestamp_of(self@),
    {
        let v = self.0;
        assert(v >> 22u64 <= 0x3FF_FFFF_FFFFu64) by (bit_vector);
        (v >> TIMESTAMP_LEFT_SHIFT) + STANDARD_EPOCH
    }

    /// The worker id of the node that issued the id.
    pub fn worker_id(&self) -> (r: u16)
        ensures
            r == worker_of(self@),
    {
        let v = self.0;
        assert((v >> 12u64) & 0x3FFu64 <= 0x3FFu64) by (bit_vector);
        ((v >> WORKER_ID_SHIFT) & (WORKER_ID_MASK as u64)) as u16
    }

    /// The sequence of the id within its millisecond.
    pub fn sequence(&self) -> (r: u16)
        ensures
            r == sequence_of(self@),
    {
        let v = self.0;
        assert(v & 0xFFFu64 <= 0xFFFu64) by (bit_vector);
        (v & (SEQUENCE_MASK as u64)) as u16
    }
}

/// What an allocator holds: its worker id, the sequence of its last id, and
/// the millisecond of its last id.
#[derive(Clone, Copy, Debug, PartialEq, Eq, Structural)]
pub struct AllocatorState {
    pub worker_id: u16,
    pub sequence: u16,
    pub last_timestamp: u64,
}

impl AllocatorState {
    /// The worker id fits in 10 bits and the sequence in 12.
    pub open spec fn well_formed(self) -> bool {
        self.worker_id < 1024 && self.sequence < 4096
    }
}

/// One allocation at clock reading `now`, the sequence advancing by `step`:
/// the state after it, and the id issued, or `None` where the millisecond's
/// sequence would pass 4095 and the caller must wait for a later millisecond.
pub open spec fn issue_spec(s: AllocatorState, now: u64, step: u16) -> (
    AllocatorState,
    Result<Option<u64>, GenerateError>,
) {
    if now < s.last_timestamp {
        (s, Err(GenerateError::ClockMovedBackwards))
    } else if now < STANDARD_EPOCH {
        (s, Err(GenerateError::ClockBeforeEpoch))
    } else if now == s.last_timestamp {
        if s.sequence + step >= 4096 {
            (s, Ok(None))
        } else {
            let seq = (s.sequence + step) as u16;
            (
                AllocatorState { sequence: seq, ..s },
                Ok(Some(encode(now, s.worker_id, seq))),
            )
        }
    } else {
        (
            AllocatorState { sequence: 0, last_timestamp: now, ..s },
            Ok(Some(encode(now, s.worker_id, 0))),
        )
    }
}

/// The result of an allocation, with the id as its integer.
pub open spec fn id_result(r: Result<SnowFlakeId, GenerateError>) -> Result<u64, GenerateError> {
    match r {
        Ok(id) => Ok(id@),
        Err(e) => Err(e),
    }
}

/// A step that an allocation may take: 1, or with `jump` any of 1 to 5.
pub open spec fn allowed_step(jump: bool, step: u16) -> bool {
    1 <= step <= 5 && (!jump ==> step == 1)
}

/// What an allocation at some clock reading may do, the clock being read
/// anew for each call: issue an id as `issue_spec` does for that reading and
/// an allowed step, refuse as `issue_spec` refuses that reading, or stall
/// after the millisecond's sequence ran out. Every refusal keeps the state.
pub open spec fn allocation_spec(
    before: AllocatorState,
    jump: bool,
    r: Result<u64, GenerateError>,
    after: AllocatorState,
) -> bool {
    match r {
        Ok(v) => exists|now: u64, step: u16|
            allowed_step(jump, step) && #[trigger] issue_spec(before, now, step) == (
            after,
            Ok::<Option<u64>, GenerateError>(Some(v)),
        ),
        Err(GenerateError::ClockStalled) => after == before && exists|now: u64, step: u16|
            allowed_step(jump, step) && #[trigger] issue_spec(before, now, step).1 == Ok::<
                Option<u64>,
                GenerateError,
            >(None),
        Err(e) => after == before && exists|now: u64| #[trigger] issue_spec(before, now, 1).1
            == Err::<Option<u64>, GenerateError>(e),
    }
}

/// Two allocations without jump, one after the other, that both issue an id
/// within one millisecond give ids whose sequence fields differ by exactly
/// one, and whose timestamp and worker fields are equal (as long as the time
/// since the epoch fits in 42 bits).
pub proof fn lemma_allocations_same_millisecond(
    s0: AllocatorState,
    v1: u64,
    s1: AllocatorState,
    v2: u64,
    s2: AllocatorState,
)
    requires
        s0.well_formed(),
        allocation_spec(s0, false, Ok(v1), s1),
        allocation_spec(s1, false, Ok(v2), s2),
        s1.last_timestamp - STANDARD_EPOCH < 0x400_0000_0000u64,
        s2.last_timestamp - STANDARD_EPOCH < 0x400_0000_0000u64,
        timestamp_of(v1) == timestamp_of(v2),
    ensures
        sequence_of(v2) == sequence_of(v1) + 1,
        worker_of(v2) == worker_of(v1),
{
    let (now1, step1) = choose|now: u64, step: u16|
        allowed_step(false, step) && #[trigger] issue_spec(s0, now, step) == (
        s1,
        Ok::<Option<u64>, GenerateError>(Some(v1)),
    );
    let (now2, step2) = choose|now: u64, step: u16|
        allowed_step(false, step) && #[trigger] issue_spec(s1, now, step) == (
        s2,
        Ok::<Option<u64>, GenerateError>(Some(v2)),
    );
    assert(s1.well_formed() && s1.last_timestamp == now1 && s1.worker_id == s0.worker_id);
    assert(s2.last_timestamp == now2 && s2.worker_id == s0.worker_id);
    lemma_encode_decode(now1, s0.worker_id, s1.sequence);
    lemma_encode_decode(now2, s0.worker_id, s2.sequence);
}

/// An allocation without jump from a millisecond whose sequence is used up
/// (4095) that issues an id issues it at a later millisecond, with sequence 0.
pub proof fn lemma_allocation_after_exhaustion(s0: AllocatorState, v: u64, s1: AllocatorState)
    requires
        s0.well_formed(),
        s0.sequence == 4095,
        allocation_spec(s0, false, Ok(v), s1),
        s1.last_timestamp - STANDARD_EPOCH < 0x400_0000_0000u64,
    ensures
        timestamp_of(v) > s0.last_timestamp,
        sequence_of(v) == 0,
        s1.sequence == 0,
        s1.last_timestamp == timestamp_of(v),
{
    let (now, step) = choose|now: u64, step: u16|
        allowed_step(false, step) && #[trigger] issue_spec(s0, now, step) == (
        s1,
        Ok::<Option<u64>, GenerateError>(Some(v)),
    );
    assert(now > s0.last_timestamp);
    lemma_encode_decode(now, s0.worker_id, 0);
}

/// Issues ids of type `T`.
pub trait Idgend<T>: Sized {
    /// Whether `r` may come of an allocation that turns `before` into `after`.
    spec fn allocation(before: Self, jump: bool, r: Result<T, GenerateError>, after: Self) -> bool;

    /// Issues a new id.
    fn get(&mut self, jump: bool) -> (r: Result<T, GenerateError>)
        ensures
            Self::allocation(*old(self), jump, r, *final(self)),
    ;
}

/// The state after `n` allocations without jump, all at clock reading `now`.
pub open spec fn run_same_millisecond(s: AllocatorState, now: u64, n: nat) -> AllocatorState
    decreases n,
{
    if n == 0 {
        s
    } else {
        issue_spec(run_same_millisecond(s, now, (n - 1) as nat), now, 1).0
    }
}

/// Two allocations without jump in one millisecond that both issue an id
/// give ids whose sequence fields differ by exactly one, and whose timestamp
/// and worker fields are equal.
pub proof fn lemma_same_millisecond(s: AllocatorState, now: u64)
    requires
        s.well_formed(),
        now - STANDARD_EPOCH < 0x400_0000_0000u64,
        issue_spec(s, now, 1).1 matches Ok(Some(_)),
        issue_spec(issue_spec(s, now, 1).0, now, 1).1 matches Ok(Some(_)),
    ensures
        ({
            let v1 = issue_spec(s, now, 1).1->Ok_0->Some_0;
            let v2 = issue_spec(issue_spec(s, now, 1).0, now, 1).1->Ok_0->Some_0;
            &&& sequence_of(v2) == sequence_of(v1) + 1
            &&& timestamp_of(v2) == timestamp_of(v1)
            &&& worker_of(v2) == worker_of(v1)
        }),
{
    let s1 = issue_spec(s, now, 1).0;
    assert(s1.sequence < 4096 && s1.last_timestamp == now && s1.worker_id == s.worker_id);
    lemma_encode_decode(now, s.worker_id, s1.sequence);
    lemma_encode_decode(now, s.worker_id, (s1.sequence + 1) as u16);
}

/// Of two ids issued one after the other, with or without jump, the second
/// is greater: ids never repeat or go back, as long as the time since the
/// epoch fits in 42 bits.
pub proof fn lemma_ids_increase(s: AllocatorState, now1: u64, step1: u16, now2: u64, step2: u16)
    requires
        s.well_formed(),
        1 <= step1 <= 5,
        1 <= step2 <= 5,
        now2 - STANDARD_EPOCH < 0x400_0000_0000u64,
        issue_spec(s, now1, step1).1 matches Ok(Some(_)),
        issue_spec(issue_spec(s, now1, step1).0, now2, step2).1 matches Ok(Some(_)),
    ensures
        issue_spec(s, now1, step1).1->Ok_0->Some_0 < issue_spec(
            issue_spec(s, now1, step1).0,
            now2,
            step2,
        ).1->Ok_0->Some_0,
{
    let s1 = issue_spec(s, now1, step1).0;
    let s2 = issue_spec(s1, now2, step2).0;
    assert(s1.sequence < 4096 && s1.last_timestamp == now1 && s1.worker_id == s.worker_id);
    assert(s2.sequence < 4096 && s2.last_timestamp == now2 && s2.worker_id == s.worker_id);
    lemma_encode_order(
        (now1 - STANDARD_EPOCH) as u64,
        (now2 - STANDARD_EPOCH) as u64,
        s.worker_id as u64,
        s1.sequence as u64,
        s2.sequence as u64,
    );
}

/// Within one millisecond whose first id has sequence 0, the next 4095
/// allocations without jump issue sequences 1 to 4095; the one after that
/// cannot be issued in that millisecond, and once issued at a later one its
/// timestamp field is greater than that of the first id.
pub proof fn lemma_sequence_exhaustion(s: AllocatorState, now: u64, later: u64)
    requires
        s.well_formed(),
        s.last_timestamp == now,
        s.sequence == 0,
        STANDARD_EPOCH <= now < later,
        later - STANDARD_EPOCH < 0x400_0000_0000u64,
    ensures
        forall|k: nat|
            k < 4095 ==> #[trigger] issue_spec(run_same_millisecond(s, now, k), now, 1).1 == Ok::<
                Option<u64>,
                GenerateError,
            >(Some(encode(now, s.worker_id, (k + 1) as u16))),
        issue_spec(run_same_millisecond(s, now, 4095), now, 1).1 == Ok::<Option<u64>, GenerateError>(
            None,
        ),
        issue_spec(run_same_millisecond(s, now, 4095), later, 1).1 == Ok::<
            Option<u64>,
            GenerateError,
        >(Some(encode(later, s.worker_id, 0))),
        timestamp_of(encode(later, s.worker_id, 0)) > timestamp_of(encode(now, s.worker_id, 0)),
{
    assert forall|k: nat| k <= 4095 implies #[trigger] run_same_millisecond(s, now, k) == (
    AllocatorState { sequence: k as u16, ..s }) by {
        lemma_run_same_millisecond(s, now, k);
    }
    lemma_run_same_millisecond(s, now, 4095);
    lemma_encode_decode(later, s.worker_id, 0);
    lemma_encode_decode(now, s.worker_id, 0);
}

proof fn lemma_run_same_millisecond(s: AllocatorState, now: u64, k: nat)
    requires
        s.well_formed(),
        s.last_timestamp == now,
        s.sequence == 0,
        STANDARD_EPOCH <= now,
        k <= 4095,
    ensures
        run_same_millisecond(s, now, k) == (AllocatorState { sequence: k as u16, ..s }),
    decreases k,
{
    if k > 0 {
        lemma_run_same_millisecond(s, now, (k - 1) as nat);
    }
}

/// A per-node id allocator.
#[derive(Clone, Copy, Debug)]
pub struct Snowflake {
    worker_id: u16,
    sequence: u16,
    last_timestamp: u64,
}

impl View for Snowflake {
    type V = AllocatorState;

    closed spec fn view(&self) -> AllocatorState {
        AllocatorState {
            worker_id: self.worker_id,
            sequence: self.sequence,
            last_timestamp: self.last_timestamp,
        }
    }
}

/// The clock reading in milliseconds since the Unix epoch; a reading before
/// that epoch counts as the epoch itself.
fn current_timestamp_millis() -> (r: u64) {
    let t = wall_clock_millis();
    if t >= 0 {
        t as u64
    } else {
        0
    }
}

/// Relies on rand's `OsRng` and its `try_fill_bytes` (rand_core 0.6): two
/// bytes from the operating system's generator, or `None` where it fails.
/// Nothing is promised of the bytes.
#[verifier::external_body]
fn random_u16() -> (r: Option<u16>) {
    let mut bytes = [0u8; 2];
    match rand::RngCore::try_fill_bytes(&mut rand::rngs::OsRng, &mut bytes) {
        Ok(()) => Some(u16::from_le_bytes(bytes)),
        Err(_) => None,
    }
}

impl Snowflake {
    #[verifier::type_invariant]
    closed spec fn inv(&self) -> bool {
        self@.well_formed()
    }

    /// A fresh allocator for `worker_id`, of which the low 10 bits are kept.
    pub fn new(worker_id: u16) -> (r: Snowflake)
        ensures
            r@ == (AllocatorState { worker_id: worker_id % 1024, sequence: 0, last_timestamp: 0 }),
    {
        assert(worker_id & 0x3FFu16 == worker_id % 1024) by (bit_vector);
        Snowflake { worker_id: worker_id & WORKER_ID_MASK, sequence: 0, last_timestamp: 0 }
    }

    /// What the allocator holds.
    pub fn state(&self) -> (r: AllocatorState)
        ensures
            r == self@,
            r.well_formed(),
    {
        proof {
            use_type_invariant(self);
        }
        AllocatorState {
            worker_id: self.worker_id,
            sequence: self.sequence,
            last_timestamp: self.last_timestamp,
        }
    }

    /// One allocation at clock reading `now`, the sequence advancing by
    /// `step`; see `issue_spec`.
    pub fn issue(&mut self, now: u64, step: u16) -> (r: Result<Option<SnowFlakeId>, GenerateError>)
        requires
            1 <= step <= 5,
        ensures
            final(self)@ == issue_spec(old(self)@, now, step).0,
            match issue_spec(old(self)@, now, step).1 {
                Ok(Some(v)) => r matches Ok(Some(id)) && id@ == v,
                Ok(None) => r matches Ok(None),
                Err(e) => r == Err::<Option<SnowFlakeId>, GenerateError>(e),
            },
    {
        proof {
            use_type_invariant(&*self);
        }
        if now < self.last_timestamp {
            return Err(GenerateError::ClockMovedBackwards);
        }
        if now < STANDARD_EPOCH {
            return Err(GenerateError::ClockBeforeEpoch);
        }
        let seq = if now == self.last_timestamp {
            if self.sequence + step > SEQUENCE_MASK {
                return Ok(None);
            }
            self.sequence + step
        } else {
            0
        };
        *self = Snowflake { worker_id: self.worker_id, sequence: seq, last_timestamp: now };
        let v = ((now - STANDARD_EPOCH) << TIMESTAMP_LEFT_SHIFT) | ((self.worker_id as u64)
            << WORKER_ID_SHIFT) | (seq as u64);
        Ok(Some(SnowFlakeId(v)))
    }

    /// Polls the clock until it reads past the last id's millisecond; `None`
    /// if it never does within `MAX_CLOCK_POLLS` polls.
    pub fn wait_for_next_milli_sec(&self) -> (r: Option<u64>)
        ensures
            r matches Some(t) ==> t > self@.last_timestamp,
    {
        let mut polls: u64 = 0;
        while polls < MAX_CLOCK_POLLS
            decreases MAX_CLOCK_POLLS - polls,
        {
            let t = current_timestamp_millis();
            if t > self.last_timestamp {
                return Some(t);
            }
            polls += 1;
        }
        None
    }

    /// Issues the next id at the current clock reading. With `jump` the
    /// sequence advances by a random step from 1 to 5 (by 1 where no random
    /// number can be had), else by 1. Where the millisecond's sequence would
    /// pass 4095, waits for the next millisecond.
    pub fn allocate(&mut self, jump: bool) -> (r: Result<SnowFlakeId, GenerateError>)
        ensures
            final(self)@.worker_id == old(self)@.worker_id,
            allocation_spec(old(self)@, jump, id_result(r), final(self)@),
    {
        let now = current_timestamp_millis();
        let step: u16 = if jump {
            match random_u16() {
                Some(x) => 1 + x % 5,
                None => 1,
            }
        } else {
            1
        };
        match self.issue(now, step) {
            Ok(Some(id)) => Ok(id),
            Err(e) => {
                assert(issue_spec(old(self)@, now, 1).1 == Err::<Option<u64>, GenerateError>(e));
                Err(e)
            },
            Ok(None) => match self.wait_for_next_milli_sec() {
                Some(later) => match self.issue(later, step) {
                    Ok(Some(id)) => Ok(id),
                    _ => {
                        assert(false);
                        Err(GenerateError::ClockStalled)
                    },
                },
                None => Err(GenerateError::ClockStalled),
            },
        }
    }
}

impl Idgend<SnowFlakeId> for Snowflake {
    open spec fn allocation(
        before: Snowflake,
        jump: bool,
        r: Result<SnowFlakeId, GenerateError>,
        after: Snowflake,
    ) -> bool {
        after@.worker_id == before@.worker_id && allocation_spec(before@, jump, id_result(r), after@)
    }

    fn get(&mut self, jump: bool) -> Result<SnowFlakeId, GenerateError> {
        self.allocate(jump)
    }
}

} // verus!
