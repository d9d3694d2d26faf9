//! The flow of bytes over one HTTP/2 stream: when to ask for capacity and how much to
//! send of what is to be written.

use vstd::prelude::*;

verus! {

/// The largest piece of one write: as much is sent, and asked for, at a time.
pub const MAX_WRITE_CHUNK: usize = 16384;

/// What a write begins with.
#[derive(Debug, Clone, Copy, PartialEq, Eq, Structural)]
pub enum WriteStart {
    /// Nothing is to be written.
    Done,
    /// Ask for so much capacity, then wait for it.
    Reserve(usize),
    /// Capacity was asked for already: wait for it.
    Await,
}

/// What to do with the capacity that came.
#[derive(Debug, Clone, Copy, PartialEq, Eq, Structural)]
pub enum WriteStep {
    /// Send so many bytes.
    Send(usize),
    /// None came yet: go on waiting.
    Await,
}

/// Whether a write waits for capacity.
#[derive(Debug, Clone, Copy)]
pub struct WriteGate {
    reserving: bool,
}

/// The smaller of two numbers.
pub open spec fn least(a: int, b: int) -> int {
    if a < b {
        a
    } else {
        b
    }
}

/// What a write of `len` bytes begins with.
pub open spec fn write_start(waiting: bool, len: int) -> WriteStart {
    if len == 0 {
        WriteStart::Done
    } else if waiting {
        WriteStart::Await
    } else {
        WriteStart::Reserve(least(len, MAX_WRITE_CHUNK as int) as usize)
    }
}

/// Whether a write waits for capacity once it has begun.
pub open spec fn waits_behind_start(waiting: bool, len: int) -> bool {
    waiting || len > 0
}

/// Whether it still waits when so much came.
pub open spec fn waits_behind_capacity(capacity: int, len: int) -> bool {
    sent_now(capacity, len) == 0
}

/// How many of `len` bytes are sent when so much capacity came.
pub open spec fn sent_now(capacity: int, len: int) -> int {
    least(least(capacity, len), MAX_WRITE_CHUNK as int)
}

/// What is done when so much capacity came.
pub open spec fn write_step(capacity: int, len: int) -> WriteStep {
    if sent_now(capacity, len) == 0 {
        WriteStep::Await
    } else {
        WriteStep::Send(sent_now(capacity, len) as usize)
    }
}

impl WriteGate {
    pub closed spec fn waiting(self) -> bool {
        self.reserving
    }

    /// A gate at which nothing waits.
    pub fn new() -> (g: Self)
        ensures
            !g.waiting(),
    {
        WriteGate { reserving: false }
    }

    /// Begins, or takes up, a write of `len` bytes. Capacity is asked for once.
    pub fn begin(&mut self, len: usize) -> (s: WriteStart)
        ensures
            s == write_start(old(self).waiting(), len as int),
            final(self).waiting() == waits_behind_start(old(self).waiting(), len as int),
    {
        if len == 0 {
            return WriteStart::Done;
        }
        if self.reserving {
            return WriteStart::Await;
        }
        self.reserving = true;
        if len < MAX_WRITE_CHUNK {
            WriteStart::Reserve(len)
        } else {
            WriteStart::Reserve(MAX_WRITE_CHUNK)
        }
    }

    /// Capacity came for a write of `len` bytes: send as much as it allows, at most one
    /// piece.
    pub fn on_capacity(&mut self, capacity: usize, len: usize) -> (s: WriteStep)
        ensures
            s == write_step(capacity as int, len as int),
            final(self).waiting() == waits_behind_capacity(capacity as int, len as int),
    {
        let allowed: usize = if capacity < len {
            capacity
        } else {
            len
        };
        let n: usize = if allowed < MAX_WRITE_CHUNK {
            allowed
        } else {
            MAX_WRITE_CHUNK
        };
        if n == 0 {
            self.reserving = true;
            return WriteStep::Await;
        }
        self.reserving = false;
        WriteStep::Send(n)
    }
}

impl Default for WriteGate {
    fn default() -> (g: Self)
        ensures
            !g.waiting(),
    {
        WriteGate::new()
    }
}

/// How much of what is buffered goes to a reader with so much room.
pub fn read_len(buffered: usize, room: usize) -> (n: usize)
    ensures
        n == least(buffered as int, room as int),
{
    if buffered < room {
        buffered
    } else {
        room
    }
}

/// A write asks for capacity once, for as much as it has, but no more than one piece of 16384
/// bytes; then it waits. An empty write asks for nothing.
pub proof fn law_capacity_is_asked_for_once(waiting: bool, len: usize)
    ensures
        len == 0 <==> write_start(waiting, len as int) == WriteStart::Done,
        len > 0 && waiting <==> write_start(waiting, len as int) == WriteStart::Await,
        len > 0 && !waiting ==> (write_start(waiting, len as int) matches WriteStart::Reserve(n) && n
            <= len && n <= 16384 && (n == len || n == 16384)),
        MAX_WRITE_CHUNK == 16384,
{
}

/// What is sent is as much as there is, as the capacity allows and as one piece holds: never
/// more than any of these, and as much as one of them; nothing only where nothing is allowed.
pub proof fn law_sent_is_all_that_may_be(capacity: usize, len: usize)
    ensures
        ({
            let n = sent_now(capacity as int, len as int);
            &&& 0 <= n <= capacity && n <= len && n <= 16384
            &&& n == capacity || n == len || n == 16384
            &&& n == 0 <==> capacity == 0 || len == 0
        }),
{
}

/// A reader gets all that is buffered and fits: never more than either, and all of one.
pub proof fn law_least(a: int, b: int)
    ensures
        least(a, b) <= a && least(a, b) <= b,
        least(a, b) == a || least(a, b) == b,
{
}

/// A write that has asked for capacity, or waits for it, waits; one of nothing changes nothing.
/// When capacity comes it has done waiting exactly if something is sent, so that the next write
/// asks anew.
pub proof fn law_waiting(waiting: bool, capacity: usize, len: usize)
    ensures
        !(write_start(waiting, len as int) == WriteStart::Done) ==> waits_behind_start(
            waiting,
            len as int,
        ),
        waits_behind_start(waiting, 0) == waiting,
        waits_behind_capacity(capacity as int, len as int) <==> capacity == 0 || len == 0,
        !waits_behind_capacity(capacity as int, len as int) && len > 0 ==> write_start(
            waits_behind_capacity(capacity as int, len as int),
            len as int,
        ) is Reserve,
{
}

/// When capacity comes, exactly the lesser of it and what is left is sent, at most 16384 bytes;
/// if that is nothing, the write goes on waiting.
pub proof fn law_step(capacity: usize, len: usize)
    ensures
        write_step(capacity as int, len as int) == WriteStep::Await <==> capacity == 0 || len == 0,
        write_step(capacity as int, len as int) matches WriteStep::Send(n) ==> {
            &&& 0 < n && n <= capacity && n <= len && n <= 16_384
            &&& n == capacity || n == len || n == 16_384
        },
{
}

} // verus!
