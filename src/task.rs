use vstd::prelude::*;

use crate::context::ThreadContext;

verus! {

/// Size in bytes of the stack that each task owns (2 MiB).
pub const DEFAULT_STACK_SIZE: usize = 2097152;

/// Bytes reserved at the top of a fresh stack for the launch frame: three
/// return-address slots and one spare word that keeps the frame 16-aligned.
pub const FRAME_SIZE: usize = 32;

/// Byte `k` (little-endian, `0 <= k < 8`) of the word `v`.
pub open spec fn le_byte(v: u64, k: int) -> u8 {
    ((v >> ((8 * k) as u64)) & 0xff) as u8
}

/// The eight little-endian bytes of `v`, as they lie in memory.
pub open spec fn le_bytes(v: u64) -> Seq<u8> {
    Seq::new(8, |k: int| le_byte(v, k))
}

/// What a launch frame holds, from its lowest address upward: the entry
/// function, the no-op return target, and the finalisation routine.
pub open spec fn frame_image(entry: u64, skip: u64, guard: u64) -> Seq<u8> {
    le_bytes(entry) + le_bytes(skip) + le_bytes(guard)
}

/// How far below `base + len` the first 16-aligned address lies.
pub open spec fn top_pad(base: u64, len: nat) -> nat {
    ((base % 16 + len % 16) % 16) as nat
}

/// Offset in a stack of `len` bytes at address `base` where the launch frame
/// starts: `FRAME_SIZE` bytes below the highest 16-aligned address in it.
pub open spec fn frame_offset(base: u64, len: nat) -> int {
    len - top_pad(base, len) - FRAME_SIZE
}

/// `s` is `old` with the word `v` written little-endian at `at`, and nothing else changed.
pub open spec fn word_written(s: Seq<u8>, old: Seq<u8>, at: int, v: u64) -> bool {
    s == old.subrange(0, at) + le_bytes(v) + old.subrange(at + 8, old.len() as int)
}

/// The no-op return target placed between the entry function and the
/// finalisation routine: when the entry function returns it lands here, and
/// returning from here enters the finalisation routine with the stack aligned
/// as the calling convention expects.
pub fn skip() {
}

/// One schedulable unit: a label, the stack it runs on, and the registers
/// that say where it resumes.
pub struct Task {
    pub id: u64,
    pub stack: Vec<u8>,
    pub ctx: ThreadContext,
}

/// Writes `v` little-endian into `buf[at..at + 8]`.
fn write_word(buf: &mut Vec<u8>, at: usize, v: u64)
    requires
        at + 8 <= old(buf)@.len(),
    ensures
        word_written(final(buf)@, old(buf)@, at as int, v),
{
    let ghost start = buf@;
    let n: usize = buf.len();
    let mut k: usize = 0;
    while k < 8
        invariant
            k <= 8,
            at + 8 <= start.len(),
            start.len() == n,
            buf@.len() == start.len(),
            forall|i: int|
                0 <= i < start.len() ==> #[trigger] buf@[i] == if at <= i < at + k {
                    le_byte(v, i - at)
                } else {
                    start[i]
                },
        decreases 8 - k,
    {
        let b: u8 = (#[verifier::truncate] (((v >> (8 * k as u64)) & 0xff) as u8));
        buf.set(at + k, b);
        k = k + 1;
    }
    assert(buf@ =~= start.subrange(0, at as int) + le_bytes(v) + start.subrange(
        at + 8,
        start.len() as int,
    ));
}

/// Relies on `Vec::as_ptr`: the address of the buffer's first byte, which
/// stays put while the vector is moved but not resized. Nothing is promised
/// of its value.
#[verifier::external_body]
fn buffer_address(buf: &Vec<u8>) -> (r: u64) {
    buf.as_ptr() as u64
}

impl Task {
    /// A task with a zero-filled stack of `DEFAULT_STACK_SIZE` bytes and a
    /// cleared context.
    pub fn new(id: u64) -> (r: Task)
        ensures
            r.id == id,
            r.stack@ == Seq::new(DEFAULT_STACK_SIZE as nat, |i: int| 0u8),
            r.ctx.is_zero(),
    {
        let stack: Vec<u8> = vec![0u8; DEFAULT_STACK_SIZE];
        assert(stack@ =~= Seq::new(DEFAULT_STACK_SIZE as nat, |i: int| 0u8));
        Task { id, stack, ctx: ThreadContext::new() }
    }

    /// Prepares a fresh task to start at `entry` when it is first switched
    /// to, given that its stack buffer lies at address `base`. Writes the
    /// launch frame at `frame_offset` and points `ctx.rsp` at it; no other
    /// byte of the stack and no other register changes.
    pub fn launch(&mut self, base: u64, entry: u64, skip: u64, guard: u64)
        requires
            old(self).stack@.len() >= FRAME_SIZE + 16,
        ensures
            ({
                let len = old(self).stack@.len();
                let o = frame_offset(base, len);
                &&& final(self).stack@ == old(self).stack@.subrange(0, o) + frame_image(
                    entry,
                    skip,
                    guard,
                ) + old(self).stack@.subrange(o + 24, len as int)
                &&& final(self).ctx == (ThreadContext { rsp: base.wrapping_add(o as u64), ..old(self).ctx })
                &&& final(self).id == old(self).id
                &&& (base + o) % 16 == 0
            }),
    {
        let ghost s0 = self.stack@;
        let len: usize = self.stack.len();
        let pad: usize = ((base % 16) as usize + len % 16) % 16;
        let o: usize = len - pad - FRAME_SIZE;
        write_word(&mut self.stack, o, entry);
        write_word(&mut self.stack, o + 8, skip);
        write_word(&mut self.stack, o + 16, guard);
        assert(self.stack@ =~= s0.subrange(0, o as int) + frame_image(entry, skip, guard)
            + s0.subrange(o + 24, len as int));
        self.ctx.rsp = base.wrapping_add(o as u64);
    }

    /// A new task, with id `id`, that starts at `entry` when first switched
    /// to: a zero-filled stack holding only its launch frame, and a context
    /// whose sole non-zero register points at that frame.
    pub fn with_entry(id: u64, entry: u64, skip: u64, guard: u64) -> (r: Task)
        ensures
            r.id == id,
            r.launched(entry, skip, guard),
    {
        let mut t = Task::new(id);
        let base = buffer_address(&t.stack);
        t.launch(base, entry, skip, guard);
        proof {
            let o = frame_offset(base, DEFAULT_STACK_SIZE as nat);
            assert(Seq::new(DEFAULT_STACK_SIZE as nat, |i: int| 0u8).subrange(0, o) =~= Seq::new(
                o as nat,
                |i: int| 0u8,
            ));
            assert(Seq::new(DEFAULT_STACK_SIZE as nat, |i: int| 0u8).subrange(
                o + 24,
                DEFAULT_STACK_SIZE as int,
            ) =~= Seq::new((DEFAULT_STACK_SIZE - o - 24) as nat, |i: int| 0u8));
            assert(t.launched_at(base, entry, skip, guard));
        }
        t
    }

    /// The task is fresh from `with_entry(_, entry, skip, guard)`, its stack
    /// lying at some address.
    pub open spec fn launched(&self, entry: u64, skip: u64, guard: u64) -> bool {
        exists|base: u64| #[trigger] self.launched_at(base, entry, skip, guard)
    }

    /// With its stack at address `base`, the task holds zeros but for the
    /// launch frame at `frame_offset`, and only `rsp` is set, to that frame.
    pub open spec fn launched_at(&self, base: u64, entry: u64, skip: u64, guard: u64) -> bool {
        let len = DEFAULT_STACK_SIZE as nat;
        let o = frame_offset(base, len);
        &&& self.stack@ == Seq::new(o as nat, |i: int| 0u8) + frame_image(entry, skip, guard)
            + Seq::new((len - o - 24) as nat, |i: int| 0u8)
        &&& self.ctx == (ThreadContext {
            rsp: base.wrapping_add(o as u64),
            r15: 0,
            r14: 0,
            r13: 0,
            r12: 0,
            rbx: 0,
            rbp: 0,
        })
    }
}

} // verus!
