//! Word arithmetic for patching one byte in the memory of a traced process,
//! and the states in which such a process can be found.
//!
//! Memory of a traced process is read and written one machine word at a
//! time, at word-aligned addresses. To change a single byte, the word around
//! it is read, changed at the byte's place and written back.

use crate::debugger::Breakpoints;
use vstd::prelude::*;

verus! {

/// The state of a traced process after it was waited for.
#[derive(Clone, Copy, Debug, PartialEq, Eq, Structural)]
pub enum Status {
    /// The process stopped. Holds the number of the signal that stopped it
    /// and the instruction pointer at which it stands.
    Stopped(i32, usize),
    /// The process exited. Holds its exit code.
    Exited(i32),
    /// The process was killed. Holds the number of the signal that killed
    /// it.
    Signaled(i32),
}

/// The number of bytes in a machine word.
pub open spec fn word_size() -> int {
    usize::BITS as int / 8
}

/// `addr` rounded down to a multiple of the word size.
pub fn align_addr_to_word(addr: usize) -> (aligned: usize)
    ensures
        aligned == addr - (addr as int) % word_size(),
        aligned <= addr < aligned + word_size(),
        (aligned as int) % word_size() == 0,
{
    let bytes: usize = (usize::BITS / 8) as usize;
    assert(bytes == 4 || bytes == 8);
    let rest = addr % bytes;
    assert((addr - rest) % (bytes as int) == 0) by (nonlinear_arith)
        requires
            rest == addr % bytes,
            bytes > 0,
    ;
    addr - rest
}

/// The byte of `word` at place `k`, the lowest byte being at place zero.
pub open spec fn byte_at(word: u64, k: int) -> int {
    (word as int / pow256(k)) % 256
}

/// 256 to the power `k`.
pub open spec fn pow256(k: int) -> int
    decreases k,
{
    if k <= 0 {
        1
    } else {
        256 * pow256(k - 1)
    }
}

/// What patching one byte of a word gives.
pub struct Patch {
    /// The byte that stood at the place before.
    pub orig_byte: u8,
    /// The word with the new byte at the place.
    pub updated_word: u64,
}

/// Puts `val` at place `byte_offset` of `word` and hands back the byte that
/// stood there together with the new word. Every other byte of the word
/// stays as it is.
pub fn patch_byte(word: u64, byte_offset: usize, val: u8) -> (patch: Patch)
    requires
        byte_offset < 8,
    ensures
        patch.orig_byte == byte_at(word, byte_offset as int),
        forall|k: int|
            0 <= k < 8 ==> #[trigger] byte_at(patch.updated_word, k) == if k == byte_offset {
                val as int
            } else {
                byte_at(word, k)
            },
{
    let shift: u64 = 8 * (byte_offset as u64);
    let orig_byte = (word >> shift) & 0xff;
    let masked_word = word & !(0xffu64 << shift);
    let updated_word = masked_word | ((val as u64) << shift);
    proof {
        assert(orig_byte < 256) by (bit_vector)
            requires
                orig_byte == (word >> shift) & 0xff,
        ;
        lemma_byte_at_is_shift(word, byte_offset as int);
        assert forall|k: int| 0 <= k < 8 implies #[trigger] byte_at(updated_word, k) == if k
            == byte_offset {
            val as int
        } else {
            byte_at(word, k)
        } by {
            let ks: u64 = (8 * k) as u64;
            let v = val as u64;
            lemma_byte_at_is_shift(updated_word, k);
            lemma_byte_at_is_shift(word, k);
            if k == byte_offset {
                assert((((word & !(0xffu64 << shift)) | (v << shift)) >> shift) & 0xff == v)
                    by (bit_vector)
                    requires
                        shift <= 56,
                        v < 256,
                ;
            } else {
                assert((((word & !(0xffu64 << shift)) | (v << shift)) >> ks) & 0xff == (word >> ks)
                    & 0xff) by (bit_vector)
                    requires
                        shift <= 56,
                        ks <= 56,
                        shift % 8 == 0,
                        ks % 8 == 0,
                        shift != ks,
                        v < 256,
                ;
            }
        }
    }
    Patch { orig_byte: orig_byte as u8, updated_word }
}

/// What the debugger remembers of the process it traces.
///
/// A process that stopped on a breakpoint is parked there: the original
/// byte is back in place of the trap, and the instruction pointer stands on
/// it. Before such a process goes on, it is stepped over that one
/// instruction and the trap is written again.
pub struct Inferior {
    is_exited: bool,
    is_brk_point: bool,
    brk_point_rip: Option<usize>,
}

/// How a process is set going again.
#[derive(Clone, Copy, Debug, PartialEq, Eq, Structural)]
pub enum Resume {
    /// Step one instruction, wait, and report with `Inferior::stepped`
    /// what came of it. Holds the address of the breakpoint on which the
    /// process is parked.
    StepOver(usize),
    /// Let the process run, wait, and report with `Inferior::stopped` what
    /// came of it.
    Continue,
}

/// What follows the step over a breakpoint.
#[derive(Clone, Copy, Debug, PartialEq, Eq, Structural)]
pub enum AfterStep {
    /// Write the trap at this address again, then let the process run.
    Rearm(usize),
    /// The process exited during the step: nothing is left to run.
    Finished,
    /// Let the process run.
    Continue,
}

impl Inferior {
    /// Whether the process is known to have exited.
    pub closed spec fn exited(&self) -> bool {
        self.is_exited
    }

    /// The breakpoint on which the process is parked, if it is parked.
    pub closed spec fn parked(&self) -> Option<usize> {
        if self.is_brk_point {
            self.brk_point_rip
        } else {
            None
        }
    }

    /// A parked process has a breakpoint of record.
    pub closed spec fn wf(&self) -> bool {
        self.is_brk_point ==> self.brk_point_rip is Some
    }

    /// A process that was just started: alive and not parked.
    pub fn new() -> (r: Inferior)
        ensures
            r.wf(),
            !r.exited(),
            r.parked() is None,
    {
        Inferior { is_exited: false, is_brk_point: false, brk_point_rip: None }
    }

    /// Whether the process is known to have exited.
    pub fn is_exited(&self) -> (r: bool)
        ensures
            r == self.exited(),
    {
        self.is_exited
    }

    /// Takes note of what waiting for the process gave: a process that
    /// exited is remembered as exited.
    pub fn wait(&mut self, status: Status) -> (r: Status)
        ensures
            r == status,
            final(self).exited() == (old(self).exited() || status is Exited),
            final(self).parked() == old(self).parked(),
            old(self).wf() ==> final(self).wf(),
    {
        match status {
            Status::Exited(_) => {
                self.is_exited = true;
            },
            _ => {},
        }
        status
    }

    /// Begins to set the process going: a parked process must first be
    /// stepped over its breakpoint, and is no longer parked after this call.
    pub fn continues(&mut self) -> (r: Resume)
        requires
            old(self).wf(),
        ensures
            final(self).wf(),
            final(self).parked() is None,
            final(self).exited() == old(self).exited(),
            r == match old(self).parked() {
                Some(address) => Resume::StepOver(address),
                None => Resume::Continue,
            },
    {
        if self.is_brk_point {
            self.is_brk_point = false;
            match self.brk_point_rip {
                Some(address) => Resume::StepOver(address),
                None => Resume::Continue,
            }
        } else {
            Resume::Continue
        }
    }

    /// Decides what follows the step over the breakpoint at `address`: if
    /// the process stopped, the trap is written again; if it exited, that
    /// is the end; otherwise the process is let run.
    pub fn stepped(&mut self, address: usize, status: Status) -> (r: AfterStep)
        ensures
            r == match status {
                Status::Stopped(_, _) => AfterStep::Rearm(address),
                Status::Exited(_) => AfterStep::Finished,
                Status::Signaled(_) => AfterStep::Continue,
            },
            final(self).exited() == (old(self).exited() || status is Exited),
            final(self).parked() == old(self).parked(),
            old(self).wf() ==> final(self).wf(),
    {
        match self.wait(status) {
            Status::Stopped(_, _) => AfterStep::Rearm(address),
            Status::Exited(_) => AfterStep::Finished,
            Status::Signaled(_) => AfterStep::Continue,
        }
    }

    /// Takes note of why a running process came to a halt. If it stopped
    /// right behind a trap of ours, it is parked on that breakpoint, and the
    /// result names the address and the byte to put back there; the caller
    /// restores the byte and moves the instruction pointer to the address.
    pub fn stopped(&mut self, status: Status, breakpoints: &Breakpoints) -> (r: Option<(usize, u8)>)
        requires
            old(self).wf(),
            old(self).parked() is None,
        ensures
            final(self).wf(),
            final(self).exited() == (old(self).exited() || status is Exited),
            r == match status {
                Status::Stopped(_, rip) => if rip > 0 && breakpoints.original_bytes().contains_key(
                    (rip - 1) as usize,
                ) {
                    Some(((rip - 1) as usize, breakpoints.original_bytes()[(rip - 1) as usize]))
                } else {
                    None
                },
                _ => None,
            },
            final(self).parked() == match r {
                Some((address, _)) => Some(address),
                None => None,
            },
    {
        match self.wait(status) {
            Status::Stopped(_, rip) => match breakpoints.hit(rip) {
                Some((address, orig_byte)) => {
                    self.is_brk_point = true;
                    self.brk_point_rip = Some(address);
                    Some((address, orig_byte))
                },
                None => None,
            },
            _ => None,
        }
    }
}

/// The byte at place `k` is the word shifted down by `k` bytes, cut to its
/// lowest byte.
proof fn lemma_byte_at_is_shift(word: u64, k: int)
    requires
        0 <= k < 8,
    ensures
        byte_at(word, k) == ((word >> ((8 * k) as u64)) & 0xff) as int,
{
    reveal_with_fuel(pow256, 9);
    let s: u64 = (8 * k) as u64;
    if k == 0 {
        assert((word >> 0u64) & 0xff == word % 256) by (bit_vector);
    } else if k == 1 {
        assert((word >> 8u64) & 0xff == (word / 0x100) % 256) by (bit_vector);
    } else if k == 2 {
        assert((word >> 16u64) & 0xff == (word / 0x1_0000) % 256) by (bit_vector);
    } else if k == 3 {
        assert((word >> 24u64) & 0xff == (word / 0x100_0000) % 256) by (bit_vector);
    } else if k == 4 {
        assert((word >> 32u64) & 0xff == (word / 0x1_0000_0000) % 256) by (bit_vector);
    } else if k == 5 {
        assert((word >> 40u64) & 0xff == (word / 0x100_0000_0000) % 256) by (bit_vector);
    } else if k == 6 {
        assert((word >> 48u64) & 0xff == (word / 0x1_0000_0000_0000) % 256) by (bit_vector);
    } else {
        assert((word >> 56u64) & 0xff == (word / 0x100_0000_0000_0000) % 256) by (bit_vector);
    }
}

} // verus!
