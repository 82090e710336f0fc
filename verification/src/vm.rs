//! The execution engine: program memory, a fixed-size data tape of wrapping
//! eight-bit cells, a program counter, a data pointer, and the jump mapping
//! produced by the resolver.

use std::collections::HashMap;

use vstd::prelude::*;

use crate::opcode::{decode, decode_byte, Instr, JUMP_BCK, JUMP_FWD};
use crate::resolver::{
    covered, is_bracket, jump_map, lemma_jump_map_covers, lemma_scan_none_persists,
    lemma_scan_props, scan,
};

verus! {

/// Maximum number of program bytes; loading a longer source truncates to this.
pub const CODE_SIZE: usize = 32768;

/// Number of cells on the data tape; pointer motion wraps modulo this.
pub const DATA_SIZE: usize = 32768;

/// The value of a cell after one increment: one more, wrapping modulo 256.
pub open spec fn next_value_inc(v: u8) -> u8 {
    (((v as int) + 1) % 256) as u8
}

/// The value of a cell after one decrement: one less, wrapping modulo 256.
pub open spec fn next_value_dec(v: u8) -> u8 {
    (((v as int) - 1) % 256) as u8
}

/// The data pointer after one step right, wrapping modulo the tape size.
pub open spec fn next_ptr_inc(dp: int) -> int {
    (dp + 1) % (DATA_SIZE as int)
}

/// The data pointer after one step left, wrapping modulo the tape size.
pub open spec fn next_ptr_dec(dp: int) -> int {
    (dp - 1) % (DATA_SIZE as int)
}

/// The error raised when a close bracket has no matching open, or an open
/// bracket is never closed.
pub open spec fn unbalanced_msg() -> Seq<char> {
    "Error: unbalanced number of '[' and ']' in the source code!"@
}

/// What one call of [`VMCore::step`] reports: an instruction ran silently,
/// the current cell is to be written out, the read instruction awaits one
/// character (to be handed in through [`VMCore::supply_input`]), or the
/// program counter has run off the end of the code.
#[derive(Clone, Copy, Debug, PartialEq, Eq, Structural)]
pub enum StepOutcome {
    Ran,
    Output(u8),
    AwaitInput,
    Done,
}

/// The machine state (program counter, data pointer, tape) after dispatching
/// the instruction byte at `pc`, which must be within the code. The counter
/// first advances by one; a taken bracket then overwrites it with the jump
/// mapping's entry for the bracket's own offset. A read with no character
/// available leaves the cell unchanged.
pub open spec fn state_after(
    code: Seq<u8>,
    jumps: Map<usize, usize>,
    pc: int,
    dp: int,
    data: Seq<u8>,
) -> (int, int, Seq<u8>)
    recommends
        0 <= pc < code.len(),
        0 <= dp < data.len(),
{
    match decode(code[pc]) {
        Instr::IncValue => (pc + 1, dp, data.update(dp, next_value_inc(data[dp]))),
        Instr::DecValue => (pc + 1, dp, data.update(dp, next_value_dec(data[dp]))),
        Instr::IncPtr => (pc + 1, next_ptr_inc(dp), data),
        Instr::DecPtr => (pc + 1, next_ptr_dec(dp), data),
        Instr::JumpFwd => (
            if data[dp] == 0 {
                jumps[pc as usize] as int
            } else {
                pc + 1
            },
            dp,
            data,
        ),
        Instr::JumpBck => (
            if data[dp] != 0 {
                jumps[pc as usize] as int
            } else {
                pc + 1
            },
            dp,
            data,
        ),
        Instr::Write => (pc + 1, dp, data),
        Instr::Read => (pc + 1, dp, data),
        Instr::Ignored => (pc + 1, dp, data),
    }
}

/// What [`VMCore::step`] reports for the instruction byte at `pc`.
pub open spec fn step_outcome(code: Seq<u8>, pc: int, dp: int, data: Seq<u8>) -> StepOutcome {
    match decode(code[pc]) {
        Instr::Write => StepOutcome::Output(data[dp]),
        Instr::Read => StepOutcome::AwaitInput,
        _ => StepOutcome::Ran,
    }
}

/// The machine state and accumulated output after `n` dispatches with no
/// input available, starting from counter `pc`, pointer `dp`, tape `data`
/// and output `out`. Once the counter leaves the code, the state is final
/// and further dispatches change nothing.
pub open spec fn run_n(
    code: Seq<u8>,
    jumps: Map<usize, usize>,
    pc: int,
    dp: int,
    data: Seq<u8>,
    out: Seq<u8>,
    n: nat,
) -> (int, int, Seq<u8>, Seq<u8>)
    decreases n,
{
    if n == 0 {
        (pc, dp, data, out)
    } else {
        let prev = run_n(code, jumps, pc, dp, data, out, (n - 1) as nat);
        if !(0 <= prev.0 < code.len()) {
            prev
        } else {
            let next = state_after(code, jumps, prev.0, prev.1, prev.2);
            (
                next.0,
                next.1,
                next.2,
                if decode(code[prev.0]) is Write {
                    prev.3.push(prev.2[prev.1])
                } else {
                    prev.3
                },
            )
        }
    }
}

/// Once the program counter has left the code, further dispatches of the
/// no-input machine change nothing: the run is frozen at its final state.
pub proof fn lemma_run_stops(
    code: Seq<u8>,
    jumps: Map<usize, usize>,
    pc: int,
    dp: int,
    data: Seq<u8>,
    out: Seq<u8>,
    n0: nat,
    n: nat,
)
    requires
        n0 <= n,
        !(0 <= run_n(code, jumps, pc, dp, data, out, n0).0 < code.len()),
    ensures
        run_n(code, jumps, pc, dp, data, out, n) == run_n(code, jumps, pc, dp, data, out, n0),
    decreases n,
{
    if n > n0 {
        lemma_run_stops(code, jumps, pc, dp, data, out, n0, (n - 1) as nat);
    }
}

/// The Virtual Machine Core.
pub struct VMCore {
    /// Program counter: index of the next instruction byte to dispatch.
    pub pc: usize,
    /// Data pointer: index of the cell currently read or mutated.
    pub dp: usize,
    /// Program memory, read-only once loaded.
    pub code: Vec<u8>,
    /// Data tape, all cells initialized to zero.
    pub data: Vec<u8>,
    /// Jump mapping from a bracket's offset to its continuation offset.
    pub jumps: HashMap<usize, usize>,
}

impl VMCore {
    /// Well-formedness: the tape has its fixed size, the data pointer is on
    /// the tape, and every bracket instruction in the program has an entry in
    /// the jump mapping.
    pub open spec fn wf(&self) -> bool {
        &&& self.data@.len() == DATA_SIZE
        &&& self.dp < DATA_SIZE
        &&& covered(self.code@, self.code@.len() as int, self.jumps@)
    }

    /// Create a VM with empty program memory, a zeroed tape, both registers
    /// at zero, and an empty jump mapping.
    pub fn new() -> (r: VMCore)
        ensures
            r.pc == 0,
            r.dp == 0,
            r.code@ == Seq::<u8>::empty(),
            r.data@.len() == DATA_SIZE,
            forall|i: int| 0 <= i < DATA_SIZE ==> r.data@[i] == 0,
            r.jumps@ == Map::<usize, usize>::empty(),
            r.wf(),
    {
        let mut data: Vec<u8> = Vec::with_capacity(DATA_SIZE);
        let mut i: usize = 0;
        while i < DATA_SIZE
            invariant
                i <= DATA_SIZE,
                data@.len() == i,
                forall|j: int| 0 <= j < i ==> data@[j] == 0,
            decreases DATA_SIZE - i,
        {
            data.push(0);
            i += 1;
        }
        VMCore {
            pc: 0,
            dp: 0,
            code: Vec::with_capacity(CODE_SIZE),
            data,
            jumps: HashMap::new(),
        }
    }

    /// Compute the jump mapping for the first `nbytes` bytes of the program:
    /// scan once, left to right, pairing each close bracket with the most
    /// recently opened one; map the open bracket to the position after its
    /// matching close, and the close bracket to the position after its
    /// matching open. Fails, and reports unbalanced brackets, exactly when a
    /// close has no matching open or an open is never closed.
    pub fn compute_jumps(&mut self, nbytes: usize) -> (r: Result<(), String>)
        requires
            nbytes <= old(self).code@.len(),
        ensures
            final(self).pc == old(self).pc,
            final(self).dp == old(self).dp,
            final(self).code@ == old(self).code@,
            final(self).data@ == old(self).data@,
            match r {
                Ok(()) => jump_map(final(self).code@, nbytes as int) == Some(final(self).jumps@)
                    && covered(final(self).code@, nbytes as int, final(self).jumps@),
                Err(e) => jump_map(final(self).code@, nbytes as int) is None && e@
                    == unbalanced_msg(),
            },
    {
        // temporary stack to hold the offsets of open brackets
        let mut stack: Vec<usize> = Vec::new();
        let mut counter: usize = 0;
        self.jumps = HashMap::new();

        // parse the code for '[' and ']'
        while counter < nbytes
            invariant
                counter <= nbytes <= self.code@.len(),
                self.pc == old(self).pc,
                self.dp == old(self).dp,
                self.code@ == old(self).code@,
                self.data@ == old(self).data@,
                scan(self.code@, counter as int) == Some((stack@, self.jumps@)),
            decreases nbytes - counter,
        {
            let opcode = self.code[counter];
            proof {
                lemma_scan_props(self.code@, counter as int, stack@, self.jumps@);
            }

            if opcode == JUMP_FWD {
                stack.push(counter);
            }

            if opcode == JUMP_BCK {
                // empty stack: a close bracket with no matching open
                if stack.len() == 0 {
                    proof {
                        assert(scan(self.code@, counter + 1) is None);
                        lemma_scan_none_persists(self.code@, counter + 1, nbytes as int);
                    }
                    return Err(
                        "Error: unbalanced number of '[' and ']' in the source code!".to_string(),
                    );
                }

                // retrieve the offset of the most recently opened bracket
                let value = stack.pop().unwrap();

                // insert the two entries: '[' maps to the position after the
                // matching ']', and ']' to the position after the matching '['
                self.jumps.insert(value, counter + 1);
                self.jumps.insert(counter, value + 1);
            }

            // next opcode
            counter += 1;
        }

        // a leftover open bracket was never closed
        if stack.len() > 0 {
            return Err("Error: unbalanced number of '[' and ']' in the source code!".to_string());
        }

        proof {
            lemma_jump_map_covers(self.code@, nbytes as int, self.jumps@);
        }
        Ok(())
    }

    /// If the current cell is zero, overwrite the program counter with the
    /// mapped target of the bracket just dispatched (the offset one before
    /// the already-advanced counter); otherwise leave it unchanged.
    pub fn jump_fwd(&mut self)
        requires
            old(self).dp < old(self).data@.len(),
            old(self).pc >= 1,
            old(self).data@[old(self).dp as int] == 0 ==> old(self).jumps@.dom().contains(
                (old(self).pc - 1) as usize,
            ),
        ensures
            final(self).dp == old(self).dp,
            final(self).code@ == old(self).code@,
            final(self).data@ == old(self).data@,
            final(self).jumps@ == old(self).jumps@,
            final(self).pc == if old(self).data@[old(self).dp as int] == 0 {
                old(self).jumps@[(old(self).pc - 1) as usize]
            } else {
                old(self).pc
            },
    {
        if self.data[self.dp] == 0 {
            let value = self.pc - 1;
            if let Some(target) = self.jumps.get(&value) {
                self.pc = *target;
            }
        }
    }

    /// If the current cell is not zero, overwrite the program counter with
    /// the mapped target of the bracket just dispatched; otherwise leave it
    /// unchanged.
    pub fn jump_bck(&mut self)
        requires
            old(self).dp < old(self).data@.len(),
            old(self).pc >= 1,
            old(self).data@[old(self).dp as int] != 0 ==> old(self).jumps@.dom().contains(
                (old(self).pc - 1) as usize,
            ),
        ensures
            final(self).dp == old(self).dp,
            final(self).code@ == old(self).code@,
            final(self).data@ == old(self).data@,
            final(self).jumps@ == old(self).jumps@,
            final(self).pc == if old(self).data@[old(self).dp as int] != 0 {
                old(self).jumps@[(old(self).pc - 1) as usize]
            } else {
                old(self).pc
            },
    {
        if self.data[self.dp] != 0 {
            let value = self.pc - 1;
            if let Some(target) = self.jumps.get(&value) {
                self.pc = *target;
            }
        }
    }

    /// Load a program: copy at most `CODE_SIZE` bytes from `source` into
    /// program memory (a longer source is silently truncated), derive the
    /// jump mapping, and report the number of bytes loaded. Fails, and
    /// leaves the jump mapping unusable, exactly when the loaded bytes have
    /// unbalanced brackets.
    pub fn load(&mut self, source: &Vec<u8>) -> (r: Result<usize, String>)
        ensures
            final(self).pc == old(self).pc,
            final(self).dp == old(self).dp,
            final(self).data@ == old(self).data@,
            ({
                let n = if source@.len() <= CODE_SIZE {
                    source@.len() as int
                } else {
                    CODE_SIZE as int
                };
                &&& final(self).code@ == source@.take(n)
                &&& match r {
                    Ok(count) => count == n && jump_map(final(self).code@, n) == Some(
                        final(self).jumps@,
                    ) && covered(final(self).code@, n, final(self).jumps@),
                    Err(e) => jump_map(final(self).code@, n) is None && e@ == unbalanced_msg(),
                }
            }),
            old(self).wf() && r is Ok ==> final(self).wf(),
    {
        let n = if source.len() < CODE_SIZE {
            source.len()
        } else {
            CODE_SIZE
        };

        // insert the code into the structure
        let mut code: Vec<u8> = Vec::with_capacity(CODE_SIZE);
        let mut i: usize = 0;
        while i < n
            invariant
                i <= n <= source@.len(),
                code@ == source@.take(i as int),
            decreases n - i,
        {
            code.push(source[i]);
            proof {
                assert(code@ =~= source@.take(i + 1));
            }
            i += 1;
        }
        self.code = code;

        // compute the jumps
        match self.compute_jumps(n) {
            Ok(()) => Ok(n),
            Err(e) => Err(e),
        }
    }

    /// Dispatch one instruction: read the byte at the program counter,
    /// advance the counter by one, and apply the instruction's effect. A
    /// write reports the current cell instead of touching any device; a read
    /// reports that one character is awaited and touches nothing else. When
    /// the counter is already past the end of the code, nothing changes.
    pub fn step(&mut self) -> (r: StepOutcome)
        requires
            old(self).wf(),
        ensures
            final(self).wf(),
            final(self).code@ == old(self).code@,
            final(self).jumps@ == old(self).jumps@,
            old(self).pc >= old(self).code@.len() ==> r == StepOutcome::Done && final(self).pc
                == old(self).pc && final(self).dp == old(self).dp && final(self).data@ == old(
                self,
            ).data@,
            old(self).pc < old(self).code@.len() ==> ({
                let s = state_after(
                    old(self).code@,
                    old(self).jumps@,
                    old(self).pc as int,
                    old(self).dp as int,
                    old(self).data@,
                );
                &&& final(self).pc as int == s.0
                &&& final(self).dp as int == s.1
                &&& final(self).data@ == s.2
                &&& r == step_outcome(
                    old(self).code@,
                    old(self).pc as int,
                    old(self).dp as int,
                    old(self).data@,
                )
            }),
    {
        if self.pc >= self.code.len() {
            return StepOutcome::Done;
        }

        // read the next opcode and increment the program counter
        let opcode = self.code[self.pc];
        self.pc = self.pc + 1;

        // opcode lookup
        match decode_byte(opcode) {
            Instr::IncValue => {
                self.data_value_inc();
                StepOutcome::Ran
            },
            Instr::DecValue => {
                self.data_value_dec();
                StepOutcome::Ran
            },
            Instr::IncPtr => {
                self.data_ptr_inc();
                StepOutcome::Ran
            },
            Instr::DecPtr => {
                self.data_ptr_dec();
                StepOutcome::Ran
            },
            Instr::JumpFwd => {
                self.jump_fwd();
                StepOutcome::Ran
            },
            Instr::JumpBck => {
                self.jump_bck();
                StepOutcome::Ran
            },
            Instr::Write => StepOutcome::Output(self.data[self.dp]),
            Instr::Read => StepOutcome::AwaitInput,
            Instr::Ignored => StepOutcome::Ran,
        }
    }

    /// Answer a pending read: store the character's numeric value, modulo
    /// 256, into the current cell; when no character is available, leave the
    /// cell unchanged and let execution continue.
    pub fn supply_input(&mut self, input: Option<char>)
        requires
            old(self).dp < old(self).data@.len(),
        ensures
            final(self).pc == old(self).pc,
            final(self).dp == old(self).dp,
            final(self).code@ == old(self).code@,
            final(self).jumps@ == old(self).jumps@,
            match input {
                Some(c) => final(self).data@ == old(self).data@.update(
                    old(self).dp as int,
                    ((c as u32) % 256) as u8,
                ),
                None => final(self).data@ == old(self).data@,
            },
    {
        if let Some(c) = input {
            let value: u8 = ((c as u32) % 256) as u8;
            self.data[self.dp] = value;
        }
    }

    /// Run the program with no input available for at most `max_steps`
    /// dispatches, collecting everything the program writes. The final state
    /// and the collected output are exactly those of `max_steps` dispatches
    /// of the no-input machine; once the program counter runs off the end of
    /// the code the state is final, so any budget at least as large as the
    /// program's running time yields the completed run. The core imposes no
    /// budget of its own: an embedder wanting unbounded interactive
    /// execution drives [`VMCore::step`] directly.
    pub fn execute(&mut self, max_steps: usize) -> (out: Vec<u8>)
        requires
            old(self).wf(),
        ensures
            final(self).wf(),
            final(self).code@ == old(self).code@,
            final(self).jumps@ == old(self).jumps@,
            (final(self).pc as int, final(self).dp as int, final(self).data@, out@) == run_n(
                old(self).code@,
                old(self).jumps@,
                old(self).pc as int,
                old(self).dp as int,
                old(self).data@,
                Seq::empty(),
                max_steps as nat,
            ),
    {
        let ghost code0 = self.code@;
        let ghost jumps0 = self.jumps@;
        let ghost pc0 = self.pc as int;
        let ghost dp0 = self.dp as int;
        let ghost data0 = self.data@;
        let mut out: Vec<u8> = Vec::new();
        let mut taken: usize = 0;

        loop
            invariant
                taken <= max_steps,
                self.wf(),
                self.code@ == code0,
                self.jumps@ == jumps0,
                (self.pc as int, self.dp as int, self.data@, out@) == run_n(
                    code0,
                    jumps0,
                    pc0,
                    dp0,
                    data0,
                    Seq::empty(),
                    taken as nat,
                ),
            ensures
                taken == max_steps || self.pc as int >= code0.len(),
            decreases max_steps - taken,
        {
            if taken >= max_steps {
                break;
            }
            if self.pc >= self.code.len() {
                break;
            }

            let ghost pre_pc = self.pc as int;
            let ghost pre_dp = self.dp as int;
            let ghost pre_data = self.data@;
            let ghost pre_out = out@;

            match self.step() {
                StepOutcome::Output(b) => {
                    out.push(b);
                },
                StepOutcome::AwaitInput => {
                    self.supply_input(None);
                },
                _ => {},
            }

            taken += 1;
            proof {
                assert(run_n(code0, jumps0, pc0, dp0, data0, Seq::empty(), (taken - 1) as nat)
                    == (pre_pc, pre_dp, pre_data, pre_out));
            }
        }

        proof {
            if taken < max_steps {
                lemma_run_stops(
                    code0,
                    jumps0,
                    pc0,
                    dp0,
                    data0,
                    Seq::empty(),
                    taken as nat,
                    max_steps as nat,
                );
            }
        }
        out
    }

    /// Increment the current cell, wrapping modulo 256.
    pub fn data_value_inc(&mut self)
        requires
            old(self).dp < old(self).data@.len(),
        ensures
            final(self).pc == old(self).pc,
            final(self).dp == old(self).dp,
            final(self).code@ == old(self).code@,
            final(self).jumps@ == old(self).jumps@,
            final(self).data@ == old(self).data@.update(
                old(self).dp as int,
                next_value_inc(old(self).data@[old(self).dp as int]),
            ),
    {
        let value = self.data[self.dp];
        let next: u8 = if value == 255 {
            0
        } else {
            value + 1
        };
        self.data[self.dp] = next;
    }

    /// Decrement the current cell, wrapping modulo 256.
    pub fn data_value_dec(&mut self)
        requires
            old(self).dp < old(self).data@.len(),
        ensures
            final(self).pc == old(self).pc,
            final(self).dp == old(self).dp,
            final(self).code@ == old(self).code@,
            final(self).jumps@ == old(self).jumps@,
            final(self).data@ == old(self).data@.update(
                old(self).dp as int,
                next_value_dec(old(self).data@[old(self).dp as int]),
            ),
    {
        let value = self.data[self.dp];
        let next: u8 = if value == 0 {
            255
        } else {
            value - 1
        };
        self.data[self.dp] = next;
    }

    /// Move the data pointer one cell to the right, wrapping modulo the tape
    /// size.
    pub fn data_ptr_inc(&mut self)
        requires
            old(self).dp < DATA_SIZE,
        ensures
            final(self).pc == old(self).pc,
            final(self).code@ == old(self).code@,
            final(self).data@ == old(self).data@,
            final(self).jumps@ == old(self).jumps@,
            final(self).dp as int == next_ptr_inc(old(self).dp as int),
            final(self).dp < DATA_SIZE,
    {
        self.dp = if self.dp == DATA_SIZE - 1 {
            0
        } else {
            self.dp + 1
        };
    }

    /// Move the data pointer one cell to the left, wrapping modulo the tape
    /// size.
    pub fn data_ptr_dec(&mut self)
        requires
            old(self).dp < DATA_SIZE,
        ensures
            final(self).pc == old(self).pc,
            final(self).code@ == old(self).code@,
            final(self).data@ == old(self).data@,
            final(self).jumps@ == old(self).jumps@,
            final(self).dp as int == next_ptr_dec(old(self).dp as int),
            final(self).dp < DATA_SIZE,
    {
        self.dp = if self.dp == 0 {
            DATA_SIZE - 1
        } else {
            self.dp - 1
        };
    }
}

} // verus!
