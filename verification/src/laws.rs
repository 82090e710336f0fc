//! General laws of the machine, stated over the same spec functions the
//! engine's contracts use and proved once and for all.

use vstd::prelude::*;

use crate::opcode::{decode, Instr, DATA_VALUE_DEC, DATA_VALUE_INC};
use crate::vm::{
    lemma_run_stops, next_ptr_dec, next_ptr_inc, run_n, DATA_SIZE,
};

verus! {

/// A program made only of increment-value instructions, dispatched `k` times
/// from a fresh register state, adds `k` to the first cell modulo 256 and
/// touches nothing else; in particular a zeroed cell ends at `k` mod 256.
pub proof fn lemma_increment_run(code: Seq<u8>, jumps: Map<usize, usize>, data: Seq<u8>, k: nat)
    requires
        forall|i: int| 0 <= i < code.len() ==> code[i] == DATA_VALUE_INC,
        data.len() == DATA_SIZE,
        k <= code.len(),
    ensures
        ({
            let s = run_n(code, jumps, 0, 0, data, Seq::empty(), k);
            &&& s.0 == k
            &&& s.1 == 0
            &&& s.2 == data.update(0, (((data[0] as int) + k) % 256) as u8)
            &&& s.3 == Seq::<u8>::empty()
        }),
    decreases k,
{
    let x = data[0] as int;
    if k == 0 {
        assert((x + 0) % 256 == x);
        assert(data.update(0, ((x + 0) % 256) as u8) =~= data);
    } else {
        lemma_increment_run(code, jumps, data, (k - 1) as nat);
        let prev = run_n(code, jumps, 0, 0, data, Seq::empty(), (k - 1) as nat);
        assert(decode(code[k - 1]) == Instr::IncValue);
        assert(prev.2[0] == ((x + k - 1) % 256) as u8);
        assert(((x + k - 1) % 256 + 1) % 256 == (x + k) % 256) by {
            vstd::arithmetic::div_mod::lemma_add_mod_noop(x + k - 1, 1, 256);
        }
        assert(data.update(0, ((x + k - 1) % 256) as u8).update(0, ((x + k) % 256) as u8)
            =~= data.update(0, ((x + k) % 256) as u8));
    }
}

/// A program made only of decrement-value instructions, dispatched `k` times
/// from a fresh register state, subtracts `k` from the first cell modulo 256
/// and touches nothing else; in particular a cell holding 2 ends at
/// `(2 - k)` mod 256.
pub proof fn lemma_decrement_run(code: Seq<u8>, jumps: Map<usize, usize>, data: Seq<u8>, k: nat)
    requires
        forall|i: int| 0 <= i < code.len() ==> code[i] == DATA_VALUE_DEC,
        data.len() == DATA_SIZE,
        k <= code.len(),
    ensures
        ({
            let s = run_n(code, jumps, 0, 0, data, Seq::empty(), k);
            &&& s.0 == k
            &&& s.1 == 0
            &&& s.2 == data.update(0, (((data[0] as int) - k) % 256) as u8)
            &&& s.3 == Seq::<u8>::empty()
        }),
    decreases k,
{
    let x = data[0] as int;
    if k == 0 {
        assert((x - 0) % 256 == x);
        assert(data.update(0, ((x - 0) % 256) as u8) =~= data);
    } else {
        lemma_decrement_run(code, jumps, data, (k - 1) as nat);
        let prev = run_n(code, jumps, 0, 0, data, Seq::empty(), (k - 1) as nat);
        assert(decode(code[k - 1]) == Instr::DecValue);
        assert(prev.2[0] == ((x - (k - 1)) % 256) as u8);
        assert(((x - (k - 1)) % 256 - 1) % 256 == (x - k) % 256) by {
            vstd::arithmetic::div_mod::lemma_sub_mod_noop(x - (k - 1), 1, 256);
        }
        assert(data.update(0, ((x - (k - 1)) % 256) as u8).update(0, ((x - k) % 256) as u8)
            =~= data.update(0, ((x - k) % 256) as u8));
    }
}

/// A completed run of an all-increment program leaves the first cell at its
/// start value plus the program's length, modulo 256: any dispatch budget at
/// least the program's length reaches the same final state.
pub proof fn lemma_increment_program_result(
    code: Seq<u8>,
    jumps: Map<usize, usize>,
    data: Seq<u8>,
    k: nat,
)
    requires
        forall|i: int| 0 <= i < code.len() ==> code[i] == DATA_VALUE_INC,
        data.len() == DATA_SIZE,
        k >= code.len(),
    ensures
        ({
            let s = run_n(code, jumps, 0, 0, data, Seq::empty(), k);
            &&& s.0 == code.len()
            &&& s.1 == 0
            &&& s.2 == data.update(0, (((data[0] as int) + code.len()) % 256) as u8)
            &&& s.3 == Seq::<u8>::empty()
        }),
{
    lemma_increment_run(code, jumps, data, code.len());
    lemma_run_stops(code, jumps, 0, 0, data, Seq::empty(), code.len(), k);
}

/// A completed run of an all-decrement program leaves the first cell at its
/// start value minus the program's length, modulo 256: any dispatch budget at
/// least the program's length reaches the same final state.
pub proof fn lemma_decrement_program_result(
    code: Seq<u8>,
    jumps: Map<usize, usize>,
    data: Seq<u8>,
    k: nat,
)
    requires
        forall|i: int| 0 <= i < code.len() ==> code[i] == DATA_VALUE_DEC,
        data.len() == DATA_SIZE,
        k >= code.len(),
    ensures
        ({
            let s = run_n(code, jumps, 0, 0, data, Seq::empty(), k);
            &&& s.0 == code.len()
            &&& s.1 == 0
            &&& s.2 == data.update(0, (((data[0] as int) - code.len()) % 256) as u8)
            &&& s.3 == Seq::<u8>::empty()
        }),
{
    lemma_decrement_run(code, jumps, data, code.len());
    lemma_run_stops(code, jumps, 0, 0, data, Seq::empty(), code.len(), k);
}

/// One pointer step right followed by one step left — or one step left
/// followed by one step right — returns to the starting cell: pointer motion
/// is a bijection on the tape's index space modulo its size.
pub proof fn lemma_pointer_motion_bijective(dp: int)
    requires
        0 <= dp < DATA_SIZE,
    ensures
        next_ptr_dec(next_ptr_inc(dp)) == dp,
        next_ptr_inc(next_ptr_dec(dp)) == dp,
{
    let size = DATA_SIZE as int;
    assert(next_ptr_inc(dp) == if dp == size - 1 {
        0int
    } else {
        dp + 1
    });
    assert(next_ptr_dec(dp) == if dp == 0 {
        size - 1
    } else {
        dp - 1
    });
}

} // verus!
