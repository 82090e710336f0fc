use brainfuck::opcode::{
    DATA_PTR_DEC, DATA_PTR_INC, DATA_VALUE_DEC, DATA_VALUE_INC, JUMP_BCK, JUMP_FWD,
};
use brainfuck::vm::{VMCore, CODE_SIZE, DATA_SIZE};

const BUDGET: usize = 100_000;

fn insert_code(a: &mut VMCore) {
    a.code.push(DATA_VALUE_INC);
    a.code.push(DATA_VALUE_INC);
    a.code.push(DATA_VALUE_INC);
    a.code.push(DATA_VALUE_INC);
    a.code.push(DATA_VALUE_INC);
    a.code.push(JUMP_FWD);
    a.code.push(DATA_PTR_INC);
    a.code.push(DATA_VALUE_INC);
    a.code.push(DATA_PTR_DEC);
    a.code.push(DATA_VALUE_DEC);
    a.code.push(JUMP_BCK);
}

#[test]
fn create_vm_core() {
    let a = VMCore::new();
    assert_eq!(a.pc, 0);
    assert_eq!(a.dp, 0);
    assert_eq!(a.code.capacity(), CODE_SIZE);
    assert_eq!(a.data.len(), DATA_SIZE);
    assert_eq!(a.jumps.len(), 0);
}

#[test]
fn compute_jumps_unbalanced_one() {
    let mut a = VMCore::new();
    a.code.push(JUMP_FWD);
    a.code.push(DATA_VALUE_INC);
    a.code.push(JUMP_BCK);
    a.code.push(JUMP_BCK);

    assert_eq!(
        a.compute_jumps(4),
        Err("Error: unbalanced number of '[' and ']' in the source code!".to_string())
    )
}

#[test]
fn compute_jumps_unbalanced_two() {
    let mut a = VMCore::new();
    a.code.push(JUMP_FWD);
    a.code.push(JUMP_FWD);
    a.code.push(DATA_VALUE_INC);
    a.code.push(JUMP_BCK);

    assert_eq!(
        a.compute_jumps(4),
        Err("Error: unbalanced number of '[' and ']' in the source code!".to_string())
    )
}

#[test]
fn compute_jumps_one_loop_correct() {
    let mut a = VMCore::new();

    // insert the code and compute jumps
    insert_code(&mut a);
    a.compute_jumps(11).unwrap();

    // assess if the jumps are correctly computed
    assert_eq!(a.jumps[&5], 11);
    assert_eq!(a.jumps[&10], 6);
}

#[test]
fn data_value_inc() {
    let mut a = VMCore::new();

    a.code.push(DATA_VALUE_INC);
    a.code.push(DATA_VALUE_INC);
    a.code.push(DATA_VALUE_INC);
    a.code.push(DATA_VALUE_INC);
    a.code.push(DATA_VALUE_INC);

    a.execute(BUDGET);

    assert_eq!(a.data[0], 5);
}

#[test]
fn data_value_dec() {
    let mut a = VMCore::new();

    a.code.push(DATA_VALUE_DEC);
    a.code.push(DATA_VALUE_DEC);
    a.code.push(DATA_VALUE_DEC);
    a.code.push(DATA_VALUE_DEC);
    a.code.push(DATA_VALUE_DEC);

    a.data[0] = 7;
    a.execute(BUDGET);

    assert_eq!(a.data[0], 2);
}

#[test]
fn data_value_inc_overflow() {
    let mut a = VMCore::new();

    a.data[0] = 253;
    a.code.push(DATA_VALUE_INC);
    a.code.push(DATA_VALUE_INC);
    a.code.push(DATA_VALUE_INC);
    a.code.push(DATA_VALUE_INC);
    a.code.push(DATA_VALUE_INC);
    a.execute(BUDGET);

    assert_eq!(a.data[0], 2);
}

#[test]
fn data_value_dec_overflow() {
    let mut a = VMCore::new();

    a.data[0] = 2;
    a.code.push(DATA_VALUE_DEC);
    a.code.push(DATA_VALUE_DEC);
    a.code.push(DATA_VALUE_DEC);
    a.code.push(DATA_VALUE_DEC);
    a.code.push(DATA_VALUE_DEC);
    a.execute(BUDGET);

    assert_eq!(a.data[0], 253);
}

#[test]
fn data_ptr_inc() {
    let mut a = VMCore::new();

    a.code.push(DATA_PTR_INC);
    a.execute(BUDGET);

    assert_eq!(a.dp, 1);
}

#[test]
fn data_ptr_inc_overflow() {
    let mut a = VMCore::new();

    a.dp = DATA_SIZE - 2;
    a.code.push(DATA_PTR_INC);
    a.code.push(DATA_PTR_INC);
    a.code.push(DATA_PTR_INC);
    a.code.push(DATA_PTR_INC);
    a.execute(BUDGET);

    assert_eq!(a.dp, 2);
}

#[test]
fn data_ptr_dec() {
    let mut a = VMCore::new();

    a.dp = 10;
    a.code.push(DATA_PTR_DEC);
    a.execute(BUDGET);

    assert_eq!(a.dp, 9);
}

#[test]
fn data_ptr_dec_overflow() {
    let mut a = VMCore::new();

    a.dp = 2;
    a.code.push(DATA_PTR_DEC);
    a.code.push(DATA_PTR_DEC);
    a.code.push(DATA_PTR_DEC);
    a.code.push(DATA_PTR_DEC);
    a.execute(BUDGET);

    assert_eq!(a.dp, DATA_SIZE - 2);
}

#[test]
fn jump_fwd_not_zero() {
    let mut a = VMCore::new();

    // insert the code and compute the jumps
    insert_code(&mut a);
    a.compute_jumps(11).unwrap();

    // change registers
    a.data[0] = 5;
    a.pc = 6;

    // compute forward jump
    a.jump_fwd();

    assert_eq!(a.pc, 6);
}

#[test]
fn jmp_fwd_zero() {
    let mut a = VMCore::new();

    // insert the code and compute the jumps
    insert_code(&mut a);
    a.compute_jumps(11).unwrap();

    // jump
    a.pc = 6;
    a.jump_fwd();

    assert_eq!(a.pc, 11);
}

#[test]
fn jump_bck_not_zero() {
    let mut a = VMCore::new();

    // insert the code and compute the jumps
    insert_code(&mut a);
    a.compute_jumps(11).unwrap();

    // jump
    a.data[0] = 5;
    a.pc = 11;
    a.jump_bck();

    assert_eq!(a.pc, 6);
}

#[test]
fn jump_bck_zero() {
    let mut a = VMCore::new();

    // insert the code and compute the jumps
    insert_code(&mut a);
    a.compute_jumps(11).unwrap();

    // jump
    a.data[0] = 0;
    a.pc = 11;
    a.jump_bck();

    assert_eq!(a.pc, 11);
}
