use brainfuck::vm::{StepOutcome, VMCore, CODE_SIZE};

const BUDGET: usize = 100_000;

const UNBALANCED: &str = "Error: unbalanced number of '[' and ']' in the source code!";

#[test]
fn load_reports_byte_count() {
    let mut vm = VMCore::new();
    let source = b"+++".to_vec();
    assert_eq!(vm.load(&source), Ok(3));
    assert_eq!(vm.code.len(), 3);
}

#[test]
fn load_truncates_to_capacity() {
    let mut vm = VMCore::new();
    let source = vec![43u8; CODE_SIZE + 7000];
    assert_eq!(vm.load(&source), Ok(CODE_SIZE));
    assert_eq!(vm.code.len(), CODE_SIZE);
}

#[test]
fn load_rejects_extra_close_bracket() {
    let mut vm = VMCore::new();
    let source = b"[+]]".to_vec();
    assert_eq!(vm.load(&source), Err(UNBALANCED.to_string()));
}

#[test]
fn load_rejects_extra_open_bracket() {
    let mut vm = VMCore::new();
    let source = b"[[+]".to_vec();
    assert_eq!(vm.load(&source), Err(UNBALANCED.to_string()));
}

#[test]
fn resolver_maps_each_bracket_past_its_partner() {
    let mut vm = VMCore::new();
    let source = b"[+][-]".to_vec();
    vm.load(&source).unwrap();
    assert_eq!(vm.jumps[&0], 3);
    assert_eq!(vm.jumps[&2], 1);
    assert_eq!(vm.jumps[&3], 6);
    assert_eq!(vm.jumps[&5], 4);
    assert_eq!(vm.jumps.len(), 4);
}

#[test]
fn resolver_rederives_identical_mapping() {
    let source = b"+++++[>+<-]".to_vec();
    let mut first = VMCore::new();
    first.load(&source).unwrap();
    let mut second = VMCore::new();
    second.load(&source).unwrap();
    assert_eq!(first.jumps, second.jumps);

    // re-deriving on the same machine also reproduces the mapping
    let before = first.jumps.clone();
    first.compute_jumps(source.len()).unwrap();
    assert_eq!(first.jumps, before);
}

#[test]
fn loop_program_moves_count_to_next_cell() {
    let mut vm = VMCore::new();
    let source = b"+++++[>+<-]".to_vec();
    vm.load(&source).unwrap();
    vm.execute(BUDGET);
    assert_eq!(vm.data[0], 0);
    assert_eq!(vm.data[1], 5);
    assert_eq!(vm.pc, 11);
}

#[test]
fn write_collects_current_cell() {
    let mut vm = VMCore::new();
    let source = b"+++.".to_vec();
    vm.load(&source).unwrap();
    let out = vm.execute(BUDGET);
    assert_eq!(out, vec![3u8]);
}

#[test]
fn unrecognized_bytes_are_no_ops() {
    let mut vm = VMCore::new();
    let source = b"this text is a comment + with one increment".to_vec();
    vm.load(&source).unwrap();
    vm.execute(BUDGET);
    assert_eq!(vm.data[0], 1);
    assert_eq!(vm.dp, 0);
}

#[test]
fn read_with_no_input_leaves_cell_unchanged() {
    let mut vm = VMCore::new();
    let source = b",".to_vec();
    vm.load(&source).unwrap();
    vm.data[0] = 9;
    vm.execute(BUDGET);
    assert_eq!(vm.data[0], 9);
    assert_eq!(vm.pc, 1);
}

#[test]
fn step_reports_awaited_input_and_stores_character() {
    let mut vm = VMCore::new();
    let source = b",".to_vec();
    vm.load(&source).unwrap();
    assert_eq!(vm.step(), StepOutcome::AwaitInput);
    vm.supply_input(Some('A'));
    assert_eq!(vm.data[0], 65);
    assert_eq!(vm.step(), StepOutcome::Done);
}

#[test]
fn step_reports_output_of_current_cell() {
    let mut vm = VMCore::new();
    let source = b"++.".to_vec();
    vm.load(&source).unwrap();
    assert_eq!(vm.step(), StepOutcome::Ran);
    assert_eq!(vm.step(), StepOutcome::Ran);
    assert_eq!(vm.step(), StepOutcome::Output(2));
    assert_eq!(vm.step(), StepOutcome::Done);
}

#[test]
fn execute_stops_at_the_step_budget() {
    let mut vm = VMCore::new();
    // an endless loop: the first cell never returns to zero
    let source = b"+[]".to_vec();
    vm.load(&source).unwrap();
    vm.execute(1000);
    assert_eq!(vm.data[0], 1);
    assert!(vm.pc < 3);
}
