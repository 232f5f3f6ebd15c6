use bfi::{Action, Command, CompileError, Program, Registers, RunError, TAPE_LEN};

const FUEL: u64 = u64::MAX;

const HELLO: &str = "++++++++[>++++[>++>+++>+++>+<<<<-]>+>+>->>+[<]<-]>>.>---.+++++++..+++.>>.<-.<.+++.------.--------.>>+.>++.";

fn run_text(raw: &str, input: &[u8]) -> (Result<(), RunError>, Vec<u8>) {
    let mut prog = Program::from_str(raw).unwrap();
    let mut output = Vec::new();
    let r = prog.run(input, &mut output, FUEL);
    (r, output)
}

#[test]
fn hello_world() {
    let raw = HELLO;

    let mut output = Vec::new();
    let mut compiled = Program::from_str(raw).unwrap();
    compiled.run(&[], &mut output, FUEL).unwrap();
    let out: String = output.iter().map(|&b| char::from(b)).collect();
    assert_eq!(out, "Hello World!\n");
}

#[test]
fn hello_world_comments() {
    let raw = HELLO;
    let commented = r" 1 +++++ +++               Set Cell #0 to 8
 2 [
 3     >++++               Add 4 to Cell #1; this will always set Cell #1 to 4
 4     [                   as the cell will be cleared by the loop
 5         >++             Add 4*2 to Cell #2
 6         >+++            Add 4*3 to Cell #3
 7         >+++            Add 4*3 to Cell #4
 8         >+              Add 4 to Cell #5
 9         <<<<-           Decrement the loop counter in Cell #1
10     ]                   Loop till Cell #1 is zero
11     >+                  Add 1 to Cell #2
12     >+                  Add 1 to Cell #3
13     >-                  Subtract 1 from Cell #4
14     >>+                 Add 1 to Cell #6
15     [<]                 Move back to the first zero cell you find; this will
16                         be Cell #1 which was cleared by the previous loop
17     <-                  Decrement the loop Counter in Cell #0
18 ]                       Loop till Cell #0 is zero
19 
20 The result of this is:
21 Cell No :   0   1   2   3   4   5   6
22 Contents:   0   0  72 104  88  32   8
23 Pointer :   ^
24 
25 >>.                     Cell #2 has value 72 which is 'H'
26 >---.                   Subtract 3 from Cell #3 to get 101 which is 'e'
27 +++++ ++..+++.          Likewise for 'llo' from Cell #3
28 >>.                     Cell #5 is 32 for the space
29 <-.                     Subtract 1 from Cell #4 for 87 to give a 'W'
30 <.                      Cell #3 was set to 'o' from the end of 'Hello'
31 +++.----- -.----- ---.  Cell #3 for 'rl' and 'd'
32 >>+.                    Add 1 to Cell #5 gives us an exclamation point
33 >++.                    And finally a newline from Cell #6";

    let mut raw_compiled = Program::from_str(raw).unwrap();
    let mut commented_compiled = Program::from_str(commented).unwrap();
    assert_eq!(raw_compiled, commented_compiled);

    let mut raw_output = Vec::new();
    let mut commented_output = Vec::new();

    raw_compiled.run(&[], &mut raw_output, FUEL).unwrap();
    commented_compiled.run(&[], &mut commented_output, FUEL).unwrap();

    let raw_out: String = raw_output.iter().map(|&b| char::from(b)).collect();
    let commented_out: String = commented_output.iter().map(|&b| char::from(b)).collect();
    assert_eq!(raw_out, commented_out);
    assert_eq!(raw_compiled, commented_compiled);
}

#[test]
fn array_size_test() {
    // Goes to the last cell of the tape and reports from there with a '#'.
    let raw = "++++[>++++++<-]>[>+++++>+++++++<<-]>>++++<[[>[[>>+<<-]<]>>>-]>-[>+>+<<-]>]
+++++[>+++++++<<++>-]>.<<.";
    let mut prog = Program::from_str(raw).unwrap();

    let mut output = Vec::new();
    prog.run(&[], &mut output, FUEL).unwrap();

    assert_eq!('#' as u8, output[0]);
}

#[test]
fn obscure_tests() {
    // Tests for several obscure problems. Should output an H.
    let raw = r#"[]++++++++++[>>+>+>++++++[<<+<+++>>>-]<<<<-]
"A*$";?@![#>>+<<]>[>>]<<<<[>++<[-]]>.>."#;
    let mut prog = Program::from_str(raw).unwrap();

    let mut output = Vec::new();
    prog.run(&[], &mut output, FUEL).unwrap();

    assert_eq!('H' as u8, output[0]);
}

#[test]
fn debug() {
    // programs are compiled correctly concerning the debug flag
    let raw_simple = "#+.";
    let comp_simple_debug = Program::compile(raw_simple, true);
    let comp_simple_no_debug = Program::compile(raw_simple, false);
    let expected_simple_debug = vec![Command::Debug, Command::Inc, Command::Out];
    let expected_simple_no_debug = vec![Command::Inc, Command::Out];

    assert_eq!(expected_simple_debug, comp_simple_debug);
    assert_eq!(expected_simple_no_debug, comp_simple_no_debug);

    // the debug window handles the edges of the program and of the tape
    let raw = format!("{}#", HELLO);
    let mut prog = Program::new(Program::compile(&raw, true)).unwrap();
    let n = Program::compile(&raw, true).len();
    let w = prog.debug(&Registers { pc: 0, ptr: 0 });
    assert!(w.before.is_empty() && w.cells_before.is_empty());
    assert_eq!(w.after.len(), 3);
    let w = prog.debug(&Registers { pc: n - 1, ptr: TAPE_LEN - 1 });
    assert!(w.after.is_empty() && w.cells_after.is_empty());
    assert_eq!(w.current, Command::Debug);

    prog.run(&[], &mut Vec::new(), FUEL).unwrap();
}

#[test]
fn debug_window_contents() {
    let mut prog = Program::from_str("+++++>++>+<<").unwrap();
    prog.run(&[], &mut Vec::new(), FUEL).unwrap();
    let w = prog.debug(&Registers { pc: 4, ptr: 1 });
    assert_eq!(w.pc, 4);
    assert_eq!(w.ptr, 1);
    assert_eq!(w.before, vec![Command::Inc, Command::Inc, Command::Inc]);
    assert_eq!(w.current, Command::Inc);
    assert_eq!(w.after, vec![Command::Right, Command::Inc, Command::Inc]);
    assert_eq!(w.cells_before, vec![5]);
    assert_eq!(w.cell, 2);
    assert_eq!(w.cells_after, vec![1, 0, 0]);
}

#[test]
fn compile_drops_comments() {
    let cmds = Program::compile("a>b<c+d-e.f,g[h]i#j", false);
    assert_eq!(
        cmds,
        vec![
            Command::Right,
            Command::Left,
            Command::Inc,
            Command::Dec,
            Command::Out,
            Command::In,
            Command::JmpFwd,
            Command::JmpBack,
        ]
    );
    assert!(Program::compile("hello, world", false) == vec![Command::In]);
    assert!(Program::compile("", true).is_empty());
}

#[test]
fn compile_is_deterministic() {
    assert_eq!(Program::compile(HELLO, true), Program::compile(HELLO, true));
    assert_eq!(Program::from_str(HELLO).unwrap(), Program::from_str(HELLO).unwrap());
}

#[test]
fn unbalanced_brackets_are_refused() {
    for raw in ["[", "]", "][", "[[]", "[]]", "+[>+<-]]", "[[[]]"] {
        assert_eq!(Program::from_str(raw), Err(CompileError::UnbalancedJump), "{}", raw);
    }
    for raw in ["", "[]", "[[][]]", "+[-[+]]"] {
        assert!(Program::from_str(raw).is_ok(), "{}", raw);
    }
}

#[test]
fn increment_wraps_to_zero() {
    let raw = "+".repeat(256) + ".";
    assert_eq!(run_text(&raw, &[]), (Ok(()), vec![0]));
    let raw = "+".repeat(255) + ".+.";
    assert_eq!(run_text(&raw, &[]), (Ok(()), vec![255, 0]));
}

#[test]
fn decrement_wraps_to_max() {
    assert_eq!(run_text("-.", &[]), (Ok(()), vec![255]));
    assert_eq!(run_text("-.+.", &[]), (Ok(()), vec![255, 0]));
}

#[test]
fn input_at_end_leaves_cell() {
    assert_eq!(run_text(",.", &[]), (Ok(()), vec![0]));
    assert_eq!(run_text("+++,.", &[]), (Ok(()), vec![3]));
}

#[test]
fn input_reads_bytes_in_order() {
    assert_eq!(run_text(",.>,.,.", &[65, 66]), (Ok(()), vec![65, 66, 66]));
}

#[test]
fn moving_left_of_first_cell_faults() {
    assert_eq!(run_text("+.<.", &[]), (Err(RunError::OutOfBounds), vec![1]));
}

#[test]
fn moving_past_last_cell_faults() {
    let raw = ">".repeat(TAPE_LEN - 1) + "+.";
    assert_eq!(run_text(&raw, &[]), (Ok(()), vec![1]));
    let raw = ">".repeat(TAPE_LEN);
    assert_eq!(run_text(&raw, &[]), (Err(RunError::OutOfBounds), vec![]));
}

#[test]
fn endless_loop_runs_out_of_fuel() {
    let mut prog = Program::from_str("+[]").unwrap();
    let mut output = Vec::new();
    assert_eq!(prog.run(&[], &mut output, 1000), Err(RunError::OutOfFuel));
}

#[test]
fn skipped_loop_resumes_after_partner() {
    assert_eq!(run_text("[.]+.", &[]), (Ok(()), vec![1]));
    assert_eq!(run_text("++[>+<-]>.", &[]), (Ok(()), vec![2]));
}

#[test]
fn empty_program_runs() {
    assert_eq!(run_text("", &[]), (Ok(()), vec![]));
}

#[test]
fn tape_persists_across_runs() {
    let mut prog = Program::from_str("+.").unwrap();
    let mut output = Vec::new();
    prog.run(&[], &mut output, FUEL).unwrap();
    prog.run(&[], &mut output, FUEL).unwrap();
    assert_eq!(output, vec![1, 2]);
}

#[test]
fn single_steps() {
    let mut prog = Program::new(Program::compile(",.#", true)).unwrap();
    let mut regs = Registers { pc: 0, ptr: 0 };
    assert!(prog.needs_input(&regs));
    assert_eq!(prog.step(&mut regs, Some(7)), Ok(Action::Continue));
    assert_eq!(regs, Registers { pc: 1, ptr: 0 });
    assert!(!prog.needs_input(&regs));
    assert_eq!(prog.step(&mut regs, None), Ok(Action::Output(7)));
    assert_eq!(prog.step(&mut regs, None), Ok(Action::Debug));
    assert_eq!(regs.pc, 3);
}

#[test]
fn failed_step_changes_nothing() {
    let mut prog = Program::from_str("<").unwrap();
    let mut regs = Registers { pc: 0, ptr: 0 };
    assert_eq!(prog.step(&mut regs, None), Err(RunError::OutOfBounds));
    assert_eq!(regs, Registers { pc: 0, ptr: 0 });
}

#[test]
fn jump_table_pairs_brackets_both_ways() {
    let prog = Program::from_str("++[>[-]<-]").unwrap();
    assert_eq!(prog.jump_target(2), Some(9));
    assert_eq!(prog.jump_target(9), Some(2));
    assert_eq!(prog.jump_target(4), Some(6));
    assert_eq!(prog.jump_target(6), Some(4));
    assert_eq!(prog.jump_target(0), None);
    assert_eq!(prog.jump_target(10), None);
    for i in 0..prog.len() {
        if let Some(j) = prog.jump_target(i) {
            assert_eq!(prog.jump_target(j), Some(i));
        }
    }
}
