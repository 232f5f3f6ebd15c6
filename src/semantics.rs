//! The mathematical model: what a source text compiles to, which brackets
//! match, and what one step and a whole run of a program do.

use vstd::prelude::*;
use crate::program::{Action, Command, RunError, TAPE_LEN};

verus! {

/// The command that a source character stands for, if any.
pub open spec fn command_of(c: char, debug: bool) -> Option<Command> {
    if c == '>' {
        Some(Command::Right)
    } else if c == '<' {
        Some(Command::Left)
    } else if c == '+' {
        Some(Command::Inc)
    } else if c == '-' {
        Some(Command::Dec)
    } else if c == '.' {
        Some(Command::Out)
    } else if c == ',' {
        Some(Command::In)
    } else if c == '[' {
        Some(Command::JmpFwd)
    } else if c == ']' {
        Some(Command::JmpBack)
    } else if c == '#' && debug {
        Some(Command::Debug)
    } else {
        None
    }
}

/// The commands of a source text, in order, with every other character dropped.
pub open spec fn compiled(s: Seq<char>, debug: bool) -> Seq<Command>
    decreases s.len(),
{
    if s.len() == 0 {
        Seq::empty()
    } else {
        let rest = compiled(s.drop_last(), debug);
        match command_of(s.last(), debug) {
            Some(c) => rest.push(c),
            None => rest,
        }
    }
}


/// How a command changes the bracket depth.
pub open spec fn delta(c: Command) -> int {
    match c {
        Command::JmpFwd => 1,
        Command::JmpBack => -1,
        _ => 0,
    }
}

/// Opened minus closed brackets among the first `k` commands.
pub open spec fn depth(cmds: Seq<Command>, k: int) -> int
    decreases k,
{
    if k <= 0 || k > cmds.len() {
        0
    } else {
        depth(cmds, k - 1) + delta(cmds[k - 1])
    }
}

/// Every prefix closes no more brackets than it opens, and the whole opens as
/// many as it closes.
pub open spec fn balanced(cmds: Seq<Command>) -> bool {
    &&& forall|k: int| 0 <= k <= cmds.len() ==> #[trigger] depth(cmds, k) >= 0
    &&& depth(cmds, cmds.len() as int) == 0
}

/// The opening bracket at `i` is still open after the first `k` commands.
pub open spec fn open_at(cmds: Seq<Command>, i: int, k: int) -> bool {
    &&& 0 <= i < k
    &&& cmds[i] == Command::JmpFwd
    &&& forall|m: int| i < m <= k ==> #[trigger] depth(cmds, m) > depth(cmds, i)
}

/// The opening bracket at `i` and the closing bracket at `j` match.
pub open spec fn partners(cmds: Seq<Command>, i: int, j: int) -> bool {
    &&& 0 <= i < j < cmds.len()
    &&& cmds[i] == Command::JmpFwd
    &&& cmds[j] == Command::JmpBack
    &&& depth(cmds, j + 1) == depth(cmds, i)
    &&& forall|m: int| i < m <= j ==> #[trigger] depth(cmds, m) > depth(cmds, i)
}

/// Whether a command is a bracket.
pub open spec fn is_jump(c: Command) -> bool {
    c == Command::JmpFwd || c == Command::JmpBack
}

/// `table` sends each bracket to its partner and every other position to itself.
pub open spec fn jump_table_of(cmds: Seq<Command>, table: Seq<usize>) -> bool {
    &&& table.len() == cmds.len()
    &&& forall|i: int|
        0 <= i < cmds.len() && cmds[i] == Command::JmpFwd ==> partners(cmds, i, #[trigger] table[i] as int)
    &&& forall|j: int|
        0 <= j < cmds.len() && cmds[j] == Command::JmpBack ==> partners(cmds, #[trigger] table[j] as int, j)
    &&& forall|i: int| 0 <= i < cmds.len() && !is_jump(cmds[i]) ==> #[trigger] table[i] == i
}

/// The jump table as a map, defined on the bracket positions only.
pub open spec fn jump_map(cmds: Seq<Command>, table: Seq<usize>) -> Map<int, int> {
    Map::new(|i: int| 0 <= i < cmds.len() && is_jump(cmds[i]), |i: int| table[i] as int)
}


/// A cell incremented once, modulo 256.
pub open spec fn inc_cell(x: u8) -> u8 {
    ((x as int + 1) % 256) as u8
}

/// A cell decremented once, modulo 256.
pub open spec fn dec_cell(x: u8) -> u8 {
    ((x as int + 255) % 256) as u8
}

/// The registers and tape of a running program.
pub struct Machine {
    pub pc: int,
    pub ptr: int,
    pub memory: Seq<u8>,
}

/// The effect of executing the command at `m.pc`, given the byte read for an
/// input command (`None` at the end of the input).
pub open spec fn step_spec(cmds: Seq<Command>, jumps: Seq<usize>, m: Machine, input: Option<u8>) -> Result<(Machine, Action), RunError> {
    let next = Machine { pc: m.pc + 1, ..m };
    match cmds[m.pc] {
        Command::Right => if m.ptr + 1 >= TAPE_LEN {
            Err(RunError::OutOfBounds)
        } else {
            Ok((Machine { ptr: m.ptr + 1, ..next }, Action::Continue))
        },
        Command::Left => if m.ptr == 0 {
            Err(RunError::OutOfBounds)
        } else {
            Ok((Machine { ptr: m.ptr - 1, ..next }, Action::Continue))
        },
        Command::Inc => Ok((Machine { memory: m.memory.update(m.ptr, inc_cell(m.memory[m.ptr])), ..next }, Action::Continue)),
        Command::Dec => Ok((Machine { memory: m.memory.update(m.ptr, dec_cell(m.memory[m.ptr])), ..next }, Action::Continue)),
        Command::Out => Ok((next, Action::Output(m.memory[m.ptr]))),
        Command::In => match input {
            Some(b) => Ok((Machine { memory: m.memory.update(m.ptr, b), ..next }, Action::Continue)),
            None => Ok((next, Action::Continue)),
        },
        Command::JmpFwd => if m.memory[m.ptr] == 0 {
            Ok((Machine { pc: jumps[m.pc] + 1, ..m }, Action::Continue))
        } else {
            Ok((next, Action::Continue))
        },
        Command::JmpBack => if m.memory[m.ptr] != 0 {
            Ok((Machine { pc: jumps[m.pc] + 1, ..m }, Action::Continue))
        } else {
            Ok((next, Action::Continue))
        },
        Command::Debug => Ok((next, Action::Debug)),
    }
}

/// The bytes that an action writes to the output.
pub open spec fn written(a: Action) -> Seq<u8> {
    match a {
        Action::Output(b) => seq![b],
        _ => Seq::empty(),
    }
}

/// The byte an input command at `m.pc` would read from `input`.
pub open spec fn input_for(cmds: Seq<Command>, m: Machine, input: Seq<u8>) -> Option<u8> {
    if cmds[m.pc] == Command::In && input.len() > 0 {
        Some(input[0])
    } else {
        None
    }
}

/// What stays of `input` after the command at `m.pc`.
pub open spec fn input_after(cmds: Seq<Command>, m: Machine, input: Seq<u8>) -> Seq<u8> {
    if cmds[m.pc] == Command::In && input.len() > 0 {
        input.drop_first()
    } else {
        input
    }
}

/// Running from `m` for at most `fuel` steps, reading `input` and appending to
/// `output`: the outcome, the machine at the end, and all output written.
pub open spec fn run_spec(cmds: Seq<Command>, jumps: Seq<usize>, m: Machine, input: Seq<u8>, output: Seq<u8>, fuel: nat) -> (Result<(), RunError>, Machine, Seq<u8>)
    decreases fuel,
{
    if m.pc < 0 || m.pc >= cmds.len() {
        (Ok(()), m, output)
    } else if fuel == 0 {
        (Err(RunError::OutOfFuel), m, output)
    } else {
        match step_spec(cmds, jumps, m, input_for(cmds, m, input)) {
            Err(e) => (Err(e), m, output),
            Ok((m2, a)) => run_spec(cmds, jumps, m2, input_after(cmds, m, input), output + written(a), (fuel - 1) as nat),
        }
    }
}

} // verus!
