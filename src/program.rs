//! Compilation, jump-table construction and execution.

use vstd::prelude::*;
use crate::semantics::{
    balanced, compiled, dec_cell, depth, inc_cell, input_after, input_for, is_jump, jump_map, jump_table_of,
    open_at, partners, run_spec, step_spec, written, Machine,
};

verus! {

/// One instruction of a compiled program.
#[derive(Debug, Clone, Copy, PartialEq, Eq, Structural)]
pub enum Command {
    Right,
    Left,
    Inc,
    Dec,
    Out,
    In,
    JmpFwd,
    JmpBack,
    Debug,
}

/// Why a command sequence cannot be made into a program.
#[derive(Debug, Clone, Copy, PartialEq, Eq, Structural)]
pub enum CompileError {
    UnbalancedJump,
}

/// Why a run stopped before the end of the program.
#[derive(Debug, Clone, Copy, PartialEq, Eq, Structural)]
pub enum RunError {
    /// The cursor moved off either end of the tape.
    OutOfBounds,
    /// The step budget ran out.
    OutOfFuel,
}

/// What the caller has to do after a step.
#[derive(Debug, Clone, Copy, PartialEq, Eq, Structural)]
pub enum Action {
    Continue,
    /// Write this byte to the output.
    Output(u8),
    /// Show the diagnostic window for the state before the step.
    Debug,
}

/// The program counter and the cursor.
#[derive(Debug, Clone, Copy, PartialEq, Eq, Structural)]
pub struct Registers {
    pub pc: usize,
    pub ptr: usize,
}

impl Registers {
    /// The machine state made of these registers and a tape.
    pub open spec fn machine(self, memory: Seq<u8>) -> Machine {
        Machine { pc: self.pc as int, ptr: self.ptr as int, memory }
    }
}

/// The number of cells on the tape.
pub const TAPE_LEN: usize = 30000;

/// A compiled program: its commands, the partner of each bracket, and the tape.
#[derive(Debug)]
pub struct Program {
    commands: Vec<Command>,
    jmptable: Vec<usize>,
    memory: Vec<u8>,
}

/// What a program is, as mathematics.
pub struct ProgramView {
    pub commands: Seq<Command>,
    pub jumps: Seq<usize>,
    pub memory: Seq<u8>,
}

impl View for Program {
    type V = ProgramView;

    closed spec fn view(&self) -> ProgramView {
        ProgramView { commands: self.commands@, jumps: self.jmptable@, memory: self.memory@ }
    }
}

impl PartialEq for Program {
    fn eq(&self, other: &Program) -> (r: bool)
        ensures
            r == (self@ == other@),
    {
        same_commands(&self.commands, &other.commands) && same_indices(&self.jmptable, &other.jmptable)
            && same_bytes(&self.memory, &other.memory)
    }
}

impl vstd::std_specs::cmp::PartialEqSpecImpl for Program {
    open spec fn obeys_eq_spec() -> bool {
        true
    }

    open spec fn eq_spec(&self, other: &Program) -> bool {
        self@ == other@
    }
}

impl ProgramView {
    /// The brackets are balanced, the table matches them, and the tape has its full length.
    pub open spec fn wf(&self) -> bool {
        &&& balanced(self.commands)
        &&& jump_table_of(self.commands, self.jumps)
        &&& self.memory.len() == TAPE_LEN
    }
}

impl Program {
    /// Reduces source text to its commands; `#` is a command only when
    /// `debug_pound` is set, and every other character is a comment.
    pub fn compile(input: &str, debug_pound: bool) -> (r: Vec<Command>)
        ensures
            r@ == compiled(input@, debug_pound),
    {
        let mut coms: Vec<Command> = Vec::new();
        for c in it: input.chars()
            invariant
                it.seq() == input@,
                coms@ == compiled(input@.take(it.index() as int), debug_pound),
        {
            proof {
                assert(input@.take(it.index() + 1).drop_last() == input@.take(it.index() as int));
            }
            let command = if c == '>' {
                Some(Command::Right)
            } else if c == '<' {
                Some(Command::Left)
            } else if c == '+' {
                Some(Command::Inc)
            } else if c == '-' {
                Some(Command::Dec)
            } else if c == '.' {
                Some(Command::Out)
            } else if c == ',' {
                Some(Command::In)
            } else if c == '[' {
                Some(Command::JmpFwd)
            } else if c == ']' {
                Some(Command::JmpBack)
            } else if c == '#' && debug_pound {
                Some(Command::Debug)
            } else {
                None
            };
            match command {
                Some(cmd) => coms.push(cmd),
                None => {},
            }
        }
        proof {
            assert(input@.take(input@.len() as int) == input@);
        }
        coms
    }

    /// Matches the brackets of `commands` and gives the program a zeroed tape.
    /// Fails exactly when the brackets are unbalanced.
    pub fn new(commands: Vec<Command>) -> (r: Result<Program, CompileError>)
        ensures
            r is Ok <==> balanced(commands@),
            r is Err ==> r == Err::<Program, CompileError>(CompileError::UnbalancedJump),
            r matches Ok(p) ==> {
                &&& p@.wf()
                &&& p@.commands == commands@
                &&& p@.memory == Seq::new(TAPE_LEN as nat, |i: int| 0u8)
            },
    {
        let ghost cmds = commands@;
        let n = commands.len();
        let mut jmps: Vec<usize> = Vec::new();
        let mut table: Vec<usize> = Vec::new();
        let mut i: usize = 0;
        while i < n
            invariant
                n == cmds.len(),
                commands@ == cmds,
                i <= n,
                table.len() == i,
                jmps.len() == depth(cmds, i as int),
                forall|m: int| 0 <= m <= i ==> #[trigger] depth(cmds, m) >= 0,
                forall|d: int| 0 <= d < jmps.len() ==> {
                    &&& #[trigger] jmps@[d] < i
                    &&& open_at(cmds, jmps@[d] as int, i as int)
                    &&& depth(cmds, jmps@[d] as int) == d
                },
                forall|a: int| 0 <= a < i && cmds[a] == Command::JmpFwd ==>
                    if open_at(cmds, a, i as int) {
                        0 <= depth(cmds, a) < jmps.len() && jmps@[depth(cmds, a)] == a
                    } else {
                        partners(cmds, a, #[trigger] table@[a] as int)
                    },
                forall|b: int| 0 <= b < i && cmds[b] == Command::JmpBack ==> partners(cmds, #[trigger] table@[b] as int, b),
                forall|a: int| 0 <= a < i && !is_jump(cmds[a]) ==> #[trigger] table@[a] == a,
            decreases n - i,
        {
            let c = commands[i];
            match c {
                Command::JmpFwd => {
                    jmps.push(i);
                    table.push(i);
                },
                Command::JmpBack => {
                    if jmps.len() == 0 {
                        assert(depth(cmds, i + 1) < 0);
                        return Err(CompileError::UnbalancedJump);
                    }
                    let start = jmps.pop().unwrap();
                    table.set(start, i);
                    table.push(start);
                },
                _ => {
                    table.push(i);
                },
            }
            i = i + 1;
        }
        if jmps.len() != 0 {
            return Err(CompileError::UnbalancedJump);
        }
        let memory = vec![0u8; TAPE_LEN];
        Ok(Program { commands, jmptable: table, memory })
    }

    /// The number of commands.
    pub fn len(&self) -> (r: usize)
        ensures
            r == self@.commands.len(),
    {
        self.commands.len()
    }

    /// The partner of the bracket at `i`; `None` where no bracket stands.
    pub fn jump_target(&self, i: usize) -> (r: Option<usize>)
        requires
            self@.wf(),
        ensures
            r is Some <==> jump_map(self@.commands, self@.jumps).contains_key(i as int),
            r matches Some(j) ==> j == jump_map(self@.commands, self@.jumps)[i as int],
    {
        if i < self.commands.len() && (self.commands[i] == Command::JmpFwd || self.commands[i] == Command::JmpBack) {
            return Some(self.jmptable[i]);
        }
        None
    }

    /// Whether the command at `regs.pc` reads a byte.
    pub fn needs_input(&self, regs: &Registers) -> (r: bool)
        requires
            regs.pc < self@.commands.len(),
        ensures
            r <==> self@.commands[regs.pc as int] == Command::In,
    {
        self.commands[regs.pc] == Command::In
    }

    /// Executes the command at `regs.pc`; `input` is the byte read for an
    /// input command, `None` at the end of the input, which leaves the cell as
    /// it is. On a fault the registers and the tape stay as they were.
    pub fn step(&mut self, regs: &mut Registers, input: Option<u8>) -> (r: Result<Action, RunError>)
        requires
            old(self)@.wf(),
            old(regs).pc < old(self)@.commands.len(),
            old(regs).ptr < TAPE_LEN,
        ensures
            final(self)@.wf(),
            final(self)@.commands == old(self)@.commands,
            final(self)@.jumps == old(self)@.jumps,
            final(regs).pc <= final(self)@.commands.len(),
            final(regs).ptr < TAPE_LEN,
            step_spec(old(self)@.commands, old(self)@.jumps, old(regs).machine(old(self)@.memory), input) == match r {
                Ok(a) => Ok::<(Machine, Action), RunError>((final(regs).machine(final(self)@.memory), a)),
                Err(e) => Err(e),
            },
            r is Err ==> *final(regs) == *old(regs) && final(self)@ == old(self)@,
    {
        let pc = regs.pc;
        let ptr = regs.ptr;
        let n = self.commands.len();
        proof {
            assert(self.jmptable@[pc as int] < self.commands@.len()) by {
                let c = self.commands@[pc as int];
                if c == Command::JmpFwd {
                    assert(partners(self.commands@, pc as int, self.jmptable@[pc as int] as int));
                } else if c == Command::JmpBack {
                    assert(partners(self.commands@, self.jmptable@[pc as int] as int, pc as int));
                }
            }
        }
        let mut action = Action::Continue;
        match self.commands[pc] {
            Command::Right => {
                if ptr + 1 >= TAPE_LEN {
                    return Err(RunError::OutOfBounds);
                }
                regs.ptr = ptr + 1;
            },
            Command::Left => {
                if ptr == 0 {
                    return Err(RunError::OutOfBounds);
                }
                regs.ptr = ptr - 1;
            },
            Command::Inc => {
                let v = self.memory[ptr];
                let w: u8 = if v == 255 { 0 } else { v + 1 };
                assert(w == inc_cell(v));
                self.memory.set(ptr, w);
            },
            Command::Dec => {
                let v = self.memory[ptr];
                let w: u8 = if v == 0 { 255 } else { v - 1 };
                assert(w == dec_cell(v));
                self.memory.set(ptr, w);
            },
            Command::Out => {
                action = Action::Output(self.memory[ptr]);
            },
            Command::In => {
                match input {
                    Some(b) => self.memory.set(ptr, b),
                    None => {},
                }
            },
            Command::JmpFwd => {
                if self.memory[ptr] == 0 {
                    regs.pc = self.jmptable[pc];
                }
            },
            Command::JmpBack => {
                if self.memory[ptr] != 0 {
                    regs.pc = self.jmptable[pc];
                }
            },
            Command::Debug => {
                action = Action::Debug;
            },
        }
        assert(regs.pc < n);
        regs.pc = regs.pc + 1;
        Ok(action)
    }

    /// Runs the program from its first command with the cursor on the first
    /// cell, on the tape as the previous runs left it, reading `input` and
    /// appending what it writes to `output`. Gives up with `OutOfFuel` after
    /// `fuel` steps; what was written before a fault stays written.
    pub fn run(&mut self, input: &[u8], output: &mut Vec<u8>, fuel: u64) -> (r: Result<(), RunError>)
        requires
            old(self)@.wf(),
        ensures
            final(self)@.wf(),
            final(self)@.commands == old(self)@.commands,
            final(self)@.jumps == old(self)@.jumps,
            ({
                let (res, m, out) = run_spec(
                    old(self)@.commands,
                    old(self)@.jumps,
                    Machine { pc: 0, ptr: 0, memory: old(self)@.memory },
                    input@,
                    old(output)@,
                    fuel as nat,
                );
                &&& r == res
                &&& final(output)@ == out
                &&& final(self)@.memory == m.memory
            }),
    {
        let ghost goal = run_spec(
            self@.commands,
            self@.jumps,
            Machine { pc: 0, ptr: 0, memory: self@.memory },
            input@,
            output@,
            fuel as nat,
        );
        let mut regs = Registers { pc: 0, ptr: 0 };
        let mut pos: usize = 0;
        let mut left: u64 = fuel;
        let n = self.commands.len();
        assert(input@.subrange(0, input@.len() as int) == input@);
        loop
            invariant
                self@.wf(),
                self@.commands == old(self)@.commands,
                self@.jumps == old(self)@.jumps,
                n == self@.commands.len(),
                regs.pc <= n,
                regs.ptr < TAPE_LEN,
                pos <= input.len(),
                run_spec(
                    self@.commands,
                    self@.jumps,
                    regs.machine(self@.memory),
                    input@.subrange(pos as int, input@.len() as int),
                    output@,
                    left as nat,
                ) == goal,
                goal == run_spec(
                    old(self)@.commands,
                    old(self)@.jumps,
                    Machine { pc: 0, ptr: 0, memory: old(self)@.memory },
                    input@,
                    old(output)@,
                    fuel as nat,
                ),
            decreases left,
        {
            if regs.pc >= n {
                return Ok(());
            }
            if left == 0 {
                return Err(RunError::OutOfFuel);
            }
            let ghost rest = input@.subrange(pos as int, input@.len() as int);
            let ghost m = regs.machine(self@.memory);
            let mut byte: Option<u8> = None;
            if self.commands[regs.pc] == Command::In && pos < input.len() {
                byte = Some(input[pos]);
                pos = pos + 1;
                assert(input@.subrange(pos as int, input@.len() as int) == rest.drop_first());
            }
            let ghost out_before = output@;
            assert(byte == input_for(self@.commands, m, rest));
            assert(input@.subrange(pos as int, input@.len() as int) == input_after(self@.commands, m, rest));
            match self.step(&mut regs, byte) {
                Ok(a) => {
                    match a {
                        Action::Output(b) => output.push(b),
                        _ => {},
                    }
                    assert(output@ == out_before + written(a));
                },
                Err(e) => {
                    return Err(e);
                },
            }
            left = left - 1;
        }
    }

    /// Compiles `input` without the debug command and builds the program.
    pub fn from_str(input: &str) -> (r: Result<Program, CompileError>)
        ensures
            r is Ok <==> balanced(compiled(input@, false)),
            r is Err ==> r == Err::<Program, CompileError>(CompileError::UnbalancedJump),
            r matches Ok(p) ==> {
                &&& p@.wf()
                &&& p@.commands == compiled(input@, false)
                &&& p@.memory == Seq::new(TAPE_LEN as nat, |i: int| 0u8)
            },
    {
        Self::new(Self::compile(input, false))
    }

    /// The state around `regs` for diagnosis: the command at `pc` with up to
    /// three commands on each side, and the cell at `ptr` with up to three
    /// cells on each side, cut short at either end.
    pub fn debug(&self, regs: &Registers) -> (w: DebugWindow)
        requires
            self@.wf(),
            regs.pc < self@.commands.len(),
            regs.ptr < TAPE_LEN,
        ensures
            w.pc == regs.pc,
            w.ptr == regs.ptr,
            w.current == self@.commands[regs.pc as int],
            w.cell == self@.memory[regs.ptr as int],
            w.before@ == self@.commands.subrange(window_start(regs.pc as int), regs.pc as int),
            w.after@ == self@.commands.subrange(regs.pc + 1, window_end(regs.pc as int, self@.commands.len() as int)),
            w.cells_before@ == self@.memory.subrange(window_start(regs.ptr as int), regs.ptr as int),
            w.cells_after@ == self@.memory.subrange(regs.ptr + 1, window_end(regs.ptr as int, TAPE_LEN as int)),
    {
        let pc = regs.pc;
        let ptr = regs.ptr;
        let n = self.commands.len();
        let pc_lo: usize = if pc >= 3 { pc - 3 } else { 0 };
        let pc_hi: usize = if n - pc > 3 { pc + 4 } else { n };
        let ptr_lo: usize = if ptr >= 3 { ptr - 3 } else { 0 };
        let ptr_hi: usize = if TAPE_LEN - ptr > 3 { ptr + 4 } else { TAPE_LEN };
        DebugWindow {
            pc,
            ptr,
            before: copy_range(&self.commands, pc_lo, pc),
            current: self.commands[pc],
            after: copy_range(&self.commands, pc + 1, pc_hi),
            cells_before: copy_range(&self.memory, ptr_lo, ptr),
            cell: self.memory[ptr],
            cells_after: copy_range(&self.memory, ptr + 1, ptr_hi),
        }
    }
}

fn same_commands(a: &Vec<Command>, b: &Vec<Command>) -> (r: bool)
    ensures
        r == (a@ == b@),
{
    if a.len() != b.len() {
        return false;
    }
    let mut i: usize = 0;
    while i < a.len()
        invariant
            a@.len() == b@.len(),
            i <= a@.len(),
            a@.take(i as int) == b@.take(i as int),
        decreases a@.len() - i,
    {
        if a[i] != b[i] {
            return false;
        }
        assert(a@.take(i + 1) == a@.take(i as int).push(a@[i as int]));
        assert(b@.take(i + 1) == b@.take(i as int).push(b@[i as int]));
        i = i + 1;
    }
    assert(a@ == a@.take(i as int));
    assert(b@ == b@.take(i as int));
    true
}

fn same_indices(a: &Vec<usize>, b: &Vec<usize>) -> (r: bool)
    ensures
        r == (a@ == b@),
{
    if a.len() != b.len() {
        return false;
    }
    let mut i: usize = 0;
    while i < a.len()
        invariant
            a@.len() == b@.len(),
            i <= a@.len(),
            a@.take(i as int) == b@.take(i as int),
        decreases a@.len() - i,
    {
        if a[i] != b[i] {
            return false;
        }
        assert(a@.take(i + 1) == a@.take(i as int).push(a@[i as int]));
        assert(b@.take(i + 1) == b@.take(i as int).push(b@[i as int]));
        i = i + 1;
    }
    assert(a@ == a@.take(i as int));
    assert(b@ == b@.take(i as int));
    true
}

fn same_bytes(a: &Vec<u8>, b: &Vec<u8>) -> (r: bool)
    ensures
        r == (a@ == b@),
{
    if a.len() != b.len() {
        return false;
    }
    let mut i: usize = 0;
    while i < a.len()
        invariant
            a@.len() == b@.len(),
            i <= a@.len(),
            a@.take(i as int) == b@.take(i as int),
        decreases a@.len() - i,
    {
        if a[i] != b[i] {
            return false;
        }
        assert(a@.take(i + 1) == a@.take(i as int).push(a@[i as int]));
        assert(b@.take(i + 1) == b@.take(i as int).push(b@[i as int]));
        i = i + 1;
    }
    assert(a@ == a@.take(i as int));
    assert(b@ == b@.take(i as int));
    true
}

/// First position of a window of up to three entries before `i`.
pub open spec fn window_start(i: int) -> int {
    if i >= 3 { i - 3 } else { 0 }
}

/// End (exclusive) of a window of up to three entries after `i`, in a sequence of length `len`.
pub open spec fn window_end(i: int, len: int) -> int {
    if len - i > 3 { i + 4 } else { len }
}

/// The state around the program counter and the cursor, for diagnosis.
pub struct DebugWindow {
    pub pc: usize,
    pub ptr: usize,
    pub before: Vec<Command>,
    pub current: Command,
    pub after: Vec<Command>,
    pub cells_before: Vec<u8>,
    pub cell: u8,
    pub cells_after: Vec<u8>,
}

fn copy_range<T: Copy>(v: &Vec<T>, lo: usize, hi: usize) -> (r: Vec<T>)
    requires
        lo <= hi <= v@.len(),
    ensures
        r@ == v@.subrange(lo as int, hi as int),
{
    let mut r: Vec<T> = Vec::new();
    let mut i: usize = lo;
    while i < hi
        invariant
            lo <= i <= hi <= v@.len(),
            r@ == v@.subrange(lo as int, i as int),
        decreases hi - i,
    {
        r.push(v[i]);
        i = i + 1;
    }
    r
}

} // verus!
