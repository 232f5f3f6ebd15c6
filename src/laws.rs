//! Laws that relate compilation, the jump table and execution.

use vstd::prelude::*;
use crate::program::{Command, ProgramView};
use crate::semantics::{command_of, compiled, depth, jump_map, jump_table_of, partners, run_spec, Machine};

verus! {

/// The characters that stand for a command.
pub open spec fn command_chars(debug: bool) -> spec_fn(char) -> bool {
    |c: char| command_of(c, debug) is Some
}

/// An opening bracket has at most one partner.
pub proof fn lemma_partner_of_open_unique(cmds: Seq<Command>, i: int, j1: int, j2: int)
    requires
        partners(cmds, i, j1),
        partners(cmds, i, j2),
    ensures
        j1 == j2,
{
    if j1 < j2 {
        assert(depth(cmds, j1 + 1) > depth(cmds, i));
    } else if j2 < j1 {
        assert(depth(cmds, j2 + 1) > depth(cmds, i));
    }
}

/// A closing bracket has at most one partner.
pub proof fn lemma_partner_of_close_unique(cmds: Seq<Command>, i1: int, i2: int, j: int)
    requires
        partners(cmds, i1, j),
        partners(cmds, i2, j),
    ensures
        i1 == i2,
{
    if i1 < i2 {
        assert(depth(cmds, i2) > depth(cmds, i1));
    } else if i2 < i1 {
        assert(depth(cmds, i1) > depth(cmds, i2));
    }
}

/// A command sequence has at most one jump table.
pub proof fn lemma_jump_table_unique(cmds: Seq<Command>, t1: Seq<usize>, t2: Seq<usize>)
    requires
        jump_table_of(cmds, t1),
        jump_table_of(cmds, t2),
    ensures
        t1 == t2,
{
    assert forall|i: int| 0 <= i < t1.len() implies t1[i] == t2[i] by {
        if cmds[i] == Command::JmpFwd {
            lemma_partner_of_open_unique(cmds, i, t1[i] as int, t2[i] as int);
        } else if cmds[i] == Command::JmpBack {
            lemma_partner_of_close_unique(cmds, t1[i] as int, t2[i] as int, i);
        }
    }
    assert(t1 =~= t2);
}

/// In a well-formed program the jump table is symmetric: from any bracket,
/// following the table twice leads back to that bracket.
pub proof fn lemma_jump_table_symmetric(p: ProgramView)
    requires
        p.wf(),
    ensures
        forall|i: int| #[trigger] jump_map(p.commands, p.jumps).contains_key(i) ==> {
            let m = jump_map(p.commands, p.jumps);
            &&& m.contains_key(m[i])
            &&& m[m[i]] == i
        },
{
    let cmds = p.commands;
    let t = p.jumps;
    let m = jump_map(cmds, t);
    assert forall|i: int| #[trigger] m.contains_key(i) implies m.contains_key(m[i]) && m[m[i]] == i by {
        if cmds[i] == Command::JmpFwd {
            let j = t[i] as int;
            assert(partners(cmds, i, j));
            assert(partners(cmds, t[j] as int, j));
            lemma_partner_of_close_unique(cmds, i, t[j] as int, j);
        } else {
            let j = t[i] as int;
            assert(partners(cmds, j, i));
            assert(partners(cmds, j, t[j] as int));
            lemma_partner_of_open_unique(cmds, j, i, t[j] as int);
        }
    }
}

/// Compilation is deterministic: the same source and flag give the same
/// commands and the same jump table.
pub proof fn lemma_compile_deterministic(s1: Seq<char>, s2: Seq<char>, debug: bool, t1: Seq<usize>, t2: Seq<usize>)
    requires
        s1 == s2,
        jump_table_of(compiled(s1, debug), t1),
        jump_table_of(compiled(s2, debug), t2),
    ensures
        compiled(s1, debug) == compiled(s2, debug),
        t1 == t2,
{
    lemma_jump_table_unique(compiled(s1, debug), t1, t2);
}

/// Dropping the characters that stand for no command does not change what a
/// text compiles to.
pub proof fn lemma_compiled_ignores_comments(s: Seq<char>, debug: bool)
    ensures
        compiled(s, debug) == compiled(s.filter(command_chars(debug)), debug),
    decreases s.len(),
{
    reveal(Seq::filter);
    let f = s.filter(command_chars(debug));
    if s.len() > 0 {
        lemma_compiled_ignores_comments(s.drop_last(), debug);
        let g = s.drop_last().filter(command_chars(debug));
        if command_of(s.last(), debug) is Some {
            assert(f == g.push(s.last()));
            assert(f.drop_last() =~= g);
        } else {
            assert(f == g);
        }
    }
}

/// Two texts that differ only in characters that stand for no command compile
/// to the same commands and the same jump table, and every run of the two
/// programs from the same tape, on the same input, gives the same result.
pub proof fn lemma_comment_transparency(
    s1: Seq<char>,
    s2: Seq<char>,
    debug: bool,
    t1: Seq<usize>,
    t2: Seq<usize>,
    memory: Seq<u8>,
    input: Seq<u8>,
    fuel: nat,
)
    requires
        s1.filter(command_chars(debug)) == s2.filter(command_chars(debug)),
        jump_table_of(compiled(s1, debug), t1),
        jump_table_of(compiled(s2, debug), t2),
    ensures
        compiled(s1, debug) == compiled(s2, debug),
        t1 == t2,
        run_spec(compiled(s1, debug), t1, Machine { pc: 0, ptr: 0, memory }, input, Seq::empty(), fuel)
            == run_spec(compiled(s2, debug), t2, Machine { pc: 0, ptr: 0, memory }, input, Seq::empty(), fuel),
{
    lemma_compiled_ignores_comments(s1, debug);
    lemma_compiled_ignores_comments(s2, debug);
    lemma_jump_table_unique(compiled(s1, debug), t1, t2);
}

} // verus!
