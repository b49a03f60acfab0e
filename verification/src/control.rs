//! Mute/unmute control protocol.
//!
//! A controlling thread sends `Command`s over a FIFO queue to the worker
//! thread that owns the stream; the worker answers each command by storing
//! a value into a shared one-word control cell, which the audio callback
//! reads once per sample. The cell's sign is the whole protocol: a positive
//! value fades the signal in, a non-positive value fades it out, and a
//! value below the unmute level reads as muted. This module holds the
//! verified decision logic of that protocol; the queue, the atomic cell and
//! the threads around it are plain plumbing owned by the caller.

use vstd::prelude::*;

verus! {

/// A control request sent from the controlling thread to the worker thread.
#[derive(Clone, Copy, PartialEq, Eq, Structural, Debug)]
pub enum Command {
    Mute,
    Unmute,
}

/// The cell value a command stores. Commands overwrite the cell, so after
/// any processed command the cell holds the value of the last one.
pub open spec fn cell_of(cmd: Command) -> int {
    match cmd {
        Command::Mute => -1,
        Command::Unmute => 1,
    }
}

/// The worker's answer to one command: the value to store into the shared
/// control cell.
pub fn cell_value(cmd: Command) -> (v: i8)
    ensures
        v as int == cell_of(cmd),
{
    match cmd {
        Command::Mute => -1,
        Command::Unmute => 1,
    }
}

/// What a cell value reads as: anything below the unmute level is muted.
pub open spec fn spec_is_muted(v: int) -> bool {
    v < 1
}

/// Status read of the shared cell, as the controller reports it.
pub fn cell_is_muted(v: i8) -> (r: bool)
    ensures
        r == spec_is_muted(v as int),
{
    v < 1
}

/// Status read of the shared cell, the other way around: playing is
/// exactly not muted.
pub fn cell_is_playing(v: i8) -> (r: bool)
    ensures
        r == !spec_is_muted(v as int),
{
    v >= 1
}

/// The cell value a fresh controller starts from: the default state is
/// muted, so a new controller reports muted until an unmute command is
/// processed.
pub fn initial_cell() -> (v: i8)
    ensures
        v as int == cell_of(Command::Mute),
        spec_is_muted(v as int),
{
    -1
}

/// The command a toggle request turns into, judged from the current cell
/// value: unmute when muted, mute when playing.
pub fn toggle_command(v: i8) -> (cmd: Command)
    ensures
        cmd == (if spec_is_muted(v as int) {
            Command::Unmute
        } else {
            Command::Mute
        }),
{
    if cell_is_muted(v) {
        Command::Unmute
    } else {
        Command::Mute
    }
}

/// The cell after the worker has processed a whole queue of commands in
/// FIFO order, starting from cell value `init`.
pub open spec fn run_commands(init: int, cmds: Seq<Command>) -> int
    decreases cmds.len(),
{
    if cmds.len() == 0 {
        init
    } else {
        run_commands(cell_of(cmds[0]), cmds.subrange(1, cmds.len() as int))
    }
}

/// FIFO processing means the last command wins: after the worker catches up
/// with a non-empty queue, the cell holds exactly the value of the command
/// sent last, whatever came before it.
pub proof fn lemma_last_command_wins(init: int, cmds: Seq<Command>)
    requires
        cmds.len() > 0,
    ensures
        run_commands(init, cmds) == cell_of(cmds.last()),
    decreases cmds.len(),
{
    let rest = cmds.subrange(1, cmds.len() as int);
    assert(run_commands(init, cmds) == run_commands(cell_of(cmds[0]), rest));
    if rest.len() > 0 {
        lemma_last_command_wins(cell_of(cmds[0]), rest);
        assert(rest.last() == cmds.last());
    } else {
        assert(cmds.last() == cmds[0]);
        assert(run_commands(cell_of(cmds[0]), rest) == cell_of(cmds[0]));
    }
}

/// Sending a command twice in a row has the same observable effect as
/// sending it once: the cell, and with it every status read, ends up the
/// same.
pub proof fn lemma_command_idempotent(init: int, cmd: Command)
    ensures
        run_commands(init, seq![cmd, cmd]) == run_commands(init, seq![cmd]),
        spec_is_muted(run_commands(init, seq![cmd, cmd])) == spec_is_muted(
            run_commands(init, seq![cmd]),
        ),
{
    let twice = seq![cmd, cmd];
    lemma_last_command_wins(init, twice);
    lemma_last_command_wins(init, seq![cmd]);
}

/// Drain a batch of queued commands in FIFO order, as the worker thread
/// does, and return the final cell value.
pub fn run_all(init: i8, cmds: &Vec<Command>) -> (v: i8)
    ensures
        v as int == run_commands(init as int, cmds@),
{
    let mut acc: i8 = init;
    let mut i: usize = 0;
    while i < cmds.len()
        invariant
            i <= cmds.len(),
            acc as int == run_commands(init as int, cmds@.subrange(0, i as int)),
        decreases cmds.len() - i,
    {
        acc = cell_value(cmds[i]);
        proof {
            let done = cmds@.subrange(0, i + 1);
            lemma_last_command_wins(init as int, done);
            assert(done.last() == cmds@[i as int]);
        }
        i = i + 1;
    }
    proof {
        assert(cmds@.subrange(0, cmds@.len() as int) =~= cmds@);
    }
    acc
}

} // verus!
