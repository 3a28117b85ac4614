//! Commands that the interpreter runs itself, and how a program name is
//! told from them.

use vstd::prelude::*;
use vstd::string::*;

verus! {

/// What the first word of a stage names.
#[derive(Clone, PartialEq, Eq, Debug)]
pub enum ShellCommand {
    InternalCommand(InternalCommand),
    ProgramName(String),
}

/// The commands that the interpreter runs itself.
#[derive(Clone, Copy, PartialEq, Eq, Debug)]
pub enum InternalCommand {
    Exit,
}

/// What the interpreter has to do for an internal command.
#[derive(Clone, Copy, PartialEq, Eq, Debug)]
pub enum Effect {
    /// End the interpreter at once with this status, without waiting for
    /// any process that still runs.
    Terminate(i32),
}

/// The word that names the internal command `exit`.
pub open spec fn exit_word() -> Seq<char> {
    seq!['e', 'x', 'i', 't']
}

/// Whether `s` is the word `exit`.
pub fn is_exit(s: &str) -> (b: bool)
    ensures
        b == (s@ == exit_word()),
{
    let n: usize = s.unicode_len();
    if n != 4 {
        return false;
    }
    let b: bool = s.get_char(0) == 'e' && s.get_char(1) == 'x' && s.get_char(2) == 'i'
        && s.get_char(3) == 't';
    assert(b ==> s@ =~= exit_word());
    b
}

/// Tells an internal command from a program's name: `exit` is internal, and
/// every other word names a program.
pub fn parse_command(s: &str) -> (cmd: ShellCommand)
    ensures
        s@ == exit_word() ==> cmd == ShellCommand::InternalCommand(InternalCommand::Exit),
        s@ != exit_word() ==> (cmd matches ShellCommand::ProgramName(name) && name@ == s@),
{
    if is_exit(s) {
        ShellCommand::InternalCommand(InternalCommand::Exit)
    } else {
        ShellCommand::ProgramName(String::from_str(s))
    }
}

/// The effect of `exit`: the interpreter ends with status 0.
pub fn exit_cmd() -> (effect: Effect)
    ensures
        effect == Effect::Terminate(0),
{
    Effect::Terminate(0)
}

/// The effect of an internal command.
pub fn execute_internal_program(command: InternalCommand) -> (effect: Effect)
    ensures
        effect == Effect::Terminate(0),
{
    match command {
        InternalCommand::Exit => exit_cmd(),
    }
}

} // verus!
