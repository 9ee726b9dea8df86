//! Running programs one after the other.
use vstd::prelude::*;
use vstd::string::*;

use crate::backends;
use crate::backends::CommandSpec;
use crate::failure::Failure;
use crate::text;

verus! {

broadcast use vstd::string::group_string_axioms;

/// What came of running a program.
#[derive(Debug)]
pub enum ProgramOutcome {
    /// It could not be started, for the given reason.
    NotStarted(String),
    /// It ended with a status; `output` is what it wrote, where that is wanted.
    Ended { success: bool, status: String, output: String },
}

/// What to do next about a list of commands.
#[derive(Debug)]
pub enum CommandProgress {
    /// Run the command with this number.
    Run(usize),
    /// Every command has succeeded.
    Done,
    /// A command has failed.
    Failed(Failure),
}

/// The model of a [`CommandProgress`].
#[verifier::ext_equal]
pub enum ProgressView {
    Run(int),
    Done,
    Failed(Seq<char>),
}

impl View for CommandProgress {
    type V = ProgressView;

    open spec fn view(&self) -> ProgressView {
        match self {
            CommandProgress::Run(i) => ProgressView::Run(*i as int),
            CommandProgress::Done => ProgressView::Done,
            CommandProgress::Failed(failure) => ProgressView::Failed(failure@),
        }
    }
}

/// A program has done what it should.
pub open spec fn succeeded(outcome: ProgramOutcome) -> bool {
    outcome matches ProgramOutcome::Ended { success, .. } && success
}

/// A command as it is shown.
pub open spec fn shown_command(command: backends::CommandView) -> Seq<char> {
    command.program + " "@ + text::joined(command.args, " "@)
}

/// The complaint about a command that has not succeeded.
pub open spec fn command_complaint(
    command: backends::CommandView,
    outcome: ProgramOutcome,
) -> Seq<char> {
    match outcome {
        ProgramOutcome::NotStarted(_) => "failed to run command: "@ + shown_command(command),
        ProgramOutcome::Ended { .. } => "command failed: "@ + shown_command(command),
    }
}

/// How many programs in front have succeeded.
pub open spec fn successes(ran: Seq<ProgramOutcome>) -> int
    decreases ran.len(),
{
    if ran.len() == 0 || !succeeded(ran[0]) {
        0
    } else {
        1 + successes(ran.drop_first())
    }
}

/// What to do next about `commands`, of which those in front have come to `ran`.
pub open spec fn progress(
    commands: Seq<backends::CommandView>,
    ran: Seq<ProgramOutcome>,
) -> ProgressView {
    let n = successes(ran);
    if n >= commands.len() {
        ProgressView::Done
    } else if n < ran.len() {
        ProgressView::Failed(command_complaint(commands[n], ran[n]))
    } else {
        ProgressView::Run(n)
    }
}

pub proof fn lemma_successes(ran: Seq<ProgramOutcome>)
    ensures
        0 <= successes(ran) <= ran.len(),
        forall|i: int| 0 <= i < successes(ran) ==> succeeded(#[trigger] ran[i]),
        successes(ran) < ran.len() ==> !succeeded(ran[successes(ran)]),
    decreases ran.len(),
{
    if ran.len() > 0 && succeeded(ran[0]) {
        let rest = ran.drop_first();
        lemma_successes(rest);
        assert forall|i: int| 0 <= i < successes(ran) implies succeeded(#[trigger] ran[i]) by {
            if i > 0 {
                assert(ran[i] == rest[i - 1]);
            }
        }
        if successes(ran) < ran.len() {
            assert(ran[successes(ran)] == rest[successes(rest)]);
        }
    }
}

/// A command is run only when all commands before it have succeeded, and the
/// list is done only when all of it has.
pub proof fn commands_run_in_order(
    commands: Seq<backends::CommandView>,
    ran: Seq<ProgramOutcome>,
)
    ensures
        progress(commands, ran) matches ProgressView::Run(n) ==> 0 <= n < commands.len() && n
            == ran.len() && forall|i: int| 0 <= i < n ==> succeeded(#[trigger] ran[i]),
        progress(commands, ran) is Done ==> ran.len() >= commands.len() && forall|i: int|
            0 <= i < commands.len() ==> succeeded(#[trigger] ran[i]),
{
    lemma_successes(ran);
}

fn show_command(command: &CommandSpec) -> (r: String)
    ensures
        r@ == shown_command(command@),
{
    let mut out = command.program.clone();
    out.append(" ");
    out.append(text::join(&command.args, " ").as_str());
    out
}

/// Whether a program has done what it should.
pub fn has_succeeded(outcome: &ProgramOutcome) -> (r: bool)
    ensures
        r == succeeded(*outcome),
{
    match outcome {
        ProgramOutcome::Ended { success, status: _, output: _ } => *success,
        ProgramOutcome::NotStarted(_) => false,
    }
}

/// What to do next about a list of commands, of which those in front have come to `ran`.
pub fn run_commands(steps: &Vec<CommandSpec>, ran: &Vec<ProgramOutcome>) -> (r: CommandProgress)
    ensures
        r@ == progress(backends::command_views(steps@), ran@),
{
    let ghost all = ran@;
    let mut n: usize = 0;
    assert(all.skip(0) == all);
    while n < ran.len() && has_succeeded(&ran[n])
        invariant
            n <= ran@.len(),
            all == ran@,
            successes(all) == n + successes(all.skip(n as int)),
        decreases ran.len() - n,
    {
        assert(all.skip(n as int).drop_first() == all.skip(n + 1));
        n += 1;
    }
    assert(successes(all) == n);
    if n >= steps.len() {
        return CommandProgress::Done;
    }
    assert(backends::command_views(steps@)[n as int] == steps@[n as int]@);
    if n < ran.len() {
        let mut message = match &ran[n] {
            ProgramOutcome::NotStarted(_) => "failed to run command: ".to_owned(),
            ProgramOutcome::Ended { success: _, status: _, output: _ } => "command failed: ".to_owned(),
        };
        message.append(show_command(&steps[n]).as_str());
        return CommandProgress::Failed(Failure::new(message));
    }
    CommandProgress::Run(n)
}

/// A command that fails is complained of with the program and all its arguments,
/// and one that could not be started is told from one that ended badly.
pub proof fn complaints_show_the_command(
    commands: Seq<backends::CommandView>,
    ran: Seq<ProgramOutcome>,
)
    ensures
        progress(commands, ran) matches ProgressView::Failed(message) ==> exists|i: int|
            #![trigger commands[i]]
            {
                &&& 0 <= i < commands.len()
                &&& i < ran.len()
                &&& !succeeded(ran[i])
                &&& forall|j: int| 0 <= j < i ==> succeeded(#[trigger] ran[j])
                &&& ran[i] is NotStarted ==> message == "failed to run command: "@
                    + commands[i].program + " "@ + text::joined(commands[i].args, " "@)
                &&& ran[i] is Ended ==> message == "command failed: "@ + commands[i].program + " "@
                    + text::joined(commands[i].args, " "@)
            },
        progress(commands, ran) is Done ==> ran.len() >= commands.len(),
        commands.len() > 0 && ran.len() == 0 ==> progress(commands, ran) == ProgressView::Run(0),
{
    lemma_successes(ran);
    let n = successes(ran);
    if let ProgressView::Failed(message) = progress(commands, ran) {
        let command = commands[n];
        assert("failed to run command: "@ + (command.program + " "@ + text::joined(
            command.args,
            " "@,
        )) =~= "failed to run command: "@ + command.program + " "@ + text::joined(
            command.args,
            " "@,
        ));
        assert("command failed: "@ + (command.program + " "@ + text::joined(command.args, " "@))
            =~= "command failed: "@ + command.program + " "@ + text::joined(command.args, " "@));
    }
}

}
