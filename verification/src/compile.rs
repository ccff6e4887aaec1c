//! From a declaration and an argument vector to the script that a shell
//! evaluates.

use vstd::prelude::*;
use clap::ArgMatches;
use crate::builder::build_command;
use crate::config::{App, Command};
use crate::error::Error;
use crate::matcher::{
    command_args_override_self, command_infer_subcommands, command_spec, command_version,
    matcher_outcome, outcome_of, plain_text, try_get_matches, MatchOutcome,
    MatcherCommand,
};
use crate::resolve::{handle_matches, resolve, Value, VarEnv};
use crate::shell::{assignments, calls, Shell};
use crate::text::{owned, push_text, texts};
use crate::validate::{is_accepted, lemma_accepted_buildable};

verus! {

/// The message for a declaration that cannot be handed to the matcher.
pub const REJECTED: &'static str =
    "error: invalid configuration: names and aliases must be unique and free, flags need an alias, and the arguments taken by position must fit together\n";

/// The script for a resolved command line: the guard for the handlers,
/// where any is called, then the assignments, then the calls.
pub open spec fn script<S: Shell>(
    shell: &S,
    env: Seq<(Seq<char>, Value)>,
    handlers: Seq<Seq<char>>,
) -> Seq<char> {
    (if handlers.len() > 0 {
        shell.handler_guard(handlers)
    } else {
        Seq::empty()
    }) + assignments(
        |name: Seq<char>, value: Seq<char>| shell.assignment(name, value),
        |name: Seq<char>, values: Seq<Seq<char>>| shell.list_assignment(name, values),
        env,
    ) + calls(|name: Seq<char>| shell.handler_call(name), handlers)
}

/// What a run of the matcher comes to: the script for what was matched, or
/// the failure.
pub open spec fn outcome_script<S: Shell>(
    shell: &S,
    config: Command,
    outcome: MatchOutcome,
) -> Result<Seq<char>, (Seq<char>, bool)> {
    match outcome {
        MatchOutcome::Matched(m) => {
            let resolved = resolve(m, config, Seq::empty(), Seq::empty());
            Ok(script(shell, resolved.0, resolved.1))
        },
        MatchOutcome::Failed { styled, use_stderr } => Err((styled, use_stderr)),
    }
}

/// What the compiler makes of an interface and an argument vector. An
/// interface that cannot be handed to the matcher is a failure of its own;
/// for any other the matcher decides.
pub open spec fn compiled<S: Shell>(shell: &S, app: App, argv: Seq<Seq<char>>) -> Result<
    Seq<char>,
    (Seq<char>, bool),
> {
    if app.matcher_spec().accepted() {
        outcome_script(shell, app.command, matcher_outcome(app.matcher_spec(), argv))
    } else {
        Err((REJECTED@, true))
    }
}

/// The result as texts.
pub open spec fn result_view(r: Result<String, Error>) -> Result<Seq<char>, (Seq<char>, bool)> {
    match r {
        Ok(text) => Ok(text@),
        Err(e) => Err((e.styled(), e.to_stderr())),
    }
}

/// The script for a resolved command line.
pub fn emit<S: Shell>(shell: &S, vars: &VarEnv, handlers: &Vec<String>) -> (r: String)
    ensures
        r@ == script(shell, vars@, texts(handlers@)),
{
    let mut out = String::new();
    if handlers.len() > 0 {
        push_text(&mut out, shell.check_handlers(handlers).as_str());
    }
    push_text(&mut out, shell.set_vars(vars).as_str());
    push_text(&mut out, shell.call_handlers(handlers).as_str());
    assert(out@ =~= script(shell, vars@, texts(handlers@)));
    out
}

/// What a result of the matcher comes to: on a match the script for the
/// variables and handlers that it resolves to, on a failure the failure
/// itself, and never a part of both.
pub fn emit_outcome<S: Shell>(
    shell: &S,
    config: &Command,
    outcome: Result<ArgMatches, Error>,
) -> (r: Result<String, Error>)
    ensures
        result_view(r) == outcome_script(shell, *config, outcome_of(outcome)),
{
    match outcome {
        Ok(matches) => {
            let mut vars = VarEnv::new();
            let mut handlers: Vec<String> = Vec::new();
            assert(texts(handlers@) =~= Seq::<Seq<char>>::empty());
            handle_matches(&matches, config, &mut vars, &mut handlers);
            Ok(emit(shell, &vars, &handlers))
        },
        Err(e) => Err(e),
    }
}

/// The matcher for a whole interface: that of its root command, with the
/// version and the settings that hold for all commands.
pub fn build_app(app: &App) -> (cmd: MatcherCommand)
    requires
        app.command.buildable(),
    ensures
        command_spec(cmd) == app.matcher_spec(),
{
    let mut cmd = command_args_override_self(
        command_infer_subcommands(build_command(&app.command), app.infer_subcommands),
        app.args_override_self,
    );
    if let Some(version) = &app.version {
        cmd = command_version(cmd, version);
    }
    cmd
}

/// The argument vector: the program's name, then the arguments.
#[verifier::loop_isolation(false)]
pub fn argument_vector(progname: String, args: &Vec<String>) -> (argv: Vec<String>)
    ensures
        texts(argv@) == seq![progname@] + texts(args@),
{
    let mut argv: Vec<String> = Vec::new();
    argv.push(progname);
    let mut i: usize = 0;
    while i < args.len()
        invariant
            i <= args.len(),
            argv@.len() == i + 1,
            argv@[0]@ == progname@,
            forall|j: int| 0 <= j < i ==> (#[trigger] argv@[j + 1])@ == args@[j]@,
        decreases args.len() - i,
    {
        argv.push(args[i].clone());
        i += 1;
    }
    proof {
        let want = seq![progname@] + texts(args@);
        assert(texts(argv@).len() == want.len());
        assert forall|k: int| 0 <= k < want.len() implies texts(argv@)[k] == want[k] by {
            if k > 0 {
                assert(argv@[k - 1 + 1]@ == args@[k - 1]@);
            }
        }
        assert(texts(argv@) =~= want);
    }
    argv
}

/// Compiles an argument vector against an interface: builds the matcher,
/// runs it on the program's name and the arguments, resolves what it found
/// and writes the script. Every failure comes back as an error, with
/// nothing written.
pub fn do_things<S: Shell>(shell: &S, config: &App, progname: String, args: &Vec<String>) -> (r:
    Result<String, Error>)
    ensures
        result_view(r) == compiled(shell, *config, seq![progname@] + texts(args@)),
{
    if !is_accepted(config) {
        return Err(Error::diagnostic(owned(REJECTED)));
    }
    proof {
        lemma_accepted_buildable(config.command, config.matcher_spec().version);
    }
    let cmd = build_app(config);
    let argv = argument_vector(progname, args);
    emit_outcome(shell, &config.command, try_get_matches(cmd, &argv))
}

/// The text that the compiler prints: the script, or for any failure the
/// statements that report it when the script runs, and nothing else.
pub open spec fn output<S: Shell>(shell: &S, app: App, argv: Seq<Seq<char>>) -> Seq<char> {
    match compiled(shell, app, argv) {
        Ok(text) => text,
        Err(failure) => shell.error_report(failure.0, plain_text(failure.0), failure.1),
    }
}

/// Compiles an argument vector against an interface to the text to print.
pub fn compile<S: Shell>(shell: &S, config: &App, progname: String, args: &Vec<String>) -> (r:
    String)
    ensures
        r@ == output(shell, *config, seq![progname@] + texts(args@)),
{
    match do_things(shell, config, progname, args) {
        Ok(text) => text,
        Err(e) => shell.print_error(e),
    }
}

/// Where the matcher refuses the argument vector, as it does where a
/// subcommand is required and none is given, the compiler fails with the
/// matcher's message and destination as they are, and what it prints is the
/// report of that failure alone. Whether a subcommand is required is what
/// the declaration says.
pub proof fn law_refusal_is_handed_on<S: Shell>(
    shell: &S,
    app: App,
    argv: Seq<Seq<char>>,
    styled: Seq<char>,
    use_stderr: bool,
)
    requires
        app.matcher_spec().accepted(),
        matcher_outcome(app.matcher_spec(), argv) == (MatchOutcome::Failed { styled, use_stderr }),
    ensures
        app.matcher_spec().subcommand_required == app.command.require_subcommand,
        compiled(shell, app, argv) == Err::<Seq<char>, (Seq<char>, bool)>((styled, use_stderr)),
        output(shell, app, argv) == shell.error_report(styled, plain_text(styled), use_stderr),
{
}

} // verus!
