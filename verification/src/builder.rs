//! From the declaration of a command to the matcher that parses for it.

use vstd::prelude::*;
use crate::config::{Arg, Command, Count, Flag, Opt};
use crate::matcher::{
    arg_action, arg_help, arg_long, arg_new, arg_num_args_from, arg_required, arg_short,
    arg_spec, arg_value_name, command_about, command_arg, command_long_flag, command_new,
    command_short_flag, command_spec, command_subcommand, command_subcommand_required,
    ActionKind, ArgSpec, CommandSpec, MatcherArg, MatcherCommand,
};
use crate::text::opt_text;

verus! {

/// What the matcher is told about a flag: it counts its occurrences.
pub open spec fn flag_spec(flag: Flag) -> ArgSpec {
    ArgSpec {
        id: flag.name@,
        short: flag.short,
        long: opt_text(flag.long),
        help: opt_text(flag.description),
        value_name: None,
        required: false,
        action: Some(ActionKind::Count),
        at_least: None,
    }
}

/// What the matcher is told about an option: it takes one value, and keeps
/// the value of every occurrence where the option is repeated.
pub open spec fn opt_spec(opt: Opt) -> ArgSpec {
    ArgSpec {
        id: opt.name@,
        short: opt.short,
        long: opt_text(opt.long),
        help: opt_text(opt.description),
        value_name: Some(opt.value_name@),
        required: false,
        action: if opt.repeated {
            Some(ActionKind::Append)
        } else {
            None
        },
        at_least: None,
    }
}

/// What the matcher is told about a positional argument: it takes one
/// value, one or more, or any number of them, and is required unless it
/// takes any number, which may be none. The counts `Exactly` and `MinMax`
/// are not handed on: such an argument takes one value.
pub open spec fn positional_spec(arg: Arg) -> ArgSpec {
    ArgSpec {
        id: arg.name@,
        short: None,
        long: None,
        help: opt_text(arg.description),
        value_name: Some(arg.value_name@),
        required: !(arg.count is Any),
        action: None,
        at_least: match arg.count {
            Count::AtLeastOne => Some(1nat),
            Count::Any => Some(0nat),
            _ => None,
        },
    }
}

impl Command {
    /// What the matcher is told about the arguments of this command: first
    /// its flags, then its options, then its positional arguments.
    pub open spec fn arg_specs(self) -> Seq<ArgSpec> {
        Seq::new(
            self.flags@.len() + self.opts@.len() + self.args@.len(),
            |i: int|
                if i < self.flags@.len() {
                    flag_spec(self.flags@[i])
                } else if i < self.flags@.len() + self.opts@.len() {
                    opt_spec(self.opts@[i - self.flags@.len()])
                } else {
                    positional_spec(self.args@[i - self.flags@.len() - self.opts@.len()])
                },
        )
    }

    /// What the matcher is told about this command and those below it.
    pub open spec fn matcher_spec(self) -> CommandSpec
        decreases self,
    {
        CommandSpec {
            name: self.name@,
            short_flag: self.short_flag,
            long_flag: opt_text(self.long_flag),
            about: opt_text(self.description),
            version: None,
            subcommand_required: self.require_subcommand,
            infer_subcommands: false,
            args_override_self: false,
            args: self.arg_specs(),
            subcommands: Seq::new(
                self.subcommands@.len(),
                |k: int|
                    if 0 <= k < self.subcommands@.len() {
                        self.subcommands@[k].matcher_spec()
                    } else {
                        CommandSpec::fresh(Seq::empty())
                    },
            ),
        }
    }

    /// No flag or option of this command or of one below it has `-` for its
    /// short alias, which the matcher refuses.
    pub open spec fn buildable(self) -> bool
        decreases self,
    {
        &&& forall|i: int|
            0 <= i < self.flags@.len() ==> (#[trigger] self.flags@[i]).short != Some('-')
        &&& forall|i: int|
            0 <= i < self.opts@.len() ==> (#[trigger] self.opts@[i]).short != Some('-')
        &&& forall|k: int|
            0 <= k < self.subcommands@.len() ==> (#[trigger] self.subcommands@[k]).buildable()
    }
}

/// The matcher's argument for a flag.
pub fn build_flag(config: &Flag) -> (arg: MatcherArg)
    requires
        config.short != Some('-'),
    ensures
        arg_spec(arg) == flag_spec(*config),
{
    let mut arg = arg_action(arg_new(&config.name), ActionKind::Count);
    if let Some(short) = config.short {
        arg = arg_short(arg, short);
    }
    if let Some(long) = &config.long {
        arg = arg_long(arg, long);
    }
    if let Some(description) = &config.description {
        arg = arg_help(arg, description);
    }
    arg
}

/// The matcher's argument for an option.
pub fn build_opt(config: &Opt) -> (arg: MatcherArg)
    requires
        config.short != Some('-'),
    ensures
        arg_spec(arg) == opt_spec(*config),
{
    let mut arg = arg_value_name(arg_new(&config.name), &config.value_name);
    if let Some(short) = config.short {
        arg = arg_short(arg, short);
    }
    if let Some(long) = &config.long {
        arg = arg_long(arg, long);
    }
    if let Some(description) = &config.description {
        arg = arg_help(arg, description);
    }
    if config.repeated {
        arg = arg_action(arg, ActionKind::Append);
    }
    arg
}

/// The matcher's argument for a positional argument.
pub fn build_arg(config: &Arg) -> (arg: MatcherArg)
    ensures
        arg_spec(arg) == positional_spec(*config),
{
    let required = match config.count {
        Count::Any => false,
        _ => true,
    };
    let mut arg = arg_required(
        arg_value_name(arg_new(&config.name), &config.value_name),
        required,
    );
    if let Some(description) = &config.description {
        arg = arg_help(arg, description);
    }
    match config.count {
        Count::One => (),
        Count::AtLeastOne => {
            arg = arg_num_args_from(arg, 1);
        },
        Count::Any => {
            arg = arg_num_args_from(arg, 0);
        },
        Count::Exactly(_) => {},
        Count::MinMax(_, _) => {},
    }
    arg
}

/// The matcher for a command: its own settings, one argument for each flag,
/// option and positional argument, and one matcher for each subcommand.
#[verifier::loop_isolation(false)]
pub fn build_command(config: &Command) -> (cmd: MatcherCommand)
    requires
        config.buildable(),
    ensures
        command_spec(cmd) == config.matcher_spec(),
    decreases config,
{
    let mut cmd = command_subcommand_required(command_new(&config.name), config.require_subcommand);
    if let Some(description) = &config.description {
        cmd = command_about(cmd, description);
    }
    if let Some(short) = config.short_flag {
        cmd = command_short_flag(cmd, short);
    }
    if let Some(long) = &config.long_flag {
        cmd = command_long_flag(cmd, long);
    }
    let ghost target = config.matcher_spec();
    let ghost bare = CommandSpec { args: Seq::empty(), subcommands: Seq::empty(), ..target };
    assert(command_spec(cmd) == bare);
    assert(target.args.take(0) =~= Seq::empty());

    let mut i: usize = 0;
    while i < config.flags.len()
        invariant
            i <= config.flags.len(),
            command_spec(cmd) == (CommandSpec { args: target.args.take(i as int), ..bare }),
        decreases config.flags.len() - i,
    {
        cmd = command_arg(cmd, build_flag(&config.flags[i]));
        assert(target.args.take(i + 1) =~= target.args.take(i as int).push(
            flag_spec(config.flags@[i as int]),
        ));
        i += 1;
    }
    let nf = config.flags.len();
    let mut i: usize = 0;
    while i < config.opts.len()
        invariant
            i <= config.opts.len(),
            command_spec(cmd) == (CommandSpec { args: target.args.take(nf + i), ..bare }),
        decreases config.opts.len() - i,
    {
        cmd = command_arg(cmd, build_opt(&config.opts[i]));
        assert(target.args.take(nf + i + 1) =~= target.args.take(nf + i).push(
            opt_spec(config.opts@[i as int]),
        ));
        i += 1;
    }
    let no = config.opts.len();
    let mut i: usize = 0;
    while i < config.args.len()
        invariant
            i <= config.args.len(),
            command_spec(cmd) == (CommandSpec { args: target.args.take(nf + no + i), ..bare }),
        decreases config.args.len() - i,
    {
        cmd = command_arg(cmd, build_arg(&config.args[i]));
        assert(target.args.take(nf + no + i + 1) =~= target.args.take(nf + no + i).push(
            positional_spec(config.args@[i as int]),
        ));
        i += 1;
    }
    assert(target.args.take(nf + no + i) =~= target.args);
    let ghost flat = CommandSpec { subcommands: Seq::empty(), ..target };
    assert(target.subcommands.take(0) =~= Seq::empty());
    let mut k: usize = 0;
    while k < config.subcommands.len()
        invariant
            k <= config.subcommands.len(),
            command_spec(cmd) == (CommandSpec {
                subcommands: target.subcommands.take(k as int),
                ..flat
            }),
        decreases config.subcommands.len() - k,
    {
        cmd = command_subcommand(cmd, build_command(&config.subcommands[k]));
        assert(target.subcommands.take(k + 1) =~= target.subcommands.take(k as int).push(
            config.subcommands@[k as int].matcher_spec(),
        ));
        k += 1;
    }
    assert(target.subcommands.take(k as int) =~= target.subcommands);
    cmd
}

} // verus!
