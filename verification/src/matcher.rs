//! The boundary to the argument matcher.
//!
//! What this module says of the matcher is declared, not proved: the
//! matcher's types are opaque, each has a view that the rest of the library
//! reasons about, and each wrapper states what one call of the matcher does
//! to those views.

use vstd::prelude::*;
use crate::error::Error;
use crate::text::texts;

verus! {

/// A command of the matcher while it is put together. It holds a
/// `clap::Command`, of which the rest of the library sees `command_spec` only.
#[verifier::external_body]
pub struct MatcherCommand {
    inner: clap::Command,
}

/// An argument of the matcher while it is put together. It holds a
/// `clap::Arg`, of which the rest of the library sees `arg_spec` only.
#[verifier::external_body]
pub struct MatcherArg {
    inner: clap::Arg,
}

#[verifier::external_type_specification]
#[verifier::external_body]
pub struct ExArgMatches(clap::ArgMatches);

#[verifier::external_type_specification]
#[verifier::external_body]
pub struct ExStyledStr(clap::builder::StyledStr);

/// How an argument stores what it is given, where the matcher's default is
/// not wanted.
#[derive(Clone, Copy, Debug)]
pub enum ActionKind {
    /// Count the occurrences.
    Count,
    /// Keep the value of every occurrence.
    Append,
}

/// What the matcher has been told about one argument.
pub struct ArgSpec {
    pub id: Seq<char>,
    pub short: Option<char>,
    pub long: Option<Seq<char>>,
    pub help: Option<Seq<char>>,
    pub value_name: Option<Seq<char>>,
    pub required: bool,
    pub action: Option<ActionKind>,
    /// The least number of values, where any number from there on is taken.
    pub at_least: Option<nat>,
}

/// What the matcher has been told about one command and those below it.
pub struct CommandSpec {
    pub name: Seq<char>,
    pub short_flag: Option<char>,
    pub long_flag: Option<Seq<char>>,
    pub about: Option<Seq<char>>,
    pub version: Option<Seq<char>>,
    pub subcommand_required: bool,
    pub infer_subcommands: bool,
    pub args_override_self: bool,
    pub args: Seq<ArgSpec>,
    pub subcommands: Seq<CommandSpec>,
}

/// What the matcher found on one level of the command line.
pub struct MatchView {
    /// The text values kept for each argument that has any, in the order given.
    pub values: Map<Seq<char>, Seq<Seq<char>>>,
    /// The occurrence count kept for each counting argument.
    pub counts: Map<Seq<char>, u8>,
    /// The subcommand that was selected, and what was found below it.
    pub selected: Option<(Seq<char>, Box<MatchView>)>,
}

/// How a run of the matcher ended.
pub enum MatchOutcome {
    /// The command line was accepted.
    Matched(MatchView),
    /// The command line was rejected, or help or the version was asked for.
    Failed { styled: Seq<char>, use_stderr: bool },
}

impl ArgSpec {
    /// An argument that has only its identifier.
    pub open spec fn fresh(id: Seq<char>) -> ArgSpec {
        ArgSpec {
            id,
            short: None,
            long: None,
            help: None,
            value_name: None,
            required: false,
            action: None,
            at_least: None,
        }
    }

    /// Neither a short nor a long alias: the argument is taken by position.
    pub open spec fn positional(self) -> bool {
        self.short is None && self.long is None
    }

    /// The argument may take several values.
    pub open spec fn multiple(self) -> bool {
        self.at_least is Some || self.action == Some(ActionKind::Append)
    }
}

impl CommandSpec {
    /// A command that has only its name.
    pub open spec fn fresh(name: Seq<char>) -> CommandSpec {
        CommandSpec {
            name,
            short_flag: None,
            long_flag: None,
            about: None,
            version: None,
            subcommand_required: false,
            infer_subcommands: false,
            args_override_self: false,
            args: Seq::empty(),
            subcommands: Seq::empty(),
        }
    }
}

/// What the `clap::Arg` holds of the settings that this library makes.
pub uninterp spec fn arg_spec(a: MatcherArg) -> ArgSpec;

/// What the `clap::Command` holds of the settings that this library makes.
pub uninterp spec fn command_spec(c: MatcherCommand) -> CommandSpec;

/// What a `clap::ArgMatches` answers to the lookups that this library makes.
pub uninterp spec fn match_view(m: clap::ArgMatches) -> MatchView;

/// The text of a `StyledStr`, escape sequences included.
pub uninterp spec fn styled_text(s: clap::builder::StyledStr) -> Seq<char>;

/// A styled text without its escape sequences, as `StyledStr`'s `Display` prints it.
pub uninterp spec fn plain_text(styled: Seq<char>) -> Seq<char>;

/// How the matcher ends on a command and an argument vector.
pub uninterp spec fn matcher_outcome(spec: CommandSpec, args: Seq<Seq<char>>) -> MatchOutcome;

/// The outcome that a result of the matcher stands for.
pub open spec fn outcome_of(r: Result<clap::ArgMatches, Error>) -> MatchOutcome {
    match r {
        Ok(m) => MatchOutcome::Matched(match_view(m)),
        Err(e) => MatchOutcome::Failed { styled: e.styled(), use_stderr: e.to_stderr() },
    }
}

/// The identifier is free: not empty, not the `help` of the help flag and,
/// where the command has a version, not the `version` of the version flag.
pub open spec fn id_free(versioned: bool, id: Seq<char>) -> bool {
    id.len() > 0 && id != "help"@ && (versioned ==> id != "version"@)
}

/// The short alias is free: not `-`, not the `h` of the help flag and, where
/// the command has a version, not the `V` of the version flag.
pub open spec fn short_free(versioned: bool, short: Option<char>) -> bool {
    match short {
        Some(c) => c != '-' && c != 'h' && (versioned ==> c != 'V'),
        None => true,
    }
}

/// The long alias is free: not empty, not starting with `-`, not the `help`
/// of the help flag and, where the command has a version, not `version`.
pub open spec fn long_free(versioned: bool, long: Option<Seq<char>>) -> bool {
    match long {
        Some(l) => l.len() > 0 && l[0] != '-' && l != "help"@ && (versioned ==> l != "version"@),
        None => true,
    }
}

/// Every identifier is free, and none is used twice.
pub open spec fn ids_accepted(versioned: bool, ids: Seq<Seq<char>>) -> bool {
    &&& forall|i: int| 0 <= i < ids.len() ==> id_free(versioned, #[trigger] ids[i])
    &&& forall|i: int, j: int| 0 <= i < j < ids.len() ==> #[trigger] ids[i] != #[trigger] ids[j]
}

/// No subcommand is called `help`, as the one that the matcher adds itself,
/// and no name is used twice.
pub open spec fn names_accepted(names: Seq<Seq<char>>) -> bool {
    &&& forall|k: int| 0 <= k < names.len() ==> #[trigger] names[k] != "help"@
    &&& forall|k: int, l: int|
        0 <= k < l < names.len() ==> #[trigger] names[k] != #[trigger] names[l]
}

/// Every short alias is free, and none is used twice.
pub open spec fn shorts_accepted(versioned: bool, shorts: Seq<Option<char>>) -> bool {
    &&& forall|i: int| 0 <= i < shorts.len() ==> short_free(versioned, #[trigger] shorts[i])
    &&& forall|i: int, j: int|
        0 <= i < j < shorts.len() ==> ((#[trigger] shorts[i]) is Some ==> shorts[i]
            != #[trigger] shorts[j])
}

/// Every long alias is free, and none is used twice.
pub open spec fn longs_accepted(versioned: bool, longs: Seq<Option<Seq<char>>>) -> bool {
    &&& forall|i: int| 0 <= i < longs.len() ==> long_free(versioned, #[trigger] longs[i])
    &&& forall|i: int, j: int|
        0 <= i < j < longs.len() ==> ((#[trigger] longs[i]) is Some ==> longs[i]
            != #[trigger] longs[j])
}

/// An argument that counts its occurrences takes no values.
pub open spec fn counting_accepted(args: Seq<ArgSpec>) -> bool {
    forall|i: int|
        0 <= i < args.len() ==> ((#[trigger] args[i]).action == Some(ActionKind::Count)
            ==> args[i].at_least is None)
}

/// The arguments that are taken by position can stand together: none of
/// them counts occurrences, none that is required comes after one that is
/// not, and one that takes several values is the last of them, or the last
/// but one before a required one that takes a single value.
pub open spec fn positionals_accepted(args: Seq<ArgSpec>) -> bool {
    &&& forall|i: int|
        0 <= i < args.len() ==> ((#[trigger] args[i]).positional() ==> args[i].action != Some(
            ActionKind::Count,
        ))
    &&& forall|i: int, j: int|
        0 <= i < j < args.len() ==> ((#[trigger] args[i]).positional()
            && (#[trigger] args[j]).positional() && args[j].required ==> args[i].required)
    &&& forall|i: int, j: int|
        0 <= i < j < args.len() ==> ((#[trigger] args[i]).positional() && args[i].multiple()
            && (#[trigger] args[j]).positional() ==> args[j].required && !args[j].multiple())
    &&& forall|i: int, j: int, k: int|
        0 <= i < j < k < args.len() ==> !((#[trigger] args[i]).positional()
            && args[i].multiple() && (#[trigger] args[j]).positional()
            && (#[trigger] args[k]).positional())
}

impl CommandSpec {
    /// The identifiers of the arguments, in order.
    pub open spec fn ids(self) -> Seq<Seq<char>> {
        Seq::new(self.args.len(), |i: int| self.args[i].id)
    }

    /// The names of the subcommands, in order.
    pub open spec fn subcommand_names(self) -> Seq<Seq<char>> {
        Seq::new(self.subcommands.len(), |k: int| self.subcommands[k].name)
    }

    /// The short aliases of the arguments, then the short flags of the
    /// subcommands: they are told apart on the same command line.
    pub open spec fn shorts(self) -> Seq<Option<char>> {
        Seq::new(
            self.args.len() + self.subcommands.len(),
            |i: int|
                if i < self.args.len() {
                    self.args[i].short
                } else {
                    self.subcommands[i - self.args.len()].short_flag
                },
        )
    }

    /// The long aliases of the arguments, then the long flags of the
    /// subcommands.
    pub open spec fn longs(self) -> Seq<Option<Seq<char>>> {
        Seq::new(
            self.args.len() + self.subcommands.len(),
            |i: int|
                if i < self.args.len() {
                    self.args[i].long
                } else {
                    self.subcommands[i - self.args.len()].long_flag
                },
        )
    }

    /// This level of the command can be handed to the matcher.
    pub open spec fn level_accepted(self) -> bool {
        &&& ids_accepted(self.version is Some, self.ids())
        &&& names_accepted(self.subcommand_names())
        &&& shorts_accepted(self.version is Some, self.shorts())
        &&& longs_accepted(self.version is Some, self.longs())
        &&& counting_accepted(self.args)
        &&& positionals_accepted(self.args)
    }

    /// The command and all commands below it can be handed to the matcher:
    /// on these the matcher's own consistency checks pass.
    pub open spec fn accepted(self) -> bool
        decreases self,
    {
        &&& self.level_accepted()
        &&& forall|k: int|
            0 <= k < self.subcommands.len() ==> (#[trigger] self.subcommands[k]).accepted()
    }
}

/// `clap::Command::try_get_matches_from`: runs the matcher on the argument
/// vector, whose first entry is the program's name. The outcome is a function
/// of the command and the vector, named here and not spelled out. A failure
/// comes back as this library's error, which holds what `clap::Error::render`
/// and `clap::Error::use_stderr` give. The matcher checks a command for
/// consistency and panics where it finds a fault; `accepted` describes
/// commands that pass.
#[verifier::external_body]
pub(crate) fn try_get_matches(cmd: MatcherCommand, args: &Vec<String>) -> (r: Result<
    clap::ArgMatches,
    Error,
>)
    requires
        command_spec(cmd).accepted(),
    ensures
        outcome_of(r) == matcher_outcome(command_spec(cmd), texts(args@)),
{
    match cmd.inner.try_get_matches_from(args) {
        Ok(m) => Ok(m),
        Err(e) => Err(Error::new(e.render(), e.use_stderr())),
    }
}

/// `clap::Arg::new`: an argument with the given identifier and nothing else.
#[verifier::external_body]
pub(crate) fn arg_new(id: &String) -> (a: MatcherArg)
    ensures
        arg_spec(a) == ArgSpec::fresh(id@),
{
    MatcherArg { inner: clap::Arg::new(id) }
}

/// `clap::Arg::short`: sets the short alias and nothing else. The matcher
/// refuses `-` as an alias.
#[verifier::external_body]
pub(crate) fn arg_short(a: MatcherArg, short: char) -> (r: MatcherArg)
    requires
        short != '-',
    ensures
        arg_spec(r) == (ArgSpec { short: Some(short), ..arg_spec(a) }),
{
    MatcherArg { inner: a.inner.short(short) }
}

/// `clap::Arg::long`: sets the long alias and nothing else.
#[verifier::external_body]
pub(crate) fn arg_long(a: MatcherArg, long: &String) -> (r: MatcherArg)
    ensures
        arg_spec(r) == (ArgSpec { long: Some(long@), ..arg_spec(a) }),
{
    MatcherArg { inner: a.inner.long(long) }
}

/// `clap::Arg::help`: sets the help text and nothing else.
#[verifier::external_body]
pub(crate) fn arg_help(a: MatcherArg, help: &String) -> (r: MatcherArg)
    ensures
        arg_spec(r) == (ArgSpec { help: Some(help@), ..arg_spec(a) }),
{
    MatcherArg { inner: a.inner.help(help) }
}

/// `clap::Arg::value_name`: sets the placeholder of the value and nothing else.
#[verifier::external_body]
pub(crate) fn arg_value_name(a: MatcherArg, name: &String) -> (r: MatcherArg)
    ensures
        arg_spec(r) == (ArgSpec { value_name: Some(name@), ..arg_spec(a) }),
{
    MatcherArg { inner: a.inner.value_name(name) }
}

/// `clap::Arg::required`: sets whether the argument must be given, and nothing else.
#[verifier::external_body]
pub(crate) fn arg_required(a: MatcherArg, yes: bool) -> (r: MatcherArg)
    ensures
        arg_spec(r) == (ArgSpec { required: yes, ..arg_spec(a) }),
{
    MatcherArg { inner: a.inner.required(yes) }
}

/// `clap::Arg::action`: sets how occurrences are stored, and nothing else.
#[verifier::external_body]
pub(crate) fn arg_action(a: MatcherArg, kind: ActionKind) -> (r: MatcherArg)
    ensures
        arg_spec(r) == (ArgSpec { action: Some(kind), ..arg_spec(a) }),
{
    MatcherArg {
        inner: a.inner.action(match kind {
            ActionKind::Count => clap::ArgAction::Count,
            ActionKind::Append => clap::ArgAction::Append,
        }),
    }
}

/// `clap::Arg::num_args` with a range that is open above: sets the least
/// number of values, and nothing else.
#[verifier::external_body]
pub(crate) fn arg_num_args_from(a: MatcherArg, least: usize) -> (r: MatcherArg)
    ensures
        arg_spec(r) == (ArgSpec { at_least: Some(least as nat), ..arg_spec(a) }),
{
    MatcherArg { inner: a.inner.num_args(least..) }
}

/// `clap::Command::new`: a command with the given name and nothing else.
#[verifier::external_body]
pub(crate) fn command_new(name: &String) -> (c: MatcherCommand)
    ensures
        command_spec(c) == CommandSpec::fresh(name@),
{
    MatcherCommand { inner: clap::Command::new(name) }
}

/// `clap::Command::subcommand_required`: sets whether a subcommand must be
/// given, and nothing else.
#[verifier::external_body]
pub(crate) fn command_subcommand_required(c: MatcherCommand, yes: bool) -> (r: MatcherCommand)
    ensures
        command_spec(r) == (CommandSpec { subcommand_required: yes, ..command_spec(c) }),
{
    MatcherCommand { inner: c.inner.subcommand_required(yes) }
}

/// `clap::Command::about`: sets the description and nothing else.
#[verifier::external_body]
pub(crate) fn command_about(c: MatcherCommand, about: &String) -> (r: MatcherCommand)
    ensures
        command_spec(r) == (CommandSpec { about: Some(about@), ..command_spec(c) }),
{
    MatcherCommand { inner: c.inner.about(about) }
}

/// `clap::Command::short_flag`: sets the short flag that selects the command,
/// and nothing else.
#[verifier::external_body]
pub(crate) fn command_short_flag(c: MatcherCommand, short: char) -> (r: MatcherCommand)
    ensures
        command_spec(r) == (CommandSpec { short_flag: Some(short), ..command_spec(c) }),
{
    MatcherCommand { inner: c.inner.short_flag(short) }
}

/// `clap::Command::long_flag`: sets the long flag that selects the command,
/// and nothing else.
#[verifier::external_body]
pub(crate) fn command_long_flag(c: MatcherCommand, long: &String) -> (r: MatcherCommand)
    ensures
        command_spec(r) == (CommandSpec { long_flag: Some(long@), ..command_spec(c) }),
{
    MatcherCommand { inner: c.inner.long_flag(long) }
}

/// `clap::Command::arg`: the argument becomes the last of the command's arguments.
#[verifier::external_body]
pub(crate) fn command_arg(c: MatcherCommand, a: MatcherArg) -> (r: MatcherCommand)
    ensures
        command_spec(r) == (CommandSpec {
            args: command_spec(c).args.push(arg_spec(a)),
            ..command_spec(c)
        }),
{
    MatcherCommand { inner: c.inner.arg(a.inner) }
}

/// `clap::Command::subcommand`: the command becomes the last of the subcommands.
#[verifier::external_body]
pub(crate) fn command_subcommand(c: MatcherCommand, sub: MatcherCommand) -> (r: MatcherCommand)
    ensures
        command_spec(r) == (CommandSpec {
            subcommands: command_spec(c).subcommands.push(command_spec(sub)),
            ..command_spec(c)
        }),
{
    MatcherCommand { inner: c.inner.subcommand(sub.inner) }
}

/// `clap::Command::infer_subcommands`: sets whether an unambiguous prefix
/// selects a subcommand, and nothing else.
#[verifier::external_body]
pub(crate) fn command_infer_subcommands(c: MatcherCommand, yes: bool) -> (r: MatcherCommand)
    ensures
        command_spec(r) == (CommandSpec { infer_subcommands: yes, ..command_spec(c) }),
{
    MatcherCommand { inner: c.inner.infer_subcommands(yes) }
}

/// `clap::Command::args_override_self`: sets whether a later occurrence of an
/// argument replaces an earlier one, and nothing else.
#[verifier::external_body]
pub(crate) fn command_args_override_self(c: MatcherCommand, yes: bool) -> (r: MatcherCommand)
    ensures
        command_spec(r) == (CommandSpec { args_override_self: yes, ..command_spec(c) }),
{
    MatcherCommand { inner: c.inner.args_override_self(yes) }
}

/// `clap::Command::version`: sets the version text and nothing else.
#[verifier::external_body]
pub(crate) fn command_version(c: MatcherCommand, version: &String) -> (r: MatcherCommand)
    ensures
        command_spec(r) == (CommandSpec { version: Some(version@), ..command_spec(c) }),
{
    MatcherCommand { inner: c.inner.version(version) }
}

/// `clap::ArgMatches::try_get_many::<String>`, the form of `get_many` that
/// does not panic: all text values kept for the argument, or nothing where
/// there is no such argument or it holds no text.
#[verifier::external_body]
pub(crate) fn get_many(m: &clap::ArgMatches, id: &str) -> (r: Option<Vec<String>>)
    ensures
        match r {
            Some(v) => match_view(*m).values.contains_key(id@) && texts(v@) == match_view(
                *m,
            ).values[id@],
            None => !match_view(*m).values.contains_key(id@),
        },
{
    m.try_get_many::<String>(id).ok().flatten().map(|v| v.cloned().collect())
}

/// `clap::ArgMatches::try_get_one::<String>`, the form of `get_one` that does
/// not panic: the first of the text values kept for the argument.
#[verifier::external_body]
pub(crate) fn get_one(m: &clap::ArgMatches, id: &str) -> (r: Option<String>)
    ensures
        match r {
            Some(s) => match_view(*m).values.contains_key(id@) && match_view(*m).values[id@].len()
                > 0 && s@ == match_view(*m).values[id@][0],
            None => !match_view(*m).values.contains_key(id@) || match_view(*m).values[id@].len()
                == 0,
        },
{
    m.try_get_one::<String>(id).ok().flatten().cloned()
}

/// `clap::ArgMatches::try_get_one::<u8>`, which `get_count` reads and which
/// does not panic: the occurrence count kept for a counting argument.
#[verifier::external_body]
pub(crate) fn get_count(m: &clap::ArgMatches, id: &str) -> (r: Option<u8>)
    ensures
        match r {
            Some(n) => match_view(*m).counts.contains_key(id@) && n == match_view(*m).counts[id@],
            None => !match_view(*m).counts.contains_key(id@),
        },
{
    m.try_get_one::<u8>(id).ok().flatten().copied()
}

/// `clap::ArgMatches::subcommand`: the name of the selected subcommand and
/// what was matched below it.
#[verifier::external_body]
pub(crate) fn subcommand<'a>(m: &'a clap::ArgMatches) -> (r: Option<
    (String, &'a clap::ArgMatches),
>)
    ensures
        match r {
            Some((name, sub)) => match_view(*m).selected == Some(
                (name@, Box::new(match_view(*sub))),
            ),
            None => match_view(*m).selected is None,
        },
{
    m.subcommand().map(|(name, sub)| (name.to_string(), sub))
}

/// `StyledStr::from(String)`: a styled text that holds the given text as it is.
#[verifier::external_body]
pub(crate) fn styled_from(text: String) -> (r: clap::builder::StyledStr)
    ensures
        styled_text(r) == text@,
{
    clap::builder::StyledStr::from(text)
}

/// `StyledStr::ansi`: the text with its escape sequences.
#[verifier::external_body]
pub(crate) fn styled_ansi(s: &clap::builder::StyledStr) -> (r: String)
    ensures
        r@ == styled_text(*s),
{
    format!("{}", s.ansi())
}

/// `StyledStr`'s `Display`: the text without its escape sequences.
#[verifier::external_body]
pub(crate) fn styled_plain(s: &clap::builder::StyledStr) -> (r: String)
    ensures
        r@ == plain_text(styled_text(*s)),
{
    format!("{}", s)
}

} // verus!
