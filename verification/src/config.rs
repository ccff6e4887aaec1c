//! The declaration model: what a configuration says about a command line.

use vstd::prelude::*;
use crate::error::Error;
use crate::text::{copied, opt_text, owned, same_text, to_uppercase, uppercased};

verus! {

/// A whole command-line interface.
#[derive(Debug, Clone)]
pub struct App {
    pub version: Option<String>,
    pub infer_subcommands: bool,
    pub args_override_self: bool,
    pub command: Command,
}

/// A command with its flags, options, positional arguments and subcommands.
#[derive(Debug)]
pub struct Command {
    pub name: String,
    pub short_flag: Option<char>,
    pub long_flag: Option<String>,
    pub require_subcommand: bool,
    pub description: Option<String>,
    pub handler: Option<String>,
    pub always_call_handler: bool,
    pub flags: Vec<Flag>,
    pub opts: Vec<Opt>,
    pub args: Vec<Arg>,
    pub subcommands: Vec<Command>,
}

/// A switch that takes no value and is counted.
#[derive(Debug, Clone)]
pub struct Flag {
    pub name: String,
    pub short: Option<char>,
    pub long: Option<String>,
    pub description: Option<String>,
}

/// An option that takes a value.
#[derive(Debug, Clone)]
pub struct Opt {
    pub name: String,
    pub short: Option<char>,
    pub long: Option<String>,
    pub description: Option<String>,
    pub value_name: String,
    pub default: Option<String>,
    pub repeated: bool,
}

/// An argument that is taken by its position.
#[derive(Debug, Clone)]
pub struct Arg {
    pub name: String,
    pub description: Option<String>,
    pub value_name: String,
    pub count: Count,
}

/// How many values a positional argument takes.
#[derive(Debug, Copy, Clone)]
pub enum Count {
    One,
    AtLeastOne,
    Any,
    Exactly(usize),
    MinMax(usize, usize),
}

impl Clone for Command {
    /// A copy of the command and of all commands below it.
    #[verifier::loop_isolation(false)]
    fn clone(&self) -> (copy: Command)
        decreases self,
    {
        let mut subcommands: Vec<Command> = Vec::new();
        let mut k: usize = 0;
        while k < self.subcommands.len()
            invariant
                k <= self.subcommands.len(),
            decreases self.subcommands.len() - k,
        {
            subcommands.push(self.subcommands[k].clone());
            k += 1;
        }
        Command {
            name: self.name.clone(),
            short_flag: self.short_flag,
            long_flag: copied(&self.long_flag),
            require_subcommand: self.require_subcommand,
            description: copied(&self.description),
            handler: copied(&self.handler),
            always_call_handler: self.always_call_handler,
            flags: self.flags.clone(),
            opts: self.opts.clone(),
            args: self.args.clone(),
            subcommands,
        }
    }
}

impl Command {
    /// The names of the subcommands, in order.
    pub open spec fn subcommand_names(self) -> Seq<Seq<char>> {
        self.subcommands@.map_values(|c: Command| c.name@)
    }
}

/// An option as the configuration text gives it.
#[derive(Debug, Clone)]
pub struct CfgOpt {
    pub name: String,
    pub short: Option<String>,
    pub long: Option<String>,
    pub value_name: Option<String>,
    pub default: Option<String>,
    pub repeated: Option<bool>,
    pub description: Option<String>,
}

/// A flag as the configuration text gives it.
#[derive(Debug, Clone)]
pub struct CfgFlag {
    pub name: String,
    pub short: Option<String>,
    pub long: Option<String>,
    pub description: Option<String>,
}

/// A positional argument as the configuration text gives it.
#[derive(Debug, Clone)]
pub struct CfgArg {
    pub name: String,
    pub value_name: Option<String>,
    pub count: Option<String>,
    pub description: Option<String>,
}

/// A subcommand as the configuration text gives it.
#[derive(Debug)]
pub struct CfgCommand {
    pub name: String,
    pub short_flag: Option<String>,
    pub long_flag: Option<String>,
    pub require_subcommand: Option<bool>,
    pub description: Option<String>,
    pub handler: Option<String>,
    pub always_call_handler: Option<bool>,
    pub subcommands: Vec<CfgCommand>,
    pub opts: Vec<CfgOpt>,
    pub flags: Vec<CfgFlag>,
    pub args: Vec<CfgArg>,
}

/// A whole interface as the configuration text gives it.
#[derive(Debug, Clone)]
pub struct CfgApp {
    pub name: Option<String>,
    pub version: Option<String>,
    pub infer_subcommands: Option<bool>,
    pub args_override_self: Option<bool>,
    pub description: Option<String>,
    pub handler: Option<String>,
    pub always_call_handler: Option<bool>,
    pub require_subcommand: Option<bool>,
    pub subcommands: Vec<CfgCommand>,
    pub opts: Vec<CfgOpt>,
    pub flags: Vec<CfgFlag>,
    pub args: Vec<CfgArg>,
}

impl Clone for CfgCommand {
    /// A copy of the declaration and of all declarations below it.
    #[verifier::loop_isolation(false)]
    fn clone(&self) -> (copy: CfgCommand)
        decreases self,
    {
        let mut subcommands: Vec<CfgCommand> = Vec::new();
        let mut k: usize = 0;
        while k < self.subcommands.len()
            invariant
                k <= self.subcommands.len(),
            decreases self.subcommands.len() - k,
        {
            subcommands.push(self.subcommands[k].clone());
            k += 1;
        }
        CfgCommand {
            name: self.name.clone(),
            short_flag: copied(&self.short_flag),
            long_flag: copied(&self.long_flag),
            require_subcommand: self.require_subcommand,
            description: copied(&self.description),
            handler: copied(&self.handler),
            always_call_handler: self.always_call_handler,
            subcommands,
            opts: self.opts.clone(),
            flags: self.flags.clone(),
            args: self.args.clone(),
        }
    }
}

/// The message for a declaration that is not valid.
pub const INVALID: &'static str =
    "error: invalid configuration: a short alias must be exactly one character, and a count must be `1`, `+` or `*`\n";

/// A short alias is valid where it is exactly one character.
pub open spec fn valid_short(name: Option<String>) -> bool {
    match name {
        Some(s) => s@.len() == 1,
        None => true,
    }
}

/// The character of a short alias.
pub open spec fn short_of(name: Option<String>) -> Option<char> {
    match name {
        Some(s) => Some(s@[0]),
        None => None,
    }
}

/// The count that a token stands for: `1` for exactly one value, `+` for
/// one or more, `*` for any number, and exactly one where there is no
/// token. No other token stands for a count.
pub open spec fn count_of(token: Option<String>) -> Option<Count> {
    match token {
        Some(s) => if s@ == "1"@ {
            Some(Count::One)
        } else if s@ == "+"@ {
            Some(Count::AtLeastOne)
        } else if s@ == "*"@ {
            Some(Count::Any)
        } else {
            None
        },
        None => Some(Count::One),
    }
}

/// The setting, or `otherwise` where it is not given.
pub open spec fn or_default(setting: Option<bool>, otherwise: bool) -> bool {
    match setting {
        Some(b) => b,
        None => otherwise,
    }
}

/// The placeholder for a value: the one given, else the name in upper case.
pub open spec fn value_name_of(given: Option<String>, name: Seq<char>) -> Seq<char> {
    match given {
        Some(v) => v@,
        None => uppercased(name),
    }
}

impl CfgFlag {
    /// The short alias is one character.
    pub open spec fn valid(self) -> bool {
        valid_short(self.short)
    }

    /// `flag` is what this declaration says.
    pub open spec fn yields(self, flag: Flag) -> bool {
        &&& flag.name@ == self.name@
        &&& flag.short == short_of(self.short)
        &&& opt_text(flag.long) == opt_text(self.long)
        &&& opt_text(flag.description) == opt_text(self.description)
    }
}

impl CfgOpt {
    /// The short alias is one character.
    pub open spec fn valid(self) -> bool {
        valid_short(self.short)
    }

    /// `opt` is what this declaration says: the placeholder defaults to the
    /// name in upper case, and an option is not repeated unless it says so.
    pub open spec fn yields(self, opt: Opt) -> bool {
        &&& opt.name@ == self.name@
        &&& opt.short == short_of(self.short)
        &&& opt_text(opt.long) == opt_text(self.long)
        &&& opt_text(opt.description) == opt_text(self.description)
        &&& opt.value_name@ == value_name_of(self.value_name, self.name@)
        &&& opt_text(opt.default) == opt_text(self.default)
        &&& opt.repeated == or_default(self.repeated, false)
    }
}

impl CfgArg {
    /// The count is one of the tokens that stand for a count.
    pub open spec fn valid(self) -> bool {
        count_of(self.count) is Some
    }

    /// `arg` is what this declaration says: the placeholder defaults to the
    /// name in upper case.
    pub open spec fn yields(self, arg: Arg) -> bool {
        &&& arg.name@ == self.name@
        &&& opt_text(arg.description) == opt_text(self.description)
        &&& arg.value_name@ == value_name_of(self.value_name, self.name@)
        &&& Some(arg.count) == count_of(self.count)
    }
}

/// Every flag is valid.
pub open spec fn flags_valid(flags: Seq<CfgFlag>) -> bool {
    forall|i: int| 0 <= i < flags.len() ==> (#[trigger] flags[i]).valid()
}

/// Every option is valid.
pub open spec fn opts_valid(opts: Seq<CfgOpt>) -> bool {
    forall|i: int| 0 <= i < opts.len() ==> (#[trigger] opts[i]).valid()
}

/// Every positional argument is valid.
pub open spec fn args_valid(args: Seq<CfgArg>) -> bool {
    forall|i: int| 0 <= i < args.len() ==> (#[trigger] args[i]).valid()
}

/// The flags are what the declarations say, in the same order.
pub open spec fn flags_yield(from: Seq<CfgFlag>, to: Seq<Flag>) -> bool {
    &&& to.len() == from.len()
    &&& forall|i: int| 0 <= i < from.len() ==> (#[trigger] from[i]).yields(to[i])
}

/// The options are what the declarations say, in the same order.
pub open spec fn opts_yield(from: Seq<CfgOpt>, to: Seq<Opt>) -> bool {
    &&& to.len() == from.len()
    &&& forall|i: int| 0 <= i < from.len() ==> (#[trigger] from[i]).yields(to[i])
}

/// The positional arguments are what the declarations say, in the same order.
pub open spec fn args_yield(from: Seq<CfgArg>, to: Seq<Arg>) -> bool {
    &&& to.len() == from.len()
    &&& forall|i: int| 0 <= i < from.len() ==> (#[trigger] from[i]).yields(to[i])
}

impl CfgCommand {
    /// Every short alias on this level and below is one character, and
    /// every count is a token that stands for one.
    pub open spec fn valid(self) -> bool
        decreases self,
    {
        &&& valid_short(self.short_flag)
        &&& flags_valid(self.flags@)
        &&& opts_valid(self.opts@)
        &&& args_valid(self.args@)
        &&& forall|k: int|
            0 <= k < self.subcommands@.len() ==> (#[trigger] self.subcommands@[k]).valid()
    }

    /// `cmd` is what this declaration says: a subcommand is not required
    /// and the handler not always called unless it says so.
    pub open spec fn yields(self, cmd: Command) -> bool
        decreases self,
    {
        &&& cmd.name@ == self.name@
        &&& cmd.short_flag == short_of(self.short_flag)
        &&& opt_text(cmd.long_flag) == opt_text(self.long_flag)
        &&& cmd.require_subcommand == or_default(self.require_subcommand, false)
        &&& opt_text(cmd.description) == opt_text(self.description)
        &&& opt_text(cmd.handler) == opt_text(self.handler)
        &&& cmd.always_call_handler == or_default(self.always_call_handler, false)
        &&& flags_yield(self.flags@, cmd.flags@)
        &&& opts_yield(self.opts@, cmd.opts@)
        &&& args_yield(self.args@, cmd.args@)
        &&& cmd.subcommands@.len() == self.subcommands@.len()
        &&& forall|k: int|
            0 <= k < self.subcommands@.len() ==> (#[trigger] self.subcommands@[k]).yields(
                cmd.subcommands@[k],
            )
    }
}

/// Every subcommand is valid.
pub open spec fn subcommands_valid(subcommands: Seq<CfgCommand>) -> bool {
    forall|k: int| 0 <= k < subcommands.len() ==> (#[trigger] subcommands[k]).valid()
}

/// The subcommands are what the declarations say, in the same order.
pub open spec fn subcommands_yield(from: Seq<CfgCommand>, to: Seq<Command>) -> bool {
    &&& to.len() == from.len()
    &&& forall|k: int| 0 <= k < from.len() ==> (#[trigger] from[k]).yields(to[k])
}

impl CfgApp {
    /// Every short alias is one character, and every count is a token that
    /// stands for one.
    pub open spec fn valid(self) -> bool {
        &&& flags_valid(self.flags@)
        &&& opts_valid(self.opts@)
        &&& args_valid(self.args@)
        &&& subcommands_valid(self.subcommands@)
    }

    /// `app` is what this declaration says: subcommands are not inferred
    /// and arguments override themselves unless it says otherwise, and the
    /// root command has the name given, else the empty name, and no flag of
    /// its own.
    pub open spec fn yields(self, app: App) -> bool {
        &&& opt_text(app.version) == opt_text(self.version)
        &&& app.infer_subcommands == or_default(self.infer_subcommands, false)
        &&& app.args_override_self == or_default(self.args_override_self, true)
        &&& app.command.name@ == (match self.name {
            Some(n) => n@,
            None => Seq::empty(),
        })
        &&& app.command.short_flag is None
        &&& app.command.long_flag is None
        &&& app.command.require_subcommand == or_default(self.require_subcommand, false)
        &&& opt_text(app.command.description) == opt_text(self.description)
        &&& opt_text(app.command.handler) == opt_text(self.handler)
        &&& app.command.always_call_handler == or_default(self.always_call_handler, false)
        &&& flags_yield(self.flags@, app.command.flags@)
        &&& opts_yield(self.opts@, app.command.opts@)
        &&& args_yield(self.args@, app.command.args@)
        &&& subcommands_yield(self.subcommands@, app.command.subcommands@)
    }
}

/// Whether a short alias is exactly one character.
pub fn is_short(name: &Option<String>) -> (r: bool)
    ensures
        r == valid_short(*name),
{
    match name {
        Some(s) => s.as_str().unicode_len() == 1,
        None => true,
    }
}

/// The character of a short alias, which has to be exactly one character.
pub fn short_flag(name: Option<String>) -> (r: Option<char>)
    requires
        valid_short(name),
    ensures
        r == short_of(name),
{
    match name {
        Some(s) => Some(s.as_str().get_char(0)),
        None => None,
    }
}

/// The count that a token stands for, if it stands for one.
pub fn parse_count(token: &Option<String>) -> (r: Option<Count>)
    ensures
        r == count_of(*token),
{
    match token {
        Some(s) => if same_text(s.as_str(), "1") {
            Some(Count::One)
        } else if same_text(s.as_str(), "+") {
            Some(Count::AtLeastOne)
        } else if same_text(s.as_str(), "*") {
            Some(Count::Any)
        } else {
            None
        },
        None => Some(Count::One),
    }
}

fn or_else(setting: Option<bool>, otherwise: bool) -> (r: bool)
    ensures
        r == or_default(setting, otherwise),
{
    match setting {
        Some(b) => b,
        None => otherwise,
    }
}

fn value_name(given: &Option<String>, name: &String) -> (r: String)
    ensures
        r@ == value_name_of(*given, name@),
{
    match given {
        Some(v) => v.clone(),
        None => to_uppercase(name.as_str()),
    }
}

impl CfgFlag {
    /// Whether the declaration is valid.
    pub fn is_valid(&self) -> (r: bool)
        ensures
            r == self.valid(),
    {
        is_short(&self.short)
    }

    /// The flag that the declaration says.
    pub fn into(&self) -> (flag: Flag)
        requires
            self.valid(),
        ensures
            self.yields(flag),
    {
        Flag {
            name: self.name.clone(),
            short: short_flag(copied(&self.short)),
            long: copied(&self.long),
            description: copied(&self.description),
        }
    }
}

impl CfgOpt {
    /// Whether the declaration is valid.
    pub fn is_valid(&self) -> (r: bool)
        ensures
            r == self.valid(),
    {
        is_short(&self.short)
    }

    /// The option that the declaration says.
    pub fn into(&self) -> (opt: Opt)
        requires
            self.valid(),
        ensures
            self.yields(opt),
    {
        Opt {
            name: self.name.clone(),
            short: short_flag(copied(&self.short)),
            long: copied(&self.long),
            description: copied(&self.description),
            value_name: value_name(&self.value_name, &self.name),
            default: copied(&self.default),
            repeated: or_else(self.repeated, false),
        }
    }
}

impl CfgArg {
    /// Whether the declaration is valid.
    pub fn is_valid(&self) -> (r: bool)
        ensures
            r == self.valid(),
    {
        parse_count(&self.count).is_some()
    }

    /// The positional argument that the declaration says.
    pub fn into(&self) -> (arg: Arg)
        requires
            self.valid(),
        ensures
            self.yields(arg),
    {
        let count = match parse_count(&self.count) {
            Some(c) => c,
            None => Count::One,
        };
        Arg {
            name: self.name.clone(),
            description: copied(&self.description),
            value_name: value_name(&self.value_name, &self.name),
            count,
        }
    }
}

#[verifier::loop_isolation(false)]
fn flags_are_valid(flags: &Vec<CfgFlag>) -> (r: bool)
    ensures
        r == flags_valid(flags@),
{
    let mut i: usize = 0;
    while i < flags.len()
        invariant
            i <= flags.len(),
            forall|j: int| 0 <= j < i ==> (#[trigger] flags@[j]).valid(),
        decreases flags.len() - i,
    {
        if !flags[i].is_valid() {
            return false;
        }
        i += 1;
    }
    true
}

#[verifier::loop_isolation(false)]
fn convert_flags(flags: &Vec<CfgFlag>) -> (r: Vec<Flag>)
    requires
        flags_valid(flags@),
    ensures
        flags_yield(flags@, r@),
{
    let mut out: Vec<Flag> = Vec::new();
    let mut i: usize = 0;
    while i < flags.len()
        invariant
            i <= flags.len(),
            out@.len() == i,
            forall|j: int| 0 <= j < i ==> (#[trigger] flags@[j]).yields(out@[j]),
        decreases flags.len() - i,
    {
        out.push(CfgFlag::into(&flags[i]));
        i += 1;
    }
    out
}

#[verifier::loop_isolation(false)]
fn opts_are_valid(opts: &Vec<CfgOpt>) -> (r: bool)
    ensures
        r == opts_valid(opts@),
{
    let mut i: usize = 0;
    while i < opts.len()
        invariant
            i <= opts.len(),
            forall|j: int| 0 <= j < i ==> (#[trigger] opts@[j]).valid(),
        decreases opts.len() - i,
    {
        if !opts[i].is_valid() {
            return false;
        }
        i += 1;
    }
    true
}

#[verifier::loop_isolation(false)]
fn convert_opts(opts: &Vec<CfgOpt>) -> (r: Vec<Opt>)
    requires
        opts_valid(opts@),
    ensures
        opts_yield(opts@, r@),
{
    let mut out: Vec<Opt> = Vec::new();
    let mut i: usize = 0;
    while i < opts.len()
        invariant
            i <= opts.len(),
            out@.len() == i,
            forall|j: int| 0 <= j < i ==> (#[trigger] opts@[j]).yields(out@[j]),
        decreases opts.len() - i,
    {
        out.push(CfgOpt::into(&opts[i]));
        i += 1;
    }
    out
}

#[verifier::loop_isolation(false)]
fn args_are_valid(args: &Vec<CfgArg>) -> (r: bool)
    ensures
        r == args_valid(args@),
{
    let mut i: usize = 0;
    while i < args.len()
        invariant
            i <= args.len(),
            forall|j: int| 0 <= j < i ==> (#[trigger] args@[j]).valid(),
        decreases args.len() - i,
    {
        if !args[i].is_valid() {
            return false;
        }
        i += 1;
    }
    true
}

#[verifier::loop_isolation(false)]
fn convert_args(args: &Vec<CfgArg>) -> (r: Vec<Arg>)
    requires
        args_valid(args@),
    ensures
        args_yield(args@, r@),
{
    let mut out: Vec<Arg> = Vec::new();
    let mut i: usize = 0;
    while i < args.len()
        invariant
            i <= args.len(),
            out@.len() == i,
            forall|j: int| 0 <= j < i ==> (#[trigger] args@[j]).yields(out@[j]),
        decreases args.len() - i,
    {
        out.push(CfgArg::into(&args[i]));
        i += 1;
    }
    out
}

impl CfgCommand {
    /// Whether the declaration is valid, on this level and below.
    #[verifier::loop_isolation(false)]
    pub fn is_valid(&self) -> (r: bool)
        ensures
            r == self.valid(),
        decreases self,
    {
        if !(is_short(&self.short_flag) && flags_are_valid(&self.flags) && opts_are_valid(
            &self.opts,
        ) && args_are_valid(&self.args)) {
            return false;
        }
        let mut k: usize = 0;
        while k < self.subcommands.len()
            invariant
                k <= self.subcommands.len(),
                forall|j: int| 0 <= j < k ==> (#[trigger] self.subcommands@[j]).valid(),
            decreases self.subcommands.len() - k,
        {
            if !self.subcommands[k].is_valid() {
                return false;
            }
            k += 1;
        }
        true
    }

    /// The command that the declaration says, with all commands below it.
    #[verifier::loop_isolation(false)]
    pub fn into(&self) -> (cmd: Command)
        requires
            self.valid(),
        ensures
            self.yields(cmd),
        decreases self,
    {
        let mut subcommands: Vec<Command> = Vec::new();
        let mut k: usize = 0;
        while k < self.subcommands.len()
            invariant
                k <= self.subcommands.len(),
                subcommands@.len() == k,
                forall|j: int|
                    0 <= j < k ==> (#[trigger] self.subcommands@[j]).yields(subcommands@[j]),
            decreases self.subcommands.len() - k,
        {
            subcommands.push(CfgCommand::into(&self.subcommands[k]));
            k += 1;
        }
        Command {
            name: self.name.clone(),
            short_flag: short_flag(copied(&self.short_flag)),
            long_flag: copied(&self.long_flag),
            require_subcommand: or_else(self.require_subcommand, false),
            description: copied(&self.description),
            handler: copied(&self.handler),
            always_call_handler: or_else(self.always_call_handler, false),
            flags: convert_flags(&self.flags),
            opts: convert_opts(&self.opts),
            args: convert_args(&self.args),
            subcommands,
        }
    }
}

#[verifier::loop_isolation(false)]
fn subcommands_are_valid(subcommands: &Vec<CfgCommand>) -> (r: bool)
    ensures
        r == subcommands_valid(subcommands@),
{
    let mut k: usize = 0;
    while k < subcommands.len()
        invariant
            k <= subcommands.len(),
            forall|j: int| 0 <= j < k ==> (#[trigger] subcommands@[j]).valid(),
        decreases subcommands.len() - k,
    {
        if !subcommands[k].is_valid() {
            return false;
        }
        k += 1;
    }
    true
}

#[verifier::loop_isolation(false)]
fn convert_subcommands(subcommands: &Vec<CfgCommand>) -> (r: Vec<Command>)
    requires
        subcommands_valid(subcommands@),
    ensures
        subcommands_yield(subcommands@, r@),
{
    let mut out: Vec<Command> = Vec::new();
    let mut k: usize = 0;
    while k < subcommands.len()
        invariant
            k <= subcommands.len(),
            out@.len() == k,
            forall|j: int| 0 <= j < k ==> (#[trigger] subcommands@[j]).yields(out@[j]),
        decreases subcommands.len() - k,
    {
        out.push(CfgCommand::into(&subcommands[k]));
        k += 1;
    }
    out
}

impl CfgApp {
    /// Whether the declaration is valid.
    pub fn is_valid(&self) -> (r: bool)
        ensures
            r == self.valid(),
    {
        flags_are_valid(&self.flags) && opts_are_valid(&self.opts) && args_are_valid(&self.args)
            && subcommands_are_valid(&self.subcommands)
    }

    /// The interface that the declaration says, where the declaration is
    /// valid, and else the failure to report: a short alias that is not one
    /// character and a count that no token stands for are configuration
    /// errors, which go to standard error.
    pub fn convert(&self) -> (r: Result<App, Error>)
        ensures
            match r {
                Ok(app) => self.valid() && self.yields(app),
                Err(e) => !self.valid() && e.styled() == INVALID@ && e.to_stderr(),
            },
    {
        if self.is_valid() {
            Ok(CfgApp::into(self))
        } else {
            Err(Error::diagnostic(owned(INVALID)))
        }
    }

    /// The interface that the declaration says.
    pub fn into(&self) -> (app: App)
        requires
            self.valid(),
        ensures
            self.yields(app),
    {
        App {
            version: copied(&self.version),
            infer_subcommands: or_else(self.infer_subcommands, false),
            args_override_self: or_else(self.args_override_self, true),
            command: Command {
                name: match &self.name {
                    Some(n) => n.clone(),
                    None => String::new(),
                },
                short_flag: None,
                long_flag: None,
                require_subcommand: or_else(self.require_subcommand, false),
                description: copied(&self.description),
                handler: copied(&self.handler),
                always_call_handler: or_else(self.always_call_handler, false),
                flags: convert_flags(&self.flags),
                opts: convert_opts(&self.opts),
                args: convert_args(&self.args),
                subcommands: convert_subcommands(&self.subcommands),
            },
        }
    }
}

} // verus!
