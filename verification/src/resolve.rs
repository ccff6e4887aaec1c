//! From what the matcher found to the variables and handler calls of a script.

use vstd::prelude::*;
use clap::ArgMatches;
use crate::config::{Arg, Command, Count, Flag, Opt};
use crate::matcher::{get_count, get_many, get_one, match_view, subcommand, MatchView};
use crate::text::{first_index, lemma_first_index, opt_text, push_char, texts};

verus! {

/// The value of one variable, as a script sees it.
pub enum Value {
    /// No value and no default.
    Unset,
    /// A single text.
    Val(Seq<char>),
    /// A list of texts.
    List(Seq<Seq<char>>),
}

/// The value that is bound to the name of a flag, an option or a positional
/// argument.
#[derive(Debug, Clone, PartialEq, Eq)]
pub enum VarValue {
    Unset,
    Val(String),
    List(Vec<String>),
}

impl View for VarValue {
    type V = Value;

    open spec fn view(&self) -> Value {
        match self {
            VarValue::Unset => Value::Unset,
            VarValue::Val(s) => Value::Val(s@),
            VarValue::List(v) => Value::List(texts(v@)),
        }
    }
}

/// A name with the value bound to it.
#[derive(Debug, Clone, PartialEq, Eq)]
pub struct Binding {
    pub name: String,
    pub value: VarValue,
}

impl View for Binding {
    type V = (Seq<char>, Value);

    open spec fn view(&self) -> (Seq<char>, Value) {
        (self.name@, self.value@)
    }
}

/// The bindings that a list holds, in order.
pub open spec fn bindings(v: Seq<Binding>) -> Seq<(Seq<char>, Value)> {
    v.map_values(|b: Binding| b@)
}

/// The names of an environment, in order.
pub open spec fn names(env: Seq<(Seq<char>, Value)>) -> Seq<Seq<char>> {
    env.map_values(|b: (Seq<char>, Value)| b.0)
}

/// No name is bound twice.
pub open spec fn distinct_names(env: Seq<(Seq<char>, Value)>) -> bool {
    forall|i: int, j: int| 0 <= i < j < env.len() ==> (#[trigger] env[i]).0 != (#[trigger] env[j]).0
}

/// The environment with `name` bound to `value`: a name that is bound
/// already keeps its place and takes the new value, a new name goes to the end.
pub open spec fn bind(env: Seq<(Seq<char>, Value)>, name: Seq<char>, value: Value) -> Seq<
    (Seq<char>, Value),
> {
    match first_index(names(env), name) {
        Some(i) => env.update(i, (name, value)),
        None => env.push((name, value)),
    }
}

/// The environment after each of `more` has been bound in turn.
pub open spec fn bind_all(env: Seq<(Seq<char>, Value)>, more: Seq<(Seq<char>, Value)>) -> Seq<
    (Seq<char>, Value),
>
    decreases more.len(),
{
    if more.len() == 0 {
        env
    } else {
        bind(bind_all(env, more.drop_last()), more.last().0, more.last().1)
    }
}

/// Binding a name keeps the names distinct.
pub proof fn lemma_bind_distinct(env: Seq<(Seq<char>, Value)>, name: Seq<char>, value: Value)
    requires
        distinct_names(env),
    ensures
        distinct_names(bind(env, name, value)),
{
    lemma_first_index(names(env), name);
    let after = bind(env, name, value);
    match first_index(names(env), name) {
        Some(i) => {
            assert forall|a: int, b: int| 0 <= a < b < after.len() implies after[a].0
                != after[b].0 by {
                assert(env[a].0 == names(env)[a] && env[b].0 == names(env)[b]);
            }
        },
        None => {
            assert forall|a: int, b: int| 0 <= a < b < after.len() implies after[a].0
                != after[b].0 by {
                assert(env[a].0 == names(env)[a]);
            }
        },
    }
}

/// The variable environment: an ordered mapping from names to values, in
/// which no name occurs twice.
#[derive(Debug, Clone)]
pub struct VarEnv {
    entries: Vec<Binding>,
}

impl View for VarEnv {
    type V = Seq<(Seq<char>, Value)>;

    closed spec fn view(&self) -> Seq<(Seq<char>, Value)> {
        bindings(self.entries@)
    }
}

impl VarEnv {
    /// No name is bound twice.
    pub open spec fn wf(&self) -> bool {
        distinct_names(self@)
    }

    /// The empty environment.
    pub fn new() -> (env: VarEnv)
        ensures
            env.wf(),
            env@ == Seq::<(Seq<char>, Value)>::empty(),
    {
        let env = VarEnv { entries: Vec::new() };
        assert(bindings(env.entries@) =~= Seq::empty());
        env
    }

    /// The bindings in order.
    pub fn entries(&self) -> (r: &Vec<Binding>)
        ensures
            bindings(r@) == self@,
    {
        &self.entries
    }

    /// Binds `name` to `value`: a name that is bound already keeps its place
    /// and takes the new value, a new name goes to the end.
    #[verifier::loop_isolation(false)]
    pub fn insert(&mut self, name: String, value: VarValue)
        ensures
            final(self)@ == bind(old(self)@, name@, value@),
            old(self).wf() ==> final(self).wf(),
    {
        proof {
            lemma_first_index(names(self@), name@);
            if self.wf() {
                lemma_bind_distinct(self@, name@, value@);
            }
        }
        let n = self.entries.len();
        let mut i: usize = 0;
        while i < n
            invariant
                i <= n,
                n == self.entries.len(),
                self@ == old(self)@,
                forall|j: int| 0 <= j < i ==> self.entries@[j].name@ != name@,
            decreases n - i,
        {
            if self.entries[i].name == name {
                assert(names(self@)[i as int] == name@);
                assert forall|j: int| 0 <= j < i implies names(self@)[j] != name@ by {
                    assert(names(self@)[j] == self.entries@[j].name@);
                }
                let ghost before = self@;
                self.entries.set(i, Binding { name, value });
                assert(bindings(self.entries@) =~= before.update(i as int, (name@, value@)));
                return ;
            }
            i += 1;
        }
        assert forall|j: int| 0 <= j < names(self@).len() implies names(self@)[j] != name@ by {
            assert(names(self@)[j] == self.entries@[j].name@);
        }
        let ghost before = self@;
        self.entries.push(Binding { name, value });
        assert(bindings(self.entries@) =~= before.push((name@, value@)));
    }
}

/// The decimal digit for a number below ten.
pub open spec fn digit(d: nat) -> char {
    if d == 0 {
        '0'
    } else if d == 1 {
        '1'
    } else if d == 2 {
        '2'
    } else if d == 3 {
        '3'
    } else if d == 4 {
        '4'
    } else if d == 5 {
        '5'
    } else if d == 6 {
        '6'
    } else if d == 7 {
        '7'
    } else if d == 8 {
        '8'
    } else {
        '9'
    }
}

/// The decimal numeral of a number, without leading zeros.
pub open spec fn decimal(n: nat) -> Seq<char>
    decreases n,
{
    if n < 10 {
        seq![digit(n)]
    } else {
        decimal(n / 10).push(digit(n % 10))
    }
}

fn digit_char(d: u8) -> (c: char)
    requires
        d < 10,
    ensures
        c == digit(d as nat),
{
    match d {
        0 => '0',
        1 => '1',
        2 => '2',
        3 => '3',
        4 => '4',
        5 => '5',
        6 => '6',
        7 => '7',
        8 => '8',
        _ => '9',
    }
}

/// The decimal numeral of an occurrence count.
pub fn decimal_string(n: u8) -> (r: String)
    ensures
        r@ == decimal(n as nat),
    decreases n,
{
    if n < 10 {
        let mut r = String::new();
        push_char(&mut r, digit_char(n));
        assert(r@ =~= seq![digit(n as nat)]);
        r
    } else {
        let mut r = decimal_string(n / 10);
        push_char(&mut r, digit_char(n % 10));
        r
    }
}

/// The texts of an optional list of strings.
pub open spec fn opt_texts(v: Option<Vec<String>>) -> Option<Seq<Seq<char>>> {
    match v {
        Some(l) => Some(texts(l@)),
        None => None,
    }
}

/// The value of a name that holds one text: the text that was found, else
/// the default, else nothing.
pub open spec fn single(found: Option<Seq<char>>, default: Option<Seq<char>>) -> Value {
    match found {
        Some(v) => Value::Val(v),
        None => match default {
            Some(d) => Value::Val(d),
            None => Value::Unset,
        },
    }
}

/// The value of a name that holds a list: the texts that were found, else
/// the default alone, else the empty list.
pub open spec fn list(found: Option<Seq<Seq<char>>>, default: Option<Seq<char>>) -> Value {
    Value::List(
        match found {
            Some(v) => v,
            None => match default {
                Some(d) => seq![d],
                None => Seq::empty(),
            },
        },
    )
}

/// The value of a counting flag: nothing where it did not occur, else the
/// numeral of the count.
pub open spec fn counted(count: Option<u8>) -> Value {
    match count {
        Some(n) => if n == 0 {
            Value::Unset
        } else {
            Value::Val(decimal(n as nat))
        },
        None => Value::Unset,
    }
}

/// The value of a name that holds one text.
pub fn single_value(found: Option<String>, default: &Option<String>) -> (r: VarValue)
    ensures
        r@ == single(opt_text(found), opt_text(*default)),
{
    match found {
        Some(v) => VarValue::Val(v),
        None => match default {
            Some(d) => VarValue::Val(d.clone()),
            None => VarValue::Unset,
        },
    }
}

/// The value of a name that holds a list of texts.
pub fn list_value(found: Option<Vec<String>>, default: &Option<String>) -> (r: VarValue)
    ensures
        r@ == list(opt_texts(found), opt_text(*default)),
{
    match found {
        Some(v) => VarValue::List(v),
        None => match default {
            Some(d) => {
                let mut v: Vec<String> = Vec::new();
                v.push(d.clone());
                assert(texts(v@) =~= seq![d@]);
                VarValue::List(v)
            },
            None => {
                let v: Vec<String> = Vec::new();
                assert(texts(v@) =~= Seq::<Seq<char>>::empty());
                VarValue::List(v)
            },
        },
    }
}

/// The value of a counting flag.
pub fn count_value(count: Option<u8>) -> (r: VarValue)
    ensures
        r@ == counted(count),
{
    match count {
        Some(n) => if n == 0 {
            VarValue::Unset
        } else {
            VarValue::Val(decimal_string(n))
        },
        None => VarValue::Unset,
    }
}

impl MatchView {
    /// The texts kept for an argument, where it has any.
    pub open spec fn kept(self, id: Seq<char>) -> Option<Seq<Seq<char>>> {
        if self.values.contains_key(id) {
            Some(self.values[id])
        } else {
            None
        }
    }

    /// The first of the texts kept for an argument.
    pub open spec fn kept_first(self, id: Seq<char>) -> Option<Seq<char>> {
        if self.values.contains_key(id) && self.values[id].len() > 0 {
            Some(self.values[id][0])
        } else {
            None
        }
    }

    /// The occurrence count kept for a counting argument.
    pub open spec fn count(self, id: Seq<char>) -> Option<u8> {
        if self.counts.contains_key(id) {
            Some(self.counts[id])
        } else {
            None
        }
    }
}

/// The value of an option: a repeated option holds the list of all texts
/// given, any other the one text that the matcher kept.
pub open spec fn opt_value(opt: Opt, m: MatchView) -> Value {
    if opt.repeated {
        list(m.kept(opt.name@), opt_text(opt.default))
    } else {
        single(m.kept_first(opt.name@), opt_text(opt.default))
    }
}

/// The value of a flag.
pub open spec fn flag_value(flag: Flag, m: MatchView) -> Value {
    counted(m.count(flag.name@))
}

/// The value of a positional argument: one that takes exactly one value
/// holds that text, any other the list of its texts.
pub open spec fn arg_value(arg: Arg, m: MatchView) -> Value {
    if arg.count is One {
        single(m.kept_first(arg.name@), None)
    } else {
        list(m.kept(arg.name@), None)
    }
}

/// The bindings of a command's options, in the order of their declaration.
pub open spec fn opt_bindings(config: Command, m: MatchView) -> Seq<(Seq<char>, Value)> {
    Seq::new(config.opts@.len(), |i: int| (config.opts@[i].name@, opt_value(config.opts@[i], m)))
}

/// The bindings of a command's flags, in the order of their declaration.
pub open spec fn flag_bindings(config: Command, m: MatchView) -> Seq<(Seq<char>, Value)> {
    Seq::new(
        config.flags@.len(),
        |i: int| (config.flags@[i].name@, flag_value(config.flags@[i], m)),
    )
}

/// The bindings of a command's positional arguments, in the order of their
/// declaration.
pub open spec fn arg_bindings(config: Command, m: MatchView) -> Seq<(Seq<char>, Value)> {
    Seq::new(config.args@.len(), |i: int| (config.args@[i].name@, arg_value(config.args@[i], m)))
}

/// The environment after one level: its options are bound first, then its
/// flags, then its positional arguments.
pub open spec fn bind_level(env: Seq<(Seq<char>, Value)>, config: Command, m: MatchView) -> Seq<
    (Seq<char>, Value),
> {
    bind_all(
        bind_all(bind_all(env, opt_bindings(config, m)), flag_bindings(config, m)),
        arg_bindings(config, m),
    )
}

/// The handler list with the handler appended, where there is one.
pub open spec fn with_handler(handlers: Seq<Seq<char>>, handler: Option<String>) -> Seq<Seq<char>> {
    match handler {
        Some(h) => handlers.push(h@),
        None => handlers,
    }
}

/// The environment and the handler list after `config` and the chain of
/// subcommands selected below it have been resolved.
///
/// Each level binds its own names. A level at which no subcommand was
/// selected ends the chain and appends its handler. A level above it appends
/// its handler only if it always calls it, and does so before the selected
/// subcommand, the first of that name, is resolved.
pub open spec fn resolve(
    m: MatchView,
    config: Command,
    env: Seq<(Seq<char>, Value)>,
    handlers: Seq<Seq<char>>,
) -> (Seq<(Seq<char>, Value)>, Seq<Seq<char>>)
    decreases config,
{
    let env = bind_level(env, config, m);
    match m.selected {
        None => (env, with_handler(handlers, config.handler)),
        Some((name, below)) => {
            let handlers = if config.always_call_handler {
                with_handler(handlers, config.handler)
            } else {
                handlers
            };
            match first_index(config.subcommand_names(), name) {
                Some(i) => if 0 <= i < config.subcommands@.len() {
                    resolve(*below, config.subcommands@[i], env, handlers)
                } else {
                    (env, handlers)
                },
                None => (env, handlers),
            }
        },
    }
}

/// The value of an option on what was matched.
pub fn resolve_opt(matches: &ArgMatches, opt: &Opt) -> (r: VarValue)
    ensures
        r@ == opt_value(*opt, match_view(*matches)),
{
    if opt.repeated {
        list_value(get_many(matches, opt.name.as_str()), &opt.default)
    } else {
        single_value(get_one(matches, opt.name.as_str()), &opt.default)
    }
}

/// The value of a flag on what was matched.
pub fn resolve_flag(matches: &ArgMatches, flag: &Flag) -> (r: VarValue)
    ensures
        r@ == flag_value(*flag, match_view(*matches)),
{
    count_value(get_count(matches, flag.name.as_str()))
}

/// The value of a positional argument on what was matched.
pub fn resolve_arg(matches: &ArgMatches, arg: &Arg) -> (r: VarValue)
    ensures
        r@ == arg_value(*arg, match_view(*matches)),
{
    match arg.count {
        Count::One => single_value(get_one(matches, arg.name.as_str()), &None),
        _ => list_value(get_many(matches, arg.name.as_str()), &None),
    }
}

fn push_handler(handlers: &mut Vec<String>, handler: &Option<String>)
    ensures
        texts(final(handlers)@) == with_handler(texts(old(handlers)@), *handler),
{
    if let Some(h) = handler {
        handlers.push(h.clone());
        assert(texts(handlers@) =~= texts(old(handlers)@).push(h@));
    }
}

/// Resolves what the matcher found against the declaration: binds every
/// flag, option and positional argument of `config` and of the chain of
/// selected subcommands in `vars`, and appends the handlers to call to
/// `handlers`, parents first.
#[verifier::loop_isolation(false)]
pub fn handle_matches(
    matches: &ArgMatches,
    config: &Command,
    vars: &mut VarEnv,
    handlers: &mut Vec<String>,
)
    ensures
        (final(vars)@, texts(final(handlers)@)) == resolve(
            match_view(*matches),
            *config,
            old(vars)@,
            texts(old(handlers)@),
        ),
        old(vars).wf() ==> final(vars).wf(),
    decreases config,
{
    let ghost m = match_view(*matches);
    let ghost env0 = vars@;
    let ghost bound = opt_bindings(*config, m);
    let mut i: usize = 0;
    while i < config.opts.len()
        invariant
            i <= config.opts.len(),
            old(vars).wf() ==> vars.wf(),
            vars@ == bind_all(env0, bound.take(i as int)),
        decreases config.opts.len() - i,
    {
        let opt = &config.opts[i];
        let value = resolve_opt(matches, opt);
        vars.insert(opt.name.clone(), value);
        assert(bound.take(i + 1).drop_last() =~= bound.take(i as int));
        i += 1;
    }
    assert(bound.take(i as int) =~= bound);

    let ghost env1 = vars@;
    let ghost bound = flag_bindings(*config, m);
    let mut i: usize = 0;
    while i < config.flags.len()
        invariant
            i <= config.flags.len(),
            old(vars).wf() ==> vars.wf(),
            vars@ == bind_all(env1, bound.take(i as int)),
        decreases config.flags.len() - i,
    {
        let flag = &config.flags[i];
        let value = resolve_flag(matches, flag);
        vars.insert(flag.name.clone(), value);
        assert(bound.take(i + 1).drop_last() =~= bound.take(i as int));
        i += 1;
    }
    assert(bound.take(i as int) =~= bound);

    let ghost env2 = vars@;
    let ghost bound = arg_bindings(*config, m);
    let mut i: usize = 0;
    while i < config.args.len()
        invariant
            i <= config.args.len(),
            old(vars).wf() ==> vars.wf(),
            vars@ == bind_all(env2, bound.take(i as int)),
        decreases config.args.len() - i,
    {
        let arg = &config.args[i];
        let value = resolve_arg(matches, arg);
        vars.insert(arg.name.clone(), value);
        assert(bound.take(i + 1).drop_last() =~= bound.take(i as int));
        i += 1;
    }
    assert(bound.take(i as int) =~= bound);
    assert(vars@ == bind_level(env0, *config, m));

    match subcommand(matches) {
        None => {
            push_handler(handlers, &config.handler);
        },
        Some((name, below)) => {
            if config.always_call_handler {
                push_handler(handlers, &config.handler);
            }
            proof {
                lemma_first_index(config.subcommand_names(), name@);
            }
            let ghost level = vars@;
            let ghost called = texts(handlers@);
            let mut k: usize = 0;
            while k < config.subcommands.len()
                invariant
                    k <= config.subcommands.len(),
                    old(vars).wf() ==> vars.wf(),
                    vars@ == level,
                    texts(handlers@) == called,
                    forall|j: int| 0 <= j < k ==> config.subcommand_names()[j] != name@,
                decreases config.subcommands.len() - k,
            {
                let cmd = &config.subcommands[k];
                if cmd.name == name {
                    assert(config.subcommand_names()[k as int] == name@);
                    handle_matches(below, cmd, vars, handlers);
                    return ;
                }
                assert(config.subcommand_names()[k as int] == cmd.name@);
                k += 1;
            }
        },
    }
}

/// An option that is not repeated is bound to one text or to nothing, never
/// to a list: to the text that the matcher kept, else to its default, else
/// to nothing.
pub proof fn law_single_opt(opt: Opt, m: MatchView)
    requires
        !opt.repeated,
    ensures
        !(opt_value(opt, m) is List),
        m.kept_first(opt.name@) matches Some(v) ==> opt_value(opt, m) == Value::Val(v),
        m.kept_first(opt.name@) is None ==> (opt.default matches Some(d) ==> opt_value(opt, m)
            == Value::Val(d@)),
        m.kept_first(opt.name@) is None && opt.default is None ==> opt_value(opt, m)
            == Value::Unset,
{
}

/// A repeated option is always bound to a list: to the texts that were
/// given, as many and in the order in which the matcher kept them, else to
/// its default alone, else to the empty list.
pub proof fn law_repeated_opt(opt: Opt, m: MatchView)
    requires
        opt.repeated,
    ensures
        opt_value(opt, m) is List,
        m.kept(opt.name@) matches Some(v) ==> opt_value(opt, m) == Value::List(v),
        m.kept(opt.name@) is None ==> (opt.default matches Some(d) ==> opt_value(opt, m)
            == Value::List(seq![d@])),
        m.kept(opt.name@) is None && opt.default is None ==> opt_value(opt, m) == Value::List(
            Seq::empty(),
        ),
{
}

/// A flag is bound to nothing exactly where it was counted zero times or
/// not at all, and else to the decimal numeral of its count.
pub proof fn law_flag(flag: Flag, m: MatchView)
    ensures
        flag_value(flag, m) is Unset <==> (m.count(flag.name@) matches Some(n) ==> n == 0),
        m.count(flag.name@) matches Some(n) ==> n > 0 ==> flag_value(flag, m) == Value::Val(
            decimal(n as nat),
        ),
{
}

/// A positional argument that takes exactly one value is bound to one text
/// or to nothing; every other is bound to a list, which is empty where
/// nothing was given.
pub proof fn law_arg(arg: Arg, m: MatchView)
    ensures
        arg.count is One ==> arg_value(arg, m) == (match m.kept_first(arg.name@) {
            Some(v) => Value::Val(v),
            None => Value::Unset,
        }),
        !(arg.count is One) ==> arg_value(arg, m) == Value::List(
            match m.kept(arg.name@) {
                Some(v) => v,
                None => Seq::empty(),
            },
        ),
{
}

/// Where a command, the subcommand selected below it and the subcommand
/// selected below that each have a handler and always call it, the three
/// handlers are called in that order, parents first.
pub proof fn law_call_order(
    root: Command,
    m: MatchView,
    first: Seq<char>,
    below: MatchView,
    second: Seq<char>,
    deepest: MatchView,
    env: Seq<(Seq<char>, Value)>,
    handlers: Seq<Seq<char>>,
    i: int,
    j: int,
)
    requires
        root.handler is Some,
        root.always_call_handler,
        m.selected == Some((first, Box::new(below))),
        first_index(root.subcommand_names(), first) == Some(i),
        root.subcommands@[i].handler is Some,
        root.subcommands@[i].always_call_handler,
        below.selected == Some((second, Box::new(deepest))),
        first_index(root.subcommands@[i].subcommand_names(), second) == Some(j),
        root.subcommands@[i].subcommands@[j].handler is Some,
        root.subcommands@[i].subcommands@[j].always_call_handler,
        deepest.selected is None,
    ensures
        resolve(m, root, env, handlers).1 == handlers.push(root.handler->0@).push(
            root.subcommands@[i].handler->0@,
        ).push(root.subcommands@[i].subcommands@[j].handler->0@),
{
    let a = root.subcommands@[i];
    let b = a.subcommands@[j];
    lemma_first_index(root.subcommand_names(), first);
    lemma_first_index(a.subcommand_names(), second);
    let env1 = bind_level(env, root, m);
    let h1 = handlers.push(root.handler->0@);
    assert(resolve(m, root, env, handlers) == resolve(below, a, env1, h1));
    let env2 = bind_level(env1, a, below);
    let h2 = h1.push(a.handler->0@);
    assert(resolve(below, a, env1, h1) == resolve(deepest, b, env2, h2));
    assert(resolve(deepest, b, env2, h2).1 == h2.push(b.handler->0@));
}

/// Binding names in turn keeps the names distinct.
pub proof fn lemma_bind_all_distinct(env: Seq<(Seq<char>, Value)>, more: Seq<(Seq<char>, Value)>)
    requires
        distinct_names(env),
    ensures
        distinct_names(bind_all(env, more)),
    decreases more.len(),
{
    if more.len() > 0 {
        lemma_bind_all_distinct(env, more.drop_last());
        lemma_bind_distinct(bind_all(env, more.drop_last()), more.last().0, more.last().1);
    }
}

/// The environment stays a mapping: where no name is bound twice before a
/// command line is resolved, none is bound twice after.
pub proof fn law_resolve_distinct(
    m: MatchView,
    config: Command,
    env: Seq<(Seq<char>, Value)>,
    handlers: Seq<Seq<char>>,
)
    requires
        distinct_names(env),
    ensures
        distinct_names(resolve(m, config, env, handlers).0),
    decreases config,
{
    let opts = bind_all(env, opt_bindings(config, m));
    let flags = bind_all(opts, flag_bindings(config, m));
    lemma_bind_all_distinct(env, opt_bindings(config, m));
    lemma_bind_all_distinct(opts, flag_bindings(config, m));
    lemma_bind_all_distinct(flags, arg_bindings(config, m));
    let level = bind_level(env, config, m);
    match m.selected {
        None => {},
        Some((name, below)) => {
            let called = if config.always_call_handler {
                with_handler(handlers, config.handler)
            } else {
                handlers
            };
            match first_index(config.subcommand_names(), name) {
                Some(i) => {
                    if 0 <= i < config.subcommands@.len() {
                        law_resolve_distinct(*below, config.subcommands@[i], level, called);
                    }
                },
                None => {},
            }
        },
    }
}

} // verus!
