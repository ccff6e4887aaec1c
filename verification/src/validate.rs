//! Whether a declaration can be handed to the matcher.
//!
//! The matcher checks each command for consistency before it parses, and
//! stops the process where it finds a fault. The checks here find such a
//! declaration first, so that it can be reported like any other failure.

use vstd::prelude::*;
use crate::config::{App, Command, Count};
use crate::matcher::{
    counting_accepted, id_free, ids_accepted, long_free, longs_accepted, names_accepted,
    positionals_accepted, short_free, shorts_accepted, ActionKind, ArgSpec, CommandSpec,
};
use crate::text::{opt_text, same_text, texts};

verus! {

/// The texts of a list of optional aliases.
pub open spec fn long_texts(v: Seq<Option<String>>) -> Seq<Option<Seq<char>>> {
    v.map_values(|s: Option<String>| opt_text(s))
}

impl App {
    /// What the matcher is told about the whole interface: the root command
    /// with the version and the settings that hold for all commands.
    pub open spec fn matcher_spec(self) -> CommandSpec {
        CommandSpec {
            version: opt_text(self.version),
            infer_subcommands: self.infer_subcommands,
            args_override_self: self.args_override_self,
            ..self.command.matcher_spec()
        }
    }
}

fn id_is_free(versioned: bool, id: &str) -> (r: bool)
    ensures
        r == id_free(versioned, id@),
{
    !id.is_empty() && !same_text(id, "help") && !(versioned && same_text(id, "version"))
}

fn short_is_free(versioned: bool, short: Option<char>) -> (r: bool)
    ensures
        r == short_free(versioned, short),
{
    match short {
        Some(c) => c != '-' && c != 'h' && !(versioned && c == 'V'),
        None => true,
    }
}

fn long_is_free(versioned: bool, long: &Option<String>) -> (r: bool)
    ensures
        r == long_free(versioned, opt_text(*long)),
{
    match long {
        Some(l) => !l.as_str().is_empty() && l.as_str().get_char(0) != '-' && !same_text(
            l.as_str(),
            "help",
        ) && !(versioned && same_text(l.as_str(), "version")),
        None => true,
    }
}

#[verifier::loop_isolation(false)]
fn distinct_strings(v: &Vec<String>) -> (r: bool)
    ensures
        r == forall|i: int, j: int|
            0 <= i < j < v@.len() ==> #[trigger] texts(v@)[i] != #[trigger] texts(v@)[j],
{
    let n = v.len();
    let mut i: usize = 0;
    while i < n
        invariant
            i <= n,
            forall|a: int, b: int|
                0 <= a < b < n && a < i ==> #[trigger] texts(v@)[a] != #[trigger] texts(v@)[b],
        decreases n - i,
    {
        let mut j: usize = i + 1;
        while j < n
            invariant
                i < j <= n,
                forall|b: int| i < b < j ==> texts(v@)[i as int] != #[trigger] texts(v@)[b],
            decreases n - j,
        {
            if v[i] == v[j] {
                assert(texts(v@)[i as int] == texts(v@)[j as int]);
                return false;
            }
            j += 1;
        }
        i += 1;
    }
    true
}

#[verifier::loop_isolation(false)]
fn distinct_shorts(v: &Vec<Option<char>>) -> (r: bool)
    ensures
        r == forall|i: int, j: int|
            0 <= i < j < v@.len() ==> ((#[trigger] v@[i]) is Some ==> v@[i] != #[trigger] v@[j]),
{
    let n = v.len();
    let mut i: usize = 0;
    while i < n
        invariant
            i <= n,
            forall|a: int, b: int|
                0 <= a < b < n && a < i ==> ((#[trigger] v@[a]) is Some ==> v@[a]
                    != #[trigger] v@[b]),
        decreases n - i,
    {
        if let Some(c) = v[i] {
            let mut j: usize = i + 1;
            while j < n
                invariant
                    i < j <= n,
                    forall|b: int| i < b < j ==> v@[i as int] != #[trigger] v@[b],
                decreases n - j,
            {
                if let Some(d) = v[j] {
                    if c == d {
                        assert(v@[i as int] is Some && v@[i as int] == v@[j as int]);
                        return false;
                    }
                }
                j += 1;
            }
        }
        i += 1;
    }
    true
}

#[verifier::loop_isolation(false)]
fn distinct_longs(v: &Vec<Option<String>>) -> (r: bool)
    ensures
        r == forall|i: int, j: int|
            0 <= i < j < v@.len() ==> ((#[trigger] long_texts(v@)[i]) is Some ==> long_texts(v@)[i]
                != #[trigger] long_texts(v@)[j]),
{
    let n = v.len();
    let mut i: usize = 0;
    while i < n
        invariant
            i <= n,
            forall|a: int, b: int|
                0 <= a < b < n && a < i ==> ((#[trigger] long_texts(v@)[a]) is Some ==> long_texts(
                    v@,
                )[a] != #[trigger] long_texts(v@)[b]),
        decreases n - i,
    {
        if let Some(c) = &v[i] {
            let mut j: usize = i + 1;
            while j < n
                invariant
                    i < j <= n,
                    forall|b: int|
                        i < b < j ==> long_texts(v@)[i as int] != #[trigger] long_texts(v@)[b],
                decreases n - j,
            {
                if let Some(d) = &v[j] {
                    if *c == *d {
                        assert(long_texts(v@)[i as int] is Some && long_texts(v@)[i as int]
                            == long_texts(v@)[j as int]);
                        return false;
                    }
                }
                j += 1;
            }
        }
        i += 1;
    }
    true
}

#[verifier::loop_isolation(false)]
fn ids_ok(versioned: bool, ids: &Vec<String>) -> (r: bool)
    ensures
        r == ids_accepted(versioned, texts(ids@)),
{
    let mut i: usize = 0;
    while i < ids.len()
        invariant
            i <= ids.len(),
            forall|a: int| 0 <= a < i ==> id_free(versioned, #[trigger] texts(ids@)[a]),
        decreases ids.len() - i,
    {
        if !id_is_free(versioned, ids[i].as_str()) {
            assert(!id_free(versioned, texts(ids@)[i as int]));
            return false;
        }
        i += 1;
    }
    distinct_strings(ids)
}

#[verifier::loop_isolation(false)]
fn names_ok(names: &Vec<String>) -> (r: bool)
    ensures
        r == names_accepted(texts(names@)),
{
    let mut k: usize = 0;
    while k < names.len()
        invariant
            k <= names.len(),
            forall|a: int| 0 <= a < k ==> #[trigger] texts(names@)[a] != "help"@,
        decreases names.len() - k,
    {
        if same_text(names[k].as_str(), "help") {
            assert(texts(names@)[k as int] == "help"@);
            return false;
        }
        k += 1;
    }
    distinct_strings(names)
}

#[verifier::loop_isolation(false)]
fn shorts_ok(versioned: bool, shorts: &Vec<Option<char>>) -> (r: bool)
    ensures
        r == shorts_accepted(versioned, shorts@),
{
    let mut i: usize = 0;
    while i < shorts.len()
        invariant
            i <= shorts.len(),
            forall|a: int| 0 <= a < i ==> short_free(versioned, #[trigger] shorts@[a]),
        decreases shorts.len() - i,
    {
        if !short_is_free(versioned, shorts[i]) {
            assert(!short_free(versioned, shorts@[i as int]));
            return false;
        }
        i += 1;
    }
    distinct_shorts(shorts)
}

#[verifier::loop_isolation(false)]
fn longs_ok(versioned: bool, longs: &Vec<Option<String>>) -> (r: bool)
    ensures
        r == longs_accepted(versioned, long_texts(longs@)),
{
    let mut i: usize = 0;
    while i < longs.len()
        invariant
            i <= longs.len(),
            forall|a: int| 0 <= a < i ==> long_free(versioned, #[trigger] long_texts(longs@)[a]),
        decreases longs.len() - i,
    {
        if !long_is_free(versioned, &longs[i]) {
            assert(!long_free(versioned, long_texts(longs@)[i as int]));
            return false;
        }
        i += 1;
    }
    distinct_longs(longs)
}

/// What the fit of the arguments taken by position depends on, for one
/// argument.
struct Shape {
    positional: bool,
    required: bool,
    multiple: bool,
    counting: bool,
}

impl Shape {
    /// The shape is that of the argument.
    spec fn of(self, arg: ArgSpec) -> bool {
        &&& self.positional == arg.positional()
        &&& self.required == arg.required
        &&& self.multiple == arg.multiple()
        &&& self.counting == (arg.action == Some(ActionKind::Count))
    }
}

/// The shapes of the arguments of a command, in the order in which the
/// matcher is told of them.
#[verifier::loop_isolation(false)]
fn shapes(config: &Command) -> (r: Vec<Shape>)
    ensures
        r@.len() == config.arg_specs().len(),
        forall|i: int| 0 <= i < r@.len() ==> (#[trigger] r@[i]).of(config.arg_specs()[i]),
{
    let ghost specs = config.arg_specs();
    let nf = config.flags.len();
    let no = config.opts.len();
    let na = config.args.len();
    let mut out: Vec<Shape> = Vec::new();
    let mut i: usize = 0;
    while i < nf
        invariant
            i <= nf,
            out@.len() == i,
            forall|a: int| 0 <= a < i ==> (#[trigger] out@[a]).of(specs[a]),
        decreases nf - i,
    {
        let flag = &config.flags[i];
        out.push(
            Shape {
                positional: flag.short.is_none() && flag.long.is_none(),
                required: false,
                multiple: false,
                counting: true,
            },
        );
        i += 1;
    }
    let mut i: usize = 0;
    while i < no
        invariant
            i <= no,
            out@.len() == nf + i,
            forall|a: int| 0 <= a < nf + i ==> (#[trigger] out@[a]).of(specs[a]),
        decreases no - i,
    {
        let opt = &config.opts[i];
        out.push(
            Shape {
                positional: opt.short.is_none() && opt.long.is_none(),
                required: false,
                multiple: opt.repeated,
                counting: false,
            },
        );
        i += 1;
    }
    let mut i: usize = 0;
    while i < na
        invariant
            i <= na,
            out@.len() == nf + no + i,
            forall|a: int| 0 <= a < nf + no + i ==> (#[trigger] out@[a]).of(specs[a]),
        decreases na - i,
    {
        let (required, multiple) = match config.args[i].count {
            Count::AtLeastOne => (true, true),
            Count::Any => (false, true),
            _ => (true, false),
        };
        out.push(Shape { positional: true, required, multiple, counting: false });
        i += 1;
    }
    out
}

/// Whether the arguments that are taken by position can stand together.
/// Besides the positional arguments these are the flags and the options
/// that have no alias.
#[verifier::loop_isolation(false)]
fn positionals_ok(config: &Command) -> (r: bool)
    ensures
        r == positionals_accepted(config.arg_specs()),
{
    let ghost specs = config.arg_specs();
    let all = shapes(config);
    let n = all.len();
    let mut optional = false;
    let mut several = false;
    let mut after = false;
    let ghost mut o: int = 0;
    let ghost mut m: int = 0;
    let ghost mut q: int = 0;
    let mut i: usize = 0;
    while i < n
        invariant
            i <= n,
            forall|a: int|
                0 <= a < i ==> ((#[trigger] specs[a]).positional() ==> specs[a].action != Some(
                    ActionKind::Count,
                )),
            forall|a: int, b: int|
                0 <= a < b < i ==> ((#[trigger] specs[a]).positional()
                    && (#[trigger] specs[b]).positional() && specs[b].required
                    ==> specs[a].required),
            optional ==> 0 <= o < i && specs[o].positional() && !specs[o].required,
            !optional ==> forall|a: int|
                0 <= a < i ==> ((#[trigger] specs[a]).positional() ==> specs[a].required),
            several ==> 0 <= m < i && specs[m].positional() && specs[m].multiple(),
            several ==> forall|a: int|
                0 <= a < i && (#[trigger] specs[a]).positional() && specs[a].multiple() ==> a == m,
            several ==> forall|a: int|
                m < a < i && (#[trigger] specs[a]).positional() ==> after && a == q,
            !several ==> !after && forall|a: int|
                0 <= a < i ==> ((#[trigger] specs[a]).positional() ==> !specs[a].multiple()),
            after ==> several && m < q < i && specs[q].positional() && specs[q].required
                && !specs[q].multiple(),
        decreases n - i,
    {
        let shape = &all[i];
        assert(shape.of(specs[i as int]));
        if shape.positional {
            if shape.counting {
                return false;
            }
            if shape.required && optional {
                assert(specs[o].positional() && specs[i as int].positional());
                return false;
            }
            if several {
                if !shape.required || shape.multiple {
                    assert(specs[m].positional() && specs[i as int].positional());
                    return false;
                }
                if after {
                    assert(specs[m].positional() && specs[q].positional()
                        && specs[i as int].positional());
                    return false;
                }
                after = true;
                proof {
                    q = i as int;
                }
            }
            if !shape.required {
                optional = true;
                proof {
                    o = i as int;
                }
            }
            if shape.multiple && !several {
                several = true;
                proof {
                    m = i as int;
                }
            }
        }
        i += 1;
    }
    assert forall|a: int, b: int|
        0 <= a < b < specs.len() && (#[trigger] specs[a]).positional() && specs[a].multiple()
            && (#[trigger] specs[b]).positional() implies specs[b].required
        && !specs[b].multiple() by {
        assert(a == m && b == q);
    }
    assert forall|a: int, b: int, c: int|
        0 <= a < b < c < specs.len() implies !((#[trigger] specs[a]).positional()
        && specs[a].multiple() && (#[trigger] specs[b]).positional()
        && (#[trigger] specs[c]).positional()) by {
        if specs[a].positional() && specs[a].multiple() && specs[b].positional()
            && specs[c].positional() {
            assert(a == m && b == q && c == q);
        }
    }
    true
}

/// The vectors that the checks of one level read: the identifiers of the
/// arguments, the short and the long aliases of the arguments and of the
/// subcommands, and the names of the subcommands.
#[verifier::loop_isolation(false)]
fn gather(config: &Command) -> (r: (
    Vec<String>,
    Vec<Option<char>>,
    Vec<Option<String>>,
    Vec<String>,
))
    ensures
        texts(r.0@) == config.matcher_spec().ids(),
        r.1@ == config.matcher_spec().shorts(),
        long_texts(r.2@) == config.matcher_spec().longs(),
        texts(r.3@) == config.matcher_spec().subcommand_names(),
{
    let ghost spec = config.matcher_spec();
    let mut ids: Vec<String> = Vec::new();
    let mut shorts: Vec<Option<char>> = Vec::new();
    let mut longs: Vec<Option<String>> = Vec::new();
    let mut names: Vec<String> = Vec::new();
    let nf = config.flags.len();
    let no = config.opts.len();
    let na = config.args.len();
    let mut i: usize = 0;
    while i < nf
        invariant
            i <= nf,
            ids@.len() == i && shorts@.len() == i && longs@.len() == i,
            forall|a: int| 0 <= a < i ==> (#[trigger] ids@[a])@ == spec.ids()[a],
            forall|a: int| 0 <= a < i ==> #[trigger] shorts@[a] == spec.shorts()[a],
            forall|a: int| 0 <= a < i ==> opt_text(#[trigger] longs@[a]) == spec.longs()[a],
        decreases nf - i,
    {
        let flag = &config.flags[i];
        ids.push(flag.name.clone());
        shorts.push(flag.short);
        longs.push(
            match &flag.long {
                Some(l) => Some(l.clone()),
                None => None,
            },
        );
        i += 1;
    }
    let mut i: usize = 0;
    while i < no
        invariant
            i <= no,
            ids@.len() == nf + i && shorts@.len() == nf + i && longs@.len() == nf + i,
            forall|a: int| 0 <= a < nf + i ==> (#[trigger] ids@[a])@ == spec.ids()[a],
            forall|a: int| 0 <= a < nf + i ==> #[trigger] shorts@[a] == spec.shorts()[a],
            forall|a: int| 0 <= a < nf + i ==> opt_text(#[trigger] longs@[a]) == spec.longs()[a],
        decreases no - i,
    {
        let opt = &config.opts[i];
        ids.push(opt.name.clone());
        shorts.push(opt.short);
        longs.push(
            match &opt.long {
                Some(l) => Some(l.clone()),
                None => None,
            },
        );
        i += 1;
    }
    let mut i: usize = 0;
    while i < na
        invariant
            i <= na,
            ids@.len() == nf + no + i && shorts@.len() == nf + no + i && longs@.len() == nf + no
                + i,
            forall|a: int| 0 <= a < nf + no + i ==> (#[trigger] ids@[a])@ == spec.ids()[a],
            forall|a: int| 0 <= a < nf + no + i ==> #[trigger] shorts@[a] == spec.shorts()[a],
            forall|a: int|
                0 <= a < nf + no + i ==> opt_text(#[trigger] longs@[a]) == spec.longs()[a],
        decreases na - i,
    {
        ids.push(config.args[i].name.clone());
        shorts.push(None);
        longs.push(None);
        i += 1;
    }
    let all = ids.len();
    let ns = config.subcommands.len();
    let mut k: usize = 0;
    while k < ns
        invariant
            k <= ns,
            ids@.len() == all,
            names@.len() == k && shorts@.len() == all + k && longs@.len() == all + k,
            forall|a: int| 0 <= a < all ==> (#[trigger] ids@[a])@ == spec.ids()[a],
            forall|a: int| 0 <= a < k ==> (#[trigger] names@[a])@ == spec.subcommand_names()[a],
            forall|a: int| 0 <= a < all + k ==> #[trigger] shorts@[a] == spec.shorts()[a],
            forall|a: int| 0 <= a < all + k ==> opt_text(#[trigger] longs@[a]) == spec.longs()[a],
        decreases ns - k,
    {
        let sub = &config.subcommands[k];
        names.push(sub.name.clone());
        shorts.push(sub.short_flag);
        longs.push(
            match &sub.long_flag {
                Some(l) => Some(l.clone()),
                None => None,
            },
        );
        assert(spec.subcommands[k as int] == sub.matcher_spec());
        k += 1;
    }
    assert(texts(ids@) =~= spec.ids());
    assert(shorts@ =~= spec.shorts());
    assert(long_texts(longs@) =~= spec.longs());
    assert(texts(names@) =~= spec.subcommand_names());
    (ids, shorts, longs, names)
}

/// Whether one level of a declaration can be handed to the matcher.
fn level_ok(config: &Command, versioned: bool) -> (r: bool)
    ensures
        r == (CommandSpec {
            version: if versioned {
                Some(Seq::empty())
            } else {
                None
            },
            ..config.matcher_spec()
        }).level_accepted(),
{
    let (ids, shorts, longs, names) = gather(config);
    let ghost spec = config.matcher_spec();
    let ghost seen = CommandSpec {
        version: if versioned {
            Some(Seq::empty())
        } else {
            None
        },
        ..spec
    };
    assert(seen.ids() =~= spec.ids());
    assert(seen.shorts() =~= spec.shorts());
    assert(seen.longs() =~= spec.longs());
    assert(seen.subcommand_names() =~= spec.subcommand_names());
    assert(counting_accepted(config.arg_specs()));
    ids_ok(versioned, &ids) && names_ok(&names) && shorts_ok(versioned, &shorts) && longs_ok(
        versioned,
        &longs,
    ) && positionals_ok(config)
}

/// Whether a command and all commands below it can be handed to the
/// matcher. Only the root of an interface can have a version.
#[verifier::loop_isolation(false)]
fn command_accepted(config: &Command, versioned: bool) -> (r: bool)
    ensures
        r == (CommandSpec {
            version: if versioned {
                Some(Seq::empty())
            } else {
                None
            },
            ..config.matcher_spec()
        }).accepted(),
    decreases config,
{
    let ghost spec = config.matcher_spec();
    if !level_ok(config, versioned) {
        return false;
    }
    let mut k: usize = 0;
    while k < config.subcommands.len()
        invariant
            k <= config.subcommands.len(),
            forall|a: int| 0 <= a < k ==> (#[trigger] spec.subcommands[a]).accepted(),
        decreases config.subcommands.len() - k,
    {
        let sub = &config.subcommands[k];
        assert(spec.subcommands[k as int] == sub.matcher_spec());
        assert(sub.matcher_spec() == (CommandSpec { version: None, ..sub.matcher_spec() }));
        if !command_accepted(sub, false) {
            return false;
        }
        k += 1;
    }
    true
}

/// A command that can be handed to the matcher can be built: on every
/// level, no short alias is `-`.
pub proof fn lemma_accepted_buildable(config: Command, version: Option<Seq<char>>)
    requires
        (CommandSpec { version, ..config.matcher_spec() }).accepted(),
    ensures
        config.buildable(),
    decreases config,
{
    let spec = config.matcher_spec();
    let seen = CommandSpec { version, ..spec };
    assert(seen.level_accepted());
    assert forall|i: int| 0 <= i < config.flags@.len() implies (#[trigger] config.flags@[i]).short
        != Some('-') by {
        assert(seen.shorts()[i] == config.flags@[i].short);
        assert(short_free(version is Some, seen.shorts()[i]));
    }
    assert forall|i: int| 0 <= i < config.opts@.len() implies (#[trigger] config.opts@[i]).short
        != Some('-') by {
        let a = config.flags@.len() + i;
        assert(seen.shorts()[a] == config.opts@[i].short);
        assert(short_free(version is Some, seen.shorts()[a]));
    }
    assert forall|k: int| 0 <= k < config.subcommands@.len() implies (
    #[trigger] config.subcommands@[k]).buildable() by {
        let sub = config.subcommands@[k];
        assert(seen.subcommands[k] == sub.matcher_spec());
        assert(seen.subcommands[k].accepted());
        assert(sub.matcher_spec() == (CommandSpec { version: None, ..sub.matcher_spec() }));
        lemma_accepted_buildable(sub, None);
    }
}

/// Whether an interface can be handed to the matcher.
pub fn is_accepted(app: &App) -> (r: bool)
    ensures
        r == app.matcher_spec().accepted(),
{
    let r = command_accepted(&app.command, app.version.is_some());
    proof {
        let seen = CommandSpec {
            version: if app.version is Some {
                Some(Seq::empty())
            } else {
                None
            },
            ..app.command.matcher_spec()
        };
        let spec = app.matcher_spec();
        assert(seen.ids() =~= spec.ids());
        assert(seen.shorts() =~= spec.shorts());
        assert(seen.longs() =~= spec.longs());
        assert(seen.subcommand_names() =~= spec.subcommand_names());
    }
    r
}

} // verus!
