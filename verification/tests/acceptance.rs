use shargs::compile::{compile, do_things, REJECTED};
use shargs::config::Count::{Any, AtLeastOne, Exactly, MinMax, One};
use shargs::config::{App, Arg, Command, Count, Flag, Opt};
use shargs::shell::BashZsh;
use shargs::validate::is_accepted;

fn s(text: &str) -> String {
    text.to_string()
}

fn command(name: &str) -> Command {
    Command {
        name: s(name),
        short_flag: None,
        long_flag: None,
        require_subcommand: false,
        description: None,
        handler: None,
        always_call_handler: false,
        flags: vec![],
        opts: vec![],
        args: vec![],
        subcommands: vec![],
    }
}

fn app(command: Command) -> App {
    App { version: None, infer_subcommands: false, args_override_self: true, command }
}

fn flag(name: &str, short: Option<char>, long: Option<&str>) -> Flag {
    Flag { name: s(name), short, long: long.map(s), description: None }
}

fn opt(name: &str, short: Option<char>, long: Option<&str>) -> Opt {
    Opt {
        name: s(name),
        short,
        long: long.map(s),
        description: None,
        value_name: s("V"),
        default: None,
        repeated: false,
    }
}

fn arg(name: &str, count: Count) -> Arg {
    Arg { name: s(name), description: None, value_name: s("A"), count }
}

fn with_positionals(counts: &[Count]) -> App {
    let mut root = command("p");
    for (i, count) in counts.iter().enumerate() {
        root.args.push(arg(&format!("a{}", i), *count));
    }
    app(root)
}

#[test]
fn plain_declaration_is_accepted() {
    let mut root = command("p");
    root.flags.push(flag("verbose", Some('v'), Some("verbose")));
    root.opts.push(opt("level", Some('l'), None));
    root.args.push(arg("file", Count::One));
    root.subcommands.push(command("run"));
    assert!(is_accepted(&app(root)));
}

#[test]
fn empty_declaration_is_accepted() {
    assert!(is_accepted(&app(command(""))));
}

#[test]
fn name_used_twice_is_refused() {
    let mut root = command("p");
    root.flags.push(flag("x", Some('a'), None));
    root.args.push(arg("x", Count::One));
    assert!(!is_accepted(&app(root)));
}

#[test]
fn empty_name_is_refused() {
    let mut root = command("p");
    root.args.push(arg("", Count::One));
    assert!(!is_accepted(&app(root)));
}

#[test]
fn names_of_built_in_flags_are_refused() {
    let mut root = command("p");
    root.args.push(arg("help", Count::One));
    assert!(!is_accepted(&app(root)));
    let mut root = command("p");
    root.args.push(arg("version", Count::One));
    let mut a = app(root);
    assert!(is_accepted(&a));
    a.version = Some(s("1"));
    assert!(!is_accepted(&a));
}

#[test]
fn aliases_of_built_in_flags_are_refused() {
    for (short, long, versioned, ok) in [
        (Some('h'), None, false, false),
        (None, Some("help"), false, false),
        (Some('V'), None, false, true),
        (Some('V'), None, true, false),
        (None, Some("version"), false, true),
        (None, Some("version"), true, false),
        (Some('-'), None, false, false),
        (None, Some("-x"), false, false),
        (None, Some(""), false, false),
        (Some('x'), Some("x"), true, true),
    ] {
        let mut root = command("p");
        root.flags.push(flag("f", short, long));
        let mut a = app(root);
        if versioned {
            a.version = Some(s("1"));
        }
        assert_eq!(is_accepted(&a), ok, "{:?} {:?} {}", short, long, versioned);
    }
}

#[test]
fn alias_used_twice_is_refused() {
    let mut root = command("p");
    root.flags.push(flag("f", Some('a'), None));
    root.opts.push(opt("o", Some('a'), None));
    assert!(!is_accepted(&app(root)));
    let mut root = command("p");
    root.flags.push(flag("f", None, Some("same")));
    root.opts.push(opt("o", None, Some("same")));
    assert!(!is_accepted(&app(root)));
    let mut root = command("p");
    root.flags.push(flag("f", Some('a'), Some("one")));
    root.opts.push(opt("o", Some('b'), Some("two")));
    assert!(is_accepted(&app(root)));
}

#[test]
fn alias_of_an_argument_and_flag_of_a_subcommand_clash() {
    let mut sub = command("run");
    sub.short_flag = Some('r');
    let mut root = command("p");
    root.flags.push(flag("f", Some('r'), None));
    root.subcommands.push(sub);
    assert!(!is_accepted(&app(root)));
    let mut sub = command("run");
    sub.long_flag = Some(s("go"));
    let mut root = command("p");
    root.opts.push(opt("o", None, Some("go")));
    root.subcommands.push(sub);
    assert!(!is_accepted(&app(root)));
}

#[test]
fn flag_without_alias_is_refused() {
    let mut root = command("p");
    root.flags.push(flag("f", None, None));
    assert!(!is_accepted(&app(root)));
}

fn with_bare_options(repeated: &[bool], positionals: usize) -> App {
    let mut root = command("p");
    root.opts.push(opt("named", Some('n'), None));
    for (i, r) in repeated.iter().enumerate() {
        let mut o = opt(&format!("o{}", i), None, None);
        o.repeated = *r;
        root.opts.push(o);
    }
    for i in 0..positionals {
        root.args.push(arg(&format!("a{}", i), Count::One));
    }
    app(root)
}

#[test]
fn option_without_alias_is_taken_by_position() {
    let a = with_bare_options(&[false], 0);
    assert!(is_accepted(&a));
    let text = do_things(&BashZsh {}, &a, s("p"), &vec![s("x")]).ok().unwrap();
    assert_eq!(text, "named_not_set='y'\no0='x'\n");
    let text = do_things(&BashZsh {}, &a, s("p"), &vec![]).ok().unwrap();
    assert_eq!(text, "named_not_set='y'\no0_not_set='y'\n");
}

#[test]
fn options_without_alias_that_can_stand_together() {
    assert!(is_accepted(&with_bare_options(&[false, false, false], 0)));
    assert!(is_accepted(&with_bare_options(&[true], 0)));
    assert!(is_accepted(&with_bare_options(&[false, true], 0)));
    assert!(!is_accepted(&with_bare_options(&[true, false], 0)));
    assert!(!is_accepted(&with_bare_options(&[true, true], 0)));
    assert!(!is_accepted(&with_bare_options(&[false, true, false], 0)));
    let a = with_bare_options(&[false, true], 0);
    let line = vec![s("x"), s("y"), s("z")];
    let text = do_things(&BashZsh {}, &a, s("p"), &line).ok().unwrap();
    assert_eq!(text, "named_not_set='y'\no0='x'\no1=('y' 'z')\n");
}

#[test]
fn option_without_alias_beside_positional_arguments_is_refused() {
    assert!(!is_accepted(&with_bare_options(&[false], 1)));
    assert!(!is_accepted(&with_bare_options(&[true], 2)));
    assert!(is_accepted(&with_bare_options(&[], 2)));
    let mut a = with_bare_options(&[false], 0);
    a.command.args.push(arg("rest", Any));
    assert!(is_accepted(&a));
    let line = vec![s("x"), s("y"), s("z")];
    let text = do_things(&BashZsh {}, &a, s("p"), &line).ok().unwrap();
    assert_eq!(text, "named_not_set='y'\no0='x'\nrest=('y' 'z')\n");
    let text = do_things(&BashZsh {}, &a, s("p"), &vec![]).ok().unwrap();
    assert_eq!(text, "named_not_set='y'\no0_not_set='y'\nrest=()\n");
    let mut a = with_bare_options(&[true], 0);
    a.command.args.push(arg("rest", Any));
    assert!(!is_accepted(&a));
}

#[test]
fn subcommands_are_checked() {
    let mut root = command("p");
    root.subcommands.push(command("run"));
    root.subcommands.push(command("run"));
    assert!(!is_accepted(&app(root)));
    let mut root = command("p");
    root.subcommands.push(command("help"));
    assert!(!is_accepted(&app(root)));
    let mut deep = command("deep");
    deep.flags.push(flag("f", Some('h'), None));
    let mut sub = command("run");
    sub.subcommands.push(deep);
    let mut root = command("p");
    root.subcommands.push(sub);
    assert!(!is_accepted(&app(root)));
}

#[test]
fn version_alias_is_free_below_the_root() {
    let mut sub = command("run");
    sub.flags.push(flag("f", Some('V'), Some("version")));
    let mut root = command("p");
    root.subcommands.push(sub);
    let mut a = app(root);
    a.version = Some(s("1"));
    assert!(is_accepted(&a));
}

#[test]
fn positionals_that_take_several_values() {
    assert!(is_accepted(&with_positionals(&[])));
    assert!(is_accepted(&with_positionals(&[One, One, One])));
    assert!(is_accepted(&with_positionals(&[AtLeastOne])));
    assert!(is_accepted(&with_positionals(&[One, Any])));
    assert!(is_accepted(&with_positionals(&[One, AtLeastOne, One])));
    assert!(is_accepted(&with_positionals(&[Exactly(2), MinMax(1, 3), Any])));
    assert!(is_accepted(&with_positionals(&[Any])));
    assert!(is_accepted(&with_positionals(&[AtLeastOne, One])));
    assert!(!is_accepted(&with_positionals(&[Any, One])));
    assert!(!is_accepted(&with_positionals(&[One, Any, One])));
    assert!(!is_accepted(&with_positionals(&[AtLeastOne, Any])));
    assert!(!is_accepted(&with_positionals(&[AtLeastOne, One, One])));
    assert!(!is_accepted(&with_positionals(&[Any, Any])));
    assert!(!is_accepted(&with_positionals(&[One, AtLeastOne, Any])));
    assert!(!is_accepted(&with_positionals(&[Any, One, One, One])));
}

#[test]
fn refused_declaration_gives_the_configuration_error() {
    let a = with_positionals(&[Count::Any, Count::Any]);
    let err = do_things(&BashZsh {}, &a, s("p"), &vec![]).err().unwrap();
    assert!(err.use_stderr());
    assert_eq!(format!("{}", err.message()), REJECTED);
}

struct Dice(u64);

impl Dice {
    fn roll(&mut self, sides: usize) -> usize {
        self.0 = self.0.wrapping_mul(6364136223846793005).wrapping_add(1442695040888963407);
        ((self.0 >> 33) % sides as u64) as usize
    }

    fn pick<T: Clone>(&mut self, from: &[T]) -> T {
        from[self.roll(from.len())].clone()
    }
}

fn any_command(dice: &mut Dice, depth: usize) -> Command {
    let names = ["", "a", "b", "c", "help", "version", "x y"];
    let shorts = [None, None, Some('a'), Some('b'), Some('c'), Some('h'), Some('V'), Some('-')];
    let longs = [None, None, Some("a"), Some("bb"), Some("help"), Some("version"), Some("-x"), Some("")];
    let counts = [Count::One, Count::One, Count::AtLeastOne, Count::Any, Count::Exactly(2)];
    let mut cmd = command(dice.pick(&names));
    cmd.short_flag = dice.pick(&shorts);
    cmd.long_flag = dice.pick(&longs).map(s);
    cmd.require_subcommand = dice.roll(4) == 0;
    for _ in 0..dice.roll(3) {
        cmd.flags.push(flag(dice.pick(&names), dice.pick(&shorts), dice.pick(&longs)));
    }
    for _ in 0..dice.roll(3) {
        let mut o = opt(dice.pick(&names), dice.pick(&shorts), dice.pick(&longs));
        o.repeated = dice.roll(2) == 0;
        cmd.opts.push(o);
    }
    for _ in 0..dice.roll(4) {
        cmd.args.push(arg(dice.pick(&names), dice.pick(&counts)));
    }
    if depth > 0 {
        for _ in 0..dice.roll(3) {
            cmd.subcommands.push(any_command(dice, depth - 1));
        }
    }
    cmd
}

fn any_line(dice: &mut Dice) -> Vec<String> {
    let tokens = ["a", "b", "c", "-a", "-b", "-c", "--a", "--bb", "x", "--", "-h", "--help", "-V", "help", "", "-ab", "--bb=1"];
    (0..dice.roll(5)).map(|_| s(dice.pick(&tokens))).collect()
}

#[test]
fn no_declaration_stops_the_compiler() {
    let mut dice = Dice(2024);
    let mut accepted = 0;
    for _ in 0..4000 {
        let mut a = app(any_command(&mut dice, 2));
        if dice.roll(3) == 0 {
            a.version = Some(s("1.0"));
        }
        a.infer_subcommands = dice.roll(2) == 0;
        a.args_override_self = dice.roll(2) == 0;
        if is_accepted(&a) {
            accepted += 1;
        }
        for _ in 0..3 {
            let text = compile(&BashZsh {}, &a, s("p"), &any_line(&mut dice));
            assert!(text.is_empty() || text.ends_with('\n'));
        }
    }
    assert!(accepted > 0);
}

fn tame_command(dice: &mut Dice, depth: usize, taken: &mut usize) -> Command {
    let counts = [Count::One, Count::One, Count::AtLeastOne, Count::Any, Count::MinMax(1, 2)];
    let mut fresh = |prefix: &str| {
        *taken += 1;
        format!("{}{}", prefix, *taken)
    };
    let mut cmd = command(&fresh("c"));
    let letters: Vec<char> = "abcdefgijklmnopqrstuvwxyz".chars().collect();
    let mut next = 0;
    for _ in 0..dice.roll(3) {
        let name = fresh("f");
        cmd.flags.push(flag(&name, Some(letters[next]), Some(&name)));
        next += 1;
    }
    for _ in 0..dice.roll(3) {
        let name = fresh("o");
        let mut o = opt(&name, Some(letters[next]), None);
        o.repeated = dice.roll(2) == 0;
        cmd.opts.push(o);
        next += 1;
    }
    let several = dice.roll(3);
    let n = dice.roll(4);
    for i in 0..n {
        let mut count = if several > 0 && i + several == n { dice.pick(&counts) } else { Count::One };
        if matches!(count, Count::Any) && i + 1 != n {
            count = Count::AtLeastOne;
        }
        cmd.args.push(arg(&fresh("a"), count));
    }
    if depth > 0 {
        for _ in 0..dice.roll(3) {
            let mut sub = tame_command(dice, depth - 1, taken);
            sub.short_flag = Some(letters[next]);
            next += 1;
            cmd.subcommands.push(sub);
        }
    }
    cmd
}

#[test]
fn accepted_declarations_are_matched() {
    let mut dice = Dice(7);
    for _ in 0..1500 {
        let mut taken = 0;
        let mut a = app(tame_command(&mut dice, 2, &mut taken));
        a.infer_subcommands = dice.roll(2) == 0;
        a.args_override_self = dice.roll(2) == 0;
        assert!(is_accepted(&a), "{:?}", a);
        for _ in 0..3 {
            let text = compile(&BashZsh {}, &a, s("p"), &any_line(&mut dice));
            assert!(!text.contains("invalid configuration"));
        }
    }
}

fn fresh(dice: &mut Dice, taken: &mut usize, pool: &[&str]) -> String {
    *taken += 1;
    format!("{}{}", dice.pick(pool), *taken)
}

fn odd_command(dice: &mut Dice, depth: usize, taken: &mut usize, root: bool) -> Command {
    let stems = ["x y", "ü", "--weird", "h", "V", "a=b", "{n}", "'", "\"", "$x", "\\", "%s", "-", "<a>", "[b]", "..."];
    let long_stems = ["a=b", "a b", "ü", "h", "x-", "he lp", "{n}", "'", "%", "v"];
    let shorts: Vec<char> = "üabcdefg=+ .,;:_#'\"$%&/()[]{}<>|\\?!*~^1234567890VWXYZ".chars().collect();
    let versioned_shorts: Vec<char> = "üabcdefg=+ .,;:_#'\"$%&/()[]{}<>|\\?!*~^1234567890WXYZ".chars().collect();
    let counts = [Count::One, Count::AtLeastOne, Count::Any, Count::Exactly(0), Count::MinMax(3, 1)];
    let mut cmd = command(&fresh(dice, taken, &stems));
    if dice.roll(3) == 0 {
        cmd.name = s("");
    }
    cmd.description = Some(fresh(dice, taken, &stems));
    cmd.require_subcommand = dice.roll(3) == 0;
    cmd.handler = Some(fresh(dice, taken, &stems));
    cmd.always_call_handler = dice.roll(2) == 0;
    let mut next = 0;
    let mut short = |dice: &mut Dice| {
        next += 1;
        if dice.roll(3) == 0 {
            None
        } else if root {
            Some(versioned_shorts[next])
        } else {
            Some(shorts[next])
        }
    };
    for _ in 0..dice.roll(4) {
        let sh = short(dice);
        let long = if sh.is_none() || dice.roll(2) == 0 { Some(fresh(dice, taken, &long_stems)) } else { None };
        let mut f = flag(&fresh(dice, taken, &stems), sh, None);
        f.long = long;
        f.description = Some(fresh(dice, taken, &stems));
        cmd.flags.push(f);
    }
    let bare = dice.roll(4) == 0;
    let tail_any = bare && dice.roll(2) == 0;
    let many = dice.roll(4);
    for i in 0..many {
        let sh = short(dice);
        let long = if sh.is_none() || dice.roll(2) == 0 { Some(fresh(dice, taken, &long_stems)) } else { None };
        let mut o = opt(&fresh(dice, taken, &stems), sh, None);
        o.long = long;
        o.repeated = dice.roll(2) == 0;
        if bare && dice.roll(2) == 0 {
            o.short = None;
            o.long = None;
            o.repeated = o.repeated && i + 1 == many && !tail_any;
        }
        o.default = if dice.roll(2) == 0 { Some(fresh(dice, taken, &stems)) } else { None };
        o.value_name = if dice.roll(3) == 0 { s("") } else { fresh(dice, taken, &stems) };
        cmd.opts.push(o);
    }
    let several = dice.roll(3);
    let n = if bare { 0 } else { dice.roll(5) };
    if tail_any {
        cmd.args.push(arg(&fresh(dice, taken, &stems), Count::Any));
    }
    for i in 0..n {
        let mut count = if several > 0 && i + several == n { dice.pick(&counts) } else { Count::Exactly(i) };
        if matches!(count, Count::Any) && i + 1 != n {
            count = Count::AtLeastOne;
        }
        let mut a = arg(&fresh(dice, taken, &stems), count);
        a.value_name = if dice.roll(3) == 0 { s("") } else { fresh(dice, taken, &stems) };
        a.description = if dice.roll(2) == 0 { Some(fresh(dice, taken, &stems)) } else { None };
        cmd.args.push(a);
    }
    if depth > 0 {
        for _ in 0..dice.roll(4) {
            let mut sub = odd_command(dice, depth - 1, taken, false);
            if sub.name.is_empty() {
                sub.name = fresh(dice, taken, &stems);
            }
            sub.short_flag = short(dice);
            sub.long_flag = if dice.roll(2) == 0 { Some(fresh(dice, taken, &long_stems)) } else { None };
            cmd.subcommands.push(sub);
        }
    }
    cmd
}

fn odd_line(dice: &mut Dice, a: &App) -> Vec<String> {
    let mut tokens = vec![s("--"), s("-"), s(""), s("x"), s("-h"), s("--help"), s("help"), s("-V"), s("--version"), s("--="), s("-ü"), s("--he")];
    let mut level = &a.command;
    loop {
        for f in &level.flags {
            if let Some(c) = f.short {
                tokens.push(format!("-{}", c));
                tokens.push(format!("-{}{}", c, c));
            }
            if let Some(l) = &f.long {
                tokens.push(format!("--{}", l));
            }
        }
        for o in &level.opts {
            if let Some(c) = o.short {
                tokens.push(format!("-{}", c));
                tokens.push(format!("-{}=v", c));
            }
            if let Some(l) = &o.long {
                tokens.push(format!("--{}", l));
                tokens.push(format!("--{}=v", l));
            }
        }
        for sub in &level.subcommands {
            tokens.push(sub.name.clone());
            if let Some(c) = sub.short_flag {
                tokens.push(format!("-{}", c));
            }
            if let Some(l) = &sub.long_flag {
                tokens.push(format!("--{}", l));
            }
        }
        if level.subcommands.is_empty() || dice.roll(2) == 0 {
            break;
        }
        level = &level.subcommands[dice.roll(level.subcommands.len())];
    }
    (0..dice.roll(7)).map(|_| dice.pick(&tokens)).collect()
}

#[test]
fn accepted_odd_declarations_are_matched() {
    let mut dice = Dice(99);
    let mut matched = 0;
    for _ in 0..1200 {
        let mut taken = 0;
        let mut a = app(odd_command(&mut dice, 2, &mut taken, true));
        a.infer_subcommands = dice.roll(2) == 0;
        a.args_override_self = dice.roll(2) == 0;
        a.version = match dice.roll(3) {
            0 => None,
            1 => Some(s("")),
            _ => Some(s("1.0 {n}")),
        };
        assert!(is_accepted(&a), "{:?}", a);
        for _ in 0..4 {
            let line = odd_line(&mut dice, &a);
            if do_things(&BashZsh {}, &a, s("p q"), &line).is_ok() {
                matched += 1;
            }
        }
    }
    assert!(matched > 0);
}
