use shargs::config::{
    is_short, parse_count, short_flag, CfgApp, CfgArg, CfgCommand, CfgFlag, CfgOpt, Count, INVALID,
};

fn s(text: &str) -> String {
    text.to_string()
}

fn cfg_opt(name: &str) -> CfgOpt {
    CfgOpt {
        name: s(name),
        short: None,
        long: None,
        value_name: None,
        default: None,
        repeated: None,
        description: None,
    }
}

fn cfg_arg(name: &str, count: Option<&str>) -> CfgArg {
    CfgArg { name: s(name), value_name: None, count: count.map(s), description: None }
}

fn cfg_command(name: &str) -> CfgCommand {
    CfgCommand {
        name: s(name),
        short_flag: None,
        long_flag: None,
        require_subcommand: None,
        description: None,
        handler: None,
        always_call_handler: None,
        subcommands: vec![],
        opts: vec![],
        flags: vec![],
        args: vec![],
    }
}

fn cfg_app() -> CfgApp {
    CfgApp {
        name: None,
        version: None,
        infer_subcommands: None,
        args_override_self: None,
        description: None,
        handler: None,
        always_call_handler: None,
        require_subcommand: None,
        subcommands: vec![],
        opts: vec![],
        flags: vec![],
        args: vec![],
    }
}

#[test]
fn short_alias_is_one_character() {
    assert!(is_short(&None));
    assert!(is_short(&Some(s("x"))));
    assert!(is_short(&Some(s("ü"))));
    assert!(!is_short(&Some(s(""))));
    assert!(!is_short(&Some(s("xy"))));
}

#[test]
fn short_flag_takes_the_character() {
    assert_eq!(short_flag(None), None);
    assert_eq!(short_flag(Some(s("x"))), Some('x'));
    assert_eq!(short_flag(Some(s("ü"))), Some('ü'));
}

#[test]
fn count_tokens() {
    assert!(matches!(parse_count(&None), Some(Count::One)));
    assert!(matches!(parse_count(&Some(s("1"))), Some(Count::One)));
    assert!(matches!(parse_count(&Some(s("+"))), Some(Count::AtLeastOne)));
    assert!(matches!(parse_count(&Some(s("*"))), Some(Count::Any)));
    assert!(parse_count(&Some(s("2"))).is_none());
    assert!(parse_count(&Some(s(""))).is_none());
    assert!(parse_count(&Some(s("1+"))).is_none());
}

#[test]
fn option_defaults() {
    let opt = CfgOpt::into(&cfg_opt("level"));
    assert_eq!(opt.name, "level");
    assert_eq!(opt.short, None);
    assert_eq!(opt.long, None);
    assert_eq!(opt.description, None);
    assert_eq!(opt.value_name, "LEVEL");
    assert_eq!(opt.default, None);
    assert!(!opt.repeated);
}

#[test]
fn option_as_given() {
    let cfg = CfgOpt {
        name: s("level"),
        short: Some(s("l")),
        long: Some(s("lvl")),
        value_name: Some(s("n")),
        default: Some(s("1")),
        repeated: Some(true),
        description: Some(s("how much")),
    };
    assert!(cfg.is_valid());
    let opt = CfgOpt::into(&cfg);
    assert_eq!(opt.short, Some('l'));
    assert_eq!(opt.long, Some(s("lvl")));
    assert_eq!(opt.value_name, "n");
    assert_eq!(opt.default, Some(s("1")));
    assert!(opt.repeated);
    assert_eq!(opt.description, Some(s("how much")));
}

#[test]
fn value_name_is_upper_cased_by_unicode() {
    assert_eq!(CfgOpt::into(&cfg_opt("straße")).value_name, "STRASSE");
    assert_eq!(CfgArg::into(&cfg_arg("file-name", None)).value_name, "FILE-NAME");
}

#[test]
fn flag_as_given() {
    let cfg = CfgFlag {
        name: s("verbose"),
        short: Some(s("v")),
        long: Some(s("verbose")),
        description: Some(s("say more")),
    };
    assert!(cfg.is_valid());
    let flag = CfgFlag::into(&cfg);
    assert_eq!(flag.name, "verbose");
    assert_eq!(flag.short, Some('v'));
    assert_eq!(flag.long, Some(s("verbose")));
    assert_eq!(flag.description, Some(s("say more")));
}

#[test]
fn positional_counts_from_tokens() {
    assert!(matches!(CfgArg::into(&cfg_arg("a", None)).count, Count::One));
    assert!(matches!(CfgArg::into(&cfg_arg("a", Some("1"))).count, Count::One));
    assert!(matches!(CfgArg::into(&cfg_arg("a", Some("+"))).count, Count::AtLeastOne));
    assert!(matches!(CfgArg::into(&cfg_arg("a", Some("*"))).count, Count::Any));
}

#[test]
fn invalid_declarations_are_found() {
    let mut opt = cfg_opt("level");
    opt.short = Some(s("lv"));
    assert!(!opt.is_valid());
    assert!(!cfg_arg("a", Some("many")).is_valid());
    let flag = CfgFlag { name: s("f"), short: Some(s("")), long: None, description: None };
    assert!(!flag.is_valid());
    let mut cmd = cfg_command("run");
    assert!(cmd.is_valid());
    cmd.short_flag = Some(s("rr"));
    assert!(!cmd.is_valid());
    let mut deep = cfg_command("deep");
    deep.args.push(cfg_arg("a", Some("?")));
    let mut mid = cfg_command("mid");
    mid.subcommands.push(deep);
    let mut app = cfg_app();
    assert!(app.is_valid());
    app.subcommands.push(mid);
    assert!(!app.is_valid());
}

#[test]
fn command_defaults_and_children() {
    let mut cfg = cfg_command("run");
    cfg.short_flag = Some(s("r"));
    cfg.long_flag = Some(s("run"));
    cfg.handler = Some(s("on_run"));
    cfg.opts.push(cfg_opt("level"));
    cfg.args.push(cfg_arg("file", Some("+")));
    cfg.flags.push(CfgFlag { name: s("v"), short: Some(s("v")), long: None, description: None });
    let mut deep = cfg_command("deep");
    deep.require_subcommand = Some(true);
    deep.always_call_handler = Some(true);
    cfg.subcommands.push(deep);
    cfg.subcommands.push(cfg_command("other"));
    let cmd = CfgCommand::into(&cfg);
    assert_eq!(cmd.name, "run");
    assert_eq!(cmd.short_flag, Some('r'));
    assert_eq!(cmd.long_flag, Some(s("run")));
    assert!(!cmd.require_subcommand);
    assert!(!cmd.always_call_handler);
    assert_eq!(cmd.handler, Some(s("on_run")));
    assert_eq!(cmd.description, None);
    assert_eq!(cmd.opts.len(), 1);
    assert_eq!(cmd.opts[0].value_name, "LEVEL");
    assert_eq!(cmd.flags.len(), 1);
    assert_eq!(cmd.flags[0].short, Some('v'));
    assert_eq!(cmd.args.len(), 1);
    assert!(matches!(cmd.args[0].count, Count::AtLeastOne));
    assert_eq!(cmd.subcommands.len(), 2);
    assert_eq!(cmd.subcommands[0].name, "deep");
    assert!(cmd.subcommands[0].require_subcommand);
    assert!(cmd.subcommands[0].always_call_handler);
    assert_eq!(cmd.subcommands[1].name, "other");
}

#[test]
fn app_defaults() {
    let app = CfgApp::into(&cfg_app());
    assert_eq!(app.version, None);
    assert!(!app.infer_subcommands);
    assert!(app.args_override_self);
    assert_eq!(app.command.name, "");
    assert_eq!(app.command.short_flag, None);
    assert_eq!(app.command.long_flag, None);
    assert!(!app.command.require_subcommand);
    assert!(!app.command.always_call_handler);
    assert!(app.command.flags.is_empty());
    assert!(app.command.subcommands.is_empty());
}

#[test]
fn app_as_given() {
    let mut cfg = cfg_app();
    cfg.name = Some(s("tool"));
    cfg.version = Some(s("2.0"));
    cfg.infer_subcommands = Some(true);
    cfg.args_override_self = Some(false);
    cfg.description = Some(s("a tool"));
    cfg.handler = Some(s("on_tool"));
    cfg.always_call_handler = Some(true);
    cfg.require_subcommand = Some(true);
    cfg.subcommands.push(cfg_command("run"));
    cfg.args.push(cfg_arg("file", None));
    let app = CfgApp::into(&cfg);
    assert_eq!(app.version, Some(s("2.0")));
    assert!(app.infer_subcommands);
    assert!(!app.args_override_self);
    assert_eq!(app.command.name, "tool");
    assert_eq!(app.command.description, Some(s("a tool")));
    assert_eq!(app.command.handler, Some(s("on_tool")));
    assert!(app.command.always_call_handler);
    assert!(app.command.require_subcommand);
    assert_eq!(app.command.subcommands.len(), 1);
    assert_eq!(app.command.args.len(), 1);
}

#[test]
fn valid_declaration_converts() {
    let mut cfg = cfg_app();
    cfg.name = Some(s("tool"));
    cfg.opts.push(cfg_opt("level"));
    cfg.args.push(cfg_arg("rest", Some("*")));
    let app = cfg.convert().ok().unwrap();
    assert_eq!(app.command.name, "tool");
    assert_eq!(app.command.opts[0].value_name, "LEVEL");
    assert!(matches!(app.command.args[0].count, Count::Any));
}

#[test]
fn short_alias_of_wrong_length_is_a_configuration_error() {
    let mut cfg = cfg_app();
    let mut opt = cfg_opt("level");
    opt.short = Some(s("lv"));
    cfg.opts.push(opt);
    let err = cfg.convert().err().unwrap();
    assert!(err.use_stderr());
    assert_eq!(format!("{}", err.message()), INVALID);
}

#[test]
fn unknown_count_token_is_a_configuration_error() {
    let mut deep = cfg_command("deep");
    deep.args.push(cfg_arg("a", Some("many")));
    let mut cfg = cfg_app();
    cfg.subcommands.push(deep);
    let err = cfg.convert().err().unwrap();
    assert!(err.use_stderr());
    assert_eq!(format!("{}", err.message()), INVALID);
}
