use shargs::error::Error;
use shargs::resolve::{VarEnv, VarValue};
use shargs::shell::{BashZsh, Posix, Shell, HANDLER_ERROR};

fn s(text: &str) -> String {
    text.to_string()
}

#[test]
fn quote_string_goes_by_dialect() {
    assert_eq!(BashZsh {}.quote_string("it's"), "$'it\\'s'");
    assert_eq!(Posix {}.quote_string("it's"), "'it'\\''s'");
}

#[test]
fn scalar_assignment() {
    assert_eq!(BashZsh {}.set_string_var("file", "report.txt"), "file='report.txt'\n");
    assert_eq!(Posix {}.set_string_var("file", "report.txt"), "file='report.txt'\n");
    assert_eq!(BashZsh {}.set_string_var("empty", ""), "empty=''\n");
    assert_eq!(Posix {}.set_string_var("empty", ""), "empty=''\n");
    assert_eq!(BashZsh {}.set_string_var("n", "a\nb"), "n=$'a\\nb'\n");
    assert_eq!(Posix {}.set_string_var("n", "a\nb"), "n='a\nb'\n");
}

#[test]
fn list_assignment_interactive_is_an_array() {
    let sh = BashZsh {};
    assert_eq!(sh.set_list_var("l", &vec![]), "l=()\n");
    assert_eq!(sh.set_list_var("l", &vec![s("a")]), "l=('a')\n");
    assert_eq!(sh.set_list_var("l", &vec![s("a"), s("b c"), s("d'e")]), "l=('a' 'b c' $'d\\'e')\n");
    assert_eq!(sh.set_list_var("l", &vec![s(""), s("")]), "l=('' '')\n");
}

#[test]
fn list_assignment_strict_is_one_quoted_text() {
    let sh = Posix {};
    assert_eq!(sh.set_list_var("l", &vec![]), "l=''\n");
    assert_eq!(sh.set_list_var("l", &vec![s("")]), "l=\\'''\\'\n");
    assert_eq!(sh.set_list_var("l", &vec![s("a")]), "l=\\''a'\\'\n");
    assert_eq!(sh.set_list_var("l", &vec![s("a"), s("b c")]), "l=\\''a'\\'' '\\''b c'\\'\n");
    assert_eq!(sh.set_list_var("l", &vec![s(""), s("x")]), "l=\\'''\\'' '\\''x'\\'\n");
    assert_ne!(sh.set_list_var("l", &vec![s("")]), sh.set_list_var("l", &vec![]));
    assert_ne!(sh.set_list_var("l", &vec![s(""), s("")]), sh.set_list_var("l", &vec![s("")]));
}

#[test]
fn handler_call_is_the_name_on_a_line() {
    assert_eq!(BashZsh {}.call_handler("on_run"), "on_run\n");
    assert_eq!(Posix {}.call_handler("on_run"), "on_run\n");
}

#[test]
fn handler_calls_in_order() {
    let handlers = vec![s("one"), s("two"), s("three")];
    assert_eq!(BashZsh {}.call_handlers(&handlers), "one\ntwo\nthree\n");
    assert_eq!(Posix {}.call_handlers(&handlers), "one\ntwo\nthree\n");
    assert_eq!(BashZsh {}.call_handlers(&vec![]), "");
}

fn environment() -> VarEnv {
    let mut env = VarEnv::new();
    env.insert(s("level"), VarValue::Val(s("1")));
    env.insert(s("quiet"), VarValue::Unset);
    env.insert(s("tags"), VarValue::List(vec![s("a"), s("b")]));
    env.insert(s("none"), VarValue::List(vec![]));
    env
}

#[test]
fn assignments_for_an_environment_interactive() {
    assert_eq!(
        BashZsh {}.set_vars(&environment()),
        "level='1'\nquiet_not_set='y'\ntags=('a' 'b')\nnone=()\n"
    );
}

#[test]
fn assignments_for_an_environment_strict() {
    assert_eq!(
        Posix {}.set_vars(&environment()),
        "level='1'\nquiet_not_set='y'\ntags=\\''a'\\'' '\\''b'\\'\nnone=''\n"
    );
}

#[test]
fn assignments_for_an_empty_environment() {
    assert_eq!(BashZsh {}.set_vars(&VarEnv::new()), "");
}

#[test]
fn error_report_interactive_to_standard_error() {
    let text = BashZsh {}.print_error(Error::diagnostic(s("it broke\n")));
    assert_eq!(
        text,
        "__argparse_error_unstyled=$'it broke\\n'\n\
         __argparse_error_styled=$'it broke\\n'\n\
         \nif [[ -t 1 ]]; then\n  >&2 echo \"${__argparse_error_styled}\"\nelse\n  >&2 echo \"${__argparse_error_unstyled}\"\nfi\nexit 1\n"
    );
}

#[test]
fn error_report_strict_to_standard_error() {
    let text = Posix {}.print_error(Error::diagnostic(s("it broke\n")));
    assert_eq!(
        text,
        "__argparse_error_unstyled='it broke\n'\n\
         __argparse_error_styled='it broke\n'\n\
         \nif [ -t 1 ]; then\n  >&2 printf '%s' \"${__argparse_error_styled}\"\nelse\n  >&2 printf '%s' \"${__argparse_error_unstyled}\"\nfi\nexit 1\n"
    );
}

#[test]
fn error_report_to_standard_output_has_no_redirect() {
    let mut message = clap::builder::StyledStr::new();
    message.push_str("usage");
    let text = Posix {}.print_error(Error::new(message, false));
    assert_eq!(
        text,
        "__argparse_error_unstyled='usage'\n\
         __argparse_error_styled='usage'\n\
         \nif [ -t 1 ]; then\n   printf '%s' \"${__argparse_error_styled}\"\nelse\n   printf '%s' \"${__argparse_error_unstyled}\"\nfi\nexit 1\n"
    );
}

#[test]
fn error_report_keeps_styles_only_in_the_styled_form() {
    let text = BashZsh {}.print_error(Error::diagnostic(s("\x1b[1mbold\x1b[0m plain")));
    assert!(text.starts_with(
        "__argparse_error_unstyled='bold plain'\n__argparse_error_styled=$'\\e[1mbold\\e[0m plain'\n"
    ), "{}", text);
}

#[test]
fn error_accessors() {
    let err = Error::diagnostic(s("\x1b[31mred\x1b[39m"));
    assert!(err.use_stderr());
    assert_eq!(format!("{}", err.message()), "red");
    assert_eq!(format!("{}", err.message().ansi()), "\x1b[31mred\x1b[39m");
}

#[test]
fn handler_error_message_is_styled() {
    assert_eq!(
        HANDLER_ERROR,
        "\x1b[31m\x1b[1merror:\x1b[39m\x1b[22m handler \x1b[33m'%s'\x1b[39m not found\n"
    );
}

#[test]
fn handler_guard_interactive() {
    let text = BashZsh {}.check_handlers(&vec![s("on_a"), s("on_b")]);
    assert_eq!(
        text,
        "\n__argparse_handler_err () {\n  if [[ -t 1 ]]; then\n    >&2 printf $'\\e[31m\\e[1merror:\\e[39m\\e[22m handler \\e[33m\\'%s\\'\\e[39m not found\\n' \"$1\"\n  else\n    >&2 printf $'error: handler \\'%s\\' not found\\n' \"$1\"\n  fi\n  exit 1\n}\n\
         type -t on_a >/dev/null || __argparse_handler_err on_a\n\
         type -t on_b >/dev/null || __argparse_handler_err on_b\n"
    );
}

#[test]
fn handler_guard_strict() {
    let text = Posix {}.check_handlers(&vec![s("on_a")]);
    assert_eq!(
        text,
        "\n__argparse_handler_err () {\n  if [ -t 1 ]; then\n    >&2 printf '\x1b[31m\x1b[1merror:\x1b[39m\x1b[22m handler \x1b[33m'\\''%s'\\''\x1b[39m not found\n' \"$1\"\n  else\n    >&2 printf 'error: handler '\\''%s'\\'' not found\n' \"$1\"\n  fi\n  exit 1\n}\n\
         type on_a >/dev/null || __argparse_handler_err on_a\n"
    );
}

#[test]
fn handler_guard_without_handlers_is_the_function_alone() {
    let text = Posix {}.check_handlers(&vec![]);
    assert!(text.ends_with("  fi\n  exit 1\n}\n"));
}
