//! The shell dialects: how values, calls and failures are written as source
//! text that a script evaluates.

use vstd::prelude::*;
use crate::error::Error;
use crate::matcher::{plain_text, styled_ansi, styled_from, styled_plain};
use crate::quote::{
    bash_quote, bash_quoted, lemma_posix_word, posix_quote, posix_quoted, posix_split,
    posix_words,
};
use crate::resolve::{bindings, Value, VarEnv, VarValue};
use crate::text::{concat, owned, push_text, texts};

verus! {

/// The message of the guard for a handler that is not defined, styled. The
/// guard hands it to `printf`, which puts the handler's name in.
pub const HANDLER_ERROR: &'static str =
    "\u{1b}[31m\u{1b}[1merror:\u{1b}[39m\u{1b}[22m handler \u{1b}[33m'%s'\u{1b}[39m not found\n";

/// The texts with single spaces between them.
pub open spec fn joined(parts: Seq<Seq<char>>) -> Seq<char>
    decreases parts.len(),
{
    if parts.len() == 0 {
        Seq::empty()
    } else if parts.len() == 1 {
        parts[0]
    } else {
        joined(parts.drop_last()) + " "@ + parts.last()
    }
}

/// Where a report is sent: to standard error or wherever output goes.
pub open spec fn redirect(use_stderr: bool) -> Seq<char> {
    if use_stderr {
        ">&2"@
    } else {
        ""@
    }
}

/// The statement that binds one name of an environment, where `one` gives
/// the statement for a text and `many` that for a list. A name without a
/// value is not left out: its companion `_not_set` is bound to `y`.
pub open spec fn binding_text(
    one: spec_fn(Seq<char>, Seq<char>) -> Seq<char>,
    many: spec_fn(Seq<char>, Seq<Seq<char>>) -> Seq<char>,
    name: Seq<char>,
    value: Value,
) -> Seq<char> {
    match value {
        Value::Unset => one(name + "_not_set"@, "y"@),
        Value::Val(v) => one(name, v),
        Value::List(vs) => many(name, vs),
    }
}

/// The statements that bind the names of an environment, in its order.
pub open spec fn assignments(
    one: spec_fn(Seq<char>, Seq<char>) -> Seq<char>,
    many: spec_fn(Seq<char>, Seq<Seq<char>>) -> Seq<char>,
    env: Seq<(Seq<char>, Value)>,
) -> Seq<char> {
    concat(Seq::new(env.len(), |i: int| binding_text(one, many, env[i].0, env[i].1)))
}

/// The statements that call the handlers, in order, where `call` gives the
/// statement for one.
pub open spec fn calls(call: spec_fn(Seq<char>) -> Seq<char>, handlers: Seq<Seq<char>>) -> Seq<
    char,
> {
    concat(Seq::new(handlers.len(), |i: int| call(handlers[i])))
}

/// A shell dialect.
pub trait Shell {
    /// `s` as a literal of the dialect.
    spec fn quoted(&self, s: Seq<char>) -> Seq<char>;

    /// The statement that binds `name` to the text `value`.
    spec fn assignment(&self, name: Seq<char>, value: Seq<char>) -> Seq<char>;

    /// The statement that binds `name` to the list `values`.
    spec fn list_assignment(&self, name: Seq<char>, values: Seq<Seq<char>>) -> Seq<char>;

    /// The statement that calls the handler `name`.
    spec fn handler_call(&self, name: Seq<char>) -> Seq<char>;

    /// The statements that report a failure and end the script with status 1.
    spec fn error_report(&self, styled: Seq<char>, plain: Seq<char>, use_stderr: bool) -> Seq<
        char,
    >;

    /// The statements that end the script unless every handler is defined.
    spec fn handler_guard(&self, handlers: Seq<Seq<char>>) -> Seq<char>;

    /// Quotes a text so that the shell reads it back as it is.
    fn quote_string(&self, s: &str) -> (r: String)
        ensures
            r@ == self.quoted(s@),
    ;

    /// The statement that binds a name to a text.
    fn set_string_var(&self, name: &str, value: &str) -> (r: String)
        ensures
            r@ == self.assignment(name@, value@),
    ;

    /// The statement that binds a name to a list of texts.
    fn set_list_var(&self, name: &str, value: &Vec<String>) -> (r: String)
        ensures
            r@ == self.list_assignment(name@, texts(value@)),
    ;

    /// The statement that calls a handler.
    fn call_handler(&self, name: &str) -> (r: String)
        ensures
            r@ == self.handler_call(name@),
    ;

    /// The statements that report `err` when the script runs: the styled
    /// message where its output is a terminal, the plain one elsewhere, and
    /// then exit status 1.
    fn print_error(&self, err: Error) -> (r: String)
        ensures
            r@ == self.error_report(err.styled(), plain_text(err.styled()), err.to_stderr()),
    ;

    /// The statements that check, when the script runs, that each handler is
    /// defined, and that end the script with a message where one is not.
    fn check_handlers(&self, handlers: &Vec<String>) -> (r: String)
        ensures
            r@ == self.handler_guard(texts(handlers@)),
    ;

    /// The calls of the handlers, in order.
    fn call_handlers(&self, handlers: &Vec<String>) -> (r: String)
        ensures
            r@ == calls(|name: Seq<char>| self.handler_call(name), texts(handlers@)),
    {
        let mut out = String::new();
        let ghost all = Seq::new(
            handlers@.len(),
            |i: int| self.handler_call(texts(handlers@)[i]),
        );
        let mut i: usize = 0;
        while i < handlers.len()
            invariant
                i <= handlers.len(),
                all == Seq::new(handlers@.len(), |i: int| self.handler_call(texts(handlers@)[i])),
                out@ == concat(all.take(i as int)),
            decreases handlers.len() - i,
        {
            let line = self.call_handler(handlers[i].as_str());
            push_text(&mut out, line.as_str());
            assert(all.take(i + 1).drop_last() =~= all.take(i as int));
            i += 1;
        }
        assert(all.take(i as int) =~= all);
        assert(all =~= Seq::new(
            handlers@.len(),
            |i: int| (|name: Seq<char>| self.handler_call(name))(texts(handlers@)[i]),
        ));
        out
    }

    /// The assignments for all variables of the environment, in its order.
    fn set_vars(&self, vars: &VarEnv) -> (r: String)
        ensures
            r@ == assignments(
                |name: Seq<char>, value: Seq<char>| self.assignment(name, value),
                |name: Seq<char>, values: Seq<Seq<char>>| self.list_assignment(name, values),
                vars@,
            ),
    {
        let entries = vars.entries();
        let ghost env = vars@;
        let ghost one = |name: Seq<char>, value: Seq<char>| self.assignment(name, value);
        let ghost many = |name: Seq<char>, values: Seq<Seq<char>>|
            self.list_assignment(name, values);
        let ghost all = Seq::new(env.len(), |i: int| binding_text(one, many, env[i].0, env[i].1));
        let mut out = String::new();
        let mut i: usize = 0;
        while i < entries.len()
            invariant
                i <= entries.len(),
                env == bindings(entries@),
                one == |name: Seq<char>, value: Seq<char>| self.assignment(name, value),
                many == |name: Seq<char>, values: Seq<Seq<char>>|
                    self.list_assignment(name, values),
                all == Seq::new(env.len(), |i: int| binding_text(one, many, env[i].0, env[i].1)),
                out@ == concat(all.take(i as int)),
            decreases entries.len() - i,
        {
            let entry = &entries[i];
            let line = match &entry.value {
                VarValue::Unset => {
                    let mut name = entry.name.clone();
                    push_text(&mut name, "_not_set");
                    self.set_string_var(name.as_str(), "y")
                },
                VarValue::Val(v) => self.set_string_var(entry.name.as_str(), v.as_str()),
                VarValue::List(vs) => self.set_list_var(entry.name.as_str(), vs),
            };
            push_text(&mut out, line.as_str());
            proof {
                assert(all.take(i + 1).drop_last() =~= all.take(i as int));
                assert(env[i as int] == entry@);
                assert(line@ == binding_text(one, many, entry.name@, entry.value@));
                assert(all.take(i + 1).last() == line@);
            }
            i += 1;
        }
        assert(all.take(i as int) =~= all);
        out
    }
}

/// The literals of the texts in one of the two dialects, in order.
pub open spec fn quoted_all(strict: bool, values: Seq<Seq<char>>) -> Seq<Seq<char>> {
    Seq::new(
        values.len(),
        |i: int|
            if strict {
                posix_quoted(values[i])
            } else {
                bash_quoted(values[i])
            },
    )
}

/// The literals of the texts with single spaces between them.
fn join_quoted(strict: bool, values: &Vec<String>) -> (r: String)
    ensures
        r@ == joined(quoted_all(strict, texts(values@))),
{
    let ghost all = quoted_all(strict, texts(values@));
    let mut out = String::new();
    let mut i: usize = 0;
    while i < values.len()
        invariant
            i <= values.len(),
            all == quoted_all(strict, texts(values@)),
            out@ == joined(all.take(i as int)),
        decreases values.len() - i,
    {
        if i > 0 {
            push_text(&mut out, " ");
        }
        let q = if strict {
            posix_quote(values[i].as_str())
        } else {
            bash_quote(values[i].as_str())
        };
        push_text(&mut out, q.as_str());
        proof {
            let now = all.take(i + 1);
            assert(now.drop_last() =~= all.take(i as int));
            assert(now.last() == q@);
            if i == 0 {
                assert(out@ =~= q@);
            }
        }
        i += 1;
    }
    assert(all.take(i as int) =~= all);
    out
}

/// Read by a shell of the strict dialect, the literals of a list with
/// single spaces between them give the texts of the list but the last as
/// words, and the last as the word that what follows goes on with.
pub proof fn lemma_posix_list_words(values: Seq<Seq<char>>, rest: Seq<char>)
    requires
        values.len() > 0,
    ensures
        posix_words(joined(quoted_all(true, values)) + rest, false, None) == values.drop_last()
            + posix_words(rest, false, Some(values.last())),
    decreases values.len(),
{
    let literals = quoted_all(true, values);
    if values.len() == 1 {
        assert(joined(literals) == posix_quoted(values[0]));
        lemma_posix_word(values[0], rest);
        assert(values.drop_last() + posix_words(rest, false, Some(values.last()))
            =~= posix_words(rest, false, Some(values.last())));
    } else {
        let front = values.drop_last();
        let last = values.last();
        let tail = posix_quoted(last) + rest;
        let then = " "@ + tail;
        assert(literals.drop_last() =~= quoted_all(true, front));
        assert(literals.last() == posix_quoted(last));
        assert(joined(literals) + rest =~= joined(quoted_all(true, front)) + then);
        lemma_posix_list_words(front, then);
        reveal_strlit(" ");
        assert(then[0] == ' ');
        assert(then.skip(1) =~= tail);
        assert(posix_words(then, false, Some(front.last())) == seq![front.last()] + posix_words(
            tail,
            false,
            None,
        ));
        lemma_posix_word(last, rest);
        assert(front.drop_last() + (seq![front.last()] + posix_words(rest, false, Some(last)))
            =~= front + posix_words(rest, false, Some(last)));
    }
}

/// In the strict dialect the value of a list splits back into the texts of
/// the list: a shell that reads the literals, joined by single spaces,
/// reads as many words, each the text it was quoted from. An empty text
/// stays a word of its own, and the empty list gives no word.
pub proof fn law_posix_list_splits_back(values: Seq<Seq<char>>)
    ensures
        posix_split(joined(quoted_all(true, values))) == values,
{
    let line = joined(quoted_all(true, values));
    if values.len() > 0 {
        let none = Seq::<char>::empty();
        lemma_posix_list_words(values, none);
        assert(line + none =~= line);
        assert(values.drop_last() + seq![values.last()] =~= values);
    }
}

/// The line that checks one handler.
pub open spec fn guard_line(probe: Seq<char>, handler: Seq<char>) -> Seq<char> {
    probe + handler + " >/dev/null || __argparse_handler_err "@ + handler + "\n"@
}

/// The lines that check the handlers, in order.
pub open spec fn guard_lines(probe: Seq<char>, handlers: Seq<Seq<char>>) -> Seq<char>
    decreases handlers.len(),
{
    if handlers.len() == 0 {
        Seq::empty()
    } else {
        guard_lines(probe, handlers.drop_last()) + guard_line(probe, handlers.last())
    }
}

fn push_guard_lines(out: &mut String, probe: &str, handlers: &Vec<String>)
    ensures
        final(out)@ == old(out)@ + guard_lines(probe@, texts(handlers@)),
{
    let ghost all = texts(handlers@);
    let ghost head = out@;
    let mut i: usize = 0;
    assert(head + guard_lines(probe@, all.take(0)) =~= head);
    while i < handlers.len()
        invariant
            i <= handlers.len(),
            all == texts(handlers@),
            out@ == head + guard_lines(probe@, all.take(i as int)),
        decreases handlers.len() - i,
    {
        let ghost before = out@;
        push_text(out, probe);
        push_text(out, handlers[i].as_str());
        push_text(out, " >/dev/null || __argparse_handler_err ");
        push_text(out, handlers[i].as_str());
        push_text(out, "\n");
        proof {
            assert(all.take(i + 1).drop_last() =~= all.take(i as int));
            assert(all.take(i + 1).last() == handlers@[i as int]@);
            assert(out@ =~= before + guard_line(probe@, handlers@[i as int]@));
            assert(out@ =~= head + guard_lines(probe@, all.take(i + 1)));
        }
        i += 1;
    }
    assert(all.take(i as int) =~= all);
}

/// The interactive dialect, as bash and zsh read it.
pub struct BashZsh {}

/// The strict dialect, as any POSIX shell reads it.
pub struct Posix {}

impl Shell for BashZsh {
    open spec fn quoted(&self, s: Seq<char>) -> Seq<char> {
        bash_quoted(s)
    }

    open spec fn assignment(&self, name: Seq<char>, value: Seq<char>) -> Seq<char> {
        name + "="@ + bash_quoted(value) + "\n"@
    }

    /// A list is an array: the literals of its texts between parentheses.
    open spec fn list_assignment(&self, name: Seq<char>, values: Seq<Seq<char>>) -> Seq<char> {
        name + "=("@ + joined(quoted_all(false, values)) + ")\n"@
    }

    open spec fn handler_call(&self, name: Seq<char>) -> Seq<char> {
        name + "\n"@
    }

    open spec fn error_report(&self, styled: Seq<char>, plain: Seq<char>, use_stderr: bool) -> Seq<
        char,
    > {
        self.assignment("__argparse_error_unstyled"@, plain) + self.assignment(
            "__argparse_error_styled"@,
            styled,
        ) + "\nif [[ -t 1 ]]; then\n  "@ + redirect(use_stderr)
            + " echo \"${__argparse_error_styled}\"\nelse\n  "@ + redirect(use_stderr)
            + " echo \"${__argparse_error_unstyled}\"\nfi\nexit 1\n"@
    }

    open spec fn handler_guard(&self, handlers: Seq<Seq<char>>) -> Seq<char> {
        "\n__argparse_handler_err () {\n  if [[ -t 1 ]]; then\n    >&2 printf "@ + bash_quoted(
            HANDLER_ERROR@,
        ) + " \"$1\"\n  else\n    >&2 printf "@ + bash_quoted(plain_text(HANDLER_ERROR@))
            + " \"$1\"\n  fi\n  exit 1\n}\n"@ + guard_lines("type -t "@, handlers)
    }

    fn quote_string(&self, s: &str) -> (r: String) {
        assert(self.quoted(s@) == bash_quoted(s@));
        bash_quote(s)
    }

    fn set_string_var(&self, name: &str, value: &str) -> (r: String) {
        assert(self.assignment(name@, value@) == name@ + "="@ + bash_quoted(value@) + "\n"@);
        assert(self.quoted(value@) == bash_quoted(value@));
        let mut out = owned(name);
        push_text(&mut out, "=");
        push_text(&mut out, self.quote_string(value).as_str());
        push_text(&mut out, "\n");
        out
    }

    fn set_list_var(&self, name: &str, value: &Vec<String>) -> (r: String) {
        assert(self.list_assignment(name@, texts(value@)) == name@ + "=("@ + joined(
            quoted_all(false, texts(value@)),
        ) + ")\n"@);
        let mut out = owned(name);
        push_text(&mut out, "=(");
        push_text(&mut out, join_quoted(false, value).as_str());
        push_text(&mut out, ")\n");
        out
    }

    fn call_handler(&self, name: &str) -> (r: String) {
        assert(self.handler_call(name@) == name@ + "\n"@);
        let mut out = owned(name);
        push_text(&mut out, "\n");
        out
    }

    fn print_error(&self, err: Error) -> (r: String) {
        let unstyled = styled_plain(err.message());
        let styled = styled_ansi(err.message());
        let to = if err.use_stderr() {
            ">&2"
        } else {
            ""
        };
        let mut out = self.set_string_var("__argparse_error_unstyled", unstyled.as_str());
        push_text(
            &mut out,
            self.set_string_var("__argparse_error_styled", styled.as_str()).as_str(),
        );
        push_text(&mut out, "\nif [[ -t 1 ]]; then\n  ");
        push_text(&mut out, to);
        push_text(&mut out, " echo \"${__argparse_error_styled}\"\nelse\n  ");
        push_text(&mut out, to);
        push_text(&mut out, " echo \"${__argparse_error_unstyled}\"\nfi\nexit 1\n");
        out
    }

    fn check_handlers(&self, handlers: &Vec<String>) -> (r: String) {
        let message = styled_from(owned(HANDLER_ERROR));
        let unstyled = styled_plain(&message);
        let styled = styled_ansi(&message);
        let mut out = owned("\n__argparse_handler_err () {\n  if [[ -t 1 ]]; then\n    >&2 printf ");
        push_text(&mut out, self.quote_string(styled.as_str()).as_str());
        push_text(&mut out, " \"$1\"\n  else\n    >&2 printf ");
        push_text(&mut out, self.quote_string(unstyled.as_str()).as_str());
        push_text(&mut out, " \"$1\"\n  fi\n  exit 1\n}\n");
        push_guard_lines(&mut out, "type -t ", handlers);
        out
    }
}

impl Shell for Posix {
    open spec fn quoted(&self, s: Seq<char>) -> Seq<char> {
        posix_quoted(s)
    }

    open spec fn assignment(&self, name: Seq<char>, value: Seq<char>) -> Seq<char> {
        name + "="@ + posix_quoted(value) + "\n"@
    }

    /// There is no list: the literals of the texts, with single spaces
    /// between them, are quoted once more as one text, which the script has
    /// to split again.
    open spec fn list_assignment(&self, name: Seq<char>, values: Seq<Seq<char>>) -> Seq<char> {
        name + "="@ + posix_quoted(joined(quoted_all(true, values))) + "\n"@
    }

    open spec fn handler_call(&self, name: Seq<char>) -> Seq<char> {
        name + "\n"@
    }

    open spec fn error_report(&self, styled: Seq<char>, plain: Seq<char>, use_stderr: bool) -> Seq<
        char,
    > {
        self.assignment("__argparse_error_unstyled"@, plain) + self.assignment(
            "__argparse_error_styled"@,
            styled,
        ) + "\nif [ -t 1 ]; then\n  "@ + redirect(use_stderr)
            + " printf '%s' \"${__argparse_error_styled}\"\nelse\n  "@ + redirect(use_stderr)
            + " printf '%s' \"${__argparse_error_unstyled}\"\nfi\nexit 1\n"@
    }

    open spec fn handler_guard(&self, handlers: Seq<Seq<char>>) -> Seq<char> {
        "\n__argparse_handler_err () {\n  if [ -t 1 ]; then\n    >&2 printf "@ + posix_quoted(
            HANDLER_ERROR@,
        ) + " \"$1\"\n  else\n    >&2 printf "@ + posix_quoted(plain_text(HANDLER_ERROR@))
            + " \"$1\"\n  fi\n  exit 1\n}\n"@ + guard_lines("type "@, handlers)
    }

    fn quote_string(&self, s: &str) -> (r: String) {
        assert(self.quoted(s@) == posix_quoted(s@));
        posix_quote(s)
    }

    fn set_string_var(&self, name: &str, value: &str) -> (r: String) {
        assert(self.assignment(name@, value@) == name@ + "="@ + posix_quoted(value@) + "\n"@);
        assert(self.quoted(value@) == posix_quoted(value@));
        let mut out = owned(name);
        push_text(&mut out, "=");
        push_text(&mut out, self.quote_string(value).as_str());
        push_text(&mut out, "\n");
        out
    }

    fn set_list_var(&self, name: &str, value: &Vec<String>) -> (r: String) {
        assert(self.list_assignment(name@, texts(value@)) == name@ + "="@ + posix_quoted(
            joined(quoted_all(true, texts(value@))),
        ) + "\n"@);
        assert(self.quoted(joined(quoted_all(true, texts(value@)))) == posix_quoted(
            joined(quoted_all(true, texts(value@))),
        ));
        let mut out = owned(name);
        push_text(&mut out, "=");
        push_text(&mut out, self.quote_string(join_quoted(true, value).as_str()).as_str());
        push_text(&mut out, "\n");
        out
    }

    fn call_handler(&self, name: &str) -> (r: String) {
        assert(self.handler_call(name@) == name@ + "\n"@);
        let mut out = owned(name);
        push_text(&mut out, "\n");
        out
    }

    fn print_error(&self, err: Error) -> (r: String) {
        let unstyled = styled_plain(err.message());
        let styled = styled_ansi(err.message());
        let to = if err.use_stderr() {
            ">&2"
        } else {
            ""
        };
        let mut out = self.set_string_var("__argparse_error_unstyled", unstyled.as_str());
        push_text(
            &mut out,
            self.set_string_var("__argparse_error_styled", styled.as_str()).as_str(),
        );
        push_text(&mut out, "\nif [ -t 1 ]; then\n  ");
        push_text(&mut out, to);
        push_text(&mut out, " printf '%s' \"${__argparse_error_styled}\"\nelse\n  ");
        push_text(&mut out, to);
        push_text(&mut out, " printf '%s' \"${__argparse_error_unstyled}\"\nfi\nexit 1\n");
        out
    }

    fn check_handlers(&self, handlers: &Vec<String>) -> (r: String) {
        let message = styled_from(owned(HANDLER_ERROR));
        let unstyled = styled_plain(&message);
        let styled = styled_ansi(&message);
        let mut out = owned("\n__argparse_handler_err () {\n  if [ -t 1 ]; then\n    >&2 printf ");
        push_text(&mut out, self.quote_string(styled.as_str()).as_str());
        push_text(&mut out, " \"$1\"\n  else\n    >&2 printf ");
        push_text(&mut out, self.quote_string(unstyled.as_str()).as_str());
        push_text(&mut out, " \"$1\"\n  fi\n  exit 1\n}\n");
        push_guard_lines(&mut out, "type ", handlers);
        out
    }
}

} // verus!
