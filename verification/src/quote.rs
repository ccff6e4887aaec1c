//! Quoting of arbitrary text as a literal of the two shell dialects.

use vstd::prelude::*;
use crate::text::{owned, push_char, push_text};

verus! {

/// The characters that a plain single-quoted literal cannot hold as they are.
pub open spec fn special(c: char) -> bool {
    c == '\\' || c == '\'' || c == '\r' || c == '\n' || c == '\t' || c == '\x1b'
}

/// Some character of the text is special.
pub open spec fn has_special(s: Seq<char>) -> bool {
    exists|i: int| 0 <= i < s.len() && special(#[trigger] s[i])
}

/// A character as it stands inside a dollar-quoted literal.
pub open spec fn escape(c: char) -> Seq<char> {
    if c == '\\' {
        seq!['\\', '\\']
    } else if c == '\'' {
        seq!['\\', '\'']
    } else if c == '\r' {
        seq!['\\', 'r']
    } else if c == '\n' {
        seq!['\\', 'n']
    } else if c == '\t' {
        seq!['\\', 't']
    } else if c == '\x1b' {
        seq!['\\', 'e']
    } else {
        seq![c]
    }
}

/// A text as it stands inside a dollar-quoted literal.
pub open spec fn escaped(s: Seq<char>) -> Seq<char>
    decreases s.len(),
{
    if s.len() == 0 {
        Seq::empty()
    } else {
        escape(s[0]) + escaped(s.drop_first())
    }
}

/// The character that a backslash and `code` stand for in a dollar-quoted literal.
pub open spec fn unescape(code: char) -> char {
    if code == 'r' {
        '\r'
    } else if code == 'n' {
        '\n'
    } else if code == 't' {
        '\t'
    } else if code == 'e' {
        '\x1b'
    } else {
        code
    }
}

/// The text that a shell of the interactive dialect reads from the inside
/// of a dollar-quoted literal, up to the quote that closes it.
pub open spec fn read_dollar_quoted(t: Seq<char>) -> Seq<char>
    decreases t.len(),
{
    if t.len() == 0 || t[0] == '\'' {
        Seq::empty()
    } else if t[0] == '\\' && t.len() >= 2 {
        seq![unescape(t[1])] + read_dollar_quoted(t.skip(2))
    } else {
        seq![t[0]] + read_dollar_quoted(t.skip(1))
    }
}

/// The text that a shell of the interactive dialect reads from the inside
/// of a single-quoted literal, up to the quote that closes it.
pub open spec fn read_single_quoted(t: Seq<char>) -> Seq<char>
    decreases t.len(),
{
    if t.len() == 0 || t[0] == '\'' {
        Seq::empty()
    } else {
        seq![t[0]] + read_single_quoted(t.skip(1))
    }
}

/// The text that a shell of the interactive dialect reads from a literal.
pub open spec fn bash_read(q: Seq<char>) -> Seq<char> {
    if q.len() >= 2 && q[0] == '$' && q[1] == '\'' {
        read_dollar_quoted(q.skip(2))
    } else if q.len() >= 1 && q[0] == '\'' {
        read_single_quoted(q.skip(1))
    } else {
        q
    }
}

/// A text as a literal of the interactive dialect: dollar-quoted with
/// escapes where it holds a special character, plainly single-quoted where
/// it holds none.
pub open spec fn bash_quoted(s: Seq<char>) -> Seq<char> {
    if has_special(s) {
        seq!['$', '\''] + escaped(s) + seq!['\'']
    } else {
        seq!['\''] + s + seq!['\'']
    }
}

/// Escaping goes character by character.
pub proof fn lemma_escaped_push(s: Seq<char>, c: char)
    ensures
        escaped(s.push(c)) == escaped(s) + escape(c),
    decreases s.len(),
{
    if s.len() == 0 {
        assert(s.push(c).drop_first() =~= Seq::<char>::empty());
        assert(s.push(c)[0] == c);
        assert(escaped(s.push(c).drop_first()) == Seq::<char>::empty());
        assert(escaped(s.push(c)) == escape(c) + Seq::<char>::empty());
        assert(escaped(s) == Seq::<char>::empty());
        assert(escape(c) + Seq::<char>::empty() =~= Seq::<char>::empty() + escape(c));
    } else {
        assert(s.push(c).drop_first() =~= s.drop_first().push(c));
        lemma_escaped_push(s.drop_first(), c);
        assert(escape(s[0]) + (escaped(s.drop_first()) + escape(c)) =~= (escape(s[0]) + escaped(
            s.drop_first(),
        )) + escape(c));
    }
}

/// A text without special characters is escaped to itself.
pub proof fn lemma_escaped_plain(s: Seq<char>)
    requires
        !has_special(s),
    ensures
        escaped(s) == s,
    decreases s.len(),
{
    if s.len() > 0 {
        assert(!special(s[0]));
        assert forall|i: int| 0 <= i < s.drop_first().len() implies !special(
            #[trigger] s.drop_first()[i],
        ) by {
            assert(s.drop_first()[i] == s[i + 1]);
        }
        lemma_escaped_plain(s.drop_first());
        assert(seq![s[0]] + s.drop_first() =~= s);
    }
}

/// The inside of a dollar-quoted literal reads back as the text that was
/// escaped, and the quote that follows it is the one that closes the literal.
pub proof fn lemma_read_dollar_quoted(s: Seq<char>)
    ensures
        read_dollar_quoted(escaped(s) + seq!['\'']) == s,
    decreases s.len(),
{
    let t = escaped(s) + seq!['\''];
    if s.len() == 0 {
        assert(t[0] == '\'');
    } else {
        let rest = s.drop_first();
        lemma_read_dollar_quoted(rest);
        if special(s[0]) {
            assert(t.skip(2) =~= escaped(rest) + seq!['\'']);
            assert(t[0] == '\\');
            assert(unescape(t[1]) == s[0]);
        } else {
            assert(t.skip(1) =~= escaped(rest) + seq!['\'']);
            assert(t[0] == s[0]);
        }
        assert(seq![s[0]] + rest =~= s);
    }
}

/// The inside of a single-quoted literal reads back as the text, where the
/// text holds no quote.
pub proof fn lemma_read_single_quoted(s: Seq<char>)
    requires
        forall|i: int| 0 <= i < s.len() ==> s[i] != '\'',
    ensures
        read_single_quoted(s + seq!['\'']) == s,
    decreases s.len(),
{
    let t = s + seq!['\''];
    if s.len() == 0 {
        assert(t[0] == '\'');
    } else {
        let rest = s.drop_first();
        assert forall|i: int| 0 <= i < rest.len() implies rest[i] != '\'' by {
            assert(rest[i] == s[i + 1]);
        }
        lemma_read_single_quoted(rest);
        assert(t[0] == s[0]);
        assert(t.skip(1) =~= rest + seq!['\'']);
        assert(seq![s[0]] + rest =~= s);
    }
}

/// In the interactive dialect a text without special characters is quoted
/// as itself between single quotes, and holds no quote that could end the
/// literal early.
pub proof fn law_bash_plain(s: Seq<char>)
    requires
        !has_special(s),
    ensures
        bash_quoted(s) == seq!['\''] + s + seq!['\''],
        forall|i: int| 0 <= i < s.len() ==> s[i] != '\'',
{
    assert forall|i: int| 0 <= i < s.len() implies s[i] != '\'' by {
        assert(!special(s[i]));
    }
}

/// In the interactive dialect a text with a special character is quoted in
/// the dollar-quoted form.
pub proof fn law_bash_escaped(s: Seq<char>)
    requires
        has_special(s),
    ensures
        bash_quoted(s) == seq!['$', '\''] + escaped(s) + seq!['\''],
{
}

/// In the interactive dialect a shell reads a quoted text back as the text.
pub proof fn law_bash_reads_back(s: Seq<char>)
    ensures
        bash_read(bash_quoted(s)) == s,
{
    let q = bash_quoted(s);
    if has_special(s) {
        assert(q[0] == '$' && q[1] == '\'');
        assert(q.skip(2) =~= escaped(s) + seq!['\'']);
        lemma_read_dollar_quoted(s);
    } else {
        law_bash_plain(s);
        assert(q[0] == '\'');
        assert(q.skip(1) =~= s + seq!['\'']);
        lemma_read_single_quoted(s);
    }
}

/// Quotes a text for the interactive dialect.
pub fn bash_quote(s: &str) -> (r: String)
    ensures
        r@ == bash_quoted(s@),
{
    let mut body = String::new();
    let mut found = false;
    let chars = s.chars();
    for c in it: chars
        invariant
            it.seq() == s@,
            body@ == escaped(s@.take(it.index())),
            found == has_special(s@.take(it.index())),
    {
        let ghost before = s@.take(it.index());
        let ghost after = s@.take(it.index() + 1);
        proof {
            assert(after =~= before.push(c));
            lemma_escaped_push(before, c);
            if special(c) {
                assert(special(after[it.index()]));
            } else if has_special(after) {
                let i = choose|i: int| 0 <= i < after.len() && special(#[trigger] after[i]);
                assert(special(before[i]));
            } else if has_special(before) {
                let i = choose|i: int| 0 <= i < before.len() && special(#[trigger] before[i]);
                assert(special(after[i]));
            }
        }
        if c == '\\' {
            push_text(&mut body, "\\\\");
            found = true;
        } else if c == '\'' {
            push_text(&mut body, "\\'");
            found = true;
        } else if c == '\r' {
            push_text(&mut body, "\\r");
            found = true;
        } else if c == '\n' {
            push_text(&mut body, "\\n");
            found = true;
        } else if c == '\t' {
            push_text(&mut body, "\\t");
            found = true;
        } else if c == '\x1b' {
            push_text(&mut body, "\\e");
            found = true;
        } else {
            push_char(&mut body, c);
        }
        proof {
            reveal_strlit("\\\\");
            reveal_strlit("\\'");
            reveal_strlit("\\r");
            reveal_strlit("\\n");
            reveal_strlit("\\t");
            reveal_strlit("\\e");
            assert(body@ =~= escaped(before) + escape(c));
        }
    }
    assert(s@.take(s@.len() as int) =~= s@);
    let mut r = String::new();
    if found {
        push_text(&mut r, "$'");
    } else {
        push_text(&mut r, "'");
        proof {
            lemma_escaped_plain(s@);
        }
    }
    push_text(&mut r, body.as_str());
    push_text(&mut r, "'");
    proof {
        reveal_strlit("$'");
        reveal_strlit("'");
        assert(r@ =~= bash_quoted(s@));
    }
    r
}

/// A character as it stands in a single-quoted literal of the strict
/// dialect: a quote closes the literal, stands escaped, and opens it again.
pub open spec fn posix_escape(c: char) -> Seq<char> {
    if c == '\'' {
        seq!['\'', '\\', '\'', '\'']
    } else {
        seq![c]
    }
}

/// A text as it stands between the quotes of the strict dialect.
pub open spec fn posix_escaped(s: Seq<char>) -> Seq<char>
    decreases s.len(),
{
    if s.len() == 0 {
        Seq::empty()
    } else {
        posix_escape(s[0]) + posix_escaped(s.drop_first())
    }
}

/// The escaped text between single quotes.
pub open spec fn posix_wrapped(s: Seq<char>) -> Seq<char> {
    seq!['\''] + posix_escaped(s) + seq!['\'']
}

/// The text begins with an empty pair of quotes.
pub open spec fn starts_with_pair(t: Seq<char>) -> bool {
    t.len() >= 2 && t[0] == '\'' && t[1] == '\''
}

/// The text ends with an empty pair of quotes.
pub open spec fn ends_with_pair(t: Seq<char>) -> bool {
    t.len() >= 2 && t[t.len() - 2] == '\'' && t[t.len() - 1] == '\''
}

/// The text without an empty pair of quotes at its beginning.
pub open spec fn strip_front(t: Seq<char>) -> Seq<char> {
    if starts_with_pair(t) {
        t.skip(2)
    } else {
        t
    }
}

/// The text without an empty pair of quotes at its end.
pub open spec fn strip_back(t: Seq<char>) -> Seq<char> {
    if ends_with_pair(t) {
        t.take(t.len() - 2)
    } else {
        t
    }
}

/// A text as a literal of the strict dialect: single-quoted, with every
/// quote of the text escaped outside the quotes, and without the empty pair
/// of quotes that this leaves at the beginning and at the end. The pair
/// that stands for the empty text is all there is of that word, and stays.
pub open spec fn posix_quoted(s: Seq<char>) -> Seq<char> {
    if s.len() == 0 {
        posix_wrapped(s)
    } else {
        strip_back(strip_front(posix_wrapped(s)))
    }
}

/// Escaping for the strict dialect goes character by character.
pub proof fn lemma_posix_escaped_push(s: Seq<char>, c: char)
    ensures
        posix_escaped(s.push(c)) == posix_escaped(s) + posix_escape(c),
    decreases s.len(),
{
    if s.len() == 0 {
        assert(s.push(c).drop_first() =~= Seq::<char>::empty());
        assert(s.push(c)[0] == c);
        assert(posix_escaped(s.push(c).drop_first()) == Seq::<char>::empty());
        assert(posix_escaped(s.push(c)) == posix_escape(c) + Seq::<char>::empty());
        assert(posix_escaped(s) == Seq::<char>::empty());
        assert(posix_escape(c) + Seq::<char>::empty() =~= Seq::<char>::empty() + posix_escape(c));
    } else {
        assert(s.push(c).drop_first() =~= s.drop_first().push(c));
        lemma_posix_escaped_push(s.drop_first(), c);
        assert(posix_escape(s[0]) + (posix_escaped(s.drop_first()) + posix_escape(c)) =~= (
        posix_escape(s[0]) + posix_escaped(s.drop_first())) + posix_escape(c));
    }
}

/// In the strict dialect the empty text is quoted as an empty pair of quotes.
pub proof fn law_posix_empty(s: Seq<char>)
    requires
        s.len() == 0,
    ensures
        posix_quoted(s) == seq!['\'', '\''],
{
    assert(posix_wrapped(s) =~= seq!['\'', '\'']);
}

/// In the strict dialect a quoted text that is not empty neither begins
/// nor ends with an empty pair of quotes.
pub proof fn law_posix_no_empty_pair(s: Seq<char>)
    requires
        s.len() > 0,
    ensures
        !starts_with_pair(posix_quoted(s)),
        !ends_with_pair(posix_quoted(s)),
{
    let e = posix_escaped(s);
    let w = posix_wrapped(s);
    let t = strip_front(w);
    let front = s.drop_last();
    assert(s =~= front.push(s.last()));
    lemma_posix_escaped_push(front, s.last());
    assert(e == posix_escaped(front) + posix_escape(s.last()));
    assert(e =~= posix_escape(s[0]) + posix_escaped(s.drop_first()));
    let n = w.len() as int;
    assert(w[0] == '\'' && w[n - 1] == '\'');
    assert(w[1] == e[0] && e[0] == posix_escape(s[0])[0]);
    if s[0] == '\'' {
        assert(w[2] == e[1] && e[1] == '\\');
        assert(t[0] == '\\');
    } else {
        assert(w[1] == s[0]);
        assert(t == w);
    }
    if s.last() == '\'' {
        assert(e.len() >= 4);
        assert(w[n - 2] == e[e.len() - 1] && w[n - 3] == e[e.len() - 2] && w[n - 4] == e[e.len()
            - 3] && w[n - 5] == e[e.len() - 4]);
        assert(w[n - 2] == '\'' && w[n - 3] == '\'' && w[n - 4] == '\\');
    } else {
        assert(w[n - 2] == e[e.len() - 1] && e[e.len() - 1] == s.last());
    }
}

/// The word that has been read so far, which is empty where none has begun.
pub open spec fn so_far(word: Option<Seq<char>>) -> Seq<char> {
    match word {
        Some(w) => w,
        None => Seq::empty(),
    }
}

/// The word that ends here, if one has begun.
pub open spec fn ended(word: Option<Seq<char>>) -> Seq<Seq<char>> {
    match word {
        Some(w) => seq![w],
        None => Seq::empty(),
    }
}

/// The words that a shell of the strict dialect reads from the rest of a
/// line. `inside` says whether the rest begins inside a quoted stretch, and
/// `word` is the word that has begun before it, if any. A quote begins or
/// ends a stretch and, like any character but a space outside quotes,
/// begins a word; a space outside quotes ends one; a backslash outside
/// quotes stands for the character after it.
pub open spec fn posix_words(q: Seq<char>, inside: bool, word: Option<Seq<char>>) -> Seq<
    Seq<char>,
>
    decreases q.len(),
{
    if q.len() == 0 {
        ended(word)
    } else if q[0] == '\'' {
        posix_words(q.skip(1), !inside, Some(so_far(word)))
    } else if inside {
        posix_words(q.skip(1), true, Some(so_far(word).push(q[0])))
    } else if q[0] == ' ' {
        ended(word) + posix_words(q.skip(1), false, None)
    } else if q[0] == '\\' && q.len() >= 2 {
        posix_words(q.skip(2), false, Some(so_far(word).push(q[1])))
    } else {
        posix_words(q.skip(1), false, Some(so_far(word).push(q[0])))
    }
}

/// The words that a shell of the strict dialect splits a line into.
pub open spec fn posix_split(q: Seq<char>) -> Seq<Seq<char>> {
    posix_words(q, false, None)
}

/// Read from inside a quoted stretch, an escaped text and the quote that
/// closes the stretch add the text to the word, and reading goes on after
/// the quote.
pub proof fn lemma_posix_words_escaped(s: Seq<char>, word: Seq<char>, rest: Seq<char>)
    ensures
        posix_words(posix_escaped(s) + seq!['\''] + rest, true, Some(word)) == posix_words(
            rest,
            false,
            Some(word + s),
        ),
    decreases s.len(),
{
    let q = posix_escaped(s) + seq!['\''] + rest;
    if s.len() == 0 {
        assert(q[0] == '\'');
        assert(q.skip(1) =~= rest);
        assert(word + s =~= word);
    } else {
        let tail = s.drop_first();
        let after = posix_escaped(tail) + seq!['\''] + rest;
        if s[0] == '\'' {
            let q1 = q.skip(1);
            let q3 = q1.skip(2);
            assert(q[0] == '\'');
            assert(q1[0] == '\\' && q1[1] == '\'' && q1.len() >= 2);
            assert(posix_words(q, true, Some(word)) == posix_words(q1, false, Some(word)));
            assert(posix_words(q1, false, Some(word)) == posix_words(
                q3,
                false,
                Some(word.push('\'')),
            ));
            assert(q3[0] == '\'');
            assert(q3.skip(1) =~= after);
            lemma_posix_words_escaped(tail, word.push('\''), rest);
            assert(word.push('\'') + tail =~= word + s);
        } else {
            assert(q[0] == s[0]);
            assert(q.skip(1) =~= after);
            lemma_posix_words_escaped(tail, word.push(s[0]), rest);
            assert(word.push(s[0]) + tail =~= word + s);
        }
    }
}

/// An empty pair of quotes before an escaped character does not change the
/// words that are read.
pub proof fn lemma_posix_words_strip_front(u: Seq<char>, rest: Seq<char>)
    requires
        starts_with_pair(u),
        u.len() >= 4,
        u[2] == '\\',
    ensures
        posix_words(strip_front(u) + rest, false, None) == posix_words(u + rest, false, None),
{
    let x = u + rest;
    let x1 = x.skip(1);
    let y = u.skip(2) + rest;
    let none = Seq::<char>::empty();
    assert(x[0] == '\'');
    assert(posix_words(x, false, None) == posix_words(x1, true, Some(none)));
    assert(x1[0] == '\'');
    assert(x1.skip(1) =~= y);
    assert(posix_words(x1, true, Some(none)) == posix_words(y, false, Some(none)));
    assert(y[0] == '\\' && y.len() >= 2);
    assert(posix_words(y, false, Some(none)) == posix_words(
        y.skip(2),
        false,
        Some(none.push(y[1])),
    ));
    assert(posix_words(y, false, None) == posix_words(y.skip(2), false, Some(none.push(y[1]))));
}

/// In the strict dialect a quoted text is read as one word, which is the
/// text, whatever follows it on the line.
pub proof fn lemma_posix_word(s: Seq<char>, rest: Seq<char>)
    ensures
        posix_words(posix_quoted(s) + rest, false, None) == posix_words(rest, false, Some(s)),
{
    let e = posix_escaped(s);
    let w = posix_wrapped(s);
    let none = Seq::<char>::empty();
    if s.len() == 0 {
        let x = posix_quoted(s) + rest;
        assert(w =~= seq!['\'', '\'']);
        assert(x[0] == '\'');
        assert(x.skip(1)[0] == '\'');
        assert(x.skip(1).skip(1) =~= rest);
        assert(posix_words(x, false, None) == posix_words(x.skip(1), true, Some(none)));
        assert(s =~= none);
    } else {
        let front = s.drop_last();
        assert(s =~= front.push(s.last()));
        lemma_posix_escaped_push(front, s.last());
        assert(e =~= posix_escape(s[0]) + posix_escaped(s.drop_first()));
        let n = w.len() as int;
        assert(w[0] == '\'' && w[1] == posix_escape(s[0])[0]);
        if s.last() == '\'' {
            let after = seq!['\\', '\''];
            let u = seq!['\''] + (posix_escaped(front) + seq!['\''] + after);
            assert(w =~= u + seq!['\'', '\'']);
            assert(u =~= w.take(n - 2));
            assert(starts_with_pair(w) == starts_with_pair(u));
            assert(ends_with_pair(strip_front(w)));
            assert(posix_quoted(s) =~= strip_front(u));
            let x = u + rest;
            let tail = after + rest;
            assert(x[0] == '\'');
            assert(x.skip(1) =~= posix_escaped(front) + seq!['\''] + tail);
            assert(posix_words(x, false, None) == posix_words(x.skip(1), true, Some(none)));
            lemma_posix_words_escaped(front, none, tail);
            assert(none + front =~= front);
            assert(tail[0] == '\\' && tail[1] == '\'' && tail.len() >= 2);
            assert(tail.skip(2) =~= rest);
            assert(posix_words(tail, false, Some(front)) == posix_words(
                rest,
                false,
                Some(front.push('\'')),
            ));
            if starts_with_pair(u) {
                assert(u[2] == '\\') by {
                    if front.len() > 0 {
                        assert(posix_escaped(front) =~= posix_escape(front[0]) + posix_escaped(
                            front.drop_first(),
                        ));
                        assert(u[1] == posix_escape(front[0])[0]);
                        assert(u[2] == posix_escape(front[0])[1]);
                    }
                }
                lemma_posix_words_strip_front(u, rest);
            }
        } else {
            assert(w[n - 2] == e[e.len() - 1] && e[e.len() - 1] == s.last());
            assert(!ends_with_pair(strip_front(w)));
            assert(posix_quoted(s) == strip_front(w));
            let x = w + rest;
            assert(x[0] == '\'');
            assert(x.skip(1) =~= e + seq!['\''] + rest);
            assert(posix_words(x, false, None) == posix_words(x.skip(1), true, Some(none)));
            lemma_posix_words_escaped(s, none, rest);
            assert(none + s =~= s);
            if starts_with_pair(w) {
                assert(w[2] == e[1] && e[1] == '\\');
                lemma_posix_words_strip_front(w, rest);
            }
        }
    }
}

/// In the strict dialect a shell reads a quoted text back as one word,
/// which is the text.
pub proof fn law_posix_reads_back(s: Seq<char>)
    ensures
        posix_split(posix_quoted(s)) == seq![s],
{
    let none = Seq::<char>::empty();
    lemma_posix_word(s, none);
    assert(posix_quoted(s) + none =~= posix_quoted(s));
}

/// Quotes a text for the strict dialect.
pub fn posix_quote(s: &str) -> (r: String)
    ensures
        r@ == posix_quoted(s@),
{
    if s.is_empty() {
        proof {
            reveal_strlit("''");
            assert(posix_wrapped(s@) =~= seq!['\'', '\'']);
            assert("''"@ =~= seq!['\'', '\'']);
        }
        return owned("''");
    }
    let mut w: Vec<char> = Vec::new();
    w.push('\'');
    let chars = s.chars();
    for c in it: chars
        invariant
            it.seq() == s@,
            w@ == seq!['\''] + posix_escaped(s@.take(it.index())),
    {
        let ghost before = s@.take(it.index());
        proof {
            assert(s@.take(it.index() + 1) =~= before.push(c));
            lemma_posix_escaped_push(before, c);
        }
        if c == '\'' {
            w.push('\'');
            w.push('\\');
            w.push('\'');
            w.push('\'');
        } else {
            w.push(c);
        }
        assert(w@ =~= seq!['\''] + (posix_escaped(before) + posix_escape(c)));
    }
    assert(s@.take(s@.len() as int) =~= s@);
    w.push('\'');
    assert(w@ =~= posix_wrapped(s@));
    let start: usize = if w.len() >= 2 && w[0] == '\'' && w[1] == '\'' {
        2
    } else {
        0
    };
    let ghost t = strip_front(w@);
    assert(t =~= w@.skip(start as int));
    let n = w.len();
    let end: usize = if n - start >= 2 && w[n - 2] == '\'' && w[n - 1] == '\'' {
        n - 2
    } else {
        n
    };
    assert(strip_back(t) =~= w@.subrange(start as int, end as int));
    let mut r = String::new();
    let mut i: usize = start;
    while i < end
        invariant
            start <= i <= end <= w.len(),
            r@ == w@.subrange(start as int, i as int),
        decreases end - i,
    {
        push_char(&mut r, w[i]);
        assert(w@.subrange(start as int, i + 1) =~= w@.subrange(start as int, i as int).push(
            w@[i as int],
        ));
        i += 1;
    }
    r
}

} // verus!
