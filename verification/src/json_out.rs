//! JSON text for the report that a search run prints: quoted strings,
//! optional strings and string arrays.
use crate::text::push_char;
use vstd::prelude::*;

verus! {

/// What one character becomes inside a quoted JSON string.
pub open spec fn escape_char(c: char) -> Seq<char> {
    if c == '"' {
        seq!['\\', '"']
    } else if c == '\\' {
        seq!['\\', '\\']
    } else if c == '\n' {
        seq!['\\', 'n']
    } else if c == '\r' {
        seq!['\\', 'r']
    } else if c == '\t' {
        seq!['\\', 't']
    } else {
        seq![c]
    }
}

/// The escaped characters of a string, without the quotes.
pub open spec fn escape_body(s: Seq<char>) -> Seq<char>
    decreases s.len(),
{
    if s.len() == 0 {
        Seq::empty()
    } else {
        escape_body(s.drop_last()) + escape_char(s.last())
    }
}

/// A string as a quoted JSON string: quotes, backslashes, newlines, carriage
/// returns and tabs are escaped, every other character stands as it is.
pub open spec fn quoted(s: Seq<char>) -> Seq<char> {
    seq!['"'] + escape_body(s) + seq!['"']
}

fn push_escaped(out: &mut String, c: char)
    ensures
        final(out)@ == old(out)@ + escape_char(c),
{
    if c == '"' {
        push_char(out, '\\');
        push_char(out, '"');
    } else if c == '\\' {
        push_char(out, '\\');
        push_char(out, '\\');
    } else if c == '\n' {
        push_char(out, '\\');
        push_char(out, 'n');
    } else if c == '\r' {
        push_char(out, '\\');
        push_char(out, 'r');
    } else if c == '\t' {
        push_char(out, '\\');
        push_char(out, 't');
    } else {
        push_char(out, c);
    }
    assert(out@ =~= old(out)@ + escape_char(c));
}

fn push_quoted(out: &mut String, value: &str)
    ensures
        final(out)@ == old(out)@ + quoted(value@),
{
    let chars = crate::text::chars_of(value);
    push_char(out, '"');
    let ghost start = out@;
    for i in 0..chars.len()
        invariant
            out@ == start + escape_body(chars@.take(i as int)),
            start == old(out)@.push('"'),
    {
        push_escaped(out, chars[i]);
        assert(chars@.take(i + 1).drop_last() =~= chars@.take(i as int));
        assert(out@ =~= start + escape_body(chars@.take(i + 1)));
    }
    assert(chars@.take(chars@.len() as int) =~= chars@);
    push_char(out, '"');
    assert(out@ =~= old(out)@ + quoted(value@));
}

/// The string as a quoted JSON string.
pub fn json_string(value: &str) -> (r: String)
    ensures
        r@ == quoted(value@),
{
    let mut out = String::new();
    push_quoted(&mut out, value);
    assert(out@ =~= quoted(value@));
    out
}

/// A quoted JSON string, or `null` for no string.
pub open spec fn option_json(value: Option<Seq<char>>) -> Seq<char> {
    match value {
        Some(s) => quoted(s),
        None => seq!['n', 'u', 'l', 'l'],
    }
}

pub fn json_option_string(value: Option<&str>) -> (r: String)
    ensures
        r@ == option_json(
            match value {
                Some(s) => Some(s@),
                None => None,
            },
        ),
{
    match value {
        Some(s) => json_string(s),
        None => {
            let mut out = String::new();
            push_char(&mut out, 'n');
            push_char(&mut out, 'u');
            push_char(&mut out, 'l');
            push_char(&mut out, 'l');
            assert(out@ =~= seq!['n', 'u', 'l', 'l']);
            out
        },
    }
}

/// The quoted strings, separated by a comma and a space.
pub open spec fn joined_quoted(values: Seq<Seq<char>>) -> Seq<char>
    decreases values.len(),
{
    if values.len() == 0 {
        Seq::empty()
    } else if values.len() == 1 {
        quoted(values[0])
    } else {
        joined_quoted(values.drop_last()) + seq![',', ' '] + quoted(values.last())
    }
}

/// A JSON array of quoted strings.
pub open spec fn array_json(values: Seq<Seq<char>>) -> Seq<char> {
    seq!['['] + joined_quoted(values) + seq![']']
}

pub open spec fn views(values: Seq<String>) -> Seq<Seq<char>> {
    values.map_values(|s: String| s@)
}

pub fn json_string_array(values: &[String]) -> (r: String)
    ensures
        r@ == array_json(views(values@)),
{
    let mut out = String::new();
    push_char(&mut out, '[');
    for i in 0..values.len()
        invariant
            out@ == seq!['['] + joined_quoted(views(values@.take(i as int))),
    {
        let ghost before = out@;
        if i > 0 {
            push_char(&mut out, ',');
            push_char(&mut out, ' ');
        }
        push_quoted(&mut out, values[i].as_str());
        proof {
            let t = views(values@.take(i + 1));
            assert(t.drop_last() =~= views(values@.take(i as int)));
            assert(t.last() == values@[i as int]@);
            if i == 0 {
                assert(joined_quoted(views(values@.take(0))) =~= Seq::<char>::empty());
            }
        }
        assert(out@ =~= seq!['['] + joined_quoted(views(values@.take(i + 1))));
    }
    assert(values@.take(values@.len() as int) =~= values@);
    push_char(&mut out, ']');
    assert(out@ =~= array_json(views(values@)));
    out
}

/// Characters that a report string may hold and still read back from a
/// configuration text: printable ASCII, newline, carriage return and tab.
pub open spec fn plain_char(c: char) -> bool {
    (' ' <= c && c <= '\u{7f}') || c == '\n' || c == '\r' || c == '\t'
}

/// Escaping a concatenation escapes each part.
pub proof fn lemma_escape_body_append(a: Seq<char>, b: Seq<char>)
    ensures
        escape_body(a + b) == escape_body(a) + escape_body(b),
    decreases b.len(),
{
    if b.len() == 0 {
        assert(a + b =~= a);
        assert(escape_body(a) + escape_body(b) =~= escape_body(a));
    } else {
        lemma_escape_body_append(a, b.drop_last());
        assert((a + b).drop_last() =~= a + b.drop_last());
        assert((a + b).last() == b.last());
        assert(escape_body(a + b) =~= escape_body(a) + escape_body(b));
    }
}

/// The escape of a plain string is ASCII.
pub proof fn lemma_escape_body_ascii(s: Seq<char>)
    requires
        forall|i: int| 0 <= i < s.len() ==> plain_char(#[trigger] s[i]),
    ensures
        vstd::utf8::is_ascii_chars(escape_body(s)),
    decreases s.len(),
{
    if s.len() > 0 {
        lemma_escape_body_ascii(s.drop_last());
        let e = escape_body(s);
        let e0 = escape_body(s.drop_last());
        let ec = escape_char(s.last());
        assert(e == e0 + ec);
        assert forall|i: int| 0 <= i < e.len() implies '\0' <= #[trigger] e[i] <= '\u{7f}' by {
            if i < e0.len() {
                assert(e[i] == e0[i]);
            } else {
                assert(e[i] == ec[i - e0.len()]);
            }
        }
    }
}

} // verus!
