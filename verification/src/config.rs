//! The reader of run configuration files: a JSON object whose values are
//! strings, numbers (kept as their text), booleans, or arrays of strings.
//! It works on the bytes of the text; a byte inside a string stands for the
//! character with the same number.
use crate::json_out::{
    escape_body, escape_char, lemma_escape_body_append, lemma_escape_body_ascii, plain_char, quoted,
};
use crate::text::push_char;
use vstd::string::StringSliceAdditionalSpecFns;
use vstd::prelude::*;

verus! {

/// Why a configuration text was refused.
#[derive(Clone, Copy, Debug, PartialEq, Eq)]
pub enum ConfigError {
    /// A given byte was expected, and another byte or the end came.
    ExpectedByte(u8),
    /// The text ended right after a backslash inside a string.
    UnterminatedEscape,
    /// A `\u` escape, which is not supported.
    UnicodeEscape,
    /// A backslash followed by this byte, which is no known escape.
    BadEscape(u8),
    /// A byte below 0x20 inside a string.
    ControlCharacter,
    /// The text ended inside a string.
    UnterminatedString,
    /// A value that starts with none of `"`, `[`, `t`, `f`, `-` or a digit.
    UnsupportedValue,
    /// `true` (when the flag is set) or `false` was expected and is not there.
    ExpectedLiteral(bool),
    /// Something other than whitespace follows the object.
    TrailingContent,
}

/// A configuration value.
#[derive(Clone, Debug)]
pub enum ConfigValue {
    String(String),
    /// The text of a number, as written.
    Number(String),
    Bool(bool),
    StringArray(Vec<String>),
}

/// The mathematical content of a configuration value.
pub enum ConfigValueView {
    String(Seq<char>),
    Number(Seq<char>),
    Bool(bool),
    StringArray(Seq<Seq<char>>),
}

impl View for ConfigValue {
    type V = ConfigValueView;

    open spec fn view(&self) -> ConfigValueView {
        match self {
            ConfigValue::String(s) => ConfigValueView::String(s@),
            ConfigValue::Number(s) => ConfigValueView::Number(s@),
            ConfigValue::Bool(b) => ConfigValueView::Bool(*b),
            ConfigValue::StringArray(v) => ConfigValueView::StringArray(
                v@.map_values(|s: String| s@),
            ),
        }
    }
}

/// The entries of a parsed object, by their views.
pub open spec fn entries_view(v: Seq<(String, ConfigValue)>) -> Seq<(Seq<char>, ConfigValueView)> {
    v.map_values(|e: (String, ConfigValue)| (e.0@, e.1@))
}

pub open spec fn is_ws_byte(c: u8) -> bool {
    c == 32 || c == 10 || c == 13 || c == 9
}

/// The position of the first non-whitespace byte at or after `pos`.
pub open spec fn skip_ws(b: Seq<u8>, pos: int) -> int
    decreases b.len() - pos,
{
    if 0 <= pos < b.len() && is_ws_byte(b[pos]) {
        skip_ws(b, pos + 1)
    } else {
        pos
    }
}

pub open spec fn byte_at(b: Seq<u8>, pos: int, c: u8) -> bool {
    0 <= pos < b.len() && b[pos] == c
}

/// The character that a byte stands for inside a parsed string.
pub open spec fn byte_char(c: u8) -> char {
    c as char
}

/// The character that an escape `\c` stands for.
pub open spec fn escape(b: Seq<u8>, pos: int) -> Result<char, ConfigError> {
    if !(0 <= pos < b.len()) {
        Err(ConfigError::UnterminatedEscape)
    } else {
        let c = b[pos];
        if c == 34 {
            Ok('"')
        } else if c == 92 {
            Ok('\\')
        } else if c == 47 {
            Ok('/')
        } else if c == 98 {
            Ok('\u{8}')
        } else if c == 102 {
            Ok('\u{c}')
        } else if c == 110 {
            Ok('\n')
        } else if c == 114 {
            Ok('\r')
        } else if c == 116 {
            Ok('\t')
        } else if c == 117 {
            Err(ConfigError::UnicodeEscape)
        } else {
            Err(ConfigError::BadEscape(c))
        }
    }
}

/// The rest of a string from `pos` (after the opening quote), with `acc`
/// already read: the characters and the position after the closing quote.
pub open spec fn string_rest(b: Seq<u8>, pos: int, acc: Seq<char>) -> Result<
    (Seq<char>, int),
    ConfigError,
>
    decreases b.len() - pos,
{
    if !(0 <= pos < b.len()) {
        Err(ConfigError::UnterminatedString)
    } else {
        let c = b[pos];
        if c == 34 {
            Ok((acc, pos + 1))
        } else if c == 92 {
            match escape(b, pos + 1) {
                Err(e) => Err(e),
                Ok(ch) => string_rest(b, pos + 2, acc.push(ch)),
            }
        } else if c < 32 {
            Err(ConfigError::ControlCharacter)
        } else {
            string_rest(b, pos + 1, acc.push(byte_char(c)))
        }
    }
}

/// A string that starts at `pos` with its opening quote.
pub open spec fn string_at(b: Seq<u8>, pos: int) -> Result<(Seq<char>, int), ConfigError> {
    if byte_at(b, pos, 34) {
        string_rest(b, pos + 1, Seq::empty())
    } else {
        Err(ConfigError::ExpectedByte(34))
    }
}

pub proof fn lemma_string_rest_advances(b: Seq<u8>, pos: int, acc: Seq<char>)
    requires
        0 <= pos,
    ensures
        string_rest(b, pos, acc) matches Ok((s, q)) ==> pos < q <= b.len(),
    decreases b.len() - pos,
{
    if 0 <= pos < b.len() {
        let c = b[pos];
        if c == 92 {
            if let Ok(ch) = escape(b, pos + 1) {
                lemma_string_rest_advances(b, pos + 2, acc.push(ch));
            }
        } else if c != 34 && c >= 32 {
            lemma_string_rest_advances(b, pos + 1, acc.push(byte_char(c)));
        }
    }
}

pub proof fn lemma_skip_ws_bounds(b: Seq<u8>, pos: int)
    requires
        0 <= pos,
    ensures
        pos <= skip_ws(b, pos),
        pos <= b.len() ==> skip_ws(b, pos) <= b.len(),
    decreases b.len() - pos,
{
    if 0 <= pos < b.len() && is_ws_byte(b[pos]) {
        lemma_skip_ws_bounds(b, pos + 1);
    }
}

/// Whitespace between the tokens of a configuration text is exactly the
/// bytes space, tab, line feed and carriage return: reading from a position
/// passes over one of them and stops at any other byte.
pub proof fn lemma_whitespace_is_space_tab_lf_cr(b: Seq<u8>, pos: int)
    requires
        0 <= pos < b.len(),
    ensures
        (b[pos] == 32 || b[pos] == 9 || b[pos] == 10 || b[pos] == 13) ==> skip_ws(b, pos)
            == skip_ws(b, pos + 1),
        !(b[pos] == 32 || b[pos] == 9 || b[pos] == 10 || b[pos] == 13) ==> skip_ws(b, pos)
            == pos,
{
}

/// A space and a tab are alike between tokens: writing a tab in place of a
/// space changes no position that reading whitespace reaches.
pub proof fn lemma_tab_for_space(b: Seq<u8>, i: int, pos: int)
    requires
        0 <= i < b.len(),
        b[i] == 32,
        0 <= pos,
    ensures
        skip_ws(b, pos) == skip_ws(b.update(i, 9), pos),
    decreases b.len() - pos,
{
    let b2 = b.update(i, 9);
    if pos < b.len() {
        assert(is_ws_byte(b[pos]) == is_ws_byte(b2[pos]));
        if is_ws_byte(b[pos]) {
            lemma_tab_for_space(b, i, pos + 1);
        }
    }
}

/// The rest of a string array after `[` or after a `,`, with `acc`
/// already read.
pub open spec fn array_rest(b: Seq<u8>, pos: int, acc: Seq<Seq<char>>) -> Result<
    (Seq<Seq<char>>, int),
    ConfigError,
>
    decreases b.len() - pos,
    when 0 <= pos
{
    let p = skip_ws(b, pos);
    if byte_at(b, p, 93) {
        Ok((acc, p + 1))
    } else {
        match string_at(b, p) {
            Err(e) => Err(e),
            Ok((s, q)) => {
                let r = skip_ws(b, q);
                if byte_at(b, r, 93) {
                    Ok((acc.push(s), r + 1))
                } else if byte_at(b, r, 44) {
                    proof {
                        lemma_skip_ws_bounds(b, pos);
                        lemma_string_rest_advances(b, p + 1, Seq::empty());
                        lemma_skip_ws_bounds(b, q);
                    }
                    array_rest(b, r + 1, acc.push(s))
                } else {
                    Err(ConfigError::ExpectedByte(44))
                }
            },
        }
    }
}

/// A string array that starts at `pos` with `[`.
pub open spec fn array_at(b: Seq<u8>, pos: int) -> Result<(Seq<Seq<char>>, int), ConfigError> {
    if byte_at(b, pos, 91) {
        array_rest(b, pos + 1, Seq::empty())
    } else {
        Err(ConfigError::ExpectedByte(91))
    }
}

pub open spec fn is_number_byte(c: u8) -> bool {
    (48 <= c && c <= 57) || c == 45 || c == 43 || c == 46 || c == 101 || c == 69
}

/// The end of the run of number bytes that starts at `pos`.
pub open spec fn number_end(b: Seq<u8>, pos: int) -> int
    decreases b.len() - pos,
{
    if 0 <= pos < b.len() && is_number_byte(b[pos]) {
        number_end(b, pos + 1)
    } else {
        pos
    }
}

pub open spec fn bytes_as_chars(s: Seq<u8>) -> Seq<char> {
    s.map_values(|c: u8| byte_char(c))
}

pub open spec fn literal_bytes(value: bool) -> Seq<u8> {
    if value {
        seq![116u8, 114u8, 117u8, 101u8]
    } else {
        seq![102u8, 97u8, 108u8, 115u8, 101u8]
    }
}

/// A value after any whitespace at `pos`, and the position after it.
pub open spec fn value_at(b: Seq<u8>, pos: int) -> Result<(ConfigValueView, int), ConfigError> {
    let p = skip_ws(b, pos);
    if byte_at(b, p, 34) {
        match string_at(b, p) {
            Err(e) => Err(e),
            Ok((s, q)) => Ok((ConfigValueView::String(s), q)),
        }
    } else if byte_at(b, p, 91) {
        match array_at(b, p) {
            Err(e) => Err(e),
            Ok((a, q)) => Ok((ConfigValueView::StringArray(a), q)),
        }
    } else if byte_at(b, p, 116) || byte_at(b, p, 102) {
        let v = b[p] == 116;
        let lit = literal_bytes(v);
        if p + lit.len() <= b.len() && b.subrange(p, p + lit.len()) == lit {
            Ok((ConfigValueView::Bool(v), p + lit.len()))
        } else {
            Err(ConfigError::ExpectedLiteral(v))
        }
    } else if 0 <= p < b.len() && (b[p] == 45 || (48 <= b[p] && b[p] <= 57)) {
        let e = number_end(b, p);
        Ok((ConfigValueView::Number(bytes_as_chars(b.subrange(p, e))), e))
    } else {
        Err(ConfigError::UnsupportedValue)
    }
}

pub proof fn lemma_value_at_advances(b: Seq<u8>, pos: int)
    requires
        0 <= pos,
    ensures
        value_at(b, pos) matches Ok((v, q)) ==> pos < q <= b.len(),
{
    let p = skip_ws(b, pos);
    lemma_skip_ws_bounds(b, pos);
    if byte_at(b, p, 34) {
        lemma_string_rest_advances(b, p + 1, Seq::empty());
    } else if byte_at(b, p, 91) {
        lemma_array_rest_advances(b, p + 1, Seq::empty());
    } else if 0 <= p < b.len() && (b[p] == 45 || (48 <= b[p] && b[p] <= 57)) {
        lemma_number_end_bounds(b, p);
    }
}

pub proof fn lemma_number_end_bounds(b: Seq<u8>, pos: int)
    requires
        0 <= pos <= b.len(),
    ensures
        pos <= number_end(b, pos) <= b.len(),
        pos < b.len() && is_number_byte(b[pos]) ==> pos < number_end(b, pos),
        forall|k: int| pos <= k < number_end(b, pos) ==> is_number_byte(#[trigger] b[k]),
    decreases b.len() - pos,
{
    if pos < b.len() && is_number_byte(b[pos]) {
        lemma_number_end_bounds(b, pos + 1);
    }
}

pub proof fn lemma_array_rest_advances(b: Seq<u8>, pos: int, acc: Seq<Seq<char>>)
    requires
        0 <= pos,
    ensures
        array_rest(b, pos, acc) matches Ok((a, q)) ==> pos < q <= b.len(),
    decreases b.len() - pos,
{
    let p = skip_ws(b, pos);
    lemma_skip_ws_bounds(b, pos);
    if !byte_at(b, p, 93) {
        lemma_string_rest_advances(b, p + 1, Seq::empty());
        if let Ok((s, q)) = string_at(b, p) {
            let r = skip_ws(b, q);
            lemma_skip_ws_bounds(b, q);
            if !byte_at(b, r, 93) && byte_at(b, r, 44) {
                lemma_array_rest_advances(b, r + 1, acc.push(s));
            }
        }
    }
}

/// The position of the entry with this key, searching from position `i`.
pub open spec fn key_position(
    entries: Seq<(Seq<char>, ConfigValueView)>,
    key: Seq<char>,
    i: int,
) -> Option<int>
    decreases entries.len() - i,
{
    if i < 0 || i >= entries.len() {
        None
    } else if entries[i].0 == key {
        Some(i)
    } else {
        key_position(entries, key, i + 1)
    }
}

/// The entries with `key` set to `v`: an entry with that key takes the new
/// value where it stands, otherwise the entry is added at the end.
pub open spec fn set_entry(
    entries: Seq<(Seq<char>, ConfigValueView)>,
    key: Seq<char>,
    v: ConfigValueView,
) -> Seq<(Seq<char>, ConfigValueView)> {
    match key_position(entries, key, 0) {
        Some(j) => entries.update(j, (key, v)),
        None => entries.push((key, v)),
    }
}

/// No key occurs twice.
pub open spec fn keys_distinct(entries: Seq<(Seq<char>, ConfigValueView)>) -> bool {
    forall|i: int, j: int| 0 <= i < j < entries.len() ==> entries[i].0 != entries[j].0
}

/// The rest of an object after `{` or after a `,`, with `acc` already read.
pub open spec fn object_rest(b: Seq<u8>, pos: int, acc: Seq<(Seq<char>, ConfigValueView)>) -> Result<
    (Seq<(Seq<char>, ConfigValueView)>, int),
    ConfigError,
>
    decreases b.len() - pos,
    when 0 <= pos
{
    let p = skip_ws(b, pos);
    if byte_at(b, p, 125) {
        Ok((acc, p + 1))
    } else {
        match string_at(b, p) {
            Err(e) => Err(e),
            Ok((key, q)) => {
                let r = skip_ws(b, q);
                if !byte_at(b, r, 58) {
                    Err(ConfigError::ExpectedByte(58))
                } else {
                    match value_at(b, r + 1) {
                        Err(e) => Err(e),
                        Ok((v, t)) => {
                            let u = skip_ws(b, t);
                            let acc2 = set_entry(acc, key, v);
                            if byte_at(b, u, 125) {
                                Ok((acc2, u + 1))
                            } else if byte_at(b, u, 44) {
                                proof {
                                    lemma_skip_ws_bounds(b, pos);
                                    lemma_string_rest_advances(b, p + 1, Seq::empty());
                                    lemma_skip_ws_bounds(b, q);
                                    lemma_value_at_advances(b, r + 1);
                                    lemma_skip_ws_bounds(b, t);
                                }
                                object_rest(b, u + 1, acc2)
                            } else {
                                Err(ConfigError::ExpectedByte(44))
                            }
                        },
                    }
                }
            },
        }
    }
}

/// A whole configuration text: an object, with nothing but whitespace
/// around it.
pub open spec fn config_object(b: Seq<u8>, start: int) -> Result<
    Seq<(Seq<char>, ConfigValueView)>,
    ConfigError,
> {
    let p = skip_ws(b, start);
    if !byte_at(b, p, 123) {
        Err(ConfigError::ExpectedByte(123))
    } else {
        match object_rest(b, p + 1, Seq::empty()) {
            Err(e) => Err(e),
            Ok((entries, q)) => {
                if skip_ws(b, q) == b.len() {
                    Ok(entries)
                } else {
                    Err(ConfigError::TrailingContent)
                }
            },
        }
    }
}

/// A cursor over the bytes of a configuration text.
pub struct JsonParser<'a> {
    pub text: &'a str,
    pub pos: usize,
}

impl<'a> JsonParser<'a> {
    pub open spec fn bytes(&self) -> Seq<u8> {
        self.text.spec_bytes()
    }

    pub open spec fn wf(&self) -> bool {
        self.pos <= self.bytes().len()
    }

    pub fn new(text: &'a str) -> (r: Self)
        ensures
            r.text == text,
            r.pos == 0,
            r.wf(),
    {
        JsonParser { text, pos: 0 }
    }

    pub fn peek_byte(&self) -> (r: Option<u8>)
        ensures
            self.bytes().len() <= usize::MAX,
            r == (if self.pos < self.bytes().len() {
                Some(self.bytes()[self.pos as int])
            } else {
                None::<u8>
            }),
    {
        let b = self.text.as_bytes();
        if self.pos < b.len() {
            Some(b[self.pos])
        } else {
            None
        }
    }

    pub fn next_byte(&mut self) -> (r: Option<u8>)
        requires
            old(self).wf(),
        ensures
            final(self).text == old(self).text,
            final(self).wf(),
            r == (if old(self).pos < old(self).bytes().len() {
                Some(old(self).bytes()[old(self).pos as int])
            } else {
                None::<u8>
            }),
            final(self).pos == (if r is Some {
                old(self).pos + 1
            } else {
                old(self).pos as int
            }),
    {
        let byte = self.peek_byte();
        if byte.is_some() {
            self.pos = self.pos + 1;
        }
        byte
    }

    pub fn consume_byte(&mut self, expected: u8) -> (r: bool)
        requires
            old(self).wf(),
        ensures
            final(self).text == old(self).text,
            final(self).wf(),
            r == byte_at(old(self).bytes(), old(self).pos as int, expected),
            final(self).pos == (if r {
                old(self).pos + 1
            } else {
                old(self).pos as int
            }),
    {
        if self.peek_byte() == Some(expected) {
            self.pos = self.pos + 1;
            true
        } else {
            false
        }
    }

    /// Consumes the expected byte, or fails.
    pub fn expect_byte(&mut self, expected: u8) -> (r: Result<(), ConfigError>)
        requires
            old(self).wf(),
        ensures
            final(self).text == old(self).text,
            final(self).wf(),
            r is Ok <==> byte_at(old(self).bytes(), old(self).pos as int, expected),
            r is Ok ==> final(self).pos == old(self).pos + 1,
            r is Err ==> r == Err::<(), ConfigError>(ConfigError::ExpectedByte(expected)),
    {
        match self.next_byte() {
            Some(found) => {
                if found == expected {
                    Ok(())
                } else {
                    Err(ConfigError::ExpectedByte(expected))
                }
            },
            None => Err(ConfigError::ExpectedByte(expected)),
        }
    }

    pub fn skip_ws(&mut self)
        requires
            old(self).wf(),
        ensures
            final(self).text == old(self).text,
            final(self).wf(),
            final(self).pos == skip_ws(old(self).bytes(), old(self).pos as int),
    {
        let ghost b = self.bytes();
        let ghost start = self.pos as int;
        loop
            invariant
                self.text == old(self).text,
                b == self.bytes(),
                b == old(self).bytes(),
                start == old(self).pos,
                self.wf(),
                skip_ws(b, start) == skip_ws(b, self.pos as int),
            decreases b.len() - self.pos,
        {
            match self.peek_byte() {
                Some(c) => {
                    if c == 32 || c == 10 || c == 13 || c == 9 {
                        self.pos = self.pos + 1;
                    } else {
                        assert(skip_ws(b, self.pos as int) == self.pos as int);
                        return ;
                    }
                },
                None => {
                    return ;
                },
            }
        }
    }

    pub fn is_done(&self) -> (r: bool)
        ensures
            r == (self.pos == self.bytes().len()),
    {
        self.pos == self.text.as_bytes().len()
    }

    /// Consumes `true` or `false`, or fails.
    pub fn expect_literal(&mut self, value: bool) -> (r: Result<(), ConfigError>)
        requires
            old(self).wf(),
        ensures
            final(self).text == old(self).text,
            final(self).wf(),
            ({
                let b = old(self).bytes();
                let p = old(self).pos as int;
                let lit = literal_bytes(value);
                if p + lit.len() <= b.len() && b.subrange(p, p + lit.len()) == lit {
                    r is Ok && final(self).pos == p + lit.len()
                } else {
                    r == Err::<(), ConfigError>(ConfigError::ExpectedLiteral(value))
                }
            }),
    {
        let lit: Vec<u8> = if value {
            vec![116u8, 114u8, 117u8, 101u8]
        } else {
            vec![102u8, 97u8, 108u8, 115u8, 101u8]
        };
        assert(lit@ == literal_bytes(value));
        let b = self.text.as_bytes();
        let n = b.len();
        let p = self.pos;
        if lit.len() > n - p {
            return Err(ConfigError::ExpectedLiteral(value));
        }
        for k in 0..lit.len()
            invariant
                b@ == self.bytes(),
                b@ == old(self).bytes(),
                n == b@.len(),
                p == self.pos,
                p == old(self).pos,
                self.wf(),
                p + lit@.len() <= n,
                lit@ == literal_bytes(value),
                forall|j: int| 0 <= j < k ==> b@[p + j] == lit@[j],
        {
            if b[p + k] != lit[k] {
                assert(b@.subrange(p as int, p + lit@.len())[k as int] != lit@[k as int]);
                return Err(ConfigError::ExpectedLiteral(value));
            }
        }
        assert(b@.subrange(p as int, p + lit@.len()) =~= lit@);
        self.pos = p + lit.len();
        Ok(())
    }

    /// The text of a number: the run of digits, signs, dots and exponent
    /// marks at the cursor.
    pub fn parse_number(&mut self) -> (r: String)
        requires
            old(self).wf(),
        ensures
            final(self).text == old(self).text,
            final(self).wf(),
            final(self).pos == number_end(old(self).bytes(), old(self).pos as int),
            r@ == bytes_as_chars(
                old(self).bytes().subrange(old(self).pos as int, final(self).pos as int),
            ),
    {
        let ghost b = self.bytes();
        let start = self.pos;
        let mut out = String::new();
        loop
            invariant
                self.text == old(self).text,
                b == self.bytes(),
                self.wf(),
                start == old(self).pos,
                start <= self.pos,
                number_end(b, start as int) == number_end(b, self.pos as int),
                out@ == bytes_as_chars(b.subrange(start as int, self.pos as int)),
            decreases b.len() - self.pos,
        {
            match self.peek_byte() {
                Some(c) => {
                    if (48 <= c && c <= 57) || c == 45 || c == 43 || c == 46 || c == 101 || c
                        == 69 {
                        push_char(&mut out, c as char);
                        self.pos = self.pos + 1;
                        assert(b.subrange(start as int, self.pos as int) =~= b.subrange(
                            start as int,
                            self.pos - 1,
                        ).push(c));
                        assert(out@ =~= bytes_as_chars(
                            b.subrange(start as int, self.pos as int),
                        ));
                    } else {
                        return out;
                    }
                },
                None => {
                    return out;
                },
            }
        }
    }

    /// The character of the escape whose backslash was just consumed.
    pub fn parse_escape(&mut self) -> (r: Result<char, ConfigError>)
        requires
            old(self).wf(),
        ensures
            final(self).text == old(self).text,
            final(self).wf(),
            r == escape(old(self).bytes(), old(self).pos as int),
            r is Ok ==> final(self).pos == old(self).pos + 1,
    {
        match self.next_byte() {
            None => Err(ConfigError::UnterminatedEscape),
            Some(c) => {
                if c == 34 {
                    Ok('"')
                } else if c == 92 {
                    Ok('\\')
                } else if c == 47 {
                    Ok('/')
                } else if c == 98 {
                    Ok('\u{8}')
                } else if c == 102 {
                    Ok('\u{c}')
                } else if c == 110 {
                    Ok('\n')
                } else if c == 114 {
                    Ok('\r')
                } else if c == 116 {
                    Ok('\t')
                } else if c == 117 {
                    Err(ConfigError::UnicodeEscape)
                } else {
                    Err(ConfigError::BadEscape(c))
                }
            },
        }
    }

    /// A quoted string at the cursor.
    pub fn parse_string(&mut self) -> (r: Result<String, ConfigError>)
        requires
            old(self).wf(),
        ensures
            final(self).text == old(self).text,
            final(self).wf(),
            match string_at(old(self).bytes(), old(self).pos as int) {
                Ok((s, q)) => r matches Ok(v) && v@ == s && final(self).pos == q,
                Err(e) => r == Err::<String, ConfigError>(e),
            },
    {
        let ghost b = self.bytes();
        let ghost start = self.pos as int;
        self.expect_byte(34)?;
        let mut out = String::new();
        loop
            invariant
                self.text == old(self).text,
                b == self.bytes(),
                self.wf(),
                b == old(self).bytes(),
                start == old(self).pos,
                string_at(b, start) == string_rest(b, self.pos as int, out@),
            decreases b.len() - self.pos,
        {
            match self.next_byte() {
                None => {
                    return Err(ConfigError::UnterminatedString);
                },
                Some(c) => {
                    if c == 34 {
                        return Ok(out);
                    } else if c == 92 {
                        let ch = self.parse_escape()?;
                        push_char(&mut out, ch);
                    } else if c < 32 {
                        return Err(ConfigError::ControlCharacter);
                    } else {
                        push_char(&mut out, c as char);
                    }
                },
            }
        }
    }

    /// A string array at the cursor.
    pub fn parse_string_array(&mut self) -> (r: Result<Vec<String>, ConfigError>)
        requires
            old(self).wf(),
        ensures
            final(self).text == old(self).text,
            final(self).wf(),
            match array_at(old(self).bytes(), old(self).pos as int) {
                Ok((a, q)) => r matches Ok(v) && v@.map_values(|s: String| s@) == a
                    && final(self).pos == q,
                Err(e) => r == Err::<Vec<String>, ConfigError>(e),
            },
    {
        let ghost b = self.bytes();
        let ghost start = self.pos as int;
        self.expect_byte(91)?;
        let mut out: Vec<String> = Vec::new();
        assert(out@.map_values(|s: String| s@) =~= Seq::<Seq<char>>::empty());
        loop
            invariant
                self.text == old(self).text,
                b == self.bytes(),
                b == old(self).bytes(),
                start == old(self).pos,
                self.wf(),
                array_at(b, start) == array_rest(
                    b,
                    self.pos as int,
                    out@.map_values(|s: String| s@),
                ),
            decreases b.len() - self.pos,
        {
            let ghost pos0 = self.pos as int;
            let ghost acc = out@.map_values(|s: String| s@);
            self.skip_ws();
            if self.consume_byte(93) {
                return Ok(out);
            }
            let s = self.parse_string()?;
            proof {
                lemma_skip_ws_bounds(b, pos0);
                lemma_string_rest_advances(b, skip_ws(b, pos0) + 1, Seq::empty());
            }
            let ghost q = self.pos as int;
            out.push(s);
            assert(out@.map_values(|s: String| s@) =~= acc.push(s@));
            self.skip_ws();
            proof {
                lemma_skip_ws_bounds(b, q);
            }
            if self.consume_byte(93) {
                return Ok(out);
            }
            self.expect_byte(44)?;
        }
    }

    /// A value at the cursor, after any whitespace.
    pub fn parse_value(&mut self) -> (r: Result<ConfigValue, ConfigError>)
        requires
            old(self).wf(),
        ensures
            final(self).text == old(self).text,
            final(self).wf(),
            match value_at(old(self).bytes(), old(self).pos as int) {
                Ok((v, q)) => r matches Ok(x) && x@ == v && final(self).pos == q,
                Err(e) => r == Err::<ConfigValue, ConfigError>(e),
            },
    {
        let ghost b = self.bytes();
        self.skip_ws();
        let ghost p = self.pos as int;
        match self.peek_byte() {
            Some(c) => {
                if c == 34 {
                    let s = self.parse_string()?;
                    Ok(ConfigValue::String(s))
                } else if c == 91 {
                    let a = self.parse_string_array()?;
                    Ok(ConfigValue::StringArray(a))
                } else if c == 116 {
                    self.expect_literal(true)?;
                    Ok(ConfigValue::Bool(true))
                } else if c == 102 {
                    self.expect_literal(false)?;
                    Ok(ConfigValue::Bool(false))
                } else if c == 45 || (48 <= c && c <= 57) {
                    let n = self.parse_number();
                    Ok(ConfigValue::Number(n))
                } else {
                    Err(ConfigError::UnsupportedValue)
                }
            },
            None => Err(ConfigError::UnsupportedValue),
        }
    }

    /// A whole configuration object: its entries, one per key, in the order
    /// in which the keys first appear; a key written again takes the later
    /// value.
    pub fn parse_object(&mut self) -> (r: Result<Vec<(String, ConfigValue)>, ConfigError>)
        requires
            old(self).wf(),
        ensures
            final(self).text == old(self).text,
            match config_object(old(self).bytes(), old(self).pos as int) {
                Ok(entries) => r matches Ok(v) && entries_view(v@) == entries
                    && final(self).pos == final(self).bytes().len(),
                Err(e) => r == Err::<Vec<(String, ConfigValue)>, ConfigError>(e),
            },
    {
        let ghost b = self.bytes();
        let ghost start = self.pos as int;
        self.skip_ws();
        self.expect_byte(123)?;
        let ghost open_pos = self.pos as int;
        let mut out: Vec<(String, ConfigValue)> = Vec::new();
        assert(entries_view(out@) =~= Seq::<(Seq<char>, ConfigValueView)>::empty());
        loop
            invariant_except_break
                object_rest(b, open_pos, Seq::empty()) == object_rest(
                    b,
                    self.pos as int,
                    entries_view(out@),
                ),
            invariant
                self.text == old(self).text,
                b == self.bytes(),
                b == old(self).bytes(),
                self.wf(),
                start == old(self).pos as int,
                skip_ws(b, start) + 1 == open_pos,
                byte_at(b, skip_ws(b, start), 123),
            ensures
                object_rest(b, open_pos, Seq::empty()) == Ok::<
                    (Seq<(Seq<char>, ConfigValueView)>, int),
                    ConfigError,
                >((entries_view(out@), self.pos as int)),
            decreases b.len() - self.pos,
        {
            let ghost pos0 = self.pos as int;
            let ghost acc = entries_view(out@);
            self.skip_ws();
            if self.consume_byte(125) {
                break;
            }
            let key = self.parse_string()?;
            let ghost q = self.pos as int;
            self.skip_ws();
            self.expect_byte(58)?;
            let ghost r1 = self.pos as int;
            let value = self.parse_value()?;
            proof {
                lemma_skip_ws_bounds(b, pos0);
                lemma_string_rest_advances(b, skip_ws(b, pos0) + 1, Seq::empty());
                lemma_skip_ws_bounds(b, q);
                lemma_value_at_advances(b, r1);
            }
            let ghost t = self.pos as int;
            set_entry_in(&mut out, key, value);
            self.skip_ws();
            proof {
                lemma_skip_ws_bounds(b, t);
            }
            if self.consume_byte(125) {
                break;
            }
            self.expect_byte(44)?;
        }
        self.skip_ws();
        if !self.is_done() {
            return Err(ConfigError::TrailingContent);
        }
        Ok(out)
    }
}

/// Sets `key` to `value` among the entries, as `set_entry` says.
fn set_entry_in(out: &mut Vec<(String, ConfigValue)>, key: String, value: ConfigValue)
    ensures
        entries_view(final(out)@) == set_entry(entries_view(old(out)@), key@, value@),
{
    let ghost e = entries_view(out@);
    let mut j: usize = 0;
    while j < out.len()
        invariant
            e == entries_view(old(out)@),
            out@ == old(out)@,
            0 <= j <= out@.len(),
            key_position(e, key@, 0) == key_position(e, key@, j as int),
        decreases out@.len() - j,
    {
        if out[j].0 == key {
            assert(e[j as int].0 == key@);
            out.set(j, (key, value));
            assert(entries_view(out@) =~= e.update(j as int, (key@, value@)));
            return;
        }
        assert(e[j as int].0 != key@);
        j = j + 1;
    }
    out.push((key, value));
    assert(entries_view(out@) =~= e.push((key@, value@)));
}

proof fn lemma_key_position(entries: Seq<(Seq<char>, ConfigValueView)>, key: Seq<char>, i: int)
    requires
        0 <= i,
    ensures
        match key_position(entries, key, i) {
            Some(j) => i <= j < entries.len() && entries[j].0 == key,
            None => forall|k: int| i <= k < entries.len() ==> entries[k].0 != key,
        },
    decreases entries.len() - i,
{
    if i < entries.len() && entries[i].0 != key {
        lemma_key_position(entries, key, i + 1);
    }
}

proof fn lemma_set_entry_distinct(
    entries: Seq<(Seq<char>, ConfigValueView)>,
    key: Seq<char>,
    v: ConfigValueView,
)
    requires
        keys_distinct(entries),
    ensures
        keys_distinct(set_entry(entries, key, v)),
{
    lemma_key_position(entries, key, 0);
}

proof fn lemma_object_rest_distinct(b: Seq<u8>, pos: int, acc: Seq<(Seq<char>, ConfigValueView)>)
    requires
        0 <= pos,
        keys_distinct(acc),
    ensures
        object_rest(b, pos, acc) matches Ok((a, _)) ==> keys_distinct(a),
    decreases b.len() - pos,
{
    let p = skip_ws(b, pos);
    if !byte_at(b, p, 125) {
        if let Ok((key, q)) = string_at(b, p) {
            let r = skip_ws(b, q);
            if byte_at(b, r, 58) {
                if let Ok((v, t)) = value_at(b, r + 1) {
                    let u = skip_ws(b, t);
                    lemma_set_entry_distinct(acc, key, v);
                    if !byte_at(b, u, 125) && byte_at(b, u, 44) {
                        lemma_skip_ws_bounds(b, pos);
                        lemma_string_rest_advances(b, p + 1, Seq::empty());
                        lemma_skip_ws_bounds(b, q);
                        lemma_value_at_advances(b, r + 1);
                        lemma_skip_ws_bounds(b, t);
                        lemma_object_rest_distinct(b, u + 1, set_entry(acc, key, v));
                    }
                }
            }
        }
    }
}

/// A configuration object holds each key once: a key that is written again
/// keeps its place and takes the later value.
pub proof fn lemma_config_keys_distinct(b: Seq<u8>, start: int)
    requires
        0 <= start,
    ensures
        config_object(b, start) matches Ok(entries) ==> keys_distinct(entries),
{
    lemma_skip_ws_bounds(b, start);
    lemma_object_rest_distinct(b, skip_ws(b, start) + 1, Seq::empty());
}

/// The bytes of the quoted text of `s`, up to the point after the escape of
/// `s[..k]`, read back as `s[..k]`.
proof fn lemma_quoted_prefix_reads_back(s: Seq<char>, k: int)
    requires
        forall|i: int| 0 <= i < s.len() ==> plain_char(#[trigger] s[i]),
        0 <= k <= s.len(),
    ensures
        ({
            let b = vstd::utf8::encode_utf8(quoted(s));
            string_rest(b, 1, Seq::empty()) == string_rest(
                b,
                1 + escape_body(s.take(k)).len() as int,
                s.take(k),
            )
        }),
    decreases k,
{
    let q = quoted(s);
    let b = vstd::utf8::encode_utf8(q);
    if k == 0 {
        assert(s.take(0) =~= Seq::<char>::empty());
        assert(escape_body(s.take(0)) =~= Seq::<char>::empty());
    } else {
        lemma_quoted_prefix_reads_back(s, k - 1);
        lemma_escape_body_ascii(s);
        assert(vstd::utf8::is_ascii_chars(q)) by {
            assert forall|i: int| 0 <= i < q.len() implies '\0' <= #[trigger] q[i] <= '\u{7f}' by {
                if 0 < i < q.len() - 1 {
                    assert(q[i] == escape_body(s)[i - 1]);
                }
            }
        }
        vstd::utf8::is_ascii_chars_encode_utf8(q);
        let c = s[k - 1];
        let e0 = escape_body(s.take(k - 1));
        let ec = escape_char(c);
        let p = 1 + e0.len() as int;
        assert(s.take(k).drop_last() =~= s.take(k - 1));
        assert(escape_body(s.take(k)) == e0 + ec);
        assert(s =~= s.take(k) + s.skip(k));
        lemma_escape_body_append(s.take(k), s.skip(k));
        assert forall|j: int| 0 <= j < ec.len() implies #[trigger] q[p + j] == ec[j] by {
            assert(q[p + j] == escape_body(s)[p + j - 1]);
            assert(escape_body(s)[p + j - 1] == escape_body(s.take(k))[p + j - 1]);
        }
        assert(s.take(k - 1).push(c) =~= s.take(k));
        assert(plain_char(c));
        if c == '"' || c == '\\' || c == '\n' || c == '\r' || c == '\t' {
            assert(b[p] == q[p] as u8);
            assert(b[p + 1] == q[p + 1] as u8);
            assert(q[p] == '\\');
            assert(b[p] == 92);
        } else {
            assert(b[p] == q[p] as u8);
            assert(q[p] == c);
            assert((c as u8) as char == c);
        }
    }
}

/// A string that the report quotes reads back, from a configuration text,
/// as the same string: this holds for every string of printable ASCII
/// characters, newlines, carriage returns and tabs.
pub proof fn lemma_quoted_string_reads_back(s: Seq<char>)
    requires
        forall|i: int| 0 <= i < s.len() ==> plain_char(#[trigger] s[i]),
    ensures
        string_at(vstd::utf8::encode_utf8(quoted(s)), 0) == Ok::<
            (Seq<char>, int),
            ConfigError,
        >((s, quoted(s).len() as int)),
{
    let q = quoted(s);
    let b = vstd::utf8::encode_utf8(q);
    lemma_quoted_prefix_reads_back(s, s.len() as int);
    lemma_escape_body_ascii(s);
    assert(vstd::utf8::is_ascii_chars(q)) by {
        assert forall|i: int| 0 <= i < q.len() implies '\0' <= #[trigger] q[i] <= '\u{7f}' by {
            if 0 < i < q.len() - 1 {
                assert(q[i] == escape_body(s)[i - 1]);
            }
        }
    }
    vstd::utf8::is_ascii_chars_encode_utf8(q);
    assert(s.take(s.len() as int) =~= s);
    let p = 1 + escape_body(s).len() as int;
    assert(b[0] == q[0] as u8);
    assert(b[p] == q[p] as u8);
}

} // verus!
