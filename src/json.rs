//! The JSON text of signed records: serde_json's pretty layout, with the
//! key/value separators that the backend expects.

use crate::digest::hex_alphabet;
use regex::Regex;
use vstd::prelude::*;

verus! {

/// The JSON escape of one character, as serde_json writes it: quote and
/// backslash behind a backslash, the five short control escapes, the other
/// control characters below U+0020 as `\u00XX` in lowercase hexadecimal, and
/// every other character as it is.
pub open spec fn json_escape_char(c: char) -> Seq<char> {
    if c == '"' {
        seq!['\\', '"']
    } else if c == '\\' {
        seq!['\\', '\\']
    } else if c == '\x08' {
        seq!['\\', 'b']
    } else if c == '\t' {
        seq!['\\', 't']
    } else if c == '\n' {
        seq!['\\', 'n']
    } else if c == '\x0C' {
        seq!['\\', 'f']
    } else if c == '\r' {
        seq!['\\', 'r']
    } else if (c as int) < 0x20 {
        seq!['\\', 'u', '0', '0', hex_alphabet()[c as int / 16], hex_alphabet()[c as int % 16]]
    } else {
        seq![c]
    }
}

/// The escapes of every character of a text, in order.
pub open spec fn json_escaped(s: Seq<char>) -> Seq<char>
    decreases s.len(),
{
    if s.len() == 0 {
        seq![]
    } else {
        json_escaped(s.drop_last()) + json_escape_char(s.last())
    }
}

/// The JSON string literal of a text.
pub open spec fn json_string_of(s: Seq<char>) -> Seq<char> {
    seq!['"'] + json_escaped(s) + seq!['"']
}

/// Relies on `serde_json::to_string` on a `str`: the text between quotes, each
/// character escaped by serde_json's escape table. Serializing a `str` does
/// not fail.
#[verifier::external_body]
pub(crate) fn json_string(s: &str) -> (r: String)
    ensures
        r@ == json_string_of(s@),
{
    match serde_json::to_string(s) {
        Ok(t) => t,
        Err(_) => String::new(),
    }
}

/// Every `": "` of `s` written `" : "`, scanning from the left.
pub open spec fn spaced(s: Seq<char>) -> Seq<char>
    decreases s.len(),
{
    if s.len() < 2 {
        s
    } else if s[0] == ':' && s[1] == ' ' {
        seq![' ', ':', ' '] + spaced(s.subrange(2, s.len() as int))
    } else {
        seq![s[0]] + spaced(s.drop_first())
    }
}

/// Relies on `regex::Regex::new(": ")`, which compiles this fixed literal
/// pattern without fail, and `Regex::replace_all` with the replacement
/// `" : "`, which holds no group reference: every match of the literal
/// pattern, leftmost first and without overlap, is replaced.
#[verifier::external_body]
pub(crate) fn space_separators(s: &str) -> (r: String)
    ensures
        r@ == spaced(s@),
{
    match Regex::new(": ") {
        Ok(re) => re.replace_all(s, " : ").into_owned(),
        Err(_) => String::new(),
    }
}

/// One member line of a pretty-printed object: indent, quoted name, `": "`,
/// value.
pub open spec fn member(name: Seq<char>, value: Seq<char>) -> Seq<char> {
    seq![' ', ' ', '"'] + name + seq!['"', ':', ' '] + value
}

/// Member lines joined by `",\n"`.
pub open spec fn members(ms: Seq<Seq<char>>) -> Seq<char>
    decreases ms.len(),
{
    if ms.len() == 0 {
        seq![]
    } else if ms.len() == 1 {
        ms[0]
    } else {
        members(ms.drop_last()) + seq![',', '\n'] + ms.last()
    }
}

/// An object as serde_json's pretty printer lays it out.
pub open spec fn pretty_object(ms: Seq<Seq<char>>) -> Seq<char> {
    if ms.len() == 0 {
        seq!['{', '}']
    } else {
        seq!['{', '\n'] + members(ms) + seq!['\n', '}']
    }
}

/// A pretty-printed object being written, one member at a time.
pub struct ObjectText {
    text: String,
    empty: bool,
    members: Ghost<Seq<Seq<char>>>,
}

impl ObjectText {
    /// The member lines written so far.
    pub closed spec fn members(&self) -> Seq<Seq<char>> {
        self.members@
    }

    /// The text holds the opening brace and the member lines written so far.
    pub closed spec fn wf(&self) -> bool {
        &&& self.text@ == seq!['{', '\n'] + members(self.members@)
        &&& self.empty == (self.members@.len() == 0)
    }

    /// An object with no member yet.
    pub fn new() -> (r: Self)
        ensures
            r.wf(),
            r.members() == Seq::<Seq<char>>::empty(),
    {
        let r = ObjectText {
            text: String::from_str("{\n"),
            empty: true,
            members: Ghost(Seq::empty()),
        };
        proof {
            reveal_strlit("{\n");
            assert(r.text@ =~= seq!['{', '\n'] + members(r.members@));
        }
        r
    }

    /// Writes the member `name` with the JSON text `value`.
    pub fn push(&mut self, name: &str, value: &str)
        requires
            old(self).wf(),
        ensures
            final(self).wf(),
            final(self).members() == old(self).members().push(member(name@, value@)),
    {
        let ghost ms = self.members@;
        if !self.empty {
            self.text.append(",\n");
        }
        self.empty = false;
        self.text.append("  \"");
        self.text.append(name);
        self.text.append("\": ");
        self.text.append(value);
        self.members = Ghost(ms.push(member(name@, value@)));
        proof {
            reveal_strlit(",\n");
            reveal_strlit("  \"");
            reveal_strlit("\": ");
            assert(self.members@.drop_last() =~= ms);
            assert(self.text@ =~= seq!['{', '\n'] + members(self.members@));
        }
    }

    /// The finished object text.
    pub fn finish(self) -> (r: String)
        requires
            self.wf(),
        ensures
            r@ == pretty_object(self.members()),
    {
        if self.empty {
            let r = String::from_str("{}");
            proof {
                reveal_strlit("{}");
                assert(r@ =~= pretty_object(self.members@));
            }
            return r;
        }
        let mut text = self.text;
        text.append("\n}");
        proof {
            reveal_strlit("\n}");
            assert(text@ =~= pretty_object(self.members@));
        }
        text
    }
}

} // verus!
