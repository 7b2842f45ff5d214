//! The information line of a playlist entry.
//!
//! After its tag `#EXTINF:` such a line holds a header, a comma and the
//! display name:
//!
//! ```text
//! -1 tvg-id="bbc1" tvg-logo="http://logos/bbc1.png" group-title="News",BBC One
//! ```
//!
//! The header is a duration, written as a decimal number with an optional
//! sign, followed by any number of attributes of the form `key="value"`. A
//! value may hold anything but a double quote, commas and white space
//! included; the comma that ends the header is the first one outside quotes.
//! A line without such a comma has an empty display name. A header of any
//! other shape makes the whole line unreadable.

use crate::m3u::optional_text;
use crate::text::{
    equals_str, from_chars, lemma_run_len, run_len, scan, trim, trim_start, trimmed, CharClass,
};
use vstd::prelude::*;
use vstd::slice::slice_subrange;

verus! {

/// One `key="value"` pair of an information line.
pub struct Attribute {
    pub key: Seq<char>,
    pub value: Seq<char>,
}

/// What an `ExtInf` holds, as mathematical values.
pub struct ExtInfModel {
    pub name: Seq<char>,
    pub id: Option<Seq<char>>,
    pub logo_url: Option<Seq<char>>,
    pub group_title: Option<Seq<char>>,
}

/// The display name and the three attributes that a channel is made from.
#[derive(Debug)]
pub struct ExtInf {
    /// The display name, without white space around it.
    pub name: String,
    /// The value of `tvg-id`.
    pub id: Option<String>,
    /// The value of `tvg-logo`.
    pub logo_url: Option<String>,
    /// The value of `group-title`.
    pub group_title: Option<String>,
}

impl View for ExtInf {
    type V = ExtInfModel;

    open spec fn view(&self) -> ExtInfModel {
        ExtInfModel {
            name: self.name@,
            id: optional_text(self.id),
            logo_url: optional_text(self.logo_url),
            group_title: optional_text(self.group_title),
        }
    }
}

/// The value that a list of attributes gives to a key: that of the last
/// attribute with this key.
pub open spec fn lookup(attributes: Seq<Attribute>, key: Seq<char>) -> Option<Seq<char>>
    decreases attributes.len(),
{
    if attributes.len() == 0 {
        None
    } else if attributes.last().key == key {
        Some(attributes.last().value)
    } else {
        lookup(attributes.drop_last(), key)
    }
}

/// A key that no attribute has is given no value.
pub proof fn lemma_lookup_absent(attributes: Seq<Attribute>, key: Seq<char>)
    requires
        forall|i: int| 0 <= i < attributes.len() ==> (#[trigger] attributes[i]).key != key,
    ensures
        lookup(attributes, key) is None,
    decreases attributes.len(),
{
    if attributes.len() > 0 {
        let head = attributes.drop_last();
        assert forall|i: int| 0 <= i < head.len() implies (#[trigger] head[i]).key != key by {
            assert(head[i] == attributes[i]);
        }
        lemma_lookup_absent(head, key);
        assert(attributes[attributes.len() - 1].key != key);
    }
}

/// The attributes that a text holds: `key="value"` pairs with optional white
/// space between them and nothing else. `None` if the text is not of that
/// shape.
pub open spec fn attributes(s: Seq<char>) -> Option<Seq<Attribute>>
    decreases s.len(),
{
    let t = trim_start(s);
    let key_len = run_len(t, CharClass::Key);
    let after_key = t.skip(key_len as int);
    let body = after_key.skip(2);
    let value_len = run_len(body, CharClass::Unquoted);
    if t.len() == 0 {
        Some(Seq::empty())
    } else if key_len == 0 || after_key.len() < 2 || after_key[0] != '=' || after_key[1] != '"' {
        None
    } else if value_len >= body.len() {
        None
    } else {
        proof {
            lemma_run_len(s, CharClass::Whitespace);
            lemma_run_len(t, CharClass::Key);
        }
        match attributes(body.skip(value_len as int + 1)) {
            Some(rest) => Some(
                seq![Attribute { key: t.take(key_len as int), value: body.take(value_len as int) }]
                    + rest,
            ),
            None => None,
        }
    }
}

/// Whether a token is a decimal number: an optional sign, then digits with at
/// most one decimal point among them, and at least one digit.
pub open spec fn is_duration(token: Seq<char>) -> bool {
    let signed = token.len() > 0 && (token[0] == '-' || token[0] == '+');
    let number = if signed {
        token.drop_first()
    } else {
        token
    };
    let whole_len = run_len(number, CharClass::Digit);
    let fraction = number.skip(whole_len as int);
    if fraction.len() == 0 {
        whole_len > 0
    } else {
        &&& fraction[0] == '.'
        &&& run_len(fraction.drop_first(), CharClass::Digit) == fraction.len() - 1
        &&& number.len() > 1
    }
}

/// The attributes of a header: what follows its duration. `None` if the
/// header does not start with a duration or if what follows is not a list of
/// attributes.
pub open spec fn header_attributes(header: Seq<char>) -> Option<Seq<Attribute>> {
    let t = trim_start(header);
    let duration_len = run_len(t, CharClass::Token);
    if is_duration(t.take(duration_len as int)) {
        attributes(t.skip(duration_len as int))
    } else {
        None
    }
}

/// The length of the header of an information line: the number of characters
/// before the first comma that stands outside double quotes. `quoted` says
/// whether the text starts inside quotes.
pub open spec fn header_len(s: Seq<char>, quoted: bool) -> nat
    decreases s.len(),
{
    if s.len() == 0 || (s[0] == ',' && !quoted) {
        0
    } else {
        1 + header_len(s.drop_first(), quoted != (s[0] == '"'))
    }
}

/// A display name together with what a list of attributes gives to the three
/// keys that are read: `tvg-id`, `tvg-logo` and `group-title`. Attributes
/// with other keys are left aside.
pub open spec fn tagged(name: Seq<char>, attributes: Seq<Attribute>) -> ExtInfModel {
    ExtInfModel {
        name,
        id: lookup(attributes, "tvg-id"@),
        logo_url: lookup(attributes, "tvg-logo"@),
        group_title: lookup(attributes, "group-title"@),
    }
}

/// What the text after the tag of an information line says, or `None` if its
/// header cannot be read.
pub open spec fn extinf(info: Seq<char>) -> Option<ExtInfModel> {
    let cut = header_len(info, false);
    let name = if cut < info.len() {
        trim(info.skip(cut as int + 1))
    } else {
        Seq::empty()
    };
    match header_attributes(info.take(cut as int)) {
        Some(found) => Some(tagged(name, found)),
        None => None,
    }
}

/// Where the header of an information line ends.
pub fn find_header_end(info: &[char]) -> (cut: usize)
    ensures
        cut <= info.len(),
        cut == header_len(info@, false),
{
    let mut cut: usize = 0;
    let mut quoted = false;
    assert(info@.skip(0) == info@);
    while cut < info.len() && (info[cut] != ',' || quoted)
        invariant
            cut <= info.len(),
            header_len(info@, false) == cut + header_len(info@.skip(cut as int), quoted),
        decreases info.len() - cut,
    {
        proof {
            let tail = info@.skip(cut as int);
            assert(tail[0] == info@[cut as int]);
            assert(tail.drop_first() == info@.skip(cut + 1));
        }
        if info[cut] == '"' {
            quoted = !quoted;
        }
        cut += 1;
    }
    proof {
        let tail = info@.skip(cut as int);
        if cut < info.len() {
            assert(tail[0] == info@[cut as int]);
        }
    }
    cut
}

/// Decides `is_duration`.
pub fn check_duration(token: &[char]) -> (ok: bool)
    ensures
        ok == is_duration(token@),
{
    let start: usize = if token.len() > 0 && (token[0] == '-' || token[0] == '+') {
        1
    } else {
        0
    };
    let ghost number = token@.skip(start as int);
    assert(start == 1 ==> number == token@.drop_first());
    assert(start == 0 ==> number == token@);
    let whole_end = scan(token, start, CharClass::Digit);
    let ghost fraction = number.skip(whole_end - start);
    assert(fraction == token@.skip(whole_end as int));
    if whole_end == token.len() {
        return whole_end > start;
    }
    assert(fraction[0] == token@[whole_end as int]);
    if token[whole_end] != '.' {
        return false;
    }
    let end = scan(token, whole_end + 1, CharClass::Digit);
    assert(fraction.drop_first() == token@.skip(whole_end + 1));
    end == token.len() && token.len() - start > 1
}

/// Prefixes an optional list of attributes with those already read.
pub open spec fn after(done: Seq<Attribute>, rest: Option<Seq<Attribute>>) -> Option<
    Seq<Attribute>,
> {
    match rest {
        Some(more) => Some(done + more),
        None => None,
    }
}

/// Reads the attributes that `header` holds from `from` on, and keeps the
/// values of the three keys that a channel is made from.
fn read_attributes(header: &[char], from: usize, name: String) -> (read: Option<ExtInf>)
    requires
        from <= header.len(),
    ensures
        match attributes(header@.skip(from as int)) {
            Some(found) => read matches Some(e) && e@ == tagged(name@, found),
            None => read is None,
        },
{
    let mut out = ExtInf { name, id: None, logo_url: None, group_title: None };
    let mut at: usize = from;
    let ghost mut done: Seq<Attribute> = Seq::empty();
    loop
        invariant
            from <= at <= header.len(),
            attributes(header@.skip(from as int)) == after(
                done,
                attributes(header@.skip(at as int)),
            ),
            out@ == tagged(name@, done),
        decreases header.len() - at,
    {
        let ghost s = header@.skip(at as int);
        let key_start = scan(header, at, CharClass::Whitespace);
        let ghost t = trim_start(s);
        assert(t == header@.skip(key_start as int));
        if key_start == header.len() {
            assert(done + Seq::<Attribute>::empty() == done);
            return Some(out);
        }
        let key_end = scan(header, key_start, CharClass::Key);
        let ghost after_key = t.skip(key_end - key_start);
        assert(after_key == header@.skip(key_end as int));
        if key_end == key_start || header.len() - key_end < 2 {
            return None;
        }
        assert(after_key[0] == header@[key_end as int]);
        assert(after_key[1] == header@[key_end + 1]);
        if header[key_end] != '=' || header[key_end + 1] != '"' {
            return None;
        }
        let value_start: usize = key_end + 2;
        let ghost body = after_key.skip(2);
        assert(body == header@.skip(value_start as int));
        let value_end = scan(header, value_start, CharClass::Unquoted);
        if value_end >= header.len() {
            return None;
        }
        let key = slice_subrange(header, key_start, key_end);
        let value = slice_subrange(header, value_start, value_end);
        let ghost found = Attribute { key: key@, value: value@ };
        proof {
            assert(t.take(key_end - key_start) == key@);
            assert(body.take(value_end - value_start) == value@);
            assert(body.skip(value_end - value_start + 1) == header@.skip(value_end + 1));
            let rest = attributes(header@.skip(value_end + 1));
            assert(attributes(s) == match rest {
                Some(more) => Some(seq![found] + more),
                None => None,
            });
            if rest is Some {
                assert(done + (seq![found] + rest->0) == done.push(found) + rest->0);
            }
            assert(done.push(found).drop_last() == done);
        }
        if equals_str(key, "tvg-id") {
            out.id = Some(from_chars(value));
        }
        if equals_str(key, "tvg-logo") {
            out.logo_url = Some(from_chars(value));
        }
        if equals_str(key, "group-title") {
            out.group_title = Some(from_chars(value));
        }
        proof {
            done = done.push(found);
        }
        at = value_end + 1;
    }
}

/// Reads the text that follows the tag of an information line.
pub fn parse_extinf(info: &[char]) -> (read: Option<ExtInf>)
    ensures
        match extinf(info@) {
            Some(model) => read matches Some(e) && e@ == model,
            None => read is None,
        },
{
    let cut = find_header_end(info);
    let header = slice_subrange(info, 0, cut);
    assert(header@ == info@.take(cut as int));
    let duration_start = scan(header, 0, CharClass::Whitespace);
    assert(header@.skip(0) == header@);
    let ghost t = trim_start(header@);
    assert(t == header@.skip(duration_start as int));
    let duration_end = scan(header, duration_start, CharClass::Token);
    let duration = slice_subrange(header, duration_start, duration_end);
    assert(duration@ == t.take(duration_end - duration_start));
    assert(t.skip(duration_end - duration_start) == header@.skip(duration_end as int));
    if !check_duration(duration) {
        return None;
    }
    let name = if cut < info.len() {
        from_chars(trimmed(slice_subrange(info, cut + 1, info.len())))
    } else {
        String::new()
    };
    read_attributes(header, duration_end, name)
}

} // verus!
