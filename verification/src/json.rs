use vstd::prelude::*;
use crate::text::push_char;

verus! {

/// A JSON document as far as this library reads one: the texts, the lists and the
/// objects, each object as a map from its keys to its members. Under a key that a
/// text gives more than once the map holds the member given last.
pub enum JsonTree {
    Null,
    Bool(bool),
    Number,
    Text(Seq<char>),
    Array(Seq<JsonTree>),
    Object(Map<Seq<char>, JsonTree>),
}

/// `serde_json::Value`, taken as it is: what one holds is told by [`json_tree`].
#[verifier::external_type_specification]
#[verifier::external_body]
pub struct ExJsonValue(serde_json::Value);

/// The document that `serde_json::from_str` reads out of a text, `None` where it
/// rejects the text.
pub uninterp spec fn json_of(text: Seq<char>) -> Option<JsonTree>;

/// What a `serde_json::Value` holds. Of a number only that it is one.
pub uninterp spec fn json_tree(value: serde_json::Value) -> JsonTree;

/// `serde_json::from_str`, asked for a `serde_json::Value`. Claimed of it: the
/// same text always gives the same document, or never one. What the document of
/// a text is, is not said here.
#[verifier::external_body]
pub(crate) fn parse(text: &str) -> (r: Option<serde_json::Value>)
    ensures
        match r {
            Some(value) => json_of(text@) == Some(json_tree(value)),
            None => json_of(text@) is None,
        },
{
    serde_json::from_str::<serde_json::Value>(text).ok()
}

/// `serde_json::Value::get` with a text as the index. Claimed of it: the member
/// under that key comes back where the value is an object that has the key, and
/// nothing otherwise.
#[verifier::external_body]
pub(crate) fn member<'a>(value: &'a serde_json::Value, key: &str) -> (r: Option<&'a serde_json::Value>)
    ensures
        match json_tree(*value) {
            JsonTree::Object(members) => match r {
                Some(found) => members.contains_key(key@) && json_tree(*found) == members[key@],
                None => !members.contains_key(key@),
            },
            _ => r is None,
        },
{
    value.get(key)
}

/// `serde_json::Value::as_str`. Claimed of it: the text comes back where the
/// value is a text, and nothing otherwise.
#[verifier::external_body]
pub(crate) fn text_of<'a>(value: &'a serde_json::Value) -> (r: Option<&'a str>)
    ensures
        match json_tree(*value) {
            JsonTree::Text(text) => r matches Some(found) && found@ == text,
            _ => r is None,
        },
{
    value.as_str()
}

/// `serde_json::Value::as_array`. Claimed of it: the items come back in their
/// order where the value is a list, and nothing otherwise.
#[verifier::external_body]
pub(crate) fn items_of<'a>(value: &'a serde_json::Value) -> (r: Option<&'a Vec<serde_json::Value>>)
    ensures
        match json_tree(*value) {
            JsonTree::Array(items) => r matches Some(found) && found@.len() == items.len()
                && forall|i: int| 0 <= i < items.len() ==> json_tree(#[trigger] found@[i]) == items[i],
            _ => r is None,
        },
{
    value.as_array()
}

/// The digit that writes a number below sixteen in base sixteen, the letters in
/// lower case.
pub open spec fn hex_digit(n: int) -> char {
    if n < 10 {
        ((48 + n) as u8) as char
    } else {
        ((87 + n) as u8) as char
    }
}

/// One character as JSON writes it within a text: a backslash before a quote and
/// before a backslash; `\b`, `\f`, `\n`, `\r`, `\t` for the five control
/// characters that have a short form; `\u00` and two digits in base sixteen for
/// every other character below the blank; and any other character as it is.
pub open spec fn escape(c: char) -> Seq<char> {
    if c == '"' {
        seq!['\\', '"']
    } else if c == '\\' {
        seq!['\\', '\\']
    } else if c == '\u{8}' {
        seq!['\\', 'b']
    } else if c == '\u{c}' {
        seq!['\\', 'f']
    } else if c == '\n' {
        seq!['\\', 'n']
    } else if c == '\r' {
        seq!['\\', 'r']
    } else if c == '\t' {
        seq!['\\', 't']
    } else if (c as u32) < 0x20 {
        seq!['\\', 'u', '0', '0', hex_digit((c as u32) as int / 16), hex_digit((c as u32) as int % 16)]
    } else {
        seq![c]
    }
}

/// The characters of a text as JSON writes them within a text, one after the
/// other.
pub open spec fn escaped(text: Seq<char>) -> Seq<char>
    decreases text.len(),
{
    if text.len() == 0 {
        Seq::empty()
    } else {
        escape(text[0]) + escaped(text.drop_first())
    }
}

/// A text as JSON writes it: its characters as [`escaped`] gives them, between
/// two quotes.
pub open spec fn json_quoted(text: Seq<char>) -> Seq<char> {
    seq!['"'] + escaped(text) + seq!['"']
}

/// `serde_json::to_string` on a text. Claimed of it: it always gives a result, and
/// the result is the text as JSON writes it ([`json_quoted`]): between quotes,
/// each byte that the table of escapes marks written as its escape, every other
/// byte as it is. A text cannot fail to be written: the only failure there is
/// comes from the writer, and the writer is a vector of bytes.
#[verifier::external_body]
pub(crate) fn quote(text: &str) -> (r: Option<String>)
    ensures
        r is Some,
        r matches Some(quoted) ==> quoted@ == json_quoted(text@),
{
    serde_json::to_string(text).ok()
}

/// The number that a digit in base sixteen writes, the letters in lower case.
pub open spec fn hex_value(c: char) -> Option<int> {
    if 48 <= (c as u32) <= 57 {
        Some((c as u32) - 48)
    } else if 97 <= (c as u32) <= 102 {
        Some((c as u32) - 87)
    } else {
        None
    }
}

/// The character that what stands at a place may write: the character itself
/// where it is no backslash, else the character that the short form or the
/// `\u00` form after the backslash names.
pub open spec fn written_at(chars: Seq<char>, at: int) -> Option<char> {
    let c = chars[at];
    if c != '\\' {
        Some(c)
    } else if at + 1 < chars.len() {
        let d = chars[at + 1];
        if d == '"' {
            Some('"')
        } else if d == '\\' {
            Some('\\')
        } else if d == 'b' {
            Some('\u{8}')
        } else if d == 'f' {
            Some('\u{c}')
        } else if d == 'n' {
            Some('\n')
        } else if d == 'r' {
            Some('\r')
        } else if d == 't' {
            Some('\t')
        } else if d == 'u' && at + 5 < chars.len() {
            match (hex_value(chars[at + 4]), hex_value(chars[at + 5])) {
                (Some(high), Some(low)) => if 16 * high + low < 0x20 {
                    Some(((16 * high + low) as u8) as char)
                } else {
                    None
                },
                _ => None,
            }
        } else {
            None
        }
    } else {
        None
    }
}

/// Reads back what [`escaped`] wrote: the text whose characters stand from `at`
/// on, each exactly as [`escape`] writes it, up to the next quote, and the place
/// of that quote. `read` holds what was read before `at`. There is no such text
/// where a character stands in another form than `escape` gives it, or no quote
/// follows.
pub open spec fn unescaped_from(chars: Seq<char>, at: int, read: Seq<char>) -> Option<
    (Seq<char>, int),
>
    decreases chars.len() - at,
{
    if at < 0 || at >= chars.len() {
        None
    } else if chars[at] == '"' {
        Some((read, at))
    } else {
        match written_at(chars, at) {
            Some(c) => {
                let width = escape(c).len() as int;
                if 0 < width && at + width <= chars.len() && chars.subrange(at, at + width)
                    == escape(c) {
                    unescaped_from(chars, at + width, read.push(c))
                } else {
                    None
                }
            },
            None => None,
        }
    }
}

/// The digits of base sixteen write their numbers, and [`hex_value`] reads them.
pub proof fn lemma_hex_digits_read_back(n: int)
    requires
        0 <= n < 16,
    ensures
        hex_value(hex_digit(n)) == Some(n),
{
}

/// A digit of base sixteen is the digit that writes its number.
pub proof fn lemma_hex_values_write_back(c: char)
    requires
        hex_value(c) is Some,
    ensures
        hex_digit(hex_value(c)->0) == c,
{
    let code = c as u32;
    assert(((code as u8) as char) == c);
}

/// What [`escape`] writes for a character, [`written_at`] reads as that
/// character; it is never empty and never starts with a quote.
pub proof fn lemma_escape_reads_back(chars: Seq<char>, at: int, c: char)
    requires
        0 <= at,
        at + escape(c).len() <= chars.len(),
        chars.subrange(at, at + escape(c).len()) == escape(c),
    ensures
        1 <= escape(c).len() <= 6,
        chars[at] != '"',
        written_at(chars, at) == Some(c),
{
    let written = escape(c);
    assert forall|k: int| 0 <= k < written.len() implies chars[at + k] == written[k] by {
        assert(chars.subrange(at, at + written.len())[k] == chars[at + k]);
    }
    if c == '"' || c == '\\' || c == '\u{8}' || c == '\u{c}' || c == '\n' || c == '\r' || c
        == '\t' {
        assert(chars[at] == written[0]);
        assert(chars[at + 1] == written[1]);
    } else if (c as u32) < 0x20 {
        let n = (c as u32) as int;
        assert(chars[at] == written[0]);
        assert(chars[at + 1] == written[1]);
        assert(chars[at + 4] == written[4]);
        assert(chars[at + 5] == written[5]);
        lemma_hex_digits_read_back(n / 16);
        lemma_hex_digits_read_back(n % 16);
        assert(16 * (n / 16) + n % 16 == n);
        assert(((n as u8) as char) == c);
    } else {
        assert(chars[at] == written[0]);
    }
}

/// What [`escaped`] writes for a text, followed by a quote, [`unescaped_from`]
/// reads back as that text, and it stops at that quote.
pub proof fn lemma_escaped_reads_back(chars: Seq<char>, at: int, read: Seq<char>, text: Seq<char>)
    requires
        0 <= at,
        at + escaped(text).len() < chars.len(),
        chars.subrange(at, at + escaped(text).len()) == escaped(text),
        chars[at + escaped(text).len()] == '"',
    ensures
        unescaped_from(chars, at, read) == Some((read + text, at + escaped(text).len())),
    decreases text.len(),
{
    if text.len() == 0 {
        assert(read + text =~= read);
    } else {
        let c = text[0];
        let rest = text.drop_first();
        let width = escape(c).len() as int;
        let whole = escaped(text);
        assert(whole == escape(c) + escaped(rest));
        assert(chars.subrange(at, at + width) =~= escape(c)) by {
            assert forall|k: int| 0 <= k < width implies chars.subrange(at, at + width)[k] == escape(
                c,
            )[k] by {
                assert(chars.subrange(at, at + whole.len())[k] == whole[k]);
            }
        }
        assert(chars.subrange(at + width, at + width + escaped(rest).len()) =~= escaped(rest)) by {
            assert forall|k: int| 0 <= k < escaped(rest).len() implies chars.subrange(
                at + width,
                at + width + escaped(rest).len(),
            )[k] == escaped(rest)[k] by {
                assert(chars.subrange(at, at + whole.len())[width + k] == whole[width + k]);
            }
        }
        lemma_escape_reads_back(chars, at, c);
        lemma_escaped_reads_back(chars, at + width, read.push(c), rest);
        assert(read.push(c) + rest =~= read + text);
    }
}

/// Reads back a text that stands in a sequence of characters as JSON writes it,
/// from `at` on and up to the next quote. Only the form that [`escaped`] writes is
/// read.
pub fn read_escaped(chars: &Vec<char>, at: usize) -> (r: Option<(String, usize)>)
    ensures
        match unescaped_from(chars@, at as int, Seq::empty()) {
            Some((text, end)) => r matches Some((found, stop)) && found@ == text && stop == end,
            None => r is None,
        },
        r matches Some((_, stop)) ==> at <= stop < chars@.len() && chars@[stop as int] == '"',
{
    let mut text = String::new();
    let mut i: usize = at;
    loop
        invariant
            at <= i,
            unescaped_from(chars@, at as int, Seq::empty()) == unescaped_from(chars@, i as int, text@),
        decreases chars@.len() - i,
    {
        if i >= chars.len() {
            return None;
        }
        let c = chars[i];
        if c == '"' {
            return Some((text, i));
        }
        let ghost before = text@;
        if c != '\\' {
            if (c as u32) < 0x20 {
                proof {
                    let width = escape(c).len() as int;
                    if i + width <= chars@.len() {
                        assert(chars@.subrange(i as int, i + width)[0] == c);
                    }
                }
                return None;
            }
            assert(chars@.subrange(i as int, i + 1) =~= escape(c));
            push_char(&mut text, c);
            i += 1;
        } else {
            if chars.len() - i < 2 {
                return None;
            }
            let d = chars[i + 1];
            let short: Option<char> = if d == '"' {
                Some('"')
            } else if d == '\\' {
                Some('\\')
            } else if d == 'b' {
                Some('\u{8}')
            } else if d == 'f' {
                Some('\u{c}')
            } else if d == 'n' {
                Some('\n')
            } else if d == 'r' {
                Some('\r')
            } else if d == 't' {
                Some('\t')
            } else {
                None
            };
            match short {
                Some(written) => {
                    assert(chars@.subrange(i as int, i + 2) =~= escape(written));
                    push_char(&mut text, written);
                    i += 2;
                },
                None => {
                    if d != 'u' || chars.len() - i < 6 {
                        return None;
                    }
                    let high = match hex_of(chars[i + 4]) {
                        Some(high) => high,
                        None => {
                            return None;
                        },
                    };
                    let low = match hex_of(chars[i + 5]) {
                        Some(low) => low,
                        None => {
                            return None;
                        },
                    };
                    if high >= 2 {
                        return None;
                    }
                    let n: u8 = 16 * high + low;
                    let written = n as char;
                    if chars[i + 2] != '0' || chars[i + 3] != '0' || n == 8 || n == 9 || n == 10
                        || n == 12 || n == 13 {
                        proof {
                            let width = escape(written).len() as int;
                            if i + width <= chars@.len() {
                                let found = chars@.subrange(i as int, i + width);
                                assert(found[1] == 'u');
                                if width == 6 {
                                    assert(found[2] == chars@[i + 2]);
                                    assert(found[3] == chars@[i + 3]);
                                }
                            }
                        }
                        return None;
                    }
                    proof {
                        lemma_hex_digits_read_back(high as int);
                        lemma_hex_digits_read_back(low as int);
                        assert(n as int / 16 == high && n as int % 16 == low);
                        lemma_hex_values_write_back(chars@[i + 4]);
                        lemma_hex_values_write_back(chars@[i + 5]);
                        assert(chars@.subrange(i as int, i + 6) =~= escape(written));
                    }
                    push_char(&mut text, written);
                    i += 6;
                },
            }
        }
    }
}

/// The number that a digit in base sixteen writes, the letters in lower case.
pub fn hex_of(c: char) -> (r: Option<u8>)
    ensures
        match hex_value(c) {
            Some(n) => r == Some(n as u8) && 0 <= n < 16,
            None => r is None,
        },
{
    let code = c as u32;
    if 48 <= code && code <= 57 {
        Some((code - 48) as u8)
    } else if 97 <= code && code <= 102 {
        Some((code - 87) as u8)
    } else {
        None
    }
}

/// The text under a key of an object, where the document is an object that has a
/// text there.
pub open spec fn text_member(tree: JsonTree, key: Seq<char>) -> Option<Seq<char>> {
    match tree {
        JsonTree::Object(members) => if members.contains_key(key) {
            match members[key] {
                JsonTree::Text(text) => Some(text),
                _ => None,
            }
        } else {
            None
        },
        _ => None,
    }
}

/// The list under a key of an object, where the document is an object that has a
/// list there.
pub open spec fn list_member(tree: JsonTree, key: Seq<char>) -> Option<Seq<JsonTree>> {
    match tree {
        JsonTree::Object(members) => if members.contains_key(key) {
            match members[key] {
                JsonTree::Array(items) => Some(items),
                _ => None,
            }
        } else {
            None
        },
        _ => None,
    }
}

/// The text under a key of a value, where the value is an object that has a text
/// there.
pub fn text_at(value: &serde_json::Value, key: &str) -> (r: Option<String>)
    ensures
        match text_member(json_tree(*value), key@) {
            Some(text) => r matches Some(found) && found@ == text,
            None => r is None,
        },
{
    match member(value, key) {
        Some(found) => match text_of(found) {
            Some(text) => Some(text.to_owned()),
            None => None,
        },
        None => None,
    }
}

} // verus!
