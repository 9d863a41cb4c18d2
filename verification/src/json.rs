//! Compact JSON text, and the `serde_json` calls that produce it.
//!
//! A [`serde_json::Value`] is opaque to the proofs. What they know of a value is the compact text
//! that `serde_json` writes for it, [`json_text`]. The text of a string, an array and an object is
//! spelled out below; the text of a parsed document is the name [`parsed_json`].

use vstd::prelude::*;

verus! {

/// A JSON document of `serde_json`: a tree of values that the proofs do not look into.
#[verifier::external_type_specification]
#[verifier::external_body]
pub struct ExJsonValue(serde_json::Value);

/// What a JSON document holds, as the characters of its compact text: no whitespace between tokens,
/// and the members of an object in ascending order of their names.
pub uninterp spec fn json_text(value: serde_json::Value) -> Seq<char>;

/// What `serde_json::from_slice` makes of `payload`: the compact text of the document, or the
/// message of the error.
pub uninterp spec fn parsed_json(payload: Seq<u8>) -> Result<Seq<char>, Seq<char>>;

/// The lower-case hexadecimal digit for `n`.
pub open spec fn hex_digit(n: int) -> char
    recommends
        0 <= n < 16,
{
    seq!['0', '1', '2', '3', '4', '5', '6', '7', '8', '9', 'a', 'b', 'c', 'd', 'e', 'f'][n]
}

/// How one character stands inside a JSON string.
pub open spec fn escaped_char(c: char) -> Seq<char> {
    if c == '"' {
        seq!['\\', '"']
    } else if c == '\\' {
        seq!['\\', '\\']
    } else if c == '\u{8}' {
        seq!['\\', 'b']
    } else if c == '\u{c}' {
        seq!['\\', 'f']
    } else if c == '\n' {
        seq!['\\', 'n']
    } else if c == '\r' {
        seq!['\\', 'r']
    } else if c == '\t' {
        seq!['\\', 't']
    } else if (c as int) < 0x20 {
        seq!['\\', 'u', '0', '0', hex_digit(c as int / 16), hex_digit(c as int % 16)]
    } else {
        seq![c]
    }
}

/// How a text stands inside a JSON string.
pub open spec fn escaped(text: Seq<char>) -> Seq<char>
    decreases text.len(),
{
    if text.len() == 0 {
        seq![]
    } else {
        escaped(text.drop_last()) + escaped_char(text.last())
    }
}

/// The JSON string for a text.
pub open spec fn quoted(text: Seq<char>) -> Seq<char> {
    seq!['"'] + escaped(text) + seq!['"']
}

/// The parts one after another, with commas between them.
pub open spec fn joined(parts: Seq<Seq<char>>) -> Seq<char>
    decreases parts.len(),
{
    if parts.len() == 0 {
        seq![]
    } else if parts.len() == 1 {
        parts[0]
    } else {
        joined(parts.drop_last()) + seq![','] + parts.last()
    }
}

/// The JSON array of the given element texts.
pub open spec fn array_text(elements: Seq<Seq<char>>) -> Seq<char> {
    seq!['['] + joined(elements) + seq![']']
}

/// One member of a JSON object: its name, and the text of its value.
pub open spec fn member_text(member: (Seq<char>, Seq<char>)) -> Seq<char> {
    quoted(member.0) + seq![':'] + member.1
}

/// The JSON object of the given members, each a name and the text of its value.
pub open spec fn object_text(members: Seq<(Seq<char>, Seq<char>)>) -> Seq<char> {
    seq!['{'] + joined(members.map_values(|member: (Seq<char>, Seq<char>)| member_text(member)))
        + seq!['}']
}

/// Each element by its compact text.
pub open spec fn element_texts(elements: Seq<serde_json::Value>) -> Seq<Seq<char>> {
    elements.map_values(|element: serde_json::Value| json_text(element))
}

/// Each member by its name and the compact text of its value.
pub open spec fn member_texts(members: Seq<(String, serde_json::Value)>) -> Seq<
    (Seq<char>, Seq<char>),
> {
    members.map_values(|member: (String, serde_json::Value)| (member.0@, json_text(member.1)))
}

/// The names stand in ascending order, and their first characters already tell them apart.
pub open spec fn ascending_names(members: Seq<(Seq<char>, Seq<char>)>) -> bool {
    forall|i: int, j: int|
        0 <= i < j < members.len() ==> {
            &&& (#[trigger] members[i]).0.len() > 0
            &&& (#[trigger] members[j]).0.len() > 0
            &&& members[i].0[0] < members[j].0[0]
        }
}

/// Every character is at or above U+0020, so in particular none ends a line.
pub open spec fn single_line(text: Seq<char>) -> bool {
    forall|i: int| 0 <= i < text.len() ==> ' ' <= #[trigger] text[i]
}

/// Calls `serde_json::from_slice` for a `serde_json::Value`, and hands an error out by its message.
///
/// Claimed of it: the outcome depends on the bytes alone; and since strings are written with their
/// control characters escaped and the compact form has no whitespace of its own, the text of a
/// parsed document holds no control character.
#[verifier::external_body]
pub(crate) fn parse_json(payload: &[u8]) -> (parsed: Result<serde_json::Value, String>)
    ensures
        match parsed {
            Ok(value) => parsed_json(payload@) == Ok::<Seq<char>, Seq<char>>(json_text(value)),
            Err(error) => parsed_json(payload@) == Err::<Seq<char>, Seq<char>>(error@),
        },
        match parsed {
            Ok(value) => single_line(json_text(value)),
            Err(_) => true,
        },
{
    serde_json::from_slice::<serde_json::Value>(payload).map_err(|error| error.to_string())
}

/// Calls `serde_json::Value::from` for a string.
///
/// Claimed of it: the value's compact text is the string between double quotes, with the quote, the
/// backslash and the control characters below U+0020 escaped as [`escaped_char`] says, and every
/// other character as it is.
#[verifier::external_body]
pub(crate) fn json_string(text: &str) -> (value: serde_json::Value)
    ensures
        json_text(value) == quoted(text@),
{
    serde_json::Value::from(text)
}

/// Calls `serde_json::Value::from` for a vector of values.
///
/// Claimed of it: the value's compact text is the elements' texts in order, separated by commas,
/// between square brackets.
#[verifier::external_body]
pub(crate) fn json_array(elements: Vec<serde_json::Value>) -> (value: serde_json::Value)
    ensures
        json_text(value) == array_text(element_texts(elements@)),
{
    serde_json::Value::from(elements)
}

/// Calls `serde_json::Value::from_iter` for pairs of a name and a value.
///
/// Claimed of it, for names that are handed over in ascending order: the value's compact text is
/// the members in that order, each its quoted name, a colon and its value's text, separated by
/// commas, between braces. The object keeps its members in a `BTreeMap`, which walks them in
/// ascending order of their names.
#[verifier::external_body]
pub(crate) fn json_object(members: Vec<(String, serde_json::Value)>) -> (value: serde_json::Value)
    requires
        ascending_names(member_texts(members@)),
    ensures
        json_text(value) == object_text(member_texts(members@)),
{
    serde_json::Value::from_iter(members)
}

/// Calls `serde_json::to_string`, and hands an error out by its message.
///
/// Claimed of it: it succeeds and returns the compact text. Serialization fails only where a
/// `Serialize` impl fails or a map has names that are no strings, and a `serde_json::Value` does
/// neither.
#[verifier::external_body]
pub(crate) fn json_to_string(value: &serde_json::Value) -> (text: Result<String, String>)
    ensures
        text is Ok,
        text->Ok_0@ == json_text(*value),
{
    serde_json::to_string(value).map_err(|error| error.to_string())
}

/// An object with one member.
pub(crate) fn object_of_one(name: &str, member: serde_json::Value) -> (value: serde_json::Value)
    ensures
        json_text(value) == object_text(seq![(name@, json_text(member))]),
{
    let mut members: Vec<(String, serde_json::Value)> = Vec::new();
    members.push((name.to_owned(), member));
    assert(member_texts(members@) =~= seq![(name@, json_text(member))]);
    json_object(members)
}

/// An object with two members whose names are in ascending order.
pub(crate) fn object_of_two(
    first_name: &str,
    first: serde_json::Value,
    second_name: &str,
    second: serde_json::Value,
) -> (value: serde_json::Value)
    requires
        first_name@.len() > 0,
        second_name@.len() > 0,
        first_name@[0] < second_name@[0],
    ensures
        json_text(value) == object_text(
            seq![(first_name@, json_text(first)), (second_name@, json_text(second))],
        ),
{
    let mut members: Vec<(String, serde_json::Value)> = Vec::new();
    members.push((first_name.to_owned(), first));
    members.push((second_name.to_owned(), second));
    assert(member_texts(members@) =~= seq![
        (first_name@, json_text(first)),
        (second_name@, json_text(second)),
    ]);
    json_object(members)
}

/// An array with one element.
pub(crate) fn array_of_one(element: serde_json::Value) -> (value: serde_json::Value)
    ensures
        json_text(value) == array_text(seq![json_text(element)]),
{
    let mut elements: Vec<serde_json::Value> = Vec::new();
    elements.push(element);
    assert(element_texts(elements@) =~= seq![json_text(element)]);
    json_array(elements)
}

/// An array with two elements.
pub(crate) fn array_of_two(first: serde_json::Value, second: serde_json::Value) -> (value:
    serde_json::Value)
    ensures
        json_text(value) == array_text(seq![json_text(first), json_text(second)]),
{
    let mut elements: Vec<serde_json::Value> = Vec::new();
    elements.push(first);
    elements.push(second);
    assert(element_texts(elements@) =~= seq![json_text(first), json_text(second)]);
    json_array(elements)
}

/// An escaped character holds no control character.
proof fn lemma_escaped_char_single_line(c: char)
    ensures
        single_line(escaped_char(c)),
{
    assert(0 <= c as int / 16 < 2 || c as int >= 0x20);
}

/// An escaped text holds no control character.
pub proof fn lemma_escaped_single_line(text: Seq<char>)
    ensures
        single_line(escaped(text)),
    decreases text.len(),
{
    if text.len() > 0 {
        lemma_escaped_single_line(text.drop_last());
        lemma_escaped_char_single_line(text.last());
    }
}

/// A JSON string holds no control character, whatever the text is.
pub proof fn lemma_quoted_single_line(text: Seq<char>)
    ensures
        single_line(quoted(text)),
{
    lemma_escaped_single_line(text);
}

/// Joining parts without control characters gives none.
pub proof fn lemma_joined_single_line(parts: Seq<Seq<char>>)
    requires
        forall|i: int| 0 <= i < parts.len() ==> single_line(#[trigger] parts[i]),
    ensures
        single_line(joined(parts)),
    decreases parts.len(),
{
    if parts.len() > 1 {
        lemma_joined_single_line(parts.drop_last());
    }
}

/// An object holds no control character where its members' values hold none.
pub proof fn lemma_object_single_line(members: Seq<(Seq<char>, Seq<char>)>)
    requires
        forall|i: int| 0 <= i < members.len() ==> single_line((#[trigger] members[i]).1),
    ensures
        single_line(object_text(members)),
{
    let parts = members.map_values(|member: (Seq<char>, Seq<char>)| member_text(member));
    assert forall|i: int| 0 <= i < parts.len() implies single_line(#[trigger] parts[i]) by {
        lemma_quoted_single_line(members[i].0);
        assert(single_line(members[i].1));
    }
    lemma_joined_single_line(parts);
}

/// Whether a text needs no escapes: it holds no quote, no backslash and no control character.
pub open spec fn plain(text: Seq<char>) -> bool {
    forall|i: int|
        0 <= i < text.len() ==> (#[trigger] text[i]) as int >= 0x20 && text[i] != '"' && text[i]
            != '\\'
}

/// A text that needs no escapes stands between quotes as it is.
pub proof fn lemma_name_quoted(text: Seq<char>)
    requires
        plain(text),
    ensures
        quoted(text) == seq!['"'] + text + seq!['"'],
    decreases text.len(),
{
    if text.len() > 0 {
        lemma_name_quoted(text.drop_last());
        let prior = text.drop_last();
        assert(escaped(prior) =~= quoted(prior).subrange(1, quoted(prior).len() - 1));
        assert(escaped(prior) =~= prior);
        assert(escaped_char(text.last()) =~= seq![text.last()]);
        assert(escaped(text) =~= text);
    }
}

/// An object with one member, spelled out.
pub proof fn lemma_object_of_one(name: Seq<char>, value: Seq<char>)
    ensures
        object_text(seq![(name, value)]) == seq!['{'] + quoted(name) + seq![':'] + value + seq!['}'],
{
    let members = seq![(name, value)];
    let parts = members.map_values(|member: (Seq<char>, Seq<char>)| member_text(member));
    assert(parts =~= seq![member_text((name, value))]);
    assert(object_text(members) =~= seq!['{'] + quoted(name) + seq![':'] + value + seq!['}']);
}

/// An object with two members, spelled out.
pub proof fn lemma_object_of_two(
    first_name: Seq<char>,
    first: Seq<char>,
    second_name: Seq<char>,
    second: Seq<char>,
)
    ensures
        object_text(seq![(first_name, first), (second_name, second)]) == seq!['{'] + quoted(
            first_name,
        ) + seq![':'] + first + seq![','] + quoted(second_name) + seq![':'] + second + seq!['}'],
{
    let members = seq![(first_name, first), (second_name, second)];
    let parts = members.map_values(|member: (Seq<char>, Seq<char>)| member_text(member));
    assert(parts =~= seq![member_text(members[0]), member_text(members[1])]);
    assert(parts.drop_last() =~= seq![member_text(members[0])]);
    assert(joined(parts.drop_last()) == member_text(members[0]));
    assert(object_text(members) =~= seq!['{'] + quoted(first_name) + seq![':'] + first + seq![',']
        + quoted(second_name) + seq![':'] + second + seq!['}']);
}

/// An escaped text starts with its first character, escaped.
proof fn lemma_escaped_first(text: Seq<char>)
    requires
        text.len() > 0,
    ensures
        escaped(text) == escaped_char(text[0]) + escaped(text.drop_first()),
    decreases text.len(),
{
    let rest = text.drop_first();
    if text.len() == 1 {
        assert(text.drop_last() =~= Seq::empty());
        assert(rest =~= Seq::empty());
        assert(escaped(text) =~= escaped_char(text[0]) + escaped(rest));
    } else {
        lemma_escaped_first(text.drop_last());
        assert(text.drop_last().drop_first() =~= rest.drop_last());
        assert(escaped(text) =~= escaped_char(text[0]) + escaped(rest));
    }
}

/// What an escaped text starts with tells its first character.
proof fn lemma_escaped_char_read_back(c: char, rest: Seq<char>, d: char, other: Seq<char>)
    requires
        escaped_char(c) + rest == escaped_char(d) + other,
    ensures
        c == d,
        rest == other,
{
    let text = escaped_char(c) + rest;
    assert(text[0] == escaped_char(c)[0] && text[0] == escaped_char(d)[0]);
    if text[0] == '\\' {
        assert(text[1] == escaped_char(c)[1] && text[1] == escaped_char(d)[1]);
        if text[1] == 'u' {
            assert(text[4] == escaped_char(c)[4] && text[4] == escaped_char(d)[4]);
            assert(text[5] == escaped_char(c)[5] && text[5] == escaped_char(d)[5]);
            assert(forall|m: int, n: int|
                0 <= m < 16 && 0 <= n < 16 && #[trigger] hex_digit(m) == #[trigger] hex_digit(n)
                    ==> m == n);
            assert(c as int / 16 == d as int / 16 && c as int % 16 == d as int % 16);
            assert(c as int == d as int);
        }
    }
    assert(c == d);
    let len = escaped_char(c).len() as int;
    assert(rest =~= text.subrange(len, text.len() as int));
    assert(other =~= text.subrange(len, text.len() as int));
}

/// Different texts are escaped differently.
proof fn lemma_escaped_tells_texts_apart(text: Seq<char>, other: Seq<char>)
    requires
        escaped(text) == escaped(other),
    ensures
        text == other,
    decreases text.len(),
{
    if text.len() == 0 {
        if other.len() > 0 {
            lemma_escaped_first(other);
            assert(escaped(other).len() > 0);
        }
        assert(text =~= other);
    } else {
        lemma_escaped_first(text);
        assert(escaped(text).len() > 0);
        assert(other.len() > 0);
        lemma_escaped_first(other);
        lemma_escaped_char_read_back(
            text[0],
            escaped(text.drop_first()),
            other[0],
            escaped(other.drop_first()),
        );
        lemma_escaped_tells_texts_apart(text.drop_first(), other.drop_first());
        assert(text =~= seq![text[0]] + text.drop_first());
        assert(other =~= seq![other[0]] + other.drop_first());
    }
}

/// Different texts have different JSON strings: nothing of a text is lost in its string.
pub proof fn law_quoted_tells_texts_apart(text: Seq<char>, other: Seq<char>)
    ensures
        quoted(text) == quoted(other) <==> text == other,
{
    if quoted(text) == quoted(other) {
        assert(escaped(text) =~= quoted(text).subrange(1, quoted(text).len() - 1));
        assert(escaped(other) =~= quoted(other).subrange(1, quoted(other).len() - 1));
        lemma_escaped_tells_texts_apart(text, other);
    }
}

} // verus!
