//! The address field of a forwarded handshake: the host the client connected
//! to, the client's address, its id and its profile properties (JSON text),
//! separated by NUL characters. The tunneller rewrites the properties.

use vstd::prelude::*;
use vstd::string::{StrSliceExecFns, StringExecFns};

verus! {

/// The separator of the parts of a forwarded address.
pub open spec fn nul() -> char {
    '\0'
}

/// The parts of `s` between NUL characters, as `str::split` gives them: one
/// more part than there are NULs, empty parts included.
pub open spec fn split_nul(s: Seq<char>) -> Seq<Seq<char>>
    decreases s.len(),
{
    if s.len() == 0 {
        seq![Seq::empty()]
    } else {
        let p = split_nul(s.drop_last());
        if s.last() == nul() {
            p.push(Seq::empty())
        } else {
            p.update(p.len() - 1, p.last().push(s.last()))
        }
    }
}

/// Parts joined with NUL characters between them.
pub open spec fn join_nul(parts: Seq<Seq<char>>) -> Seq<char>
    decreases parts.len(),
{
    if parts.len() <= 1 {
        if parts.len() == 1 {
            parts[0]
        } else {
            Seq::empty()
        }
    } else {
        join_nul(parts.drop_last()) + seq![nul()] + parts.last()
    }
}

/// The forwarded address made of the first three parts and new properties.
pub open spec fn forwarded_address(parts: Seq<Seq<char>>, properties: Seq<char>) -> Seq<char> {
    parts[0] + seq![nul()] + parts[1] + seq![nul()] + parts[2] + seq![nul()] + properties
}

/// The texts of some strings.
pub open spec fn string_views(v: Seq<String>) -> Seq<Seq<char>> {
    v.map_values(|s: String| s@)
}

/// Splitting always gives at least one part.
pub proof fn lemma_split_nonempty(s: Seq<char>)
    ensures
        split_nul(s).len() >= 1,
    decreases s.len(),
{
    if s.len() > 0 {
        lemma_split_nonempty(s.drop_last());
    }
}

/// Splits a forwarded address at its NUL characters.
pub fn split_forwarded_address(address: &str) -> (parts: Vec<String>)
    ensures
        string_views(parts@) == split_nul(address@),
{
    let n = address.unicode_len();
    let mut parts: Vec<String> = Vec::new();
    let mut start: usize = 0;
    let mut i: usize = 0;
    assert(address@.take(0) =~= Seq::<char>::empty());
    assert(string_views(parts@).push(address@.subrange(0, 0)) =~= split_nul(address@.take(0)));
    while i < n
        invariant
            n == address@.len(),
            start <= i <= n,
            string_views(parts@).push(address@.subrange(start as int, i as int)) == split_nul(address@.take(i as int)),
        decreases n - i,
    {
        let c = address.get_char(i);
        let ghost t = address@.take((i + 1) as int);
        proof {
            assert(t.drop_last() =~= address@.take(i as int));
            assert(t.last() == c);
            lemma_split_nonempty(address@.take(i as int));
        }
        if c == '\0' {
            let part = address.substring_char(start, i).to_owned();
            let ghost before = string_views(parts@);
            parts.push(part);
            assert(string_views(parts@) =~= before.push(address@.subrange(start as int, i as int)));
            start = i + 1;
            i = i + 1;
            assert(split_nul(t) == split_nul(address@.take((i - 1) as int)).push(Seq::empty()));
            assert(address@.subrange(start as int, i as int) =~= Seq::<char>::empty());
            assert(string_views(parts@).push(address@.subrange(start as int, i as int)) =~= split_nul(t));
        } else {
            i = i + 1;
            let ghost p = split_nul(address@.take((i - 1) as int));
            assert(split_nul(t) == p.update(p.len() - 1, p.last().push(c)));
            assert(p.last() == address@.subrange(start as int, (i - 1) as int));
            assert(address@.subrange(start as int, i as int) =~= p.last().push(c));
            assert(string_views(parts@).push(address@.subrange(start as int, i as int)) =~= split_nul(t));
        }
    }
    let last = address.substring_char(start, n).to_owned();
    let ghost before = string_views(parts@);
    parts.push(last);
    assert(string_views(parts@) =~= before.push(address@.subrange(start as int, n as int)));
    assert(address@.take(n as int) =~= address@);
    parts
}

/// The forwarded address made of the first three of `parts` and `properties`,
/// separated by NUL characters.
pub fn join_forwarded_address(parts: &Vec<String>, properties: &str) -> (address: String)
    requires
        parts@.len() >= 3,
    ensures
        address@ == forwarded_address(string_views(parts@), properties@),
{
    proof {
        reveal_strlit("\0");
    }
    let mut out = parts[0].clone();
    out.append("\0");
    out.append(parts[1].as_str());
    out.append("\0");
    out.append(parts[2].as_str());
    out.append("\0");
    out.append(properties);
    assert(out@ =~= forwarded_address(string_views(parts@), properties@));
    out
}

/// Joining the parts of a split gives back what was split.
pub proof fn lemma_join_split(s: Seq<char>)
    ensures
        join_nul(split_nul(s)) == s,
    decreases s.len(),
{
    if s.len() > 0 {
        let t = s.drop_last();
        let c = s.last();
        let p = split_nul(t);
        lemma_join_split(t);
        lemma_split_nonempty(t);
        if c == nul() {
            assert(p.push(Seq::empty()).drop_last() =~= p);
            assert(join_nul(split_nul(s)) =~= t + seq![nul()]);
        } else {
            let q = p.update(p.len() - 1, p.last().push(c));
            if p.len() == 1 {
                assert(join_nul(q) =~= t.push(c));
            } else {
                assert(q.drop_last() =~= p.drop_last());
                assert(join_nul(q) =~= join_nul(p).push(c));
            }
        }
        assert(t.push(c) =~= s);
    }
}

/// An address of four parts rewritten with its own properties is unchanged:
/// the rewrite keeps the first three parts as they are.
pub proof fn law_rewrite_keeps_address(address: Seq<char>)
    requires
        split_nul(address).len() == 4,
    ensures
        forwarded_address(split_nul(address), split_nul(address)[3]) == address,
{
    let p = split_nul(address);
    lemma_join_split(address);
    let p3 = p.drop_last();
    let p2 = p3.drop_last();
    let p1 = p2.drop_last();
    assert(p1 =~= seq![p[0]]);
    assert(join_nul(p1) == p[0]);
    assert(join_nul(p2) == join_nul(p1) + seq![nul()] + p[1]);
    assert(join_nul(p3) == join_nul(p2) + seq![nul()] + p[2]);
    assert(join_nul(p) == join_nul(p3) + seq![nul()] + p[3]);
    assert(join_nul(p) =~= forwarded_address(p, p[3]));
}

#[verifier::external_type_specification]
#[verifier::external_body]
pub struct ExJsonError(serde_json::Error);

/// What serde_json makes of some text parsed as a JSON value: `None` when the
/// text is not JSON; `Some(None)` when it is JSON but not an array; otherwise
/// the array's elements, each rendered in serde_json's compact form.
pub uninterp spec fn json_array_items(text: Seq<char>) -> Option<Option<Seq<Seq<char>>>>;

/// The lowercase hexadecimal digit of `d`, for `d` below 16.
pub open spec fn hex_digit(d: int) -> char {
    if d < 10 {
        (d + 48) as char
    } else {
        (d + 87) as char
    }
}

/// How a character stands inside a JSON string literal as serde_json writes
/// it: quote and backslash escaped, the five control characters with a short
/// escape written so, the other control characters as `\u00` and two
/// lowercase hex digits, every other character as it is.
pub open spec fn json_escape(c: char) -> Seq<char> {
    if c == '"' {
        seq!['\\', '"']
    } else if c == '\\' {
        seq!['\\', '\\']
    } else if c == '\u{8}' {
        seq!['\\', 'b']
    } else if c == '\t' {
        seq!['\\', 't']
    } else if c == '\n' {
        seq!['\\', 'n']
    } else if c == '\u{c}' {
        seq!['\\', 'f']
    } else if c == '\r' {
        seq!['\\', 'r']
    } else if (c as int) < 0x20 {
        seq!['\\', 'u', '0', '0', hex_digit((c as int) / 16), hex_digit((c as int) % 16)]
    } else {
        seq![c]
    }
}

/// The characters of `s`, each escaped for a JSON string literal.
pub open spec fn json_escaped(s: Seq<char>) -> Seq<char>
    decreases s.len(),
{
    if s.len() == 0 {
        Seq::empty()
    } else {
        json_escaped(s.drop_last()) + json_escape(s.last())
    }
}

/// The JSON string literal of `s`: its escaped characters between quotes.
pub open spec fn json_quoted(s: Seq<char>) -> Seq<char> {
    seq!['"'] + json_escaped(s) + seq!['"']
}

/// Texts joined with commas between them.
pub open spec fn comma_joined(items: Seq<Seq<char>>) -> Seq<char>
    decreases items.len(),
{
    if items.len() == 0 {
        Seq::empty()
    } else if items.len() == 1 {
        items[0]
    } else {
        comma_joined(items.drop_last()) + seq![','] + items.last()
    }
}

/// Texts each followed by a comma.
pub open spec fn with_commas(items: Seq<Seq<char>>) -> Seq<char>
    decreases items.len(),
{
    if items.len() == 0 {
        Seq::empty()
    } else {
        with_commas(items.drop_last()) + items.last() + seq![',']
    }
}

/// A JSON array in compact form, from the compact texts of its elements.
pub open spec fn json_array_text(items: Seq<Seq<char>>) -> Seq<char> {
    seq!['['] + comma_joined(items) + seq![']']
}

/// Whether text `a` comes before text `b`: at their first difference `a` has
/// the lower character, or `a` is a proper prefix of `b` (the order of their
/// UTF-8 bytes, which is the order of `String`).
pub open spec fn text_before(a: Seq<char>, b: Seq<char>) -> bool
    decreases a.len(),
{
    if a.len() == 0 {
        b.len() > 0
    } else if b.len() == 0 {
        false
    } else if a[0] != b[0] {
        (a[0] as int) < (b[0] as int)
    } else {
        text_before(a.drop_first(), b.drop_first())
    }
}

/// The texts of some pairs of strings.
pub open spec fn string_pairs(v: Seq<(String, String)>) -> Seq<(Seq<char>, Seq<char>)> {
    v.map_values(|e: (String, String)| (e.0@, e.1@))
}

/// Keys in strictly ascending order, so no key occurs twice.
pub open spec fn keys_ascending(entries: Seq<(Seq<char>, Seq<char>)>) -> bool {
    forall|i: int| 0 <= i < entries.len() - 1 ==> text_before(#[trigger] entries[i].0, entries[i + 1].0)
}

/// A member of a JSON object with a string value, in compact form.
pub open spec fn json_member(entry: (Seq<char>, Seq<char>)) -> Seq<char> {
    json_quoted(entry.0) + seq![':'] + json_quoted(entry.1)
}

/// A JSON object of string values in compact form, its members in the order
/// given.
pub open spec fn json_object_text(entries: Seq<(Seq<char>, Seq<char>)>) -> Seq<char> {
    seq!['{'] + comma_joined(entries.map_values(|e: (Seq<char>, Seq<char>)| json_member(e))) + seq!['}']
}

/// The members of the profile property that names the realm.
pub open spec fn realm_property_entries(realm_name: Seq<char>) -> Seq<(Seq<char>, Seq<char>)> {
    seq![("name"@, "realmId"@), ("signature"@, ""@), ("value"@, realm_name)]
}

/// The profile property that names the realm, in compact JSON.
pub open spec fn realm_property_text(realm_name: Seq<char>) -> Seq<char> {
    json_object_text(realm_property_entries(realm_name))
}

/// Why a forwarded address could not be rewritten.
#[derive(Debug, Clone, Copy, PartialEq, Eq)]
pub enum PropertiesError {
    /// The address has fewer than four parts, so it holds no properties.
    TooFewParts,
    /// The properties are not JSON.
    Syntax,
    /// The properties are JSON, but not an array.
    NotAnArray,
}

/// The properties of a forwarded address with the property naming the realm
/// added at the end of the array, given the array's elements.
pub open spec fn extended_properties(items: Seq<Seq<char>>, realm_name: Seq<char>) -> Seq<char> {
    json_array_text(items.push(realm_property_text(realm_name)))
}

/// serde_json's `from_str` into a `Value`; when that value is an array, the
/// compact rendering (`Value`'s `Display`) of each element. The result is only
/// named: which texts are JSON and how serde_json renders them is not stated.
#[verifier::external_body]
fn parse_json_array(text: &str) -> (r: Result<Option<Vec<String>>, serde_json::Error>)
    ensures
        match r {
            Ok(Some(items)) => json_array_items(text@) == Some(Some(string_views(items@))),
            Ok(None) => json_array_items(text@) == Some(None::<Seq<Seq<char>>>),
            Err(_) => json_array_items(text@) is None,
        },
{
    match serde_json::from_str::<serde_json::Value>(text) {
        Ok(serde_json::Value::Array(items)) => Ok(Some(items.iter().map(|item| item.to_string()).collect())),
        Ok(_) => Ok(None),
        Err(e) => Err(e),
    }
}

/// serde_json's `Map` of string values collected from `entries`, rendered as
/// a `Value::Object` in compact form (`Value`'s `Display`). serde_json's map
/// keeps its keys in order (it is a `BTreeMap` without the `preserve_order`
/// feature), so for keys given in ascending order the members come out as
/// given, each key and value written as a JSON string literal with the
/// escapes of serde_json's escape table.
#[verifier::external_body]
fn json_string_object(entries: &Vec<(String, String)>) -> (r: String)
    requires
        keys_ascending(string_pairs(entries@)),
    ensures
        r@ == json_object_text(string_pairs(entries@)),
{
    let map: serde_json::Map<String, serde_json::Value> = entries.iter().map(
        |e| (e.0.clone(), serde_json::Value::String(e.1.clone())),
    ).collect();
    serde_json::Value::Object(map).to_string()
}

/// The members of the profile property that names `realm_name`, in
/// ascending order of their keys.
fn realm_property_members(realm_name: &str) -> (entries: Vec<(String, String)>)
    ensures
        string_pairs(entries@) == realm_property_entries(realm_name@),
        keys_ascending(string_pairs(entries@)),
{
    proof {
        reveal_strlit("name");
        reveal_strlit("realmId");
        reveal_strlit("signature");
        reveal_strlit("");
        reveal_strlit("value");
    }
    let mut entries: Vec<(String, String)> = Vec::new();
    entries.push(("name".to_owned(), "realmId".to_owned()));
    entries.push(("signature".to_owned(), "".to_owned()));
    entries.push(("value".to_owned(), realm_name.to_owned()));
    let ghost pairs = string_pairs(entries@);
    assert(pairs =~= realm_property_entries(realm_name@));
    assert(text_before(pairs[0].0, pairs[1].0));
    assert(text_before(pairs[1].0, pairs[2].0));
    entries
}

/// The last element after texts with commas: the texts joined with commas.
proof fn lemma_comma_joined_push(items: Seq<Seq<char>>, e: Seq<char>)
    ensures
        comma_joined(items.push(e)) == with_commas(items) + e,
    decreases items.len(),
{
    if items.len() > 0 {
        let p = items.drop_last();
        lemma_comma_joined_push(p, items.last());
        assert(p.push(items.last()) =~= items);
        assert(items.push(e).drop_last() =~= items);
        assert(comma_joined(items.push(e)) =~= with_commas(items) + e);
    } else {
        assert(items.push(e) =~= seq![e]);
        assert(with_commas(items) + e =~= e);
    }
}

/// Adds the property naming `realm_name` to the end of the JSON array of
/// profile properties, returning the array in compact form. Fails when the
/// properties are not JSON. Properties that are JSON but not an array have no
/// result (the array cannot be appended to), so they are not accepted.
pub fn add_realm_property(properties: &str, realm_name: &str) -> (r: Result<String, PropertiesError>)
    requires
        json_array_items(properties@) != Some(None::<Seq<Seq<char>>>),
    ensures
        match r {
            Ok(s) => json_array_items(properties@) matches Some(Some(items)) && s@ == extended_properties(
                items,
                realm_name@,
            ),
            Err(e) => e == PropertiesError::Syntax && json_array_items(properties@) is None,
        },
{
    let items = match parse_json_array(properties) {
        Ok(Some(items)) => items,
        Ok(None) => {
            return Err(PropertiesError::NotAnArray);
        },
        Err(_) => {
            return Err(PropertiesError::Syntax);
        },
    };
    proof {
        reveal_strlit("[");
        reveal_strlit(",");
        reveal_strlit("]");
    }
    let ghost texts = string_views(items@);
    let mut out = "[".to_owned();
    let mut i: usize = 0;
    while i < items.len()
        invariant
            i <= items@.len(),
            texts == string_views(items@),
            out@ == seq!['['] + with_commas(texts.take(i as int)),
        decreases items@.len() - i,
    {
        out.append(items[i].as_str());
        out.append(",");
        proof {
            reveal_strlit(",");
            assert(texts.take(i + 1).drop_last() =~= texts.take(i as int));
            assert(texts.take(i + 1).last() == items@[i as int]@);
            assert(with_commas(texts.take(i + 1)) == with_commas(texts.take(i as int)) + items@[i as int]@ + seq![',']);
        }
        i = i + 1;
        assert(out@ =~= seq!['['] + with_commas(texts.take(i as int)));
    }
    let members = realm_property_members(realm_name);
    let property = json_string_object(&members);
    out.append(property.as_str());
    out.append("]");
    proof {
        let e = realm_property_text(realm_name@);
        assert(texts.take(i as int) =~= texts);
        lemma_comma_joined_push(texts, e);
        assert(out@ =~= json_array_text(texts.push(e)));
    }
    Ok(out)
}

/// Rewrites the address field of a forwarded handshake: the first three
/// parts stay, and the fourth, the profile properties, gets the property
/// naming `realm_name`. Parts after the fourth are dropped. Fails when the
/// properties are not JSON. An address of fewer than four parts, or whose
/// properties are JSON but not an array, has no result and is not accepted.
pub fn rewrite_forwarded_address(address: &str, realm_name: &str) -> (r: Result<String, PropertiesError>)
    requires
        split_nul(address@).len() >= 4,
        json_array_items(split_nul(address@)[3]) != Some(None::<Seq<Seq<char>>>),
    ensures
        match r {
            Ok(s) => json_array_items(split_nul(address@)[3]) matches Some(Some(items)) && s@ == forwarded_address(
                split_nul(address@),
                extended_properties(items, realm_name@),
            ),
            Err(e) => e == PropertiesError::Syntax && json_array_items(split_nul(address@)[3]) is None,
        },
{
    let parts = split_forwarded_address(address);
    proof {
        assert(parts@[3]@ == split_nul(address@)[3]);
    }
    let properties = match add_realm_property(parts[3].as_str(), realm_name) {
        Ok(p) => p,
        Err(e) => {
            return Err(e);
        },
    };
    Ok(join_forwarded_address(&parts, properties.as_str()))
}

/// Rewrites the address field of a forwarded handshake as
/// `rewrite_forwarded_address` does, and answers an address of fewer than
/// four parts with `TooFewParts` and properties that are JSON but not an
/// array with `NotAnArray`.
pub fn rewrite_forwarded_address_checked(address: &str, realm_name: &str) -> (r: Result<String, PropertiesError>)
    ensures
        split_nul(address@).len() < 4 ==> r == Err::<String, PropertiesError>(PropertiesError::TooFewParts),
        split_nul(address@).len() >= 4 ==> match r {
            Ok(s) => json_array_items(split_nul(address@)[3]) matches Some(Some(items)) && s@ == forwarded_address(
                split_nul(address@),
                extended_properties(items, realm_name@),
            ),
            Err(PropertiesError::TooFewParts) => false,
            Err(PropertiesError::Syntax) => json_array_items(split_nul(address@)[3]) is None,
            Err(PropertiesError::NotAnArray) => json_array_items(split_nul(address@)[3]) == Some(
                None::<Seq<Seq<char>>>,
            ),
        },
{
    let parts = split_forwarded_address(address);
    if parts.len() < 4 {
        return Err(PropertiesError::TooFewParts);
    }
    proof {
        assert(parts@[3]@ == split_nul(address@)[3]);
    }
    match parse_json_array(parts[3].as_str()) {
        Ok(Some(_)) => rewrite_forwarded_address(address, realm_name),
        Ok(None) => Err(PropertiesError::NotAnArray),
        Err(_) => Err(PropertiesError::Syntax),
    }
}

} // verus!

verus! {

/// A text with no quote, no backslash and no control character is its own
/// escaping.
proof fn lemma_plain_escaped(s: Seq<char>)
    requires
        forall|i: int| 0 <= i < s.len() ==> #[trigger] s[i] != '"' && s[i] != '\\' && (s[i] as int) >= 0x20,
    ensures
        json_escaped(s) == s,
    decreases s.len(),
{
    if s.len() > 0 {
        let t = s.drop_last();
        assert forall|i: int| 0 <= i < t.len() implies #[trigger] t[i] != '"' && t[i] != '\\' && (t[i] as int)
            >= 0x20 by {
            assert(t[i] == s[i]);
        }
        lemma_plain_escaped(t);
        assert(s[s.len() - 1] == s.last());
        assert(json_escape(s.last()) == seq![s.last()]);
        assert(json_escaped(s) =~= s);
    }
}

/// A text with no quote, no backslash and no control character stands in a
/// JSON string literal as it is, between quotes.
pub proof fn law_plain_text_quoted(s: Seq<char>)
    requires
        forall|i: int| 0 <= i < s.len() ==> #[trigger] s[i] != '"' && s[i] != '\\' && (s[i] as int) >= 0x20,
    ensures
        json_quoted(s) == seq!['"'] + s + seq!['"'],
{
    lemma_plain_escaped(s);
}

/// The rewritten properties are the old array's elements, each followed by a
/// comma, then the object `{"name":"realmId","signature":"","value":...}`
/// whose value is the realm name itself, whole and as a JSON string literal,
/// closing the array.
pub proof fn law_realm_property_carries_name(items: Seq<Seq<char>>, realm_name: Seq<char>)
    ensures
        extended_properties(items, realm_name) == seq!['['] + with_commas(items)
            + "{\"name\":\"realmId\",\"signature\":\"\",\"value\":"@ + json_quoted(realm_name) + "}]"@,
{
    reveal_strlit("name");
    reveal_strlit("realmId");
    reveal_strlit("signature");
    reveal_strlit("");
    reveal_strlit("value");
    reveal_strlit("{\"name\":\"realmId\",\"signature\":\"\",\"value\":");
    reveal_strlit("}]");
    law_plain_text_quoted("name"@);
    law_plain_text_quoted("realmId"@);
    law_plain_text_quoted("signature"@);
    law_plain_text_quoted(""@);
    law_plain_text_quoted("value"@);
    let entries = realm_property_entries(realm_name);
    let members = entries.map_values(|e: (Seq<char>, Seq<char>)| json_member(e));
    let m2 = members.drop_last();
    let m1 = m2.drop_last();
    assert(members.len() == 3);
    assert(m1.len() == 1 && m1[0] == members[0]);
    assert(comma_joined(m1) == members[0]);
    assert(m2.last() == members[1]);
    assert(comma_joined(m2) == comma_joined(m1) + seq![','] + m2.last());
    assert(comma_joined(members) == comma_joined(m2) + seq![','] + members.last());
    assert(comma_joined(members) =~= members[0] + seq![','] + members[1] + seq![','] + members[2]);
    let e = realm_property_text(realm_name);
    assert(e =~= "{\"name\":\"realmId\",\"signature\":\"\",\"value\":"@ + json_quoted(realm_name) + seq!['}']);
    lemma_comma_joined_push(items, e);
    assert(extended_properties(items, realm_name) =~= seq!['['] + with_commas(items)
        + "{\"name\":\"realmId\",\"signature\":\"\",\"value\":"@ + json_quoted(realm_name) + "}]"@);
}

} // verus!
