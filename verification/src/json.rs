use vstd::prelude::*;
use vstd::string::*;

verus! {

/// The hexadecimal digit of `n` (below 16), in lower case.
pub open spec fn hex_digit(n: nat) -> char {
    if n < 10 {
        (48 + n) as char
    } else {
        (87 + n) as char
    }
}

/// How JSON writes one character inside a string literal: `"` and `\` and the
/// control characters below U+0020 are escaped (the short escapes where JSON
/// has one, `\u00XX` with lower-case digits otherwise); every other character
/// is written as it is.
pub open spec fn json_escape_char(c: char) -> Seq<char> {
    if c == '"' {
        seq!['\\', '"']
    } else if c == '\\' {
        seq!['\\', '\\']
    } else if c == '\u{08}' {
        seq!['\\', 'b']
    } else if c == '\t' {
        seq!['\\', 't']
    } else if c == '\n' {
        seq!['\\', 'n']
    } else if c == '\u{0C}' {
        seq!['\\', 'f']
    } else if c == '\r' {
        seq!['\\', 'r']
    } else if (c as u32) < 0x20 {
        seq!['\\', 'u', '0', '0', hex_digit((c as nat) / 16), hex_digit((c as nat) % 16)]
    } else {
        seq![c]
    }
}

/// The escaped form of a whole text.
pub open spec fn json_escaped(s: Seq<char>) -> Seq<char>
    decreases s.len(),
{
    if s.len() == 0 {
        Seq::empty()
    } else {
        json_escaped(s.drop_last()) + json_escape_char(s.last())
    }
}

/// The JSON string literal of a text: the escaped text between double quotes.
pub open spec fn json_string_literal(s: Seq<char>) -> Seq<char> {
    seq!['"'] + json_escaped(s) + seq!['"']
}

/// The JSON literals of `items`, separated by commas.
pub open spec fn joined_literals(items: Seq<Seq<char>>) -> Seq<char>
    decreases items.len(),
{
    if items.len() == 0 {
        Seq::empty()
    } else if items.len() == 1 {
        json_string_literal(items[0])
    } else {
        joined_literals(items.drop_last()) + seq![','] + json_string_literal(items.last())
    }
}

/// The compact JSON array of the strings `items`.
pub open spec fn json_string_list(items: Seq<Seq<char>>) -> Seq<char> {
    seq!['['] + joined_literals(items) + seq![']']
}

/// The compact JSON text of an object with the single member `key`, whose
/// value is the array of the strings `items`.
pub open spec fn json_list_object(key: Seq<char>, items: Seq<Seq<char>>) -> Seq<char> {
    seq!['{'] + json_string_literal(key) + seq![':'] + json_string_list(items) + seq!['}']
}

/// Writes `{key: [items...]}` with `serde_json`.
///
/// Trusted: `serde_json::Value`'s `Display`, through `to_string`, on an object
/// of one member built with `Map::insert` and `Value::from(Vec<String>)`. The
/// compact formatter writes `{`, the key, `:`, the value and `}`; an array as
/// `[`, its elements separated by `,`, and `]`; a string through
/// `format_escaped_str`, which escapes exactly as `json_escape_char` says.
/// Writing into a `String` does not fail.
#[verifier::external_body]
fn json_object_of_string_list(key: String, items: Vec<String>) -> (text: String)
    ensures
        text@ == json_list_object(key@, items.deep_view()),
{
    let mut object = serde_json::Map::new();
    object.insert(key, serde_json::Value::from(items));
    serde_json::Value::Object(object).to_string()
}

/// Whether the key `a` comes before the key `b` in the order of a
/// `serde_json::Map` without `preserve_order` (a `BTreeMap<String, _>`): the
/// lexicographic order of their characters by code point, which for UTF-8
/// text is the order of their bytes.
pub open spec fn key_less(a: Seq<char>, b: Seq<char>) -> bool
    decreases a.len(),
{
    if a.len() == 0 {
        b.len() > 0
    } else if b.len() == 0 {
        false
    } else if a[0] != b[0] {
        (a[0] as u32) < (b[0] as u32)
    } else {
        key_less(a.drop_first(), b.drop_first())
    }
}

/// Whether the keys of `members` are in strictly increasing order.
pub open spec fn keys_increasing(members: Seq<(Seq<char>, Seq<char>)>) -> bool {
    forall|i: int, j: int|
        0 <= i < j < members.len() ==> key_less(#[trigger] members[i].0, #[trigger] members[j].0)
}

/// The members of an object whose values are strings, written `"key":"value"`
/// and separated by commas.
pub open spec fn joined_members(members: Seq<(Seq<char>, Seq<char>)>) -> Seq<char>
    decreases members.len(),
{
    if members.len() == 0 {
        Seq::empty()
    } else {
        let m = members.last();
        let member = json_string_literal(m.0) + seq![':'] + json_string_literal(m.1);
        if members.len() == 1 {
            member
        } else {
            joined_members(members.drop_last()) + seq![','] + member
        }
    }
}

/// The compact JSON text of an object whose values are strings, with its
/// members in the given order.
pub open spec fn json_string_object(members: Seq<(Seq<char>, Seq<char>)>) -> Seq<char> {
    seq!['{'] + joined_members(members) + seq!['}']
}

/// The compact JSON text that `serde_json` writes for the object
/// `{object_key: {members...}, text_key: text}`, whose innermost values are
/// strings.
pub uninterp spec fn json_object_and_text(
    object_key: Seq<char>,
    members: Seq<(Seq<char>, Seq<char>)>,
    text_key: Seq<char>,
    text: Seq<char>,
) -> Seq<char>;

/// Writes `{object_key: {members...}, text_key: text}` with `serde_json`.
///
/// Trusted: `serde_json::Value`'s `Display`, through `to_string`, on an object
/// built with `Map::insert` (first `object_key`, then `text_key`) and
/// `Value::from_iter` over `members`. The text depends on the arguments alone
/// (the name `json_object_and_text`). A `Map` writes its members in key order,
/// or in insertion order when `serde_json`'s `preserve_order` feature is on;
/// when the keys are already given in increasing order the two agree, and the
/// contract then states the text: the compact formatter writes `{`, the
/// members separated by `,` as key, `:`, value, and `}`, with strings escaped
/// as `json_escape_char` says.
#[verifier::external_body]
fn json_object_of_object_and_text(
    object_key: String,
    members: Vec<(String, String)>,
    text_key: String,
    text: String,
) -> (json: String)
    ensures
        json@ == json_object_and_text(object_key@, members.deep_view(), text_key@, text@),
        key_less(object_key@, text_key@) && keys_increasing(members.deep_view()) ==> json@
            == seq!['{'] + json_string_literal(object_key@) + seq![':'] + json_string_object(
            members.deep_view(),
        ) + seq![','] + json_string_literal(text_key@) + seq![':'] + json_string_literal(text@)
            + seq!['}'],
{
    let mut object = serde_json::Map::new();
    object.insert(
        object_key,
        <serde_json::Value as std::iter::FromIterator<(String, String)>>::from_iter(members),
    );
    object.insert(text_key, serde_json::Value::String(text));
    serde_json::Value::Object(object).to_string()
}

/// A copy of a list of strings.
pub fn copy_strings(items: &Vec<String>) -> (copy: Vec<String>)
    ensures
        copy.deep_view() == items.deep_view(),
{
    let mut copy: Vec<String> = Vec::new();
    let n = items.len();
    for i in 0..n
        invariant
            n == items.len(),
            copy.deep_view() =~= items.deep_view().take(i as int),
    {
        let ghost before = copy.deep_view();
        copy.push(items[i].clone());
        assert(copy.deep_view() =~= before.push(items.deep_view()[i as int]));
        assert(items.deep_view().take(i + 1) =~= items.deep_view().take(i as int).push(
            items.deep_view()[i as int],
        ));
    }
    assert(items.deep_view().take(n as int) =~= items.deep_view());
    copy
}

/// The compact JSON text of `{"assets_ids": [asset_ids...]}`.
pub open spec fn subscription_text(asset_ids: Seq<Seq<char>>) -> Seq<char> {
    json_list_object("assets_ids"@, asset_ids)
}

/// The subscription request for market updates on `asset_ids`.
pub fn subscription_message(asset_ids: &Vec<String>) -> (text: String)
    ensures
        text@ == subscription_text(asset_ids.deep_view()),
        text@ == json_list_object("assets_ids"@, asset_ids.deep_view()),
{
    json_object_of_string_list(String::from_str("assets_ids"), copy_strings(asset_ids))
}

/// The members of the `auth` object of the authentication message, in key
/// order.
pub open spec fn auth_members(key: Seq<char>, secret: Seq<char>, passphrase: Seq<char>) -> Seq<
    (Seq<char>, Seq<char>),
> {
    seq![("apiKey"@, key), ("passphrase"@, passphrase), ("secret"@, secret)]
}

/// The compact JSON text of
/// `{"type": "user", "auth": {"apiKey": key, "secret": secret, "passphrase": passphrase}}`,
/// members in key order:
/// `{"auth":{"apiKey":key,"passphrase":passphrase,"secret":secret},"type":"user"}`.
pub open spec fn auth_text(key: Seq<char>, secret: Seq<char>, passphrase: Seq<char>) -> Seq<char> {
    seq!['{'] + json_string_literal("auth"@) + seq![':'] + json_string_object(
        auth_members(key, secret, passphrase),
    ) + seq![','] + json_string_literal("type"@) + seq![':'] + json_string_literal("user"@)
        + seq!['}']
}

/// The authentication message of the user channel for the given API
/// credentials. Its members are handed to `serde_json` in key order, so the
/// text is the same whether or not the map keeps insertion order.
pub fn auth_message(key: &str, secret: &str, passphrase: &str) -> (text: String)
    ensures
        text@ == auth_text(key@, secret@, passphrase@),
        text@ == seq!['{'] + json_string_literal("auth"@) + seq![':'] + json_string_object(
            seq![("apiKey"@, key@), ("passphrase"@, passphrase@), ("secret"@, secret@)],
        ) + seq![','] + json_string_literal("type"@) + seq![':'] + json_string_literal("user"@)
            + seq!['}'],
{
    let mut members: Vec<(String, String)> = Vec::new();
    members.push((String::from_str("apiKey"), String::from_str(key)));
    members.push((String::from_str("passphrase"), String::from_str(passphrase)));
    members.push((String::from_str("secret"), String::from_str(secret)));
    let ghost view = members.deep_view();
    assert(view =~= auth_members(key@, secret@, passphrase@));
    proof {
        reveal_strlit("auth");
        reveal_strlit("type");
        reveal_strlit("apiKey");
        reveal_strlit("passphrase");
        reveal_strlit("secret");
        assert(key_less("auth"@, "type"@));
        assert(key_less("apiKey"@, "passphrase"@));
        assert(key_less("apiKey"@, "secret"@));
        assert(key_less("passphrase"@, "secret"@));
        assert(keys_increasing(view)) by {
            assert forall|i: int, j: int| 0 <= i < j < view.len() implies key_less(
                #[trigger] view[i].0,
                #[trigger] view[j].0,
            ) by {
                if i == 0 && j == 1 {
                } else if i == 0 {
                } else {
                }
            }
        }
    }
    json_object_of_object_and_text(
        String::from_str("auth"),
        members,
        String::from_str("type"),
        String::from_str("user"),
    )
}

/// The subscription request lists every requested id, in order, as a JSON
/// string: the array of the `assets_ids` member is the list of all ids.
pub proof fn lemma_subscription_lists_every_id(asset_ids: Seq<Seq<char>>)
    ensures
        subscription_text(asset_ids) == seq!['{'] + json_string_literal("assets_ids"@) + seq![':']
            + seq!['['] + joined_literals(asset_ids) + seq![']'] + seq!['}'],
        asset_ids.len() > 0 ==> joined_literals(asset_ids) == (if asset_ids.len() == 1 {
            Seq::<char>::empty()
        } else {
            joined_literals(asset_ids.drop_last()) + seq![',']
        }) + json_string_literal(asset_ids.last()),
{
    assert(subscription_text(asset_ids) =~= seq!['{'] + json_string_literal("assets_ids"@)
        + seq![':'] + seq!['['] + joined_literals(asset_ids) + seq![']'] + seq!['}']);
    if asset_ids.len() == 1 {
        assert(Seq::<char>::empty() + json_string_literal(asset_ids.last()) =~= json_string_literal(asset_ids.last()));
        assert(asset_ids[0] == asset_ids.last());
    }
}

/// The authentication message carries each credential unchanged as the value
/// of its own member: `apiKey` the key, `passphrase` the passphrase, `secret`
/// the secret.
pub proof fn lemma_auth_carries_credentials(key: Seq<char>, secret: Seq<char>, passphrase: Seq<char>)
    ensures
        auth_members(key, secret, passphrase).len() == 3,
        auth_members(key, secret, passphrase)[0] == ("apiKey"@, key),
        auth_members(key, secret, passphrase)[1] == ("passphrase"@, passphrase),
        auth_members(key, secret, passphrase)[2] == ("secret"@, secret),
        auth_text(key, secret, passphrase) == seq!['{'] + json_string_literal("auth"@) + seq![':']
            + seq!['{'] + json_string_literal("apiKey"@) + seq![':'] + json_string_literal(key)
            + seq![','] + json_string_literal("passphrase"@) + seq![':'] + json_string_literal(
            passphrase,
        ) + seq![','] + json_string_literal("secret"@) + seq![':'] + json_string_literal(secret)
            + seq!['}'] + seq![','] + json_string_literal("type"@) + seq![':']
            + json_string_literal("user"@) + seq!['}'],
{
    let members = auth_members(key, secret, passphrase);
    assert(members.drop_last().drop_last() =~= seq![("apiKey"@, key)]);
    assert(members.drop_last() =~= seq![("apiKey"@, key), ("passphrase"@, passphrase)]);
    let m1 = members.drop_last().drop_last();
    let m2 = members.drop_last();
    let j1 = json_string_literal("apiKey"@) + seq![':'] + json_string_literal(key);
    assert(m1.last() == ("apiKey"@, key));
    assert(joined_members(m1) == j1);
    assert(m2.last() == ("passphrase"@, passphrase));
    let j2 = j1 + seq![','] + (json_string_literal("passphrase"@) + seq![':'] + json_string_literal(
        passphrase,
    ));
    assert(joined_members(m2) == j2);
    assert(members.last() == ("secret"@, secret));
    let j3 = j2 + seq![','] + (json_string_literal("secret"@) + seq![':'] + json_string_literal(
        secret,
    ));
    assert(joined_members(members) == j3);
    assert(auth_text(key, secret, passphrase) =~= seq!['{'] + json_string_literal("auth"@)
        + seq![':'] + seq!['{'] + json_string_literal("apiKey"@) + seq![':'] + json_string_literal(
        key,
    ) + seq![','] + json_string_literal("passphrase"@) + seq![':'] + json_string_literal(passphrase)
        + seq![','] + json_string_literal("secret"@) + seq![':'] + json_string_literal(secret)
        + seq!['}'] + seq![','] + json_string_literal("type"@) + seq![':'] + json_string_literal(
        "user"@,
    ) + seq!['}']);
}

/// Text with no double quote, no backslash and no control character below
/// U+0020.
pub open spec fn is_plain_json_text(s: Seq<char>) -> bool {
    forall|i: int|
        0 <= i < s.len() ==> {
            let c = #[trigger] s[i];
            &&& c != '"'
            &&& c != '\\'
            &&& (c as u32) >= 0x20
        }
}

/// Plain text is written unchanged between the quotes of its literal.
pub proof fn lemma_plain_text_unescaped(s: Seq<char>)
    requires
        is_plain_json_text(s),
    ensures
        json_escaped(s) == s,
        json_string_literal(s) == seq!['"'] + s + seq!['"'],
    decreases s.len(),
{
    if s.len() > 0 {
        let rest = s.drop_last();
        assert forall|i: int| 0 <= i < rest.len() implies {
            let c = #[trigger] rest[i];
            &&& c != '"'
            &&& c != '\\'
            &&& (c as u32) >= 0x20
        } by {
            assert(rest[i] == s[i]);
        }
        lemma_plain_text_unescaped(rest);
        let c = s.last();
        assert(s[s.len() - 1] == c);
        assert(c != '\u{08}' && c != '\t' && c != '\n' && c != '\u{0C}' && c != '\r') by {
            assert((c as u32) >= 0x20);
        }
        assert(s =~= rest + seq![c]);
    }
}

} // verus!
