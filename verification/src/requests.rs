//! The JSON bodies the client sends: objects of string fields, written by
//! serde_json as a `json!` object is (compact, keys in sorted order).
use vstd::prelude::*;

use crate::text::{hex_digit_char, json_escape, json_escaped, json_string_literal, lex_le};

verus! {

/// One `"key":"value"` member of a JSON object.
pub open spec fn json_member(key: Seq<char>, value: Seq<char>) -> Seq<char> {
    json_string_literal(key) + seq![':'] + json_string_literal(value)
}

/// A JSON object of two string members, in the given order.
pub open spec fn json_object2(k1: Seq<char>, v1: Seq<char>, k2: Seq<char>, v2: Seq<char>) -> Seq<char> {
    seq!['{'] + json_member(k1, v1) + seq![','] + json_member(k2, v2) + seq!['}']
}

/// A JSON object of three string members, in the given order.
pub open spec fn json_object3(
    k1: Seq<char>,
    v1: Seq<char>,
    k2: Seq<char>,
    v2: Seq<char>,
    k3: Seq<char>,
    v3: Seq<char>,
) -> Seq<char> {
    seq!['{'] + json_member(k1, v1) + seq![','] + json_member(k2, v2) + seq![','] + json_member(
        k3,
        v3,
    ) + seq!['}']
}

/// Distinct digits below sixteen have distinct hexadecimal characters.
proof fn lemma_hex_digit_injective(a: nat, b: nat)
    requires
        a < 16,
        b < 16,
        hex_digit_char(a) == hex_digit_char(b),
    ensures
        a == b,
{
    assert(hex_digit_char(a) as int == if a < 10 { a + 48 } else { a + 87 });
    assert(hex_digit_char(b) as int == if b < 10 { b + 48 } else { b + 87 });
}

/// The escape of a character never starts with a double quote, and it is a
/// backslash sequence exactly when the character is escaped.
proof fn lemma_escape_shape(c: char)
    ensures
        json_escape(c).len() >= 1,
        json_escape(c)[0] != '"',
        json_escape(c)[0] != '\\' ==> json_escape(c) == seq![c],
{
}

/// Escapes form a prefix code: an escape followed by anything determines
/// the escaped character and what follows it.
proof fn lemma_escape_prefix_code(c: char, d: char, x: Seq<char>, y: Seq<char>)
    requires
        json_escape(c) + x == json_escape(d) + y,
    ensures
        c == d,
        x == y,
{
    let e = json_escape(c);
    let f = json_escape(d);
    lemma_escape_shape(c);
    lemma_escape_shape(d);
    assert((e + x)[0] == e[0]);
    assert((f + y)[0] == f[0]);
    if e[0] != '\\' {
        assert(c == d);
    } else {
        assert(e.len() >= 2 && f.len() >= 2);
        assert((e + x)[1] == e[1]);
        assert((f + y)[1] == f[1]);
        if e[1] == 'u' {
            let u = c as int;
            let v = d as int;
            assert(e.len() == 6 && f.len() == 6);
            assert((e + x)[4] == e[4] && (f + y)[4] == f[4]);
            assert((e + x)[5] == e[5] && (f + y)[5] == f[5]);
            assert(0 <= u < 0x20 && 0 <= v < 0x20);
            lemma_hex_digit_injective((u / 16) as nat, (v / 16) as nat);
            lemma_hex_digit_injective((u % 16) as nat, (v % 16) as nat);
            assert(u == v);
        }
    }
    assert(e == f);
    assert(x =~= (e + x).skip(e.len() as int));
    assert(y =~= (f + y).skip(f.len() as int));
}

/// The escaped contents of a string literal end at its closing quote: what
/// comes before and after the quote is determined.
proof fn lemma_escaped_then_quote(a: Seq<char>, b: Seq<char>, x: Seq<char>, y: Seq<char>)
    requires
        json_escaped(a) + seq!['"'] + x == json_escaped(b) + seq!['"'] + y,
    ensures
        a == b,
        x == y,
    decreases a.len(),
{
    let l = json_escaped(a) + seq!['"'] + x;
    let r = json_escaped(b) + seq!['"'] + y;
    if a.len() == 0 {
        assert(json_escaped(a) =~= Seq::<char>::empty());
        assert(l[0] == '"');
        if b.len() > 0 {
            lemma_escape_shape(b[0]);
            assert(r =~= json_escape(b[0]) + (json_escaped(b.drop_first()) + seq!['"'] + y));
            assert(r[0] == json_escape(b[0])[0]);
        }
        assert(json_escaped(b) =~= Seq::<char>::empty());
        assert(x =~= l.skip(1));
        assert(y =~= r.skip(1));
    } else if b.len() == 0 {
        assert(json_escaped(b) =~= Seq::<char>::empty());
        lemma_escape_shape(a[0]);
        assert(l =~= json_escape(a[0]) + (json_escaped(a.drop_first()) + seq!['"'] + x));
        assert(l[0] == json_escape(a[0])[0]);
        assert(r[0] == '"');
    } else {
        assert(l =~= json_escape(a[0]) + (json_escaped(a.drop_first()) + seq!['"'] + x));
        assert(r =~= json_escape(b[0]) + (json_escaped(b.drop_first()) + seq!['"'] + y));
        lemma_escape_prefix_code(
            a[0],
            b[0],
            json_escaped(a.drop_first()) + seq!['"'] + x,
            json_escaped(b.drop_first()) + seq!['"'] + y,
        );
        lemma_escaped_then_quote(a.drop_first(), b.drop_first(), x, y);
        assert(a =~= seq![a[0]] + a.drop_first());
        assert(b =~= seq![b[0]] + b.drop_first());
    }
}

/// Equal texts that start with the same prefix continue alike.
proof fn lemma_cancel_prefix(p: Seq<char>, x: Seq<char>, y: Seq<char>)
    requires
        p + x == p + y,
    ensures
        x == y,
{
    assert(x =~= (p + x).skip(p.len() as int));
    assert(y =~= (p + y).skip(p.len() as int));
}

/// A JSON object of two string members with given keys determines its values.
proof fn lemma_object2_values(k1: Seq<char>, v1: Seq<char>, w1: Seq<char>, k2: Seq<char>, v2: Seq<char>, w2: Seq<char>)
    requires
        json_object2(k1, v1, k2, v2) == json_object2(k1, w1, k2, w2),
    ensures
        v1 == w1,
        v2 == w2,
{
    let p = seq!['{'] + json_string_literal(k1) + seq![':'] + seq!['"'];
    let q = seq![','] + json_string_literal(k2) + seq![':'] + seq!['"'];
    let end = seq!['}'];
    assert(json_object2(k1, v1, k2, v2) =~= p + (json_escaped(v1) + seq!['"'] + (q + (json_escaped(v2)
        + seq!['"'] + end))));
    assert(json_object2(k1, w1, k2, w2) =~= p + (json_escaped(w1) + seq!['"'] + (q + (json_escaped(w2)
        + seq!['"'] + end))));
    lemma_cancel_prefix(
        p,
        json_escaped(v1) + seq!['"'] + (q + (json_escaped(v2) + seq!['"'] + end)),
        json_escaped(w1) + seq!['"'] + (q + (json_escaped(w2) + seq!['"'] + end)),
    );
    lemma_escaped_then_quote(v1, w1, q + (json_escaped(v2) + seq!['"'] + end), q + (json_escaped(w2) + seq!['"'] + end));
    lemma_cancel_prefix(q, json_escaped(v2) + seq!['"'] + end, json_escaped(w2) + seq!['"'] + end);
    lemma_escaped_then_quote(v2, w2, end, end);
}

/// A JSON object of three string members with given keys determines its values.
#[verifier::rlimit(40)]
proof fn lemma_object3_values(
    k1: Seq<char>,
    v1: Seq<char>,
    w1: Seq<char>,
    k2: Seq<char>,
    v2: Seq<char>,
    w2: Seq<char>,
    k3: Seq<char>,
    v3: Seq<char>,
    w3: Seq<char>,
)
    requires
        json_object3(k1, v1, k2, v2, k3, v3) == json_object3(k1, w1, k2, w2, k3, w3),
    ensures
        v1 == w1,
        v2 == w2,
        v3 == w3,
{
    let p = seq!['{'] + json_string_literal(k1) + seq![':'] + seq!['"'];
    let q = seq![','] + json_string_literal(k2) + seq![':'] + seq!['"'];
    let t = seq![','] + json_string_literal(k3) + seq![':'] + seq!['"'];
    let end = seq!['}'];
    let tail_v = q + (json_escaped(v2) + seq!['"'] + (t + (json_escaped(v3) + seq!['"'] + end)));
    let tail_w = q + (json_escaped(w2) + seq!['"'] + (t + (json_escaped(w3) + seq!['"'] + end)));
    assert(json_object3(k1, v1, k2, v2, k3, v3) =~= p + (json_escaped(v1) + seq!['"'] + tail_v));
    assert(json_object3(k1, w1, k2, w2, k3, w3) =~= p + (json_escaped(w1) + seq!['"'] + tail_w));
    lemma_cancel_prefix(p, json_escaped(v1) + seq!['"'] + tail_v, json_escaped(w1) + seq!['"'] + tail_w);
    lemma_escaped_then_quote(v1, w1, tail_v, tail_w);
    lemma_cancel_prefix(
        q,
        json_escaped(v2) + seq!['"'] + (t + (json_escaped(v3) + seq!['"'] + end)),
        json_escaped(w2) + seq!['"'] + (t + (json_escaped(w3) + seq!['"'] + end)),
    );
    lemma_escaped_then_quote(
        v2,
        w2,
        t + (json_escaped(v3) + seq!['"'] + end),
        t + (json_escaped(w3) + seq!['"'] + end),
    );
    lemma_cancel_prefix(t, json_escaped(v3) + seq!['"'] + end, json_escaped(w3) + seq!['"'] + end);
    lemma_escaped_then_quote(v3, w3, end, end);
}

/// The members `"key":"value"` of `fields`, in order, separated by commas.
pub open spec fn json_members(fields: Seq<(Seq<char>, Seq<char>)>) -> Seq<char>
    decreases fields.len(),
{
    if fields.len() == 0 {
        Seq::empty()
    } else if fields.len() == 1 {
        json_member(fields[0].0, fields[0].1)
    } else {
        json_members(fields.drop_last()) + seq![','] + json_member(fields.last().0, fields.last().1)
    }
}

/// A JSON object of string members, in the given order.
pub open spec fn json_object(fields: Seq<(Seq<char>, Seq<char>)>) -> Seq<char> {
    seq!['{'] + json_members(fields) + seq!['}']
}

/// The keys of `fields` are strictly ascending in the order of code points.
pub open spec fn keys_ascending(fields: Seq<(Seq<char>, Seq<char>)>) -> bool {
    forall|i: int, j: int|
        0 <= i < j < fields.len() ==> lex_le(#[trigger] fields[i].0, #[trigger] fields[j].0)
            && fields[i].0 != fields[j].0
}

/// Key and value pairs as values.
pub open spec fn fields_view(fields: Seq<(String, String)>) -> Seq<(Seq<char>, Seq<char>)> {
    fields.map_values(|p: (String, String)| (p.0@, p.1@))
}

/// Writes string fields as a compact JSON object.
///
/// Collects the fields into a `serde_json::Map` of `Value::String`s and
/// writes `Value::Object(..).to_string()`. Without serde_json's
/// `preserve_order` feature that map is a `BTreeMap`, which yields its keys
/// in ascending order of their UTF-8 bytes, the order of their code points;
/// the compact writer puts `{`, each `"key":"value"` escaped by
/// `format_escaped_str`, commas between them, and `}`. The contract claims
/// this only for keys given strictly ascending, where every field is kept and
/// the map's order is the given one.
#[verifier::external_body]
fn json_object_text(fields: Vec<(String, String)>) -> (r: String)
    requires
        keys_ascending(fields_view(fields@)),
    ensures
        r@ == json_object(fields_view(fields@)),
{
    let map: serde_json::Map<String, serde_json::Value> =
        fields.into_iter().map(|(k, v)| (k, serde_json::Value::String(v))).collect();
    serde_json::Value::Object(map).to_string()
}

/// A JSON object of two string members, keys in ascending order.
fn object2(k1: &str, v1: &str, k2: &str, v2: &str) -> (s: String)
    requires
        lex_le(k1@, k2@),
        k1@ != k2@,
    ensures
        s@ == json_object2(k1@, v1@, k2@, v2@),
{
    let mut fields: Vec<(String, String)> = Vec::new();
    fields.push((k1.to_owned(), v1.to_owned()));
    fields.push((k2.to_owned(), v2.to_owned()));
    let ghost fv = fields_view(fields@);
    assert(fv =~= seq![(k1@, v1@), (k2@, v2@)]);
    assert(fv.drop_last() =~= seq![(k1@, v1@)]);
    assert(json_members(fv.drop_last()) == json_member(k1@, v1@));
    assert(json_members(fv) == json_member(k1@, v1@) + seq![','] + json_member(k2@, v2@));
    let s = json_object_text(fields);
    assert(s@ =~= json_object2(k1@, v1@, k2@, v2@));
    s
}

/// A JSON object of three string members, keys in ascending order.
fn object3(k1: &str, v1: &str, k2: &str, v2: &str, k3: &str, v3: &str) -> (s: String)
    requires
        lex_le(k1@, k2@),
        k1@ != k2@,
        lex_le(k2@, k3@),
        k2@ != k3@,
        lex_le(k1@, k3@),
        k1@ != k3@,
    ensures
        s@ == json_object3(k1@, v1@, k2@, v2@, k3@, v3@),
{
    let mut fields: Vec<(String, String)> = Vec::new();
    fields.push((k1.to_owned(), v1.to_owned()));
    fields.push((k2.to_owned(), v2.to_owned()));
    fields.push((k3.to_owned(), v3.to_owned()));
    let ghost fv = fields_view(fields@);
    assert(fv =~= seq![(k1@, v1@), (k2@, v2@), (k3@, v3@)]);
    assert(fv.drop_last() =~= seq![(k1@, v1@), (k2@, v2@)]);
    assert(fv.drop_last().drop_last() =~= seq![(k1@, v1@)]);
    assert(json_members(fv.drop_last().drop_last()) == json_member(k1@, v1@));
    assert(json_members(fv.drop_last()) == json_member(k1@, v1@) + seq![','] + json_member(k2@, v2@));
    assert(json_members(fv) == json_members(fv.drop_last()) + seq![','] + json_member(k3@, v3@));
    let s = json_object_text(fields);
    assert(s@ =~= json_object3(k1@, v1@, k2@, v2@, k3@, v3@));
    s
}

/// The body that creates or updates a quiz: `{"description":..,"name":..}`.
pub open spec fn quiz_json_spec(name: Seq<char>, description: Seq<char>) -> Seq<char> {
    json_object2("description"@, description, "name"@, name)
}

/// The body that creates or updates a quiz from its name and description.
pub fn quiz_json(name: &str, description: &str) -> (s: String)
    ensures
        s@ == quiz_json_spec(name@, description@),
{
    proof {
        reveal_strlit("description");
        reveal_strlit("name");
    }
    object2("description", description, "name", name)
}

/// The body of a login request: `{"password":..,"username":..}`.
pub open spec fn login_json_spec(username: Seq<char>, password: Seq<char>) -> Seq<char> {
    json_object2("password"@, password, "username"@, username)
}

/// The body of a login request from the credentials.
pub fn login_json(username: &str, password: &str) -> (s: String)
    ensures
        s@ == login_json_spec(username@, password@),
{
    proof {
        reveal_strlit("password");
        reveal_strlit("username");
    }
    object2("password", password, "username", username)
}

/// The body of a sign-up request: `{"name":..,"password":..,"username":..}`.
pub open spec fn signup_json_spec(name: Seq<char>, username: Seq<char>, password: Seq<char>) -> Seq<
    char,
> {
    json_object3("name"@, name, "password"@, password, "username"@, username)
}

/// The body of a sign-up request from the form.
pub fn signup_json(name: &str, username: &str, password: &str) -> (s: String)
    ensures
        s@ == signup_json_spec(name@, username@, password@),
{
    proof {
        reveal_strlit("name");
        reveal_strlit("password");
        reveal_strlit("username");
    }
    object3("name", name, "password", password, "username", username)
}

/// The quiz body is the object `{"description":..,"name":..}` holding the
/// description and the name exactly as given, whatever their length or
/// content: two bodies are equal only for the same name and description, so
/// each is read back whole from the body.
pub proof fn lemma_quiz_body_keeps_fields(name: Seq<char>, description: Seq<char>, name2: Seq<char>, description2: Seq<char>)
    ensures
        quiz_json_spec(name, description) == seq!['{'] + json_member("description"@, description) + seq![
            ',',
        ] + json_member("name"@, name) + seq!['}'],
        quiz_json_spec(name, description) == quiz_json_spec(name2, description2) ==> name == name2
            && description == description2,
{
    if quiz_json_spec(name, description) == quiz_json_spec(name2, description2) {
        lemma_object2_values("description"@, description, description2, "name"@, name, name2);
    }
}

/// The login body is the object `{"password":..,"username":..}` holding the
/// typed password and username unchanged: two bodies are equal only for the
/// same credentials, so neither is altered or cut.
pub proof fn lemma_login_body_keeps_credentials(username: Seq<char>, password: Seq<char>, username2: Seq<char>, password2: Seq<char>)
    ensures
        login_json_spec(username, password) == seq!['{'] + json_member("password"@, password) + seq![
            ',',
        ] + json_member("username"@, username) + seq!['}'],
        login_json_spec(username, password) == login_json_spec(username2, password2) ==> username
            == username2 && password == password2,
{
    if login_json_spec(username, password) == login_json_spec(username2, password2) {
        lemma_object2_values("password"@, password, password2, "username"@, username, username2);
    }
}

/// The sign-up body is the object `{"name":..,"password":..,"username":..}`
/// holding the three fields unchanged: two bodies are equal only for the
/// same name, username and password.
pub proof fn lemma_signup_body_keeps_fields(
    name: Seq<char>,
    username: Seq<char>,
    password: Seq<char>,
    name2: Seq<char>,
    username2: Seq<char>,
    password2: Seq<char>,
)
    ensures
        signup_json_spec(name, username, password) == seq!['{'] + json_member("name"@, name) + seq![
            ',',
        ] + json_member("password"@, password) + seq![','] + json_member("username"@, username) + seq![
            '}',
        ],
        signup_json_spec(name, username, password) == signup_json_spec(name2, username2, password2)
            ==> name == name2 && username == username2 && password == password2,
{
    if signup_json_spec(name, username, password) == signup_json_spec(name2, username2, password2) {
        lemma_object3_values("name"@, name, name2, "password"@, password, password2, "username"@, username, username2);
    }
}

} // verus!
