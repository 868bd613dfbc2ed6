//! The parameter maps of the three API calls, written as JSON and signed.

use vstd::prelude::*;
use vstd::string::StringExecFns;
use crate::signing::{SignedRequest, weapi, is_secret_key, signed_by};
use crate::text::{decimal, push_char, push_decimal};

verus! {

/// The base of every API path.
pub const BASE_URL: &'static str = "https://music.163.com/weapi";

/// The bitrate asked for in stream-URL lookups.
pub const BITRATE: &'static str = "320000";

pub const SONG_URL_PATH: &'static str = "/song/enhance/player/url/";

pub const SONG_DETAIL_PATH: &'static str = "/song/detail";

pub const PROGRAM_DETAIL_PATH: &'static str = "/dj/program/detail";

pub const KEY_IDS: &'static str = "ids";

pub const KEY_BITRATE: &'static str = "br";

pub const KEY_C: &'static str = "c";

pub const KEY_ID: &'static str = "id";

/// The form field that carries the cipher text.
pub const FIELD_PARAMS: &'static str = "params";

/// The form field that carries the encrypted secret key.
pub const FIELD_ENC_SEC_KEY: &'static str = "encSecKey";

/// A JSON string literal for a text, as serde_json writes it.
pub uninterp spec fn json_string_of(s: Seq<char>) -> Seq<char>;

/// A character that serde_json writes as it is inside a string literal: anything
/// but `"`, `\` and the control characters below U+0020.
pub open spec fn needs_no_escape(c: char) -> bool {
    c != '"' && c != '\\' && c as u32 >= 0x20
}

/// A JSON string literal for a text: the text between quotes where nothing in it
/// needs escaping.
pub open spec fn json_quoted(s: Seq<char>) -> Seq<char> {
    if forall|i: int| 0 <= i < s.len() ==> needs_no_escape(#[trigger] s[i]) {
        seq!['"'] + s + seq!['"']
    } else {
        json_string_of(s)
    }
}

/// Relies on serde_json's compact `Display` of a `Value::String`: the text as a
/// quoted JSON string literal, escaping only `"`, `\` and control characters.
#[verifier::external_body]
fn json_string(s: &str) -> (r: String)
    ensures
        r@ == json_string_of(s@),
        (forall|i: int| 0 <= i < s@.len() ==> needs_no_escape(#[trigger] s@[i])) ==> r@ == seq!['"']
            + s@ + seq!['"'],
{
    serde_json::Value::String(s.to_string()).to_string()
}

/// The items separated by commas.
pub open spec fn join_commas(items: Seq<Seq<char>>) -> Seq<char>
    decreases items.len(),
{
    if items.len() == 0 {
        Seq::empty()
    } else if items.len() == 1 {
        items[0]
    } else {
        join_commas(items.drop_last()) + seq![','] + items.last()
    }
}

pub open spec fn string_views(items: Seq<String>) -> Seq<Seq<char>> {
    items.map_values(|s: String| s@)
}

/// A JSON array of already written values.
pub open spec fn json_array(items: Seq<Seq<char>>) -> Seq<char> {
    seq!['['] + join_commas(items) + seq![']']
}

/// One `"key":"value"` member of a JSON object of strings.
pub open spec fn json_member(p: (Seq<char>, Seq<char>)) -> Seq<char> {
    json_quoted(p.0) + seq![':'] + json_quoted(p.1)
}

pub open spec fn pair_views(pairs: Seq<(String, String)>) -> Seq<(Seq<char>, Seq<char>)> {
    pairs.map_values(|p: (String, String)| (p.0@, p.1@))
}

/// A JSON object whose members are strings, in the given order.
pub open spec fn json_object(pairs: Seq<(Seq<char>, Seq<char>)>) -> Seq<char> {
    seq!['{'] + join_commas(pairs.map_values(|p: (Seq<char>, Seq<char>)| json_member(p))) + seq!['}']
}

/// Writes `open`, the items separated by commas, then `close`.
fn write_joined(items: &Vec<String>, open: char, close: char) -> (r: String)
    ensures
        r@ == seq![open] + join_commas(string_views(items@)) + seq![close],
{
    let mut out = String::new();
    push_char(&mut out, open);
    let mut i: usize = 0;
    assert(string_views(items@).take(0) =~= Seq::<Seq<char>>::empty());
    while i < items.len()
        invariant
            i <= items@.len(),
            out@ == seq![open] + join_commas(string_views(items@).take(i as int)),
        decreases items@.len() - i,
    {
        let ghost prev = string_views(items@).take(i as int);
        let ghost next = string_views(items@).take(i + 1);
        assert(next.drop_last() =~= prev);
        assert(next.last() == items@[i as int]@);
        if i > 0 {
            push_char(&mut out, ',');
        } else {
            assert(next =~= seq![items@[0]@]);
        }
        out.append(items[i].as_str());
        assert(out@ =~= seq![open] + join_commas(next));
        i = i + 1;
    }
    assert(string_views(items@).take(items@.len() as int) =~= string_views(items@));
    push_char(&mut out, close);
    assert(out@ =~= seq![open] + join_commas(string_views(items@)) + seq![close]);
    out
}

/// Writes a JSON array of already written values.
pub fn write_json_array(items: &Vec<String>) -> (r: String)
    ensures
        r@ == json_array(string_views(items@)),
{
    write_joined(items, '[', ']')
}

/// Writes a JSON object of string members, keeping their order.
pub fn write_json_object(pairs: &Vec<(String, String)>) -> (r: String)
    ensures
        r@ == json_object(pair_views(pairs@)),
{
    let mut members: Vec<String> = Vec::new();
    let mut i: usize = 0;
    while i < pairs.len()
        invariant
            i <= pairs@.len(),
            members@.len() == i,
            forall|j: int| 0 <= j < i ==> #[trigger] members@[j]@ == json_member(
                (pairs@[j].0@, pairs@[j].1@),
            ),
        decreases pairs@.len() - i,
    {
        let mut m = json_string(pairs[i].0.as_str());
        push_char(&mut m, ':');
        let v = json_string(pairs[i].1.as_str());
        m.append(v.as_str());
        members.push(m);
        i = i + 1;
    }
    assert(string_views(members@) =~= pair_views(pairs@).map_values(
        |p: (Seq<char>, Seq<char>)| json_member(p),
    ));
    write_joined(&members, '{', '}')
}

/// The decimal notation of each id.
pub open spec fn id_texts(ids: Seq<u64>) -> Seq<Seq<char>> {
    ids.map_values(|id: u64| decimal(id as nat))
}

fn decimal_string(n: u64) -> (r: String)
    ensures
        r@ == decimal(n as nat),
{
    let mut s = String::new();
    push_decimal(&mut s, n);
    assert(s@ =~= decimal(n as nat));
    s
}

/// `[26209670,...]`: the ids as a JSON array of numbers.
pub open spec fn ids_number_array(ids: Seq<u64>) -> Seq<char> {
    json_array(id_texts(ids))
}

/// `["26209670",...]`: the ids as a JSON array of strings.
pub open spec fn ids_string_array(ids: Seq<u64>) -> Seq<char> {
    json_array(id_texts(ids).map_values(|t: Seq<char>| json_quoted(t)))
}

/// `[{"id":"26209670"},...]`: one object per id.
pub open spec fn ids_object_array(ids: Seq<u64>) -> Seq<char> {
    json_array(
        id_texts(ids).map_values(
            |t: Seq<char>| json_object(seq![(seq!['i', 'd'], t)]),
        ),
    )
}

fn ids_array(ids: &Vec<u64>) -> (r: String)
    ensures
        r@ == ids_number_array(ids@),
{
    let mut items: Vec<String> = Vec::new();
    let mut i: usize = 0;
    while i < ids.len()
        invariant
            i <= ids@.len(),
            items@.len() == i,
            forall|j: int| 0 <= j < i ==> #[trigger] items@[j]@ == decimal(ids@[j] as nat),
        decreases ids@.len() - i,
    {
        items.push(decimal_string(ids[i]));
        i = i + 1;
    }
    assert(string_views(items@) =~= id_texts(ids@));
    write_json_array(&items)
}

fn ids_string_array_text(ids: &Vec<u64>) -> (r: String)
    ensures
        r@ == ids_string_array(ids@),
{
    let mut items: Vec<String> = Vec::new();
    let mut i: usize = 0;
    while i < ids.len()
        invariant
            i <= ids@.len(),
            items@.len() == i,
            forall|j: int| 0 <= j < i ==> #[trigger] items@[j]@ == json_quoted(
                decimal(ids@[j] as nat),
            ),
        decreases ids@.len() - i,
    {
        let d = decimal_string(ids[i]);
        items.push(json_string(d.as_str()));
        i = i + 1;
    }
    assert(string_views(items@) =~= id_texts(ids@).map_values(|t: Seq<char>| json_quoted(t)));
    write_json_array(&items)
}

fn ids_object_array_text(ids: &Vec<u64>) -> (r: String)
    ensures
        r@ == ids_object_array(ids@),
{
    let mut items: Vec<String> = Vec::new();
    let mut i: usize = 0;
    while i < ids.len()
        invariant
            i <= ids@.len(),
            items@.len() == i,
            forall|j: int| 0 <= j < i ==> #[trigger] items@[j]@ == json_object(
                seq![(seq!['i', 'd'], decimal(ids@[j] as nat))],
            ),
        decreases ids@.len() - i,
    {
        let key = String::from_str("id");
        proof {
            reveal_strlit("id");
        }
        assert(key@ =~= seq!['i', 'd']);
        let d = decimal_string(ids[i]);
        let ghost kv = (key@, d@);
        let mut one: Vec<(String, String)> = Vec::new();
        one.push((key, d));
        assert(one@.len() == 1);
        assert((one@[0].0@, one@[0].1@) == kv);
        let o = write_json_object(&one);
        assert(pair_views(one@) =~= seq![(seq!['i', 'd'], decimal(ids@[i as int] as nat))]);
        items.push(o);
        i = i + 1;
    }
    assert(string_views(items@) =~= id_texts(ids@).map_values(
        |t: Seq<char>| json_object(seq![(seq!['i', 'd'], t)]),
    ));
    write_json_array(&items)
}

/// One API call before signing: the endpoint and its parameter map, in order.
pub struct ApiCall {
    pub url: String,
    pub params: Vec<(String, String)>,
}

impl ApiCall {
    pub open spec fn url_view(&self) -> Seq<char> {
        self.url@
    }

    pub open spec fn params_view(&self) -> Seq<(Seq<char>, Seq<char>)> {
        pair_views(self.params@)
    }
}

fn endpoint(path: &str) -> (r: String)
    ensures
        r@ == BASE_URL@ + path@,
{
    String::from_str(BASE_URL).concat(path)
}

pub open spec fn song_url_params(ids: Seq<u64>) -> Seq<(Seq<char>, Seq<char>)> {
    seq![(KEY_IDS@, ids_number_array(ids)), (KEY_BITRATE@, BITRATE@)]
}

pub open spec fn song_detail_params(ids: Seq<u64>) -> Seq<(Seq<char>, Seq<char>)> {
    seq![(KEY_C@, ids_object_array(ids)), (KEY_IDS@, ids_string_array(ids))]
}

pub open spec fn program_detail_params(id: u64) -> Seq<(Seq<char>, Seq<char>)> {
    seq![(KEY_ID@, decimal(id as nat))]
}

/// The stream-URL lookup of some tracks, at the fixed bitrate.
pub fn song_url_call(ids: &Vec<u64>) -> (r: ApiCall)
    ensures
        r.url_view() == BASE_URL@ + SONG_URL_PATH@,
        r.params_view() == song_url_params(ids@),
{
    let mut params: Vec<(String, String)> = Vec::new();
    params.push((String::from_str(KEY_IDS), ids_array(ids)));
    params.push((String::from_str(KEY_BITRATE), String::from_str(BITRATE)));
    let r = ApiCall { url: endpoint(SONG_URL_PATH), params };
    assert(r.params_view() =~= song_url_params(ids@));
    r
}

/// The metadata lookup of some tracks.
pub fn song_detail_call(ids: &Vec<u64>) -> (r: ApiCall)
    ensures
        r.url_view() == BASE_URL@ + SONG_DETAIL_PATH@,
        r.params_view() == song_detail_params(ids@),
{
    let mut params: Vec<(String, String)> = Vec::new();
    params.push((String::from_str(KEY_C), ids_object_array_text(ids)));
    params.push((String::from_str(KEY_IDS), ids_string_array_text(ids)));
    let r = ApiCall { url: endpoint(SONG_DETAIL_PATH), params };
    assert(r.params_view() =~= song_detail_params(ids@));
    r
}

/// The detail lookup of a program.
pub fn program_detail_call(id: u64) -> (r: ApiCall)
    ensures
        r.url_view() == BASE_URL@ + PROGRAM_DETAIL_PATH@,
        r.params_view() == program_detail_params(id),
{
    let mut params: Vec<(String, String)> = Vec::new();
    params.push((String::from_str(KEY_ID), decimal_string(id)));
    let r = ApiCall { url: endpoint(PROGRAM_DETAIL_PATH), params };
    assert(r.params_view() =~= program_detail_params(id));
    r
}

/// Signs a parameter map: its JSON text goes through the signing scheme, and the two
/// results are returned as the form fields `params` and `encSecKey`.
pub fn crypto_params(params: &Vec<(String, String)>) -> (r: Vec<(String, String)>)
    ensures
        r@.len() == 2,
        r@[0].0@ == FIELD_PARAMS@,
        r@[1].0@ == FIELD_ENC_SEC_KEY@,
        exists|key: Seq<u8>|
            is_secret_key(key) && signed_by(
                json_object(pair_views(params@)),
                r@[0].1@,
                r@[1].1@,
                key,
            ),
{
    let text = write_json_object(params);
    let signed: SignedRequest = weapi(text.as_str());
    let mut out: Vec<(String, String)> = Vec::new();
    out.push((String::from_str(FIELD_PARAMS), signed.params));
    out.push((String::from_str(FIELD_ENC_SEC_KEY), signed.enc_sec_key));
    out
}

} // verus!
