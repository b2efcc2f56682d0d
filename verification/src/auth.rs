//! Credential digest derivation for the device login handshake.
//!
//! The device answers the first (unauthenticated) login call with a challenge
//! — an `encryption` mode, a `random` nonce and a `realm` string — and the
//! client answers with a credential string derived from the username and
//! password. `"Basic"` asks for base64 of `user:password`, `"Default"` for a
//! double-MD5 scheme keyed by realm and nonce, and any other mode passes the
//! password through unchanged.

use vstd::prelude::*;

use crate::strutil::{str_eq, string_push};

verus! {

use vstd::utf8::encode_utf8;
use vstd::string::StrSliceExecFns;
use vstd::string::StringExecFns;

/// The challenge issued by the device on the first login call.
pub struct AuthParam {
    pub encryption: String,
    pub random: String,
    pub realm: String,
}

/// The MD5 digest (16 bytes) of a byte sequence.
pub uninterp spec fn spec_md5_digest(data: Seq<u8>) -> Seq<u8>;

/// Relies on `md5::compute`: the digest of the input bytes, 16 bytes long,
/// a function of the input alone.
#[verifier::external_body]
fn md5_digest(data: &[u8]) -> (res: Vec<u8>)
    ensures
        res@ == spec_md5_digest(data@),
        res@.len() == 16,
{
    md5::compute(data).0.to_vec()
}

/// The standard (padded) base64 encoding of a byte sequence.
pub uninterp spec fn spec_base64(data: Seq<u8>) -> Seq<char>;

/// Relies on `base64::engine::general_purpose::STANDARD.encode`: the standard
/// base64 encoding with padding, a function of the input alone.
#[verifier::external_body]
fn base64_encode(data: &[u8]) -> (res: String)
    ensures
        res@ == spec_base64(data@),
{
    base64::engine::Engine::encode(&base64::engine::general_purpose::STANDARD, data)
}

/// Relies on `str::as_bytes` via vstd's spec: hands the UTF-8 bytes of a
/// string to callers as an owned vector.
fn str_bytes(s: &str) -> (res: Vec<u8>)
    ensures
        res@ == encode_utf8(s@),
{
    s.as_bytes_vec()
}

pub open spec fn spec_hex_upper_char(d: nat) -> char {
    if d == 0 {
        '0'
    } else if d == 1 {
        '1'
    } else if d == 2 {
        '2'
    } else if d == 3 {
        '3'
    } else if d == 4 {
        '4'
    } else if d == 5 {
        '5'
    } else if d == 6 {
        '6'
    } else if d == 7 {
        '7'
    } else if d == 8 {
        '8'
    } else if d == 9 {
        '9'
    } else if d == 10 {
        'A'
    } else if d == 11 {
        'B'
    } else if d == 12 {
        'C'
    } else if d == 13 {
        'D'
    } else if d == 14 {
        'E'
    } else {
        'F'
    }
}

/// Upper-case hexadecimal rendering of a byte sequence, two digits per byte.
pub open spec fn spec_hex_upper(data: Seq<u8>) -> Seq<char>
    decreases data.len(),
{
    if data.len() == 0 {
        seq![]
    } else {
        seq![
            spec_hex_upper_char((data.first() / 16) as nat),
            spec_hex_upper_char((data.first() % 16) as nat),
        ] + spec_hex_upper(data.drop_first())
    }
}

fn hex_upper_char(d: u8) -> (c: char)
    requires
        d < 16,
    ensures
        c == spec_hex_upper_char(d as nat),
{
    match d {
        0 => '0',
        1 => '1',
        2 => '2',
        3 => '3',
        4 => '4',
        5 => '5',
        6 => '6',
        7 => '7',
        8 => '8',
        9 => '9',
        10 => 'A',
        11 => 'B',
        12 => 'C',
        13 => 'D',
        14 => 'E',
        _ => 'F',
    }
}

/// Renders bytes as upper-case hex, two digits per byte.
pub fn hex_upper(data: &Vec<u8>) -> (res: String)
    ensures
        res@ == spec_hex_upper(data@),
{
    let mut res = String::new();
    let n = data.len();
    assert(data@.skip(0) == data@);
    for i in 0..n
        invariant
            n == data@.len(),
            spec_hex_upper(data@) =~= res@ + spec_hex_upper(data@.skip(i as int)),
    {
        let b = data[i];
        string_push(&mut res, hex_upper_char(b / 16));
        string_push(&mut res, hex_upper_char(b % 16));
        assert(data@.skip(i as int).drop_first() == data@.skip(i + 1));
    }
    res
}

/// The `"Default"` digest: upper-case-hex MD5 of
/// `user:random:UPPERHEX(MD5(user:realm:password))`.
pub open spec fn spec_default_digest(
    username: Seq<char>,
    password: Seq<char>,
    random: Seq<char>,
    realm: Seq<char>,
) -> Seq<char> {
    let inner = spec_hex_upper(
        spec_md5_digest(encode_utf8(username + seq![':'] + realm + seq![':'] + password)),
    );
    spec_hex_upper(spec_md5_digest(encode_utf8(username + seq![':'] + random + seq![':'] + inner)))
}

/// What `get_auth` returns for each challenge.
pub open spec fn spec_get_auth(
    username: Seq<char>,
    password: Seq<char>,
    param: AuthParam,
) -> Seq<char> {
    if param.encryption@ == "Basic"@ {
        spec_base64(encode_utf8(username + seq![':'] + password))
    } else if param.encryption@ == "Default"@ {
        spec_default_digest(username, password, param.random@, param.realm@)
    } else {
        password
    }
}

fn join3(a: &str, b: &str, c: &str) -> (res: String)
    ensures
        res@ == a@ + seq![':'] + b@ + seq![':'] + c@,
{
    let mut res = String::new();
    res.append(a);
    string_push(&mut res, ':');
    res.append(b);
    string_push(&mut res, ':');
    res.append(c);
    assert(res@ =~= a@ + seq![':'] + b@ + seq![':'] + c@);
    res
}

/// Derives the credential string for the second login call from the
/// username, password and the device's challenge. Total: malformed challenge
/// fields simply select the pass-through branch or flow into the digest.
pub fn get_auth(username: &str, password: &str, param: &AuthParam) -> (res: String)
    ensures
        res@ == spec_get_auth(username@, password@, *param),
{
    if str_eq(param.encryption.as_str(), "Basic") {
        let mut joined = String::new();
        joined.append(username);
        string_push(&mut joined, ':');
        joined.append(password);
        assert(joined@ =~= username@ + seq![':'] + password@);
        base64_encode(str_bytes(joined.as_str()).as_slice())
    } else if str_eq(param.encryption.as_str(), "Default") {
        let inner_src = join3(username, param.realm.as_str(), password);
        let inner = hex_upper(&md5_digest(str_bytes(inner_src.as_str()).as_slice()));
        let outer_src = join3(username, param.random.as_str(), inner.as_str());
        hex_upper(&md5_digest(str_bytes(outer_src.as_str()).as_slice()))
    } else {
        String::from_str(password)
    }
}

} // verus!
