//! The node's JSON-RPC interface, as far as it is decided here: which
//! credentials and port to use, the request body, what a reply amounts to,
//! and the chain state read from `getblockchaininfo`.

use crate::sync::node_synced;
use crate::sync::node_synced_spec;
use crate::text::{
    after_prefix, chars_of, find_char, find_first, parse_unsigned, parse_unsigned_range,
    pieces_at, range_starts_with, split_bounds, split_on, starts_with, trim, trim_bounds,
};
use vstd::prelude::*;
use vstd::string::StringExecFns;

verus! {

/// The port used when the configuration names none, or none that reads.
pub const DEFAULT_RPC_PORT: u16 = 8332;

/// The credentials used when neither a cookie nor the configuration gives any.
pub const FALLBACK_USER: &'static str = "bitcoin";

pub const FALLBACK_PASSWORD: &'static str = "bitcoinrpc";

/// A lower-case hexadecimal digit (`d` from 0 to 15).
pub open spec fn hex_digit(d: int) -> char {
    if d < 10 {
        if d == 0 { '0' } else if d == 1 { '1' } else if d == 2 { '2' } else if d == 3 { '3' }
        else if d == 4 { '4' } else if d == 5 { '5' } else if d == 6 { '6' } else if d == 7 { '7' }
        else if d == 8 { '8' } else { '9' }
    } else {
        if d == 10 { 'a' } else if d == 11 { 'b' } else if d == 12 { 'c' } else if d == 13 { 'd' }
        else if d == 14 { 'e' } else { 'f' }
    }
}

/// How one character is written inside a JSON string: the quote and the
/// backslash are escaped, backspace, tab, line feed, form feed and carriage
/// return by their short escapes, other control characters as `\u00xx`, and
/// everything else as itself.
pub open spec fn json_escape(c: char) -> Seq<char> {
    let u = c as u32;
    if c == '"' {
        seq!['\\', '"']
    } else if c == '\\' {
        seq!['\\', '\\']
    } else if u == 8 {
        seq!['\\', 'b']
    } else if u == 9 {
        seq!['\\', 't']
    } else if u == 10 {
        seq!['\\', 'n']
    } else if u == 12 {
        seq!['\\', 'f']
    } else if u == 13 {
        seq!['\\', 'r']
    } else if u < 0x20 {
        seq!['\\', 'u', '0', '0', hex_digit(u as int / 16), hex_digit(u as int % 16)]
    } else {
        seq![c]
    }
}

/// The characters of `s`, each written as [`json_escape`] says.
pub open spec fn json_escaped(s: Seq<char>) -> Seq<char>
    decreases s.len(),
{
    if s.len() == 0 {
        Seq::<char>::empty()
    } else {
        json_escaped(s.drop_last()) + json_escape(s.last())
    }
}

/// The text of `s` as a JSON string literal: quoted and escaped.
pub open spec fn json_string_text(s: Seq<char>) -> Seq<char> {
    seq!['"'] + json_escaped(s) + seq!['"']
}

/// Relies on `serde_json::to_string` for a `str`: it writes the JSON string
/// literal for `s` (`format_escaped_str` with its `ESCAPE` table and
/// `write_char_escape`) into a `Vec`, which cannot fail, so the error arm is
/// never taken.
#[verifier::external_body]
fn json_string(s: &str) -> (r: String)
    ensures
        r@ == json_string_text(s@),
{
    match serde_json::to_string(s) {
        Ok(t) => t,
        Err(_) => String::new(),
    }
}

/// A configuration line sets `key` (which ends in `=`).
pub open spec fn sets_key(line: Seq<char>, key: Seq<char>) -> bool {
    starts_with(trim(line), key)
}

/// The value that such a line gives, trimmed.
pub open spec fn key_value(line: Seq<char>, key: Seq<char>) -> Seq<char> {
    trim(after_prefix(trim(line), key))
}

/// The value of the first line among `lines` that sets `key`.
pub open spec fn first_setting(lines: Seq<Seq<char>>, key: Seq<char>) -> Option<Seq<char>>
    decreases lines.len(),
{
    if lines.len() == 0 {
        None
    } else if sets_key(lines[0], key) {
        Some(key_value(lines[0], key))
    } else {
        first_setting(lines.drop_first(), key)
    }
}

/// The value of the last line among `lines` that sets `key`.
pub open spec fn last_setting(lines: Seq<Seq<char>>, key: Seq<char>) -> Option<Seq<char>>
    decreases lines.len(),
{
    if lines.len() == 0 {
        None
    } else if sets_key(lines.last(), key) {
        Some(key_value(lines.last(), key))
    } else {
        last_setting(lines.drop_last(), key)
    }
}

pub open spec fn conf_lines(conf: Seq<char>) -> Seq<Seq<char>> {
    split_on(conf, '\n')
}

/// The port of the first `rpcport=` line, if that line holds a port number.
pub open spec fn rpc_port_spec(conf: Seq<char>) -> Option<int> {
    match first_setting(conf_lines(conf), "rpcport="@) {
        Some(v) => parse_unsigned(v, u16::MAX as int),
        None => None,
    }
}

/// The last `rpcuser=` and the last `rpcpassword=` values, when both are there.
pub open spec fn static_credentials_spec(conf: Seq<char>) -> Option<(Seq<char>, Seq<char>)> {
    match (
        last_setting(conf_lines(conf), "rpcuser="@),
        last_setting(conf_lines(conf), "rpcpassword="@),
    ) {
        (Some(u), Some(p)) => Some((u, p)),
        _ => None,
    }
}

/// A cookie file holds `user:password`: the trimmed contents split at the
/// first colon.
pub open spec fn cookie_spec(contents: Seq<char>) -> Option<(Seq<char>, Seq<char>)> {
    let t = trim(contents);
    match find_first(t, ':') {
        Some(i) => Some((t.take(i), t.subrange(i + 1, t.len() as int))),
        None => None,
    }
}

pub open spec fn opt_cookie_spec(contents: Option<&str>) -> Option<(Seq<char>, Seq<char>)> {
    match contents {
        Some(c) => cookie_spec(c@),
        None => None,
    }
}

/// The RPC port for a configuration text, if the configuration was read.
pub open spec fn port_spec(conf: Option<&str>) -> int {
    match conf {
        Some(c) => match rpc_port_spec(c@) {
            Some(p) => p,
            None => DEFAULT_RPC_PORT as int,
        },
        None => DEFAULT_RPC_PORT as int,
    }
}

/// The user and password chosen, first match wins: the data directory's
/// cookie, the `mainnet` cookie, the configuration's static credentials,
/// and the fallback pair.
pub open spec fn credentials_spec(
    cookie: Option<&str>,
    mainnet_cookie: Option<&str>,
    conf: Option<&str>,
) -> (Seq<char>, Seq<char>) {
    if let Some(p) = opt_cookie_spec(cookie) {
        p
    } else if let Some(p) = opt_cookie_spec(mainnet_cookie) {
        p
    } else if let Some(p) = (match conf {
        Some(c) => static_credentials_spec(c@),
        None => None,
    }) {
        p
    } else {
        (FALLBACK_USER@, FALLBACK_PASSWORD@)
    }
}

/// Credentials and port for the node's RPC interface.
#[derive(Debug, Clone)]
pub struct RpcAuth {
    pub user: String,
    pub password: String,
    pub port: u16,
}

/// The bounds of the value that `v[lo..hi]` gives for `key`, if it sets `key`.
fn setting_in_line(v: &Vec<char>, lo: usize, hi: usize, key: &Vec<char>) -> (r: Option<
    (usize, usize),
>)
    requires
        lo <= hi <= v.len(),
    ensures
        match r {
            Some(b) => sets_key(v@.subrange(lo as int, hi as int), key@) && b.0 <= b.1 <= v.len()
                && v@.subrange(b.0 as int, b.1 as int) == key_value(
                v@.subrange(lo as int, hi as int),
                key@,
            ),
            None => !sets_key(v@.subrange(lo as int, hi as int), key@),
        },
{
    let (a, b) = trim_bounds(v, lo, hi);
    if !range_starts_with(v, a, b, key) {
        return None;
    }
    assert(after_prefix(v@.subrange(a as int, b as int), key@) =~= v@.subrange(
        a + key.len(),
        b as int,
    ));
    let (c, d) = trim_bounds(v, a + key.len(), b);
    Some((c, d))
}

/// The port that the first `rpcport=` line of a configuration text names.
pub fn rpc_port_from_conf(conf: &str) -> (r: Option<u16>)
    ensures
        match r {
            Some(p) => rpc_port_spec(conf@) == Some(p as int),
            None => rpc_port_spec(conf@) is None,
        },
{
    let v = chars_of(conf);
    let bounds = split_bounds(&v, '\n');
    let key = chars_of("rpcport=");
    let ghost lines = pieces_at(v@, bounds@);
    assert(lines.subrange(0, lines.len() as int) =~= lines);
    let mut k: usize = 0;
    while k < bounds.len()
        invariant
            k <= bounds.len(),
            lines == pieces_at(v@, bounds@),
            lines == conf_lines(conf@),
            key@ == "rpcport="@,
            forall|j: int| 0 <= j < bounds.len() ==> (#[trigger] bounds@[j]).0 <= bounds@[j].1 <= v.len(),
            first_setting(lines, key@) == first_setting(lines.subrange(k as int, lines.len() as int), key@),
        decreases bounds.len() - k,
    {
        let (lo, hi) = bounds[k];
        let ghost rest = lines.subrange(k as int, lines.len() as int);
        assert(rest[0] == v@.subrange(lo as int, hi as int));
        assert(rest.drop_first() =~= lines.subrange(k + 1, lines.len() as int));
        match setting_in_line(&v, lo, hi, &key) {
            Some((a, b)) => {
                return match parse_unsigned_range(&v, a, b, u16::MAX as u64) {
                    Some(p) => Some(p as u16),
                    None => None,
                };
            },
            None => {},
        }
        k = k + 1;
    }
    None
}

/// The bounds of the value of the last line of `v` that sets `key`.
fn last_setting_bounds(v: &Vec<char>, bounds: &Vec<(usize, usize)>, key: &Vec<char>) -> (r: Option<
    (usize, usize),
>)
    requires
        forall|j: int| 0 <= j < bounds.len() ==> (#[trigger] bounds@[j]).0 <= bounds@[j].1 <= v.len(),
    ensures
        match r {
            Some(b) => b.0 <= b.1 <= v.len() && last_setting(pieces_at(v@, bounds@), key@) == Some(
                v@.subrange(b.0 as int, b.1 as int),
            ),
            None => last_setting(pieces_at(v@, bounds@), key@) is None,
        },
{
    let ghost lines = pieces_at(v@, bounds@);
    let mut found: Option<(usize, usize)> = None;
    let mut k: usize = 0;
    while k < bounds.len()
        invariant
            k <= bounds.len(),
            lines == pieces_at(v@, bounds@),
            forall|j: int| 0 <= j < bounds.len() ==> (#[trigger] bounds@[j]).0 <= bounds@[j].1 <= v.len(),
            match found {
                Some(b) => b.0 <= b.1 <= v.len() && last_setting(lines.take(k as int), key@) == Some(
                    v@.subrange(b.0 as int, b.1 as int),
                ),
                None => last_setting(lines.take(k as int), key@) is None,
            },
        decreases bounds.len() - k,
    {
        let (lo, hi) = bounds[k];
        let ghost t = lines.take(k + 1);
        assert(t.drop_last() =~= lines.take(k as int));
        assert(t.last() == v@.subrange(lo as int, hi as int));
        match setting_in_line(v, lo, hi, key) {
            Some(b) => {
                found = Some(b);
            },
            None => {},
        }
        k = k + 1;
    }
    assert(lines.take(bounds.len() as int) =~= lines);
    found
}

/// The last `rpcuser=` and `rpcpassword=` values of a configuration text,
/// when it has both.
pub fn static_credentials_from_conf(conf: &str) -> (r: Option<(String, String)>)
    ensures
        match r {
            Some(c) => static_credentials_spec(conf@) == Some((c.0@, c.1@)),
            None => static_credentials_spec(conf@) is None,
        },
{
    let v = chars_of(conf);
    let bounds = split_bounds(&v, '\n');
    let user_key = chars_of("rpcuser=");
    let pass_key = chars_of("rpcpassword=");
    match (last_setting_bounds(&v, &bounds, &user_key), last_setting_bounds(&v, &bounds, &pass_key)) {
        (Some((a, b)), Some((c, d))) => {
            let u = conf.substring_char(a, b).to_owned();
            let p = conf.substring_char(c, d).to_owned();
            Some((u, p))
        },
        _ => None,
    }
}

/// The `user:password` pair in a cookie file's contents.
pub fn cookie_credentials(contents: &str) -> (r: Option<(String, String)>)
    ensures
        match r {
            Some(c) => cookie_spec(contents@) == Some((c.0@, c.1@)),
            None => cookie_spec(contents@) is None,
        },
{
    let v = chars_of(contents);
    let (a, b) = trim_bounds(&v, 0, v.len());
    assert(v@.subrange(0, v@.len() as int) =~= v@);
    let ghost t = v@.subrange(a as int, b as int);
    match find_char(&v, a, b, ':') {
        Some(i) => {
            let u = contents.substring_char(a, a + i).to_owned();
            let p = contents.substring_char(a + i + 1, b).to_owned();
            assert(t.take(i as int) =~= v@.subrange(a as int, a + i));
            assert(t.subrange(i + 1, t.len() as int) =~= v@.subrange(a + i + 1, b as int));
            Some((u, p))
        },
        None => None,
    }
}

fn opt_cookie(contents: Option<&str>) -> (r: Option<(String, String)>)
    ensures
        match r {
            Some(c) => opt_cookie_spec(contents) == Some((c.0@, c.1@)),
            None => opt_cookie_spec(contents) is None,
        },
{
    match contents {
        Some(c) => cookie_credentials(c),
        None => None,
    }
}

impl RpcAuth {
    /// Resolves credentials and port from what the data directory holds: the
    /// contents of `.cookie`, of `mainnet/.cookie` and of `bitcoin.conf`,
    /// each `None` where the file could not be read.
    pub fn from_sources(cookie: Option<&str>, mainnet_cookie: Option<&str>, conf: Option<&str>) -> (r: RpcAuth)
        ensures
            (r.user@, r.password@) == credentials_spec(cookie, mainnet_cookie, conf),
            r.port as int == port_spec(conf),
    {
        let port = match conf {
            Some(c) => match rpc_port_from_conf(c) {
                Some(p) => p,
                None => DEFAULT_RPC_PORT,
            },
            None => DEFAULT_RPC_PORT,
        };
        if let Some((user, password)) = opt_cookie(cookie) {
            return RpcAuth { user, password, port };
        }
        if let Some((user, password)) = opt_cookie(mainnet_cookie) {
            return RpcAuth { user, password, port };
        }
        let stat = match conf {
            Some(c) => static_credentials_from_conf(c),
            None => None,
        };
        if let Some((user, password)) = stat {
            return RpcAuth { user, password, port };
        }
        RpcAuth { user: FALLBACK_USER.to_owned(), password: FALLBACK_PASSWORD.to_owned(), port }
    }
}

/// Why an RPC call failed.
#[derive(Debug)]
pub enum RpcError {
    /// The node answered 401: the credentials are wrong or the cookie is stale.
    AuthenticationFailed,
    /// The node could not be reached, or the request could not be sent.
    Transport(String),
    /// The reply could not be read as a JSON-RPC reply.
    Malformed(String),
    /// The node returned this error payload (as JSON text).
    Node(String),
    /// The reply holds neither an error nor a result.
    EmptyResult,
}

/// The JSON-RPC 1.0 request body for a call of `method` with `params`,
/// which is already JSON text.
pub open spec fn request_body_spec(method: Seq<char>, params: Seq<char>) -> Seq<char> {
    "{\"jsonrpc\":\"1.0\",\"id\":\"bnm\",\"method\":"@ + json_string_text(method)
        + ",\"params\":"@ + params + "}"@
}

/// The request body for calling `method` with `params` (JSON text, such as
/// `[]`).
pub fn request_body(method: &str, params: &str) -> (r: String)
    ensures
        r@ == request_body_spec(method@, params@),
{
    let m = json_string(method);
    let mut body = "{\"jsonrpc\":\"1.0\",\"id\":\"bnm\",\"method\":".to_owned();
    body.append(m.as_str());
    body.append(",\"params\":");
    body.append(params);
    body.append("}");
    body
}

/// What a reply comes to: its HTTP status, and its `error` and `result`
/// members (each `None` where absent or null), or why the body could not be
/// read. A 401 status means failed authentication whatever the body; then an
/// unreadable body, then an error member, take precedence over the result.
pub fn interpret_reply<T>(status: u16, body: Result<(Option<String>, Option<T>), String>) -> (r: Result<T, RpcError>)
    ensures
        status == 401 ==> r matches Err(RpcError::AuthenticationFailed),
        status != 401 ==> match body {
            Err(e) => r matches Err(RpcError::Malformed(m)) && m == e,
            Ok((Some(e), _)) => r matches Err(RpcError::Node(m)) && m == e,
            Ok((None, Some(v))) => r == Ok::<T, RpcError>(v),
            Ok((None, None)) => r matches Err(RpcError::EmptyResult),
        },
{
    if status == 401 {
        return Err(RpcError::AuthenticationFailed);
    }
    match body {
        Err(e) => Err(RpcError::Malformed(e)),
        Ok((Some(e), _)) => Err(RpcError::Node(e)),
        Ok((None, Some(v))) => Ok(v),
        Ok((None, None)) => Err(RpcError::EmptyResult),
    }
}

/// A snapshot of the node's chain state from one `getblockchaininfo` reply.
#[derive(Debug, Clone)]
pub struct BlockchainInfo {
    pub blocks: u64,
    pub headers: u64,
    /// Verification progress in billionths (see `PROGRESS_SCALE`).
    pub verification_progress: u64,
    pub chain: String,
    pub initial_block_download: bool,
}

impl BlockchainInfo {
    /// Builds the snapshot from the reply's fields, each `None` where missing
    /// or of the wrong type: counts and progress then read 0, the chain name
    /// is empty, and the node is taken to be still downloading.
    pub fn from_fields(
        blocks: Option<u64>,
        headers: Option<u64>,
        verification_progress: Option<u64>,
        chain: Option<String>,
        initial_block_download: Option<bool>,
    ) -> (r: BlockchainInfo)
        ensures
            r.blocks == (match blocks { Some(b) => b, None => 0 }),
            r.headers == (match headers { Some(h) => h, None => 0 }),
            r.verification_progress == (match verification_progress { Some(p) => p, None => 0 }),
            r.chain@ == (match chain { Some(c) => c@, None => Seq::<char>::empty() }),
            r.initial_block_download == (match initial_block_download { Some(d) => d, None => true }),
    {
        BlockchainInfo {
            blocks: match blocks { Some(b) => b, None => 0 },
            headers: match headers { Some(h) => h, None => 0 },
            verification_progress: match verification_progress { Some(p) => p, None => 0 },
            chain: match chain { Some(c) => c, None => String::new() },
            initial_block_download: match initial_block_download { Some(d) => d, None => true },
        }
    }

    /// Whether this snapshot shows a fully synced node.
    pub fn is_synced(&self) -> (r: bool)
        ensures
            r == node_synced_spec(self.headers as int, self.blocks as int, self.verification_progress as int),
    {
        node_synced(self.headers, self.blocks, self.verification_progress)
    }
}

} // verus!
