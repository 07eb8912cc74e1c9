//! The locally remembered credential record and its store.
//!
//! A credential is persisted as a JSON document with the fixed schema
//! `{"username": string, "display_name": string, "token": string}` inside a
//! fixed-name file of the application directory.  The store is specified
//! over the content of that file; the host application moves the bytes
//! between [`AppDir`] and the real file system.

use vstd::prelude::*;

verus! {

use vstd::string::StrSliceExecFns;
use vstd::utf8::{decode_utf8, encode_utf8, valid_utf8};

use crate::errors::Error;
use crate::json::{
    esc, esc_char, expect_lit, hex_char, parse_string_body, push_char, spec_expect,
    spec_parse_str, lemma_expect_concat, lemma_parse_str_esc,
};

// ---------------------------------------------------------------------------
// Paths
// ---------------------------------------------------------------------------

/// The path of the credential file inside an application directory: the
/// fixed name `config.json` under the given directory.
pub fn get_config_directory(program_directory: &str) -> (r: String)
    ensures
        r@ == program_directory@ + "/config.json"@,
{
    String::from_str(program_directory).concat("/config.json")
}

/// The application directory under a home directory.
pub fn app_data_directory(home: &str) -> (r: String)
    ensures
        r@ == home@ + "/.local/share/RustTwitchChat"@,
{
    String::from_str(home).concat("/.local/share/RustTwitchChat")
}

// ---------------------------------------------------------------------------
// The credential record
// ---------------------------------------------------------------------------

/// The mathematical value of a credential: the three field contents.
pub struct ConfigV {
    pub username: Seq<char>,
    pub display_name: Seq<char>,
    pub token: Seq<char>,
}

/// The locally remembered identity: who is logged in and with which token.
pub struct Config {
    username: String,
    display_name: String,
    token: String,
}

impl View for Config {
    type V = ConfigV;

    closed spec fn view(&self) -> ConfigV {
        ConfigV {
            username: self.username@,
            display_name: self.display_name@,
            token: self.token@,
        }
    }
}

impl Config {
    pub fn new(username: String, display_name: String, token: String) -> (r: Self)
        ensures
            r@ == (ConfigV { username: username@, display_name: display_name@, token: token@ }),
    {
        Config { username, display_name, token }
    }

    pub fn get_token(&self) -> (r: String)
        ensures
            r@ == self@.token,
    {
        self.token.clone()
    }

    pub fn get_username(&self) -> (r: String)
        ensures
            r@ == self@.username,
    {
        self.username.clone()
    }

    pub fn get_display_name(&self) -> (r: String)
        ensures
            r@ == self@.display_name,
    {
        self.display_name.clone()
    }
}

// ---------------------------------------------------------------------------
// The document codec
// ---------------------------------------------------------------------------

/// The canonical document that stores a credential.
pub open spec fn spec_encode_config(c: ConfigV) -> Seq<char> {
    "{\"username\":\""@ + esc(c.username) + "\",\"display_name\":\""@ + esc(c.display_name)
        + "\",\"token\":\""@ + esc(c.token) + "\"}"@
}

/// The rest of a credential document once `username` (and, if present,
/// `display_name`) has been read: the `token` member and the closing brace.
pub open spec fn spec_parse_config_tail(s: Seq<char>, u: Seq<char>, d: Seq<char>) -> Option<
    ConfigV,
> {
    match spec_expect(s, ",\"token\":\""@) {
        None => None,
        Some(s5) => match spec_parse_str(s5) {
            None => None,
            Some((t, s6)) => match spec_expect(s6, "}"@) {
                None => None,
                Some(s7) => if s7.len() == 0 {
                    Some(ConfigV { username: u, display_name: d, token: t })
                } else {
                    None
                },
            },
        },
    }
}

/// The decoder for the credential schema: accepts the canonical documents
/// and recovers the fields.  The `display_name` member is optional; a
/// document without it yields a credential whose display name is empty.
pub open spec fn spec_parse_config(s: Seq<char>) -> Option<ConfigV> {
    match spec_expect(s, "{\"username\":\""@) {
        None => None,
        Some(s1) => match spec_parse_str(s1) {
            None => None,
            Some((u, s2)) => match spec_expect(s2, ",\"display_name\":\""@) {
                Some(s3) => match spec_parse_str(s3) {
                    None => None,
                    Some((d, s4)) => spec_parse_config_tail(s4, u, d),
                },
                None => spec_parse_config_tail(s2, u, Seq::empty()),
            },
        },
    }
}

/// Escaping distributes over appending one character at the end.
proof fn lemma_esc_snoc(a: Seq<char>, c: char)
    ensures
        esc(a.push(c)) == esc(a) + esc_char(c),
    decreases a.len(),
{
    if a.len() == 0 {
        assert(a.push(c)[0] == c);
        assert(a.push(c).drop_first() =~= Seq::<char>::empty());
        assert(esc(Seq::<char>::empty()) =~= Seq::<char>::empty());
        assert(esc(a.push(c)) == esc_char(c) + esc(a.push(c).drop_first()));
        assert(esc(a) =~= Seq::<char>::empty());
        assert(esc(a.push(c)) =~= esc(a) + esc_char(c));
    } else {
        lemma_esc_snoc(a.drop_first(), c);
        assert(a.push(c)[0] == a[0]);
        assert(a.push(c).drop_first() =~= a.drop_first().push(c));
        assert(esc(a.push(c)) =~= esc(a) + esc_char(c));
    }
}

/// Append the escaped form of `t` to `out`.
fn append_escaped(out: &mut String, t: &str, tn: usize)
    requires
        tn == t@.len(),
    ensures
        final(out)@ == old(out)@ + esc(t@),
{
    let mut i: usize = 0;
    proof {
        assert(t@.take(0) =~= Seq::<char>::empty());
        assert(old(out)@ + esc(t@.take(0)) =~= old(out)@);
    }
    while i < tn
        invariant
            tn == t@.len(),
            i <= tn,
            out@ == old(out)@ + esc(t@.take(i as int)),
        decreases tn - i,
    {
        let c = t.get_char(i);
        if c == '"' {
            out.append("\\\"");
            proof {
                reveal_strlit("\\\"");
                assert(esc_char(c) =~= "\\\""@);
            }
        } else if c == '\\' {
            out.append("\\\\");
            proof {
                reveal_strlit("\\\\");
                assert(esc_char(c) =~= "\\\\"@);
            }
        } else if (c as u32) < 32 {
            let u = c as u32;
            let hi = (u / 16) as u8;
            let lo = (u % 16) as u8;
            let hc_hi: char = if hi < 10 {
                (48 + hi) as char
            } else {
                (87 + hi) as char
            };
            let hc_lo: char = if lo < 10 {
                (48 + lo) as char
            } else {
                (87 + lo) as char
            };
            out.append("\\u00");
            push_char(out, hc_hi);
            push_char(out, hc_lo);
            proof {
                reveal_strlit("\\u00");
                assert(hc_hi == hex_char(c as u32 / 16));
                assert(hc_lo == hex_char(c as u32 % 16));
                assert(esc_char(c) =~= "\\u00"@ + seq![hc_hi] + seq![hc_lo]);
            }
        } else {
            push_char(out, c);
        }
        proof {
            lemma_esc_snoc(t@.take(i as int), c);
            assert(t@.take(i as int).push(c) =~= t@.take(i as int + 1));
        }
        i += 1;
    }
    proof {
        assert(t@.take(tn as int) =~= t@);
    }
}

/// Encode a credential as its canonical document.
pub fn encode_config(c: &Config) -> (r: String)
    ensures
        r@ == spec_encode_config(c@),
{
    let mut out = String::new();
    out.append("{\"username\":\"");
    let un = c.username.as_str().unicode_len();
    append_escaped(&mut out, c.username.as_str(), un);
    out.append("\",\"display_name\":\"");
    let dn = c.display_name.as_str().unicode_len();
    append_escaped(&mut out, c.display_name.as_str(), dn);
    out.append("\",\"token\":\"");
    let tn = c.token.as_str().unicode_len();
    append_escaped(&mut out, c.token.as_str(), tn);
    out.append("\"}");
    out
}

/// Scan the `token` member and the closing brace, completing a credential
/// whose other fields are already known.
fn parse_config_tail(s: &str, n: usize, pos: usize, username: String, display_name: String) -> (r:
    Result<Config, Error>)
    requires
        n == s@.len(),
        pos <= n,
    ensures
        match spec_parse_config_tail(s@.skip(pos as int), username@, display_name@) {
            Some(cv) => r matches Ok(c) && c@ == cv,
            None => r == Err::<Config, Error>(Error::DecodeError),
        },
{
    proof {
        reveal_strlit(",\"token\":\"");
        reveal_strlit("}");
    }
    let p5 = match expect_lit(s, n, pos, ",\"token\":\"", 10) {
        Some(p) => p,
        None => {
            return Err(Error::DecodeError);
        },
    };
    let (token, p6) = match parse_string_body(s, n, p5) {
        Some(t) => t,
        None => {
            return Err(Error::DecodeError);
        },
    };
    let p7 = match expect_lit(s, n, p6, "}", 1) {
        Some(p) => p,
        None => {
            return Err(Error::DecodeError);
        },
    };
    if p7 != n {
        assert(s@.skip(p7 as int).len() != 0);
        return Err(Error::DecodeError);
    }
    assert(s@.skip(p7 as int) =~= Seq::<char>::empty());
    Ok(Config { username, display_name, token })
}

/// Decode a credential document; every input outside the schema is a
/// `DecodeError`.  A document without the optional `display_name` member
/// decodes to a credential with an empty display name.
pub fn parse_config(s: &str) -> (r: Result<Config, Error>)
    ensures
        match spec_parse_config(s@) {
            Some(cv) => r matches Ok(c) && c@ == cv,
            None => r == Err::<Config, Error>(Error::DecodeError),
        },
{
    let n = s.unicode_len();
    proof {
        assert(s@.skip(0) =~= s@);
        reveal_strlit("{\"username\":\"");
        reveal_strlit(",\"display_name\":\"");
    }
    let p1 = match expect_lit(s, n, 0, "{\"username\":\"", 13) {
        Some(p) => p,
        None => {
            return Err(Error::DecodeError);
        },
    };
    let (username, p2) = match parse_string_body(s, n, p1) {
        Some(t) => t,
        None => {
            return Err(Error::DecodeError);
        },
    };
    match expect_lit(s, n, p2, ",\"display_name\":\"", 17) {
        Some(p3) => {
            let (display_name, p4) = match parse_string_body(s, n, p3) {
                Some(t) => t,
                None => {
                    return Err(Error::DecodeError);
                },
            };
            parse_config_tail(s, n, p4, username, display_name)
        },
        None => {
            let display_name = String::new();
            assert(display_name@ =~= Seq::<char>::empty());
            parse_config_tail(s, n, p2, username, display_name)
        },
    }
}

// ---------------------------------------------------------------------------
// The store
// ---------------------------------------------------------------------------

/// The content of the application directory as far as the store is
/// concerned: the bytes of the credential file, or nothing when the file is
/// absent.  The host application fills this from disk before calling the
/// store and writes the result back afterwards.
pub struct AppDir {
    file: Option<Vec<u8>>,
}

impl View for AppDir {
    type V = Option<Seq<u8>>;

    closed spec fn view(&self) -> Option<Seq<u8>> {
        match self.file {
            Some(v) => Some(v@),
            None => None,
        }
    }
}

impl AppDir {
    /// A directory in which no credential file exists.
    pub fn empty() -> (r: Self)
        ensures
            r@ is None,
    {
        AppDir { file: None }
    }

    /// A directory whose credential file holds the given bytes, or has no
    /// credential file at all.
    pub fn new(file: Option<Vec<u8>>) -> (r: Self)
        ensures
            r@ == file.deep_view(),
    {
        AppDir { file }
    }

    /// The bytes of the credential file, for the host to write back to disk.
    pub fn contents(&self) -> (r: &Option<Vec<u8>>)
        ensures
            r.deep_view() == self@,
    {
        &self.file
    }
}

/// What loading yields from a given file state: no file is an `IOError`;
/// bytes outside UTF-8 or outside the schema are a `DecodeError`.
pub open spec fn spec_load(d: Option<Seq<u8>>) -> Result<ConfigV, Error> {
    match d {
        None => Err(Error::IOError),
        Some(bytes) => if !valid_utf8(bytes) {
            Err(Error::DecodeError)
        } else {
            match spec_parse_config(decode_utf8(bytes)) {
                Some(c) => Ok(c),
                None => Err(Error::DecodeError),
            }
        },
    }
}

/// Relies on `core::str::from_utf8`: succeeds exactly on valid UTF-8 input,
/// returning the string those bytes encode.
#[verifier::external_body]
fn utf8_to_str(v: &[u8]) -> (r: Option<&str>)
    ensures
        match r {
            Some(t) => valid_utf8(v@) && t@ == decode_utf8(v@),
            None => !valid_utf8(v@),
        },
{
    core::str::from_utf8(v).ok()
}

impl Config {
    /// True exactly when the credential file is present.
    pub fn exists_in(dir: &AppDir) -> (r: bool)
        ensures
            r == (dir@ is Some),
    {
        dir.file.is_some()
    }

    /// Replace the credential file with the canonical document for `self`.
    /// The record is encoded in full before the file state changes, so a
    /// credential is never partially written; a failure while the host
    /// flushes the bytes to disk is the host's to report as an `IOError`.
    pub fn write(self, dir: &mut AppDir) -> (r: Result<(), Error>)
        ensures
            r is Ok,
            final(dir)@ == Some(encode_utf8(spec_encode_config(self@))),
    {
        let s = encode_config(&self);
        let bytes = s.as_str().as_bytes_vec();
        dir.file = Some(bytes);
        Ok(())
    }

    /// Remove the credential file; removing an absent file is an `IOError`.
    pub fn delete(dir: &mut AppDir) -> (r: Result<(), Error>)
        ensures
            final(dir)@ is None,
            r is Ok <==> old(dir)@ is Some,
            r is Err ==> r == Err::<(), Error>(Error::IOError),
    {
        match dir.file {
            Some(_) => {
                dir.file = None;
                Ok(())
            },
            None => Err(Error::IOError),
        }
    }

    /// Load the credential file and decode it.
    pub fn from_file(dir: &AppDir) -> (r: Result<Config, Error>)
        ensures
            match spec_load(dir@) {
                Ok(cv) => r matches Ok(c) && c@ == cv,
                Err(e) => r matches Err(a) && a == e,
            },
    {
        match &dir.file {
            None => Err(Error::IOError),
            Some(bytes) => match utf8_to_str(bytes.as_slice()) {
                None => Err(Error::DecodeError),
                Some(text) => match parse_config(text) {
                    Ok(c) => Ok(c),
                    Err(_) => Err(Error::DecodeError),
                },
            },
        }
    }
}

// ---------------------------------------------------------------------------
// Laws
// ---------------------------------------------------------------------------

/// Decoding the canonical document of any credential recovers the
/// credential unchanged.
pub proof fn lemma_parse_encode_config(c: ConfigV)
    ensures
        spec_parse_config(spec_encode_config(c)) == Some(c),
{
    reveal_strlit("{\"username\":\"");
    reveal_strlit("\",\"display_name\":\"");
    reveal_strlit(",\"display_name\":\"");
    reveal_strlit("\",\"token\":\"");
    reveal_strlit(",\"token\":\"");
    reveal_strlit("\"}");
    reveal_strlit("}");
    let s = spec_encode_config(c);
    let q = seq!['"'];
    let r3 = "}"@;
    let t3 = esc(c.token) + q + r3;
    let r2 = ",\"token\":\""@ + t3;
    let t2 = esc(c.display_name) + q + r2;
    let r1 = ",\"display_name\":\""@ + t2;
    let t1 = esc(c.username) + q + r1;
    assert("\",\"display_name\":\""@ =~= q + ",\"display_name\":\""@);
    assert("\",\"token\":\""@ =~= q + ",\"token\":\""@);
    assert("\"}"@ =~= q + "}"@);
    assert(s =~= "{\"username\":\""@ + t1);
    lemma_expect_concat("{\"username\":\""@, t1);
    lemma_parse_str_esc(c.username, r1);
    lemma_expect_concat(",\"display_name\":\""@, t2);
    lemma_parse_str_esc(c.display_name, r2);
    lemma_expect_concat(",\"token\":\""@, t3);
    lemma_parse_str_esc(c.token, r3);
    assert(r3 =~= "}"@ + Seq::<char>::empty());
    lemma_expect_concat("}"@, Seq::<char>::empty());
}

/// Law: saving a credential and then loading from the resulting file state
/// yields the credential unchanged, for every credential value.
pub proof fn lemma_save_load_round_trip(c: ConfigV)
    ensures
        spec_load(Some(encode_utf8(spec_encode_config(c)))) == Ok::<ConfigV, Error>(c),
{
    broadcast use vstd::utf8::encode_utf8_valid_utf8;
    broadcast use vstd::utf8::encode_utf8_decode_utf8;

    lemma_parse_encode_config(c);
}

} // verus!
