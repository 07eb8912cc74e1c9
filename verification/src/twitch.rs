//! The transient records returned by the Twitch endpoints, with their
//! verified decoders.
//!
//! The token endpoint answers with `{"access_token": string, "expires_in":
//! integer, "refresh_token": string}`; the Users endpoint answers with a
//! list envelope `{"data": [{"id","login","display_name"}, ...]}`.  Both
//! decoders accept exactly the canonical form of their schema and report
//! everything else as a `DecodeError`.

use vstd::prelude::*;

verus! {

use vstd::string::StrSliceExecFns;

use crate::errors::Error;
use crate::json::{
    expect_lit, parse_number, parse_string_body, spec_expect, spec_parse_num, spec_parse_str,
    lemma_parse_str_consumes,
};

// ---------------------------------------------------------------------------
// Token endpoint response
// ---------------------------------------------------------------------------

/// The mathematical value of a token-endpoint response.
pub struct TokenRespV {
    pub access_token: Seq<char>,
    pub expires_in: nat,
    pub refresh_token: Seq<char>,
}

/// The decoded answer of the OAuth token endpoint.  Transient: only
/// `access_token` outlives the exchange, as the credential's token.
pub struct TwitchTokenResponse {
    access_token: String,
    expires_in: u64,
    refresh_token: String,
}

impl View for TwitchTokenResponse {
    type V = TokenRespV;

    closed spec fn view(&self) -> TokenRespV {
        TokenRespV {
            access_token: self.access_token@,
            expires_in: self.expires_in as nat,
            refresh_token: self.refresh_token@,
        }
    }
}

impl TwitchTokenResponse {
    pub fn get_access_token(&self) -> (r: String)
        ensures
            r@ == self@.access_token,
    {
        self.access_token.clone()
    }

    pub fn get_expires_in(&self) -> (r: u64)
        ensures
            r as nat == self@.expires_in,
    {
        self.expires_in
    }

    pub fn get_refresh_token(&self) -> (r: String)
        ensures
            r@ == self@.refresh_token,
    {
        self.refresh_token.clone()
    }
}

/// The decoder for the token-response schema.  `expires_in` must be a
/// positive number within `u64`; a response missing any field — in
/// particular `access_token` — is outside the schema.
pub open spec fn spec_parse_token_response(s: Seq<char>) -> Option<TokenRespV> {
    match spec_expect(s, "{\"access_token\":\""@) {
        None => None,
        Some(s1) => match spec_parse_str(s1) {
            None => None,
            Some((at, s2)) => match spec_expect(s2, ",\"expires_in\":"@) {
                None => None,
                Some(s3) => match spec_parse_num(s3) {
                    None => None,
                    Some((n, s4)) => if n == 0 {
                        None
                    } else {
                        match spec_expect(s4, ",\"refresh_token\":\""@) {
                            None => None,
                            Some(s5) => match spec_parse_str(s5) {
                                None => None,
                                Some((rt, s6)) => match spec_expect(s6, "}"@) {
                                    None => None,
                                    Some(s7) => if s7.len() == 0 {
                                        Some(TokenRespV {
                                            access_token: at,
                                            expires_in: n,
                                            refresh_token: rt,
                                        })
                                    } else {
                                        None
                                    },
                                },
                            },
                        }
                    },
                },
            },
        },
    }
}

/// Decode a token-endpoint body; returns the fields unchanged, without any
/// normalization.
pub fn parse_token_response(s: &str) -> (r: Result<TwitchTokenResponse, Error>)
    ensures
        match spec_parse_token_response(s@) {
            Some(tv) => r matches Ok(t) && t@ == tv,
            None => r == Err::<TwitchTokenResponse, Error>(Error::DecodeError),
        },
{
    let n = s.unicode_len();
    proof {
        assert(s@.skip(0) =~= s@);
        reveal_strlit("{\"access_token\":\"");
        reveal_strlit(",\"expires_in\":");
        reveal_strlit(",\"refresh_token\":\"");
        reveal_strlit("}");
    }
    let p1 = match expect_lit(s, n, 0, "{\"access_token\":\"", 17) {
        Some(p) => p,
        None => {
            return Err(Error::DecodeError);
        },
    };
    let (access_token, p2) = match parse_string_body(s, n, p1) {
        Some(t) => t,
        None => {
            return Err(Error::DecodeError);
        },
    };
    let p3 = match expect_lit(s, n, p2, ",\"expires_in\":", 14) {
        Some(p) => p,
        None => {
            return Err(Error::DecodeError);
        },
    };
    let (expires_in, p4) = match parse_number(s, n, p3) {
        Some(t) => t,
        None => {
            return Err(Error::DecodeError);
        },
    };
    if expires_in == 0 {
        return Err(Error::DecodeError);
    }
    let p5 = match expect_lit(s, n, p4, ",\"refresh_token\":\"", 18) {
        Some(p) => p,
        None => {
            return Err(Error::DecodeError);
        },
    };
    let (refresh_token, p6) = match parse_string_body(s, n, p5) {
        Some(t) => t,
        None => {
            return Err(Error::DecodeError);
        },
    };
    let p7 = match expect_lit(s, n, p6, "}", 1) {
        Some(p) => p,
        None => {
            return Err(Error::DecodeError);
        },
    };
    if p7 != n {
        assert(s@.skip(p7 as int).len() != 0);
        return Err(Error::DecodeError);
    }
    assert(s@.skip(p7 as int) =~= Seq::<char>::empty());
    Ok(TwitchTokenResponse { access_token, expires_in, refresh_token })
}

// ---------------------------------------------------------------------------
// Users endpoint response
// ---------------------------------------------------------------------------

/// The mathematical value of one user record.
pub struct UserV {
    pub id: Seq<char>,
    pub login: Seq<char>,
    pub display_name: Seq<char>,
}

/// One record of the Users endpoint's answer.
pub struct TwitchUserData {
    id: String,
    login: String,
    display_name: String,
}

impl View for TwitchUserData {
    type V = UserV;

    closed spec fn view(&self) -> UserV {
        UserV { id: self.id@, login: self.login@, display_name: self.display_name@ }
    }
}

impl DeepView for TwitchUserData {
    type V = UserV;

    open spec fn deep_view(&self) -> UserV {
        self.view()
    }
}

impl Clone for TwitchUserData {
    fn clone(&self) -> (res: Self)
        ensures
            res == *self,
    {
        TwitchUserData {
            id: self.id.clone(),
            login: self.login.clone(),
            display_name: self.display_name.clone(),
        }
    }
}

impl TwitchUserData {
    pub fn get_id(&self) -> (r: String)
        ensures
            r@ == self@.id,
    {
        self.id.clone()
    }

    pub fn get_login(&self) -> (r: String)
        ensures
            r@ == self@.login,
    {
        self.login.clone()
    }

    pub fn get_display_name(&self) -> (r: String)
        ensures
            r@ == self@.display_name,
    {
        self.display_name.clone()
    }
}

/// The list envelope of the Users endpoint.
pub struct TwitchResponse {
    data: Vec<TwitchUserData>,
}

impl View for TwitchResponse {
    type V = Seq<UserV>;

    closed spec fn view(&self) -> Seq<UserV> {
        self.data.deep_view()
    }
}

impl TwitchResponse {
    /// The records of the envelope, value for value.
    pub fn get_data(&self) -> (r: Vec<TwitchUserData>)
        ensures
            r.deep_view() == self@,
    {
        let mut out: Vec<TwitchUserData> = Vec::new();
        let mut i: usize = 0;
        while i < self.data.len()
            invariant
                i <= self.data.len(),
                out@ == self.data@.take(i as int),
            decreases self.data.len() - i,
        {
            out.push(self.data[i].clone());
            proof {
                assert(self.data@.take(i as int).push(self.data@[i as int]) =~= self.data@.take(
                    i as int + 1));
            }
            i += 1;
        }
        proof {
            assert(self.data@.take(self.data@.len() as int) =~= self.data@);
            assert(out.deep_view() =~= self@);
        }
        out
    }
}

/// The decoder for one user record.
pub open spec fn spec_parse_user(s: Seq<char>) -> Option<(UserV, Seq<char>)> {
    match spec_expect(s, "{\"id\":\""@) {
        None => None,
        Some(s1) => match spec_parse_str(s1) {
            None => None,
            Some((id, s2)) => match spec_expect(s2, ",\"login\":\""@) {
                None => None,
                Some(s3) => match spec_parse_str(s3) {
                    None => None,
                    Some((lg, s4)) => match spec_expect(s4, ",\"display_name\":\""@) {
                        None => None,
                        Some(s5) => match spec_parse_str(s5) {
                            None => None,
                            Some((dn, s6)) => match spec_expect(s6, "}"@) {
                                None => None,
                                Some(s7) => Some((
                                    UserV { id: id, login: lg, display_name: dn },
                                    s7,
                                )),
                            },
                        },
                    },
                },
            },
        },
    }
}

/// A successful user-record parse consumes at least one character.
proof fn lemma_parse_user_consumes(s: Seq<char>)
    ensures
        spec_parse_user(s) matches Some(r) ==> r.1.len() < s.len(),
{
    reveal_strlit("{\"id\":\"");
    match spec_expect(s, "{\"id\":\""@) {
        None => {},
        Some(s1) => {
            lemma_parse_str_consumes(s1);
            match spec_parse_str(s1) {
                None => {},
                Some((id, s2)) => match spec_expect(s2, ",\"login\":\""@) {
                    None => {},
                    Some(s3) => {
                        lemma_parse_str_consumes(s3);
                        match spec_parse_str(s3) {
                            None => {},
                            Some((lg, s4)) => match spec_expect(s4, ",\"display_name\":\""@) {
                                None => {},
                                Some(s5) => {
                                    lemma_parse_str_consumes(s5);
                                },
                            },
                        }
                    },
                },
            }
        },
    }
}

/// The decoder for a non-empty, comma-separated run of user records.
pub open spec fn spec_parse_user_list(s: Seq<char>) -> Option<(Seq<UserV>, Seq<char>)>
    decreases s.len(),
    via spec_parse_user_list_decreases
{
    match spec_parse_user(s) {
        None => None,
        Some((u, r)) => if r.len() > 0 && r[0] == ',' {
            match spec_parse_user_list(r.skip(1)) {
                None => None,
                Some((l, r2)) => Some((seq![u] + l, r2)),
            }
        } else {
            Some((seq![u], r))
        },
    }
}

#[via_fn]
proof fn spec_parse_user_list_decreases(s: Seq<char>) {
    lemma_parse_user_consumes(s);
}

/// The decoder for the whole list envelope: the document must hold exactly
/// the `data` array and end with it.
pub open spec fn spec_parse_users_response(s: Seq<char>) -> Option<Seq<UserV>> {
    match spec_expect(s, "{\"data\":["@) {
        None => None,
        Some(s1) => if s1.len() > 0 && s1[0] == ']' {
            match spec_expect(s1, "]}"@) {
                None => None,
                Some(s2) => if s2.len() == 0 {
                    Some(Seq::empty())
                } else {
                    None
                },
            }
        } else {
            match spec_parse_user_list(s1) {
                None => None,
                Some((l, r)) => match spec_expect(r, "]}"@) {
                    None => None,
                    Some(r2) => if r2.len() == 0 {
                        Some(l)
                    } else {
                        None
                    },
                },
            }
        },
    }
}

/// Scan one user record starting at `pos`.
fn parse_user(s: &str, n: usize, pos: usize) -> (r: Option<(TwitchUserData, usize)>)
    requires
        n == s@.len(),
        pos <= n,
    ensures
        match r {
            Some(t) => pos < t.1 <= n && spec_parse_user(s@.skip(pos as int))
                == Some((t.0@, s@.skip(t.1 as int))),
            None => spec_parse_user(s@.skip(pos as int)) is None,
        },
{
    proof {
        reveal_strlit("{\"id\":\"");
        reveal_strlit(",\"login\":\"");
        reveal_strlit(",\"display_name\":\"");
        reveal_strlit("}");
    }
    let p1 = match expect_lit(s, n, pos, "{\"id\":\"", 7) {
        Some(p) => p,
        None => {
            return None;
        },
    };
    let (id, p2) = match parse_string_body(s, n, p1) {
        Some(t) => t,
        None => {
            return None;
        },
    };
    let p3 = match expect_lit(s, n, p2, ",\"login\":\"", 10) {
        Some(p) => p,
        None => {
            return None;
        },
    };
    let (login, p4) = match parse_string_body(s, n, p3) {
        Some(t) => t,
        None => {
            return None;
        },
    };
    let p5 = match expect_lit(s, n, p4, ",\"display_name\":\"", 17) {
        Some(p) => p,
        None => {
            return None;
        },
    };
    let (display_name, p6) = match parse_string_body(s, n, p5) {
        Some(t) => t,
        None => {
            return None;
        },
    };
    let p7 = match expect_lit(s, n, p6, "}", 1) {
        Some(p) => p,
        None => {
            return None;
        },
    };
    proof {
        lemma_parse_user_consumes(s@.skip(pos as int));
    }
    Some((TwitchUserData { id, login, display_name }, p7))
}

/// Scan a non-empty, comma-separated run of user records starting at `pos`.
fn parse_user_list(s: &str, n: usize, pos: usize) -> (r: Option<(Vec<TwitchUserData>, usize)>)
    requires
        n == s@.len(),
        pos <= n,
    ensures
        match r {
            Some(t) => pos <= t.1 <= n && spec_parse_user_list(s@.skip(pos as int))
                == Some((t.0.deep_view(), s@.skip(t.1 as int))),
            None => spec_parse_user_list(s@.skip(pos as int)) is None,
        },
{
    let mut acc: Vec<TwitchUserData> = Vec::new();
    let mut i: usize = pos;
    loop
        invariant
            n == s@.len(),
            pos <= i <= n,
            spec_parse_user_list(s@.skip(pos as int)) == (match spec_parse_user_list(
                s@.skip(i as int),
            ) {
                Some(t) => Some((acc.deep_view() + t.0, t.1)),
                None => None,
            }),
        decreases n - i,
    {
        let (u, p) = match parse_user(s, n, i) {
            Some(t) => t,
            None => {
                return None;
            },
        };
        let ghost acc0 = acc.deep_view();
        let ghost uview = u@;
        acc.push(u);
        proof {
            assert(acc.deep_view() =~= acc0.push(uview));
        }
        if p < n && s.get_char(p) == ',' {
            proof {
                let suf = s@.skip(i as int);
                let rest = s@.skip(p as int);
                assert(rest[0] == s@[p as int]);
                assert(rest.skip(1) =~= s@.skip(p as int + 1));
                assert forall|l: Seq<UserV>| true implies acc0 + (seq![uview] + l)
                    =~= acc0.push(uview) + l by {}
            }
            i = p + 1;
        } else {
            proof {
                let rest = s@.skip(p as int);
                if p < n {
                    assert(rest[0] == s@[p as int]);
                } else {
                    assert(rest.len() == 0);
                }
                assert(acc0 + seq![uview] =~= acc0.push(uview));
            }
            return Some((acc, p));
        }
    }
}

/// Decode a Users-endpoint body into the list envelope.
pub fn parse_users_response(s: &str) -> (r: Result<TwitchResponse, Error>)
    ensures
        match spec_parse_users_response(s@) {
            Some(l) => r matches Ok(resp) && resp@ == l,
            None => r == Err::<TwitchResponse, Error>(Error::DecodeError),
        },
{
    let n = s.unicode_len();
    proof {
        assert(s@.skip(0) =~= s@);
        reveal_strlit("{\"data\":[");
        reveal_strlit("]}");
    }
    let p1 = match expect_lit(s, n, 0, "{\"data\":[", 9) {
        Some(p) => p,
        None => {
            return Err(Error::DecodeError);
        },
    };
    let empty_list = if p1 < n { s.get_char(p1) == ']' } else { false };
    proof {
        let s1 = s@.skip(p1 as int);
        if p1 < n {
            assert(s1[0] == s@[p1 as int]);
        } else {
            assert(s1.len() == 0);
        }
    }
    if empty_list {
        let p2 = match expect_lit(s, n, p1, "]}", 2) {
            Some(p) => p,
            None => {
                return Err(Error::DecodeError);
            },
        };
        if p2 != n {
            assert(s@.skip(p2 as int).len() != 0);
            return Err(Error::DecodeError);
        }
        assert(s@.skip(p2 as int) =~= Seq::<char>::empty());
        let resp = TwitchResponse { data: Vec::new() };
        proof {
            assert(resp@ =~= Seq::<UserV>::empty());
        }
        return Ok(resp);
    }
    let (users, p2) = match parse_user_list(s, n, p1) {
        Some(t) => t,
        None => {
            return Err(Error::DecodeError);
        },
    };
    let p3 = match expect_lit(s, n, p2, "]}", 2) {
        Some(p) => p,
        None => {
            return Err(Error::DecodeError);
        },
    };
    if p3 != n {
        assert(s@.skip(p3 as int).len() != 0);
        return Err(Error::DecodeError);
    }
    assert(s@.skip(p3 as int) =~= Seq::<char>::empty());
    Ok(TwitchResponse { data: users })
}

/// The exactly-one policy of identity resolution: a single record is
/// returned unchanged; zero or several records cannot resolve an identity.
pub fn resolve_user(resp: &TwitchResponse) -> (r: Result<TwitchUserData, Error>)
    ensures
        resp@.len() == 1 ==> (r matches Ok(u) && u@ == resp@[0]),
        resp@.len() != 1 ==> r == Err::<TwitchUserData, Error>(Error::AmbiguousIdentityError),
{
    if resp.data.len() == 1 {
        let u = resp.data[0].clone();
        Ok(u)
    } else {
        Err(Error::AmbiguousIdentityError)
    }
}

} // verus!
