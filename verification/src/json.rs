//! Verified text primitives shared by the document codecs.
//!
//! Every document the library reads or writes is a JSON object in canonical
//! form: no whitespace between tokens, fields in schema order, and strings
//! escaped as JSON requires — `"`, `\` and the control characters, nothing
//! more.  The specification functions here define that form once; the
//! executable scanners are proved to agree with them exactly, and the
//! per-schema codecs are built on top.

use vstd::prelude::*;

verus! {

// ---------------------------------------------------------------------------
// String escaping
// ---------------------------------------------------------------------------

/// Hexadecimal digits as they may appear in a `\u` escape.
pub open spec fn is_hex(c: char) -> bool {
    (48 <= c as u32 && c as u32 <= 57) || (97 <= c as u32 && c as u32 <= 102) || (65 <= c as u32
        && c as u32 <= 70)
}

/// The value of a hexadecimal digit.
pub open spec fn hex_val(c: char) -> u32 {
    if 48 <= c as u32 && c as u32 <= 57 {
        (c as u32 - 48) as u32
    } else if 97 <= c as u32 && c as u32 <= 102 {
        (c as u32 - 87) as u32
    } else {
        (c as u32 - 55) as u32
    }
}

/// The lower-case hexadecimal digit for a value below sixteen.
pub open spec fn hex_char(n: u32) -> char {
    if n < 10 {
        (((48 + n) as u8) as char)
    } else {
        (((87 + n) as u8) as char)
    }
}

/// The digits written by `hex_char` read back as the same value.
pub proof fn lemma_hex_char(n: u32)
    requires
        n < 16,
    ensures
        is_hex(hex_char(n)),
        hex_val(hex_char(n)) == n,
{
}

/// The escaped form of one character inside a JSON string: `"` and `\`
/// carry a backslash, a control character becomes a `\u00` escape with two
/// lower-case hexadecimal digits, and every other character stands for
/// itself.
pub open spec fn esc_char(c: char) -> Seq<char> {
    if c == '"' || c == '\\' {
        seq!['\\', c]
    } else if (c as u32) < 32 {
        seq!['\\', 'u', '0', '0', hex_char(c as u32 / 16), hex_char(c as u32 % 16)]
    } else {
        seq![c]
    }
}

/// The escaped form of a whole string body.
pub open spec fn esc(t: Seq<char>) -> Seq<char>
    decreases t.len(),
{
    if t.len() == 0 {
        Seq::empty()
    } else {
        esc_char(t[0]) + esc(t.drop_first())
    }
}

// ---------------------------------------------------------------------------
// Parsing, specified over the remaining input
// ---------------------------------------------------------------------------

/// Consume the exact literal `l` from the front of `s`.
pub open spec fn spec_expect(s: Seq<char>, l: Seq<char>) -> Option<Seq<char>> {
    if l.is_prefix_of(s) {
        Some(s.skip(l.len() as int))
    } else {
        None
    }
}

/// Prefix a parsed string body with one more character.
pub open spec fn prepend_parsed(c: char, o: Option<(Seq<char>, Seq<char>)>) -> Option<
    (Seq<char>, Seq<char>),
> {
    match o {
        Some(r) => Some((seq![c] + r.0, r.1)),
        None => None,
    }
}

/// The character named by a single-letter escape, if the letter names one.
pub open spec fn spec_escape_code(e: char) -> Option<char> {
    if e == '"' {
        Some('"')
    } else if e == '\\' {
        Some('\\')
    } else if e == '/' {
        Some('/')
    } else if e == 'n' {
        Some('\n')
    } else if e == 't' {
        Some('\t')
    } else if e == 'r' {
        Some('\r')
    } else if e == 'b' {
        Some('\u{0008}')
    } else if e == 'f' {
        Some('\u{000C}')
    } else {
        None
    }
}

/// Consume a string body up to and including its closing quote, undoing the
/// escaping; the opening quote has already been consumed.  Accepted escapes
/// are the single-letter ones (`\"  \\  \/  \n  \t  \r  \b  \f`) and `\u`
/// followed by four hexadecimal digits naming a control character.
pub open spec fn spec_parse_str(s: Seq<char>) -> Option<(Seq<char>, Seq<char>)>
    decreases s.len(),
{
    if s.len() == 0 {
        None
    } else if s[0] == '"' {
        Some((Seq::empty(), s.drop_first()))
    } else if s[0] == '\\' {
        if s.len() < 2 {
            None
        } else {
            match spec_escape_code(s[1]) {
                Some(c) => prepend_parsed(c, spec_parse_str(s.skip(2))),
                None => if s[1] == 'u' {
                    if s.len() >= 6 && is_hex(s[2]) && is_hex(s[3]) && is_hex(s[4]) && is_hex(
                        s[5],
                    ) {
                        let v = hex_val(s[2]) * 4096 + hex_val(s[3]) * 256 + hex_val(s[4]) * 16
                            + hex_val(s[5]);
                        if v < 32 {
                            prepend_parsed(((v as u8) as char), spec_parse_str(s.skip(6)))
                        } else {
                            None
                        }
                    } else {
                        None
                    }
                } else {
                    None
                },
            }
        }
    } else {
        prepend_parsed(s[0], spec_parse_str(s.drop_first()))
    }
}

pub open spec fn is_digit(c: char) -> bool {
    48 <= c as u32 && c as u32 <= 57
}

pub open spec fn digit_val(c: char) -> nat {
    (c as u32 - 48) as nat
}

/// Consume further decimal digits after `acc` has already been read.
pub open spec fn spec_parse_num_rec(s: Seq<char>, acc: nat) -> Option<(nat, Seq<char>)>
    decreases s.len(),
{
    if s.len() == 0 || !is_digit(s[0]) {
        Some((acc, s))
    } else if acc * 10 + digit_val(s[0]) > u64::MAX {
        None
    } else {
        spec_parse_num_rec(s.drop_first(), acc * 10 + digit_val(s[0]))
    }
}

/// Consume a decimal number: at least one digit, value within `u64`.
pub open spec fn spec_parse_num(s: Seq<char>) -> Option<(nat, Seq<char>)> {
    if s.len() > 0 && is_digit(s[0]) {
        spec_parse_num_rec(s, 0)
    } else {
        None
    }
}

// ---------------------------------------------------------------------------
// Facts about the specification parsers
// ---------------------------------------------------------------------------

/// Consuming a literal that was put in front of `rest` leaves `rest`.
pub proof fn lemma_expect_concat(l: Seq<char>, rest: Seq<char>)
    ensures
        spec_expect(l + rest, l) == Some(rest),
{
    assert(l =~= (l + rest).subrange(0, l.len() as int));
    assert((l + rest).skip(l.len() as int) =~= rest);
}

/// Parsing the escaped form of `t`, followed by the closing quote and
/// anything after it, recovers `t` exactly and leaves the rest untouched.
pub proof fn lemma_parse_str_esc(t: Seq<char>, rest: Seq<char>)
    ensures
        spec_parse_str(esc(t) + seq!['"'] + rest) == Some((t, rest)),
    decreases t.len(),
{
    let s = esc(t) + seq!['"'] + rest;
    if t.len() == 0 {
        assert(s =~= seq!['"'] + rest);
        assert(s[0] == '"');
        assert(s.drop_first() =~= rest);
        assert(t =~= Seq::<char>::empty());
    } else {
        let c = t[0];
        let tl = t.drop_first();
        lemma_parse_str_esc(tl, rest);
        if c == '"' || c == '\\' {
            assert(s =~= seq!['\\', c] + (esc(tl) + seq!['"'] + rest));
            assert(s[0] == '\\' && s[1] == c);
            assert(spec_escape_code(c) == Some(c));
            assert(s.skip(2) =~= esc(tl) + seq!['"'] + rest);
            assert(seq![c] + tl =~= t);
        } else if (c as u32) < 32 {
            let u = c as u32;
            let hi = hex_char(u / 16);
            let lo = hex_char(u % 16);
            lemma_hex_char(u / 16);
            lemma_hex_char(u % 16);
            assert(s =~= seq!['\\', 'u', '0', '0', hi, lo] + (esc(tl) + seq!['"'] + rest));
            assert(s[0] == '\\' && s[1] == 'u' && s[2] == '0' && s[3] == '0' && s[4] == hi && s[5]
                == lo);
            assert(spec_escape_code('u') is None);
            assert(hex_val('0') == 0);
            let v = hex_val(s[2]) * 4096 + hex_val(s[3]) * 256 + hex_val(s[4]) * 16 + hex_val(
                s[5],
            );
            assert(v == u);
            vstd::utf8::char_u32_cast(c, u);
            assert(((v as u8) as char) == c);
            assert(s.skip(6) =~= esc(tl) + seq!['"'] + rest);
            assert(seq![c] + tl =~= t);
        } else {
            assert(s =~= seq![c] + (esc(tl) + seq!['"'] + rest));
            assert(s[0] == c);
            assert(s.drop_first() =~= esc(tl) + seq!['"'] + rest);
            assert(seq![c] + tl =~= t);
        }
    }
}

/// A successful string parse consumes at least one character.
pub proof fn lemma_parse_str_consumes(s: Seq<char>)
    ensures
        spec_parse_str(s) matches Some(r) ==> r.1.len() < s.len(),
    decreases s.len(),
{
    if s.len() != 0 && s[0] != '"' {
        if s[0] == '\\' {
            if s.len() >= 2 {
                if spec_escape_code(s[1]) is Some {
                    lemma_parse_str_consumes(s.skip(2));
                } else if s[1] == 'u' && s.len() >= 6 {
                    lemma_parse_str_consumes(s.skip(6));
                }
            }
        } else {
            lemma_parse_str_consumes(s.drop_first());
        }
    }
}

// ---------------------------------------------------------------------------
// Executable scanners
// ---------------------------------------------------------------------------

/// Relies on `String::push`: appends exactly the given character.
#[verifier::external_body]
pub(crate) fn push_char(s: &mut String, c: char)
    ensures
        final(s)@ == old(s)@ + seq![c],
{
    s.push(c)
}

/// The executable mirror of `spec_escape_code`.
fn escape_code(e: char) -> (r: Option<char>)
    ensures
        r == spec_escape_code(e),
{
    if e == '"' {
        Some('"')
    } else if e == '\\' {
        Some('\\')
    } else if e == '/' {
        Some('/')
    } else if e == 'n' {
        Some('\n')
    } else if e == 't' {
        Some('\t')
    } else if e == 'r' {
        Some('\r')
    } else if e == 'b' {
        Some('\u{0008}')
    } else if e == 'f' {
        Some('\u{000C}')
    } else {
        None
    }
}

/// The value of one hexadecimal digit, if the character is one.
fn hex_nibble(c: char) -> (r: Option<u8>)
    ensures
        match r {
            Some(v) => is_hex(c) && v as u32 == hex_val(c) && v < 16,
            None => !is_hex(c),
        },
{
    let u = c as u32;
    if 48 <= u && u <= 57 {
        Some((u - 48) as u8)
    } else if 97 <= u && u <= 102 {
        Some((u - 87) as u8)
    } else if 65 <= u && u <= 70 {
        Some((u - 55) as u8)
    } else {
        None
    }
}

/// Match the literal `lit` at position `pos` of `s`; on success return the
/// position just past it.
pub(crate) fn expect_lit(s: &str, n: usize, pos: usize, lit: &str, litn: usize) -> (r: Option<usize>)
    requires
        n == s@.len(),
        pos <= n,
        litn == lit@.len(),
    ensures
        match r {
            Some(p) => pos <= p <= n && spec_expect(s@.skip(pos as int), lit@)
                == Some(s@.skip(p as int)),
            None => spec_expect(s@.skip(pos as int), lit@) is None,
        },
{
    let suffix_len = n - pos;
    if litn > suffix_len {
        assert(!lit@.is_prefix_of(s@.skip(pos as int)));
        return None;
    }
    let mut j: usize = 0;
    while j < litn
        invariant
            n == s@.len(),
            pos <= n,
            litn == lit@.len(),
            litn <= n - pos,
            j <= litn,
            forall|k: int| 0 <= k < j ==> lit@[k] == s@[pos + k],
        decreases litn - j,
    {
        let a = lit.get_char(j);
        let b = s.get_char(pos + j);
        if a != b {
            assert(lit@[j as int] != s@.skip(pos as int)[j as int]);
            assert(!lit@.is_prefix_of(s@.skip(pos as int)));
            return None;
        }
        j += 1;
    }
    proof {
        assert(lit@ =~= s@.skip(pos as int).subrange(0, litn as int));
        assert(s@.skip(pos as int).skip(litn as int) =~= s@.skip((pos + litn) as int));
    }
    Some(pos + litn)
}

/// Scan a string body starting at `pos` (just past the opening quote),
/// returning its unescaped content and the position past the closing quote.
pub(crate) fn parse_string_body(s: &str, n: usize, pos: usize) -> (r: Option<(String, usize)>)
    requires
        n == s@.len(),
        pos <= n,
    ensures
        match r {
            Some(t) => pos <= t.1 <= n && spec_parse_str(s@.skip(pos as int))
                == Some((t.0@, s@.skip(t.1 as int))),
            None => spec_parse_str(s@.skip(pos as int)) is None,
        },
{
    let mut acc = String::new();
    let mut i: usize = pos;
    loop
        invariant
            n == s@.len(),
            pos <= i <= n,
            spec_parse_str(s@.skip(pos as int)) == (match spec_parse_str(s@.skip(i as int)) {
                Some(r) => Some((acc@ + r.0, r.1)),
                None => None,
            }),
        decreases n - i,
    {
        if i >= n {
            assert(s@.skip(i as int) =~= Seq::<char>::empty());
            return None;
        }
        let ghost suf = s@.skip(i as int);
        proof {
            assert(suf.len() > 0);
            assert(suf[0] == s@[i as int]);
            assert(suf.drop_first() =~= s@.skip(i as int + 1));
        }
        let c = s.get_char(i);
        if c == '"' {
            proof {
                let parsed = spec_parse_str(s@.skip(pos as int));
                assert(spec_parse_str(suf) == Some((Seq::<char>::empty(), suf.drop_first())));
                assert(acc@ + Seq::<char>::empty() =~= acc@);
            }
            return Some((acc, i + 1));
        } else if c == '\\' {
            if i + 1 >= n {
                assert(suf.len() < 2);
                return None;
            }
            proof {
                assert(suf[1] == s@[i as int + 1]);
                assert(suf.skip(2) =~= s@.skip(i as int + 2));
            }
            let c2 = s.get_char(i + 1);
            match escape_code(c2) {
                Some(e) => {
                    let ghost acc0 = acc@;
                    push_char(&mut acc, e);
                    proof {
                        assert forall|r0: Seq<char>| true implies acc0 + (seq![e] + r0) =~= acc@
                            + r0 by {}
                    }
                    i += 2;
                },
                None => {
                    if c2 != 'u' {
                        return None;
                    }
                    if n - i < 6 {
                        assert(suf.len() < 6);
                        return None;
                    }
                    proof {
                        assert(suf[2] == s@[i as int + 2]);
                        assert(suf[3] == s@[i as int + 3]);
                        assert(suf[4] == s@[i as int + 4]);
                        assert(suf[5] == s@[i as int + 5]);
                        assert(suf.skip(6) =~= s@.skip(i as int + 6));
                    }
                    let h2 = match hex_nibble(s.get_char(i + 2)) {
                        Some(v) => v,
                        None => {
                            return None;
                        },
                    };
                    let h3 = match hex_nibble(s.get_char(i + 3)) {
                        Some(v) => v,
                        None => {
                            return None;
                        },
                    };
                    let h4 = match hex_nibble(s.get_char(i + 4)) {
                        Some(v) => v,
                        None => {
                            return None;
                        },
                    };
                    let h5 = match hex_nibble(s.get_char(i + 5)) {
                        Some(v) => v,
                        None => {
                            return None;
                        },
                    };
                    let v: u32 = (h2 as u32) * 4096 + (h3 as u32) * 256 + (h4 as u32) * 16 + (
                    h5 as u32);
                    if v >= 32 {
                        return None;
                    }
                    let e = (v as u8) as char;
                    let ghost acc0 = acc@;
                    push_char(&mut acc, e);
                    proof {
                        assert forall|r0: Seq<char>| true implies acc0 + (seq![e] + r0) =~= acc@
                            + r0 by {}
                    }
                    i += 6;
                },
            }
        } else {
            let ghost acc0 = acc@;
            push_char(&mut acc, c);
            proof {
                assert forall|r0: Seq<char>| true implies acc0 + (seq![c] + r0) =~= acc@
                    + r0 by {}
            }
            i += 1;
        }
    }
}

/// Scan a decimal number starting at `pos`; on success return its value and
/// the position of the first character after the digits.
pub(crate) fn parse_number(s: &str, n: usize, pos: usize) -> (r: Option<(u64, usize)>)
    requires
        n == s@.len(),
        pos <= n,
    ensures
        match r {
            Some(t) => pos <= t.1 <= n && spec_parse_num(s@.skip(pos as int))
                == Some((t.0 as nat, s@.skip(t.1 as int))),
            None => spec_parse_num(s@.skip(pos as int)) is None,
        },
{
    if pos >= n {
        assert(s@.skip(pos as int) =~= Seq::<char>::empty());
        return None;
    }
    proof {
        assert(s@.skip(pos as int)[0] == s@[pos as int]);
    }
    let c0 = s.get_char(pos);
    let d0 = c0 as u32;
    if !(48 <= d0 && d0 <= 57) {
        return None;
    }
    let mut acc: u64 = 0;
    let mut i: usize = pos;
    loop
        invariant
            n == s@.len(),
            pos <= i <= n,
            spec_parse_num(s@.skip(pos as int)) == spec_parse_num_rec(s@.skip(i as int), acc as nat),
        decreases n - i,
    {
        if i >= n {
            assert(s@.skip(i as int) =~= Seq::<char>::empty());
            return Some((acc, i));
        }
        let ghost suf = s@.skip(i as int);
        proof {
            assert(suf[0] == s@[i as int]);
            assert(suf.drop_first() =~= s@.skip(i as int + 1));
        }
        let c = s.get_char(i);
        let d = c as u32;
        if !(48 <= d && d <= 57) {
            return Some((acc, i));
        }
        let dv = (d - 48) as u64;
        if acc > (u64::MAX - dv) / 10 {
            assert(acc * 10 + digit_val(suf[0]) > u64::MAX);
            return None;
        }
        assert(acc * 10 + digit_val(suf[0]) <= u64::MAX);
        acc = acc * 10 + dv;
        i += 1;
    }
}

} // verus!
