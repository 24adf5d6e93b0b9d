use vstd::prelude::*;
use vstd::string::*;

use crate::crypt::base64::{
    decode_string_url_safe_no_pad, encode_bytes_url_safe_no_pad, spec_b64_decode, spec_b64_encode,
    spec_decoded_string, spec_encoded_len, Base64Engine,
};
use crate::crypt::errors::{CryptErr, InvalidJWTErr};
use crate::text::str_equals;
use crate::time;

verus! {

/// The claims of a Miru JWT payload.
#[derive(Debug, PartialEq, Eq)]
pub struct Claims {
    pub sub: String,
    pub iss: String,
    pub aud: String,
    pub exp: i64,
    pub iat: i64,
}

/// The index of the `k`-th (0-based) `.` in `s`, if there is one.
pub open spec fn nth_dot(s: Seq<char>, k: nat) -> Option<int>
    decreases s.len(),
{
    if s.len() == 0 {
        None
    } else if s[0] == '.' {
        if k == 0 {
            Some(0)
        } else {
            match nth_dot(s.drop_first(), (k - 1) as nat) {
                Some(i) => Some(i + 1),
                None => None,
            }
        }
    } else {
        match nth_dot(s.drop_first(), k) {
            Some(i) => Some(i + 1),
            None => None,
        }
    }
}

/// The number of `.` characters of `s`, counted from the front.
pub open spec fn dots(s: Seq<char>) -> nat
    decreases s.len(),
{
    if s.len() == 0 {
        0
    } else {
        dots(s.drop_first()) + if s[0] == '.' {
            1nat
        } else {
            0nat
        }
    }
}

/// The middle (payload) part of a token with exactly three `.`-separated parts.
pub open spec fn payload_part(s: Seq<char>) -> Seq<char> {
    s.subrange(nth_dot(s, 0).unwrap() + 1, nth_dot(s, 1).unwrap())
}

proof fn lemma_dots_step(s: Seq<char>, i: int)
    requires
        0 <= i < s.len(),
    ensures
        dots(s.skip(i)) == dots(s.skip(i + 1)) + if s[i] == '.' {
            1nat
        } else {
            0nat
        },
{
    assert(s.skip(i).drop_first() =~= s.skip(i + 1));
}

proof fn lemma_nth_dot_step(s: Seq<char>, i: int, k: nat)
    requires
        0 <= i < s.len(),
    ensures
        nth_dot(s.skip(i), k) == if s[i] == '.' && k == 0 {
            Some(0int)
        } else {
            match nth_dot(s.skip(i + 1), if s[i] == '.' {
                (k - 1) as nat
            } else {
                k
            }) {
                Some(j) => Some(j + 1),
                None => None::<int>,
            }
        },
{
    assert(s.skip(i).drop_first() =~= s.skip(i + 1));
}

/// Split a token at its `.` characters: the count of dots, and the positions of the
/// first two.
fn dot_positions(token: &str) -> (r: (usize, Option<usize>, Option<usize>))
    ensures
        r.0 == dots(token@),
        r.1 matches Some(i) ==> nth_dot(token@, 0) == Some(i as int),
        r.1 is None ==> nth_dot(token@, 0) is None,
        r.2 matches Some(i) ==> nth_dot(token@, 1) == Some(i as int),
        r.2 is None ==> nth_dot(token@, 1) is None,
{
    let n = token.unicode_len();
    let mut i: usize = 0;
    let mut count: usize = 0;
    let mut first: Option<usize> = None;
    let mut second: Option<usize> = None;
    assert(token@.skip(0) =~= token@);
    while i < n
        invariant
            n == token@.len(),
            i <= n,
            count <= i,
            dots(token@) == count + dots(token@.skip(i as int)),
            count == 0 ==> first is None && second is None && nth_dot(token@, 0) == match nth_dot(
                token@.skip(i as int),
                0,
            ) {
                Some(j) => Some(j + i),
                None => None::<int>,
            } && nth_dot(token@, 1) == match nth_dot(token@.skip(i as int), 1) {
                Some(j) => Some(j + i),
                None => None::<int>,
            },
            count == 1 ==> (first matches Some(f) && nth_dot(token@, 0) == Some(f as int))
                && second is None && nth_dot(token@, 1) == match nth_dot(token@.skip(i as int), 0) {
                Some(j) => Some(j + i),
                None => None::<int>,
            },
            count >= 2 ==> (first matches Some(f) && nth_dot(token@, 0) == Some(f as int)) && (
            second matches Some(g) && nth_dot(token@, 1) == Some(g as int)),
        decreases n - i,
    {
        proof {
            lemma_dots_step(token@, i as int);
            lemma_nth_dot_step(token@, i as int, 0);
            lemma_nth_dot_step(token@, i as int, 1);
        }
        if token.get_char(i) == '.' {
            if count == 0 {
                first = Some(i);
            } else if count == 1 {
                second = Some(i);
            }
            count = count + 1;
        }
        i = i + 1;
    }
    assert(token@.skip(i as int).len() == 0);
    (count, first, second)
}

/// The text of the payload of a JWT with three `.`-separated parts, without
/// verification: its middle part, base64url-decoded (unpadded) and read as UTF-8. A
/// token with another number of parts is an `InvalidJWTErr`.
pub fn decode_payload(token: &str) -> (r: Result<String, CryptErr>)
    ensures
        dots(token@) != 2 ==> (r matches Err(CryptErr::InvalidJWTErr(e)) && e.msg@
            == "Invalid JWT format"@),
        dots(token@) == 2 ==> match spec_decoded_string(
            Base64Engine::UrlSafeNoPad,
            payload_part(token@),
        ) {
            Some(s) => (r matches Ok(st) && st@ == s),
            None => r is Err,
        },
{
    let (count, first, second) = dot_positions(token);
    if count != 2 {
        return Err(
            CryptErr::InvalidJWTErr(InvalidJWTErr { msg: "Invalid JWT format".to_owned() }),
        );
    }
    proof {
        lemma_two_dots_found(token@);
    }
    let (f, g) = match (first, second) {
        (Some(f), Some(g)) => (f, g),
        _ => {
            return Err(
                CryptErr::InvalidJWTErr(InvalidJWTErr { msg: "Invalid JWT format".to_owned() }),
            );
        },
    };
    proof {
        lemma_nth_dot_bounds(token@, 0);
        lemma_nth_dot_bounds(token@, 1);
        lemma_nth_dot_ordered(token@);
    }
    let part = token.substring_char(f + 1, g);
    decode_string_url_safe_no_pad(part)
}

/// A token with at least `k + 1` dots has a `k`-th dot.
proof fn lemma_two_dots_found(s: Seq<char>)
    requires
        dots(s) == 2,
    ensures
        nth_dot(s, 0) is Some,
        nth_dot(s, 1) is Some,
    decreases s.len(),
{
    lemma_nth_dot_exists(s, 0);
    lemma_nth_dot_exists(s, 1);
}

proof fn lemma_nth_dot_exists(s: Seq<char>, k: nat)
    requires
        k < dots(s),
    ensures
        nth_dot(s, k) is Some,
    decreases s.len(),
{
    if s.len() > 0 {
        if s[0] == '.' {
            if k > 0 {
                lemma_nth_dot_exists(s.drop_first(), (k - 1) as nat);
            }
        } else {
            lemma_nth_dot_exists(s.drop_first(), k);
        }
    }
}

proof fn lemma_nth_dot_bounds(s: Seq<char>, k: nat)
    ensures
        nth_dot(s, k) matches Some(i) ==> 0 <= i < s.len() && s[i] == '.',
    decreases s.len(),
{
    if s.len() > 0 {
        if s[0] == '.' {
            if k > 0 {
                lemma_nth_dot_bounds(s.drop_first(), (k - 1) as nat);
            }
        } else {
            lemma_nth_dot_bounds(s.drop_first(), k);
        }
    }
}

proof fn lemma_nth_dot_ordered(s: Seq<char>)
    ensures
        nth_dot(s, 0) matches Some(i) ==> nth_dot(s, 1) matches Some(j) ==> i < j,
    decreases s.len(),
{
    if s.len() > 0 && s[0] != '.' {
        lemma_nth_dot_ordered(s.drop_first());
    }
    if s.len() > 0 && s[0] == '.' {
        lemma_nth_dot_bounds(s.drop_first(), 0);
    }
}

/// Why a claim set is rejected at instant `now`, if it is: the issuer must be `miru`,
/// the audience `device`, the issue time at most 15 seconds ahead, and the expiry not
/// in the past.
pub open spec fn spec_claims_rejection(c: Claims, now: int) -> Option<Seq<char>> {
    if c.iss@ != "miru"@ {
        Some("Invalid issuer"@)
    } else if c.aud@ != "device"@ {
        Some("Invalid audience"@)
    } else if c.iat > now + 15 {
        Some("Issued at time is in the future"@)
    } else if c.exp < now {
        Some("Expiration time is in the past"@)
    } else {
        None
    }
}

/// Validate the claims of a Miru JWT at instant `now` and return the device id (the
/// subject); a rejection is an `InvalidJWTErr` carrying its reason.
pub fn validate_claims_at(claim: Claims, now: i64) -> (r: Result<String, CryptErr>)
    ensures
        match spec_claims_rejection(claim, now as int) {
            Some(reason) => (r matches Err(CryptErr::InvalidJWTErr(e)) && e.msg@ == reason),
            None => (r matches Ok(id) && id@ == claim.sub@),
        },
{
    if !str_equals(claim.iss.as_str(), "miru") {
        return Err(CryptErr::InvalidJWTErr(InvalidJWTErr { msg: "Invalid issuer".to_owned() }));
    }
    if !str_equals(claim.aud.as_str(), "device") {
        return Err(CryptErr::InvalidJWTErr(InvalidJWTErr { msg: "Invalid audience".to_owned() }));
    }
    if now <= i64::MAX - 15 && claim.iat > now + 15 {
        return Err(
            CryptErr::InvalidJWTErr(
                InvalidJWTErr { msg: "Issued at time is in the future".to_owned() },
            ),
        );
    }
    if claim.exp < now {
        return Err(
            CryptErr::InvalidJWTErr(
                InvalidJWTErr { msg: "Expiration time is in the past".to_owned() },
            ),
        );
    }
    Ok(claim.sub)
}

/// Validate the claims of a Miru JWT at the current wall-clock time.
pub fn validate_claims(claim: Claims) -> (r: Result<String, CryptErr>)
    ensures
        exists|now: int|
            #![trigger spec_claims_rejection(claim, now)]
            time::MIN_UTC_SECS <= now <= time::MAX_UTC_SECS && match spec_claims_rejection(claim, now) {
                Some(reason) => (r matches Err(CryptErr::InvalidJWTErr(e)) && e.msg@ == reason),
                None => (r matches Ok(id) && id@ == claim.sub@),
            },
{
    let now = time::now_secs();
    let ghost c = claim;
    let r = validate_claims_at(claim, now);
    assert(match spec_claims_rejection(c, now as int) {
        Some(reason) => (r matches Err(CryptErr::InvalidJWTErr(e)) && e.msg@ == reason),
        None => (r matches Ok(id) && id@ == c.sub@),
    });
    r
}

/// The text of a JWT from its header, payload and signature bytes: each part
/// base64url-encoded without padding, joined by `.`.
pub open spec fn jwt_text(header: Seq<u8>, payload: Seq<u8>, signature: Seq<u8>) -> Seq<char> {
    spec_b64_encode(Base64Engine::UrlSafeNoPad, header) + seq!['.'] + spec_b64_encode(
        Base64Engine::UrlSafeNoPad,
        payload,
    ) + seq!['.'] + spec_b64_encode(Base64Engine::UrlSafeNoPad, signature)
}

/// A text without `.` has no dots, and no `k`-th one.
proof fn lemma_no_dots(s: Seq<char>, k: nat)
    requires
        forall|i: int| 0 <= i < s.len() ==> s[i] != '.',
    ensures
        dots(s) == 0,
        nth_dot(s, k) is None,
    decreases s.len(),
{
    if s.len() > 0 {
        lemma_no_dots(s.drop_first(), k);
    }
}

/// Dots of a text without `.` followed by another: those of the other, shifted.
proof fn lemma_dots_after(a: Seq<char>, b: Seq<char>, k: nat)
    requires
        forall|i: int| 0 <= i < a.len() ==> a[i] != '.',
    ensures
        dots(a + b) == dots(b),
        nth_dot(a + b, k) == match nth_dot(b, k) {
            Some(j) => Some(j + a.len()),
            None => None::<int>,
        },
    decreases a.len(),
{
    if a.len() > 0 {
        assert((a + b).drop_first() =~= a.drop_first() + b);
        lemma_dots_after(a.drop_first(), b, k);
    } else {
        assert(a + b =~= b);
    }
}

/// Where the dots of a JWT text are: right after the encoded header, and right after
/// the encoded payload; there are exactly two.
pub proof fn lemma_jwt_dots(eh: Seq<char>, ep: Seq<char>, es: Seq<char>)
    requires
        forall|i: int| 0 <= i < eh.len() ==> eh[i] != '.',
        forall|i: int| 0 <= i < ep.len() ==> ep[i] != '.',
        forall|i: int| 0 <= i < es.len() ==> es[i] != '.',
    ensures
        dots(eh + seq!['.'] + ep + seq!['.'] + es) == 2,
        payload_part(eh + seq!['.'] + ep + seq!['.'] + es) == ep,
{
    let t = eh + seq!['.'] + ep + seq!['.'] + es;
    let tail2 = seq!['.'] + es;
    let tail1 = ep + tail2;
    let tail0 = seq!['.'] + tail1;
    assert(t =~= eh + tail0);
    assert(tail0.drop_first() =~= tail1);
    assert(tail2.drop_first() =~= es);
    lemma_no_dots(es, 0);
    lemma_no_dots(es, 1);
    lemma_dots_after(ep, tail2, 0);
    lemma_dots_after(ep, tail2, 1);
    lemma_dots_after(eh, tail0, 0);
    lemma_dots_after(eh, tail0, 1);
    assert(nth_dot(tail2, 0) == Some(0int));
    assert(nth_dot(tail1, 0) == Some(ep.len() as int));
    assert(nth_dot(tail0, 0) == Some(0int));
    assert(nth_dot(tail0, 1) == Some(ep.len() + 1int));
    assert(nth_dot(t, 0) == Some(eh.len() as int));
    assert(nth_dot(t, 1) == Some(eh.len() + ep.len() + 1int));
    assert(t.subrange(eh.len() + 1int, eh.len() + ep.len() + 1int) =~= ep);
}

/// Assemble a JWT from a signing input (`header.payload`) and its signature, which is
/// appended base64url-encoded without padding.
pub fn assemble_jwt(signing_input: &str, signature: &[u8]) -> (r: String)
    requires
        spec_encoded_len(signature@.len(), false) <= usize::MAX,
    ensures
        r@ == signing_input@ + seq!['.'] + spec_b64_encode(Base64Engine::UrlSafeNoPad, signature@),
        forall|i: int|
            0 <= i < spec_b64_encode(Base64Engine::UrlSafeNoPad, signature@).len() ==> spec_b64_encode(
                Base64Engine::UrlSafeNoPad,
                signature@,
            )[i] != '.',
{
    let sig = encode_bytes_url_safe_no_pad(signature);
    let mut out = String::from_str(signing_input);
    out.append(".");
    out.append(sig.as_str());
    proof {
        reveal_strlit(".");
        assert(out@ =~= signing_input@ + seq!['.'] + sig@);
    }
    out
}

} // verus!
