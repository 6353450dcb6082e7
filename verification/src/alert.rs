//! The alert request's text parts.
//!
//! Sending the fatigue alert is plain HTTP and stays outside the library;
//! what is decided here is the text that goes into the request: the token
//! value extracted from whatever the user pasted (a bare key, or one
//! prefixed with a `Bearer` scheme in any letter case), the stimulus kind
//! folded onto the endpoint's three accepted kinds, and the request body,
//! whose object keys stand in lexicographic order exactly as the original
//! serializer emitted them.

use vstd::prelude::*;

verus! {

/// ASCII whitespace, as the token trimming understands it.
pub open spec fn is_space(b: u8) -> bool {
    b == 0x20 || (0x09 <= b && b <= 0x0d)
}

/// ASCII lower-casing of one byte.
pub open spec fn to_lower(b: u8) -> u8 {
    if 0x41 <= b && b <= 0x5a {
        (b + 0x20) as u8
    } else {
        b
    }
}

/// Position of the first non-whitespace byte at or after `i`.
pub open spec fn next_non_space(s: Seq<u8>, i: int) -> int
    decreases s.len() - i when 0 <= i <= s.len()
{
    if i < s.len() && is_space(s[i]) {
        next_non_space(s, i + 1)
    } else {
        i
    }
}

/// Position right after the whitespace-free run starting at `i`.
pub open spec fn token_end(s: Seq<u8>, i: int) -> int
    decreases s.len() - i when 0 <= i <= s.len()
{
    if i < s.len() && !is_space(s[i]) {
        token_end(s, i + 1)
    } else {
        i
    }
}

/// Position right after the last non-whitespace byte before `j`.
pub open spec fn trim_end(s: Seq<u8>, j: int) -> int
    decreases j when 0 <= j <= s.len()
{
    if j > 0 && is_space(s[j - 1]) {
        trim_end(s, j - 1)
    } else {
        j
    }
}

/// Whether a token is the scheme word `bearer`, in any letter case.
pub open spec fn is_bearer(t: Seq<u8>) -> bool {
    t.len() == 6 && to_lower(t[0]) == 0x62 && to_lower(t[1]) == 0x65 && to_lower(t[2]) == 0x61
        && to_lower(t[3]) == 0x72 && to_lower(t[4]) == 0x65 && to_lower(t[5]) == 0x72
}

/// The token value sent in the authorization header: the pasted text
/// trimmed; if it consists of a `bearer` scheme word followed by more,
/// only the word after the scheme.
pub open spec fn spec_auth_token(s: Seq<u8>) -> Seq<u8> {
    let a = next_non_space(s, 0);
    let z = trim_end(s, s.len() as int);
    if a >= z {
        Seq::empty()
    } else {
        let e1 = token_end(s, a);
        if e1 >= z {
            s.subrange(a, z)
        } else {
            let b2 = next_non_space(s, e1);
            let e2 = token_end(s, b2);
            if is_bearer(s.subrange(a, e1)) {
                s.subrange(b2, e2)
            } else {
                s.subrange(a, z)
            }
        }
    }
}

/// Whether a byte is ASCII whitespace.
fn space_byte(b: u8) -> (r: bool)
    ensures
        r == is_space(b),
{
    b == 0x20 || (0x09 <= b && b <= 0x0d)
}

/// Lower-cases one ASCII byte.
fn lower_byte(b: u8) -> (r: u8)
    ensures
        r == to_lower(b),
{
    if 0x41 <= b && b <= 0x5a {
        b + 0x20
    } else {
        b
    }
}

/// Advances past whitespace.
fn scan_non_space(s: &Vec<u8>, from: usize) -> (r: usize)
    requires
        from <= s.len(),
    ensures
        from <= r <= s.len(),
        r as int == next_non_space(s@, from as int),
{
    let mut k: usize = from;
    while k < s.len() && space_byte(s[k])
        invariant
            from <= k <= s.len(),
            next_non_space(s@, from as int) == next_non_space(s@, k as int),
        decreases s.len() - k,
    {
        k = k + 1;
    }
    k
}

/// Advances past a whitespace-free run.
fn scan_token_end(s: &Vec<u8>, from: usize) -> (r: usize)
    requires
        from <= s.len(),
    ensures
        from <= r <= s.len(),
        r as int == token_end(s@, from as int),
{
    let mut k: usize = from;
    while k < s.len() && !space_byte(s[k])
        invariant
            from <= k <= s.len(),
            token_end(s@, from as int) == token_end(s@, k as int),
        decreases s.len() - k,
    {
        k = k + 1;
    }
    k
}

/// Finds where the trailing whitespace begins.
fn trimmed_end(s: &Vec<u8>) -> (r: usize)
    ensures
        r <= s.len(),
        r as int == trim_end(s@, s.len() as int),
{
    let mut j: usize = s.len();
    while j > 0 && space_byte(s[j - 1])
        invariant
            j <= s.len(),
            trim_end(s@, s.len() as int) == trim_end(s@, j as int),
        decreases j,
    {
        j = j - 1;
    }
    j
}

/// Copies one stretch of the bytes.
fn copy_range(s: &Vec<u8>, from: usize, until: usize) -> (r: Vec<u8>)
    requires
        from <= until <= s.len(),
    ensures
        r@ == s@.subrange(from as int, until as int),
{
    let mut out: Vec<u8> = Vec::new();
    let mut k: usize = from;
    while k < until
        invariant
            from <= k <= until <= s.len(),
            out@ == s@.subrange(from as int, k as int),
        decreases until - k,
    {
        out.push(s[k]);
        proof {
            assert(out@ =~= s@.subrange(from as int, k as int + 1));
        }
        k = k + 1;
    }
    proof {
        assert(out@ =~= s@.subrange(from as int, until as int));
    }
    out
}

/// Extracts the token value for the authorization header from the pasted
/// token text.
pub fn auth_token_value(token: &Vec<u8>) -> (r: Vec<u8>)
    ensures
        r@ == spec_auth_token(token@),
{
    let a: usize = scan_non_space(token, 0);
    let z: usize = trimmed_end(token);
    if a >= z {
        let out: Vec<u8> = Vec::new();
        proof {
            assert(out@ =~= Seq::<u8>::empty());
        }
        return out;
    }
    let e1: usize = scan_token_end(token, a);
    if e1 >= z {
        return copy_range(token, a, z);
    }
    let b2: usize = scan_non_space(token, e1);
    let e2: usize = scan_token_end(token, b2);
    let bearer: bool = e1 - a == 6 && lower_byte(token[a]) == 0x62 && lower_byte(
        token[a + 1],
    ) == 0x65 && lower_byte(token[a + 2]) == 0x61 && lower_byte(token[a + 3]) == 0x72
        && lower_byte(token[a + 4]) == 0x65 && lower_byte(token[a + 5]) == 0x72;
    proof {
        let scheme = token@.subrange(a as int, e1 as int);
        assert(forall|t: int| 0 <= t < scheme.len() ==> #[trigger] scheme[t] == token@[a + t]);
        assert(bearer == is_bearer(scheme));
    }
    if bearer {
        copy_range(token, b2, e2)
    } else {
        copy_range(token, a, z)
    }
}

/// The stimulus kind `vibro`.
pub open spec fn lit_vibro() -> Seq<u8> {
    seq![0x76u8, 0x69u8, 0x62u8, 0x72u8, 0x6fu8]
}

/// The stimulus kind `vibration`.
pub open spec fn lit_vibration() -> Seq<u8> {
    seq![0x76u8, 0x69u8, 0x62u8, 0x72u8, 0x61u8, 0x74u8, 0x69u8, 0x6fu8, 0x6eu8]
}

/// The stimulus kind `vibe`, the endpoint's name for a vibration.
pub open spec fn lit_vibe() -> Seq<u8> {
    seq![0x76u8, 0x69u8, 0x62u8, 0x65u8]
}

/// The stimulus kind `zap`.
pub open spec fn lit_zap() -> Seq<u8> {
    seq![0x7au8, 0x61u8, 0x70u8]
}

/// The fallback stimulus kind `beep`.
pub open spec fn lit_beep() -> Seq<u8> {
    seq![0x62u8, 0x65u8, 0x65u8, 0x70u8]
}

/// The kind actually sent: the vibration aliases fold to `vibe`, `zap`
/// stays, everything else falls back to `beep`.
pub open spec fn spec_stimulus_code(kind: Seq<u8>) -> Seq<u8> {
    if kind == lit_vibro() || kind == lit_vibration() || kind == lit_vibe() {
        lit_vibe()
    } else if kind == lit_zap() {
        lit_zap()
    } else {
        lit_beep()
    }
}

/// Folds a requested stimulus kind onto the endpoint's accepted kinds.
pub fn stimulus_code(kind: &Vec<u8>) -> (r: Vec<u8>)
    ensures
        r@ == spec_stimulus_code(kind@),
{
    let vibro: bool = kind.len() == 5 && kind[0] == 0x76 && kind[1] == 0x69 && kind[2] == 0x62
        && kind[3] == 0x72 && kind[4] == 0x6f;
    let vibration: bool = kind.len() == 9 && kind[0] == 0x76 && kind[1] == 0x69 && kind[2] == 0x62
        && kind[3] == 0x72 && kind[4] == 0x61 && kind[5] == 0x74 && kind[6] == 0x69 && kind[7]
        == 0x6f && kind[8] == 0x6e;
    let vibe: bool = kind.len() == 4 && kind[0] == 0x76 && kind[1] == 0x69 && kind[2] == 0x62
        && kind[3] == 0x65;
    let zap: bool = kind.len() == 3 && kind[0] == 0x7a && kind[1] == 0x61 && kind[2] == 0x70;
    proof {
        if vibro {
            assert(kind@ =~= lit_vibro());
        }
        if vibration {
            assert(kind@ =~= lit_vibration());
        }
        if vibe {
            assert(kind@ =~= lit_vibe());
        }
        if zap {
            assert(kind@ =~= lit_zap());
        }
        assert(vibro == (kind@ == lit_vibro()));
        assert(vibration == (kind@ == lit_vibration()));
        assert(vibe == (kind@ == lit_vibe()));
        assert(zap == (kind@ == lit_zap()));
    }
    let mut out: Vec<u8> = Vec::new();
    if vibro || vibration || vibe {
        out.push(0x76);
        out.push(0x69);
        out.push(0x62);
        out.push(0x65);
        proof {
            assert(out@ =~= lit_vibe());
        }
    } else if zap {
        out.push(0x7a);
        out.push(0x61);
        out.push(0x70);
        proof {
            assert(out@ =~= lit_zap());
        }
    } else {
        out.push(0x62);
        out.push(0x65);
        out.push(0x65);
        out.push(0x70);
        proof {
            assert(out@ =~= lit_beep());
        }
    }
    out
}

/// The request body up to the stimulus kind:
/// `{"reason":"Fatigue limit","stimulus":{"stimulusType":"`.
pub open spec fn lit_payload_head() -> Seq<u8> {
    seq![0x7bu8, 0x22u8, 0x72u8, 0x65u8, 0x61u8, 0x73u8, 0x6fu8, 0x6eu8, 0x22u8, 0x3au8, 0x22u8,
        0x46u8, 0x61u8, 0x74u8, 0x69u8, 0x67u8, 0x75u8, 0x65u8, 0x20u8, 0x6cu8, 0x69u8, 0x6du8,
        0x69u8, 0x74u8, 0x22u8, 0x2cu8, 0x22u8, 0x73u8, 0x74u8, 0x69u8, 0x6du8, 0x75u8, 0x6cu8,
        0x75u8, 0x73u8, 0x22u8, 0x3au8, 0x7bu8, 0x22u8, 0x73u8, 0x74u8, 0x69u8, 0x6du8, 0x75u8,
        0x6cu8, 0x75u8, 0x73u8, 0x54u8, 0x79u8, 0x70u8, 0x65u8, 0x22u8, 0x3au8, 0x22u8]
}

/// The request body after the stimulus kind: `","stimulusValue":100}}`.
pub open spec fn lit_payload_tail() -> Seq<u8> {
    seq![0x22u8, 0x2cu8, 0x22u8, 0x73u8, 0x74u8, 0x69u8, 0x6du8, 0x75u8, 0x6cu8, 0x75u8, 0x73u8,
        0x56u8, 0x61u8, 0x6cu8, 0x75u8, 0x65u8, 0x22u8, 0x3au8, 0x31u8, 0x30u8, 0x30u8, 0x7du8,
        0x7du8]
}

/// The whole request body for a stimulus kind.
pub open spec fn spec_alert_payload(kind: Seq<u8>) -> Seq<u8> {
    lit_payload_head() + spec_stimulus_code(kind) + lit_payload_tail()
}

/// Builds the alert request body for a requested stimulus kind.
pub fn alert_payload(kind: &Vec<u8>) -> (r: Vec<u8>)
    ensures
        r@ == spec_alert_payload(kind@),
{
    let mut out: Vec<u8> = Vec::new();
    out.push(0x7b);
    out.push(0x22);
    out.push(0x72);
    out.push(0x65);
    out.push(0x61);
    out.push(0x73);
    out.push(0x6f);
    out.push(0x6e);
    out.push(0x22);
    out.push(0x3a);
    out.push(0x22);
    out.push(0x46);
    out.push(0x61);
    out.push(0x74);
    out.push(0x69);
    out.push(0x67);
    out.push(0x75);
    out.push(0x65);
    out.push(0x20);
    out.push(0x6c);
    out.push(0x69);
    out.push(0x6d);
    out.push(0x69);
    out.push(0x74);
    out.push(0x22);
    out.push(0x2c);
    out.push(0x22);
    out.push(0x73);
    out.push(0x74);
    out.push(0x69);
    out.push(0x6d);
    out.push(0x75);
    out.push(0x6c);
    out.push(0x75);
    out.push(0x73);
    out.push(0x22);
    out.push(0x3a);
    out.push(0x7b);
    out.push(0x22);
    out.push(0x73);
    out.push(0x74);
    out.push(0x69);
    out.push(0x6d);
    out.push(0x75);
    out.push(0x6c);
    out.push(0x75);
    out.push(0x73);
    out.push(0x54);
    out.push(0x79);
    out.push(0x70);
    out.push(0x65);
    out.push(0x22);
    out.push(0x3a);
    out.push(0x22);
    proof {
        assert(out@ =~= lit_payload_head());
    }
    let mut code: Vec<u8> = stimulus_code(kind);
    out.append(&mut code);
    let ghost with_code = out@;
    out.push(0x22);
    out.push(0x2c);
    out.push(0x22);
    out.push(0x73);
    out.push(0x74);
    out.push(0x69);
    out.push(0x6d);
    out.push(0x75);
    out.push(0x6c);
    out.push(0x75);
    out.push(0x73);
    out.push(0x56);
    out.push(0x61);
    out.push(0x6c);
    out.push(0x75);
    out.push(0x65);
    out.push(0x22);
    out.push(0x3a);
    out.push(0x31);
    out.push(0x30);
    out.push(0x30);
    out.push(0x7d);
    out.push(0x7d);
    proof {
        assert(out@ =~= with_code + lit_payload_tail());
        assert(out@ =~= spec_alert_payload(kind@));
    }
    out
}

} // verus!
