//! Checking the signature of a payment webhook.

use vstd::prelude::*;
use vstd::string::{StringExecFns, StringSliceAdditionalSpecFns};
use hmac::{Hmac, Mac};
use sha2::Sha256;
use subtle::ConstantTimeEq;
use crate::error::AppError;
use crate::text::{chars_of, decimal, digit_char, digit_run, digits_value, is_digit_char, lemma_digit_run, lemma_digit_run_end, slice_of, trim_chars, trimmed};
use crate::types::gradient::hex_value;

verus! {

/// How far the time of a signature may lie from the time of its check, in seconds.
pub const TOLERANCE_SECONDS: i64 = 300;

/// The HMAC-SHA256 of a message under a key; none for a key that the
/// algorithm does not take.
pub uninterp spec fn hmac_sha256_of(key: Seq<u8>, message: Seq<u8>) -> Option<Seq<u8>>;

/// `Hmac::<Sha256>::new_from_slice`, `update` and `finalize`: the
/// authentication code of a message under a key.
#[verifier::external_body]
fn hmac_sha256(key: &[u8], message: &Vec<u8>) -> (code: Option<Vec<u8>>)
    ensures
        match (code, hmac_sha256_of(key@, message@)) {
            (Some(bytes), Some(expected)) => bytes@ == expected,
            (None, None) => true,
            _ => false,
        },
{
    let mut mac = Hmac::<Sha256>::new_from_slice(key).ok()?;
    mac.update(message);
    Some(mac.finalize().into_bytes().to_vec())
}

/// `ConstantTimeEq::ct_eq` on byte slices: whether the two hold the same
/// bytes, found out in a time that does not depend on where they differ.
#[verifier::external_body]
fn constant_time_eq(a: &Vec<u8>, b: &Vec<u8>) -> (same: bool)
    ensures
        same == (a@ == b@),
{
    a.as_slice().ct_eq(b.as_slice()).into()
}

/// Index of the first `c` in a text at or after `from`; the length of the
/// text where there is none.
pub open spec fn first_index(text: Seq<char>, c: char, from: int) -> int
    decreases text.len() - from + 1,
{
    if from < 0 || from >= text.len() {
        text.len() as int
    } else if text[from] == c {
        from
    } else {
        first_index(text, c, from + 1)
    }
}

/// The pieces of a text between the separators, for a piece that starts at
/// `start` and has been read up to `i`.
pub open spec fn split_scan(text: Seq<char>, separator: char, start: int, i: int) -> Seq<Seq<char>>
    decreases text.len() - i,
{
    if i < 0 || i >= text.len() {
        seq![text.subrange(start, text.len() as int)]
    } else if text[i] == separator {
        seq![text.subrange(start, i)] + split_scan(text, separator, i + 1, i + 1)
    } else {
        split_scan(text, separator, start, i + 1)
    }
}

/// The pieces of a text between the separators.
pub open spec fn split_of(text: Seq<char>, separator: char) -> Seq<Seq<char>> {
    split_scan(text, separator, 0, 0)
}

/// The first index lies between the start and the end of the text, at a
/// separator if within the text, and behind no separator.
pub proof fn lemma_first_index(text: Seq<char>, c: char, from: int)
    requires
        0 <= from <= text.len(),
    ensures
        from <= first_index(text, c, from) <= text.len(),
        first_index(text, c, from) < text.len() ==> text[first_index(text, c, from)] == c,
        forall|j: int| from <= j < first_index(text, c, from) ==> text[j] != c,
    decreases text.len() - from,
{
    if from < text.len() && text[from] != c {
        lemma_first_index(text, c, from + 1);
    }
}

/// The texts of a list of pieces.
pub open spec fn pieces_of(parts: Seq<Vec<char>>) -> Seq<Seq<char>> {
    Seq::new(parts.len(), |i: int| parts[i]@)
}

/// Index of the first `c` at or after `from`.
fn index_of_char(chars: &Vec<char>, c: char, from: usize) -> (at: usize)
    requires
        from <= chars@.len(),
    ensures
        at == first_index(chars@, c, from as int),
        from <= at <= chars@.len(),
{
    let mut i: usize = from;
    while i < chars.len() && chars[i] != c
        invariant
            from <= i <= chars@.len(),
            first_index(chars@, c, from as int) == first_index(chars@, c, i as int),
        decreases chars@.len() - i,
    {
        i = i + 1;
    }
    i
}

/// Splits a text at a separator.
pub fn split(chars: &Vec<char>, separator: char) -> (parts: Vec<Vec<char>>)
    ensures
        pieces_of(parts@) == split_of(chars@, separator),
{
    let n = chars.len();
    let mut parts: Vec<Vec<char>> = Vec::new();
    let mut start: usize = 0;
    let mut i: usize = 0;
    while i < n
        invariant
            0 <= start <= i <= n,
            n == chars@.len(),
            pieces_of(parts@) + split_scan(chars@, separator, start as int, i as int) == split_of(
                chars@,
                separator,
            ),
        decreases n - i,
    {
        if chars[i] == separator {
            let piece = slice_of(chars, start, i);
            let ghost before = pieces_of(parts@);
            parts.push(piece);
            assert(pieces_of(parts@) =~= before.push(chars@.subrange(start as int, i as int)));
            assert(before + (seq![chars@.subrange(start as int, i as int)] + split_scan(
                chars@,
                separator,
                i + 1,
                i + 1,
            )) =~= pieces_of(parts@) + split_scan(chars@, separator, i + 1, i + 1));
            start = i + 1;
        }
        i = i + 1;
    }
    let piece = slice_of(chars, start, n);
    let ghost before = pieces_of(parts@);
    parts.push(piece);
    assert(pieces_of(parts@) =~= before.push(chars@.subrange(start as int, n as int)));
    assert(pieces_of(parts@) =~= split_of(chars@, separator));
    parts
}

/// The whole number that a text writes: an optional sign and digits. None
/// where the text is anything else, or the number does not fit 64 bits.
pub open spec fn signed_of(text: Seq<char>) -> Option<int> {
    let start = crate::text::sign_end(text);
    let magnitude = digits_value(text, start, text.len() as int);
    if start >= text.len() || digit_run(text, start) != text.len() {
        None
    } else if text[0] == '-' {
        if magnitude <= 0x8000_0000_0000_0000 {
            Some(-(magnitude as int))
        } else {
            None
        }
    } else if magnitude <= 0x7FFF_FFFF_FFFF_FFFF {
        Some(magnitude as int)
    } else {
        None
    }
}

/// Reads a whole number of 64 bits.
pub fn parse_i64(chars: &Vec<char>) -> (value: Option<i64>)
    ensures
        match value {
            Some(v) => signed_of(chars@) == Some(v as int),
            None => signed_of(chars@).is_none(),
        },
{
    let n = chars.len();
    let start: usize = if n > 0 && (chars[0] == '-' || chars[0] == '+') {
        1
    } else {
        0
    };
    if start >= n {
        return None;
    }
    proof {
        lemma_digit_run_end(chars@, start as int);
    }
    let mut total: u128 = 0;
    let mut over = false;
    let mut i: usize = start;
    while i < n
        invariant
            start <= i <= n,
            n == chars@.len(),
            start == crate::text::sign_end(chars@),
            i <= digit_run(chars@, start as int),
            !over ==> total == digits_value(chars@, start as int, i as int) && total
                <= 0x8000_0000_0000_0000,
            over ==> digits_value(chars@, start as int, i as int) > 0x8000_0000_0000_0000,
        decreases n - i,
    {
        if !is_digit_char(chars[i]) {
            proof {
                lemma_digit_run_end(chars@, start as int);
                if digit_run(chars@, start as int) > i {
                    lemma_digit_run(chars@, start as int, i as int);
                }
            }
            return None;
        }
        proof {
            lemma_run_goes_on(chars@, start as int, i as int);
        }
        if !over {
            total = total * 10 + (chars[i] as u8 - 48) as u128;
            if total > 0x8000_0000_0000_0000 {
                over = true;
            }
        }
        i = i + 1;
    }
    proof {
        lemma_digit_run_end(chars@, start as int);
    }
    if over {
        return None;
    }
    if start == 1 && chars[0] == '-' {
        Some((-(total as i128)) as i64)
    } else if total <= 0x7FFF_FFFF_FFFF_FFFF {
        Some(total as i64)
    } else {
        None
    }
}

/// A run of digits that has come to a digit goes on behind it.
pub proof fn lemma_run_goes_on(text: Seq<char>, from: int, i: int)
    requires
        0 <= from <= i < text.len(),
        i <= digit_run(text, from),
        '0' <= text[i] && text[i] <= '9',
    ensures
        i + 1 <= digit_run(text, from),
    decreases i - from,
{
    if from < i {
        lemma_run_goes_on(text, from + 1, i);
    } else {
        lemma_digit_run_end(text, i + 1);
    }
}

/// The bytes that a text of hexadecimal digits writes, two digits to a
/// byte; none for a text of odd length or with another character.
pub open spec fn hex_bytes(text: Seq<char>, k: int) -> Option<Seq<u8>>
    decreases k,
{
    if k <= 0 {
        Some(Seq::empty())
    } else {
        match (hex_bytes(text, k - 1), hex_value(text[2 * k - 2]), hex_value(text[2 * k - 1])) {
            (Some(bytes), Some(high), Some(low)) => Some(bytes.push((high * 16 + low) as u8)),
            _ => None,
        }
    }
}

/// The bytes that a hexadecimal text writes.
pub open spec fn hex_decoded(text: Seq<char>) -> Option<Seq<u8>> {
    if text.len() % 2 != 0 {
        None
    } else {
        hex_bytes(text, text.len() as int / 2)
    }
}

/// A text that has no bytes up to some pair has none in all.
pub proof fn lemma_hex_bytes_none(text: Seq<char>, k: int, n: int)
    requires
        0 <= k <= n,
        hex_bytes(text, k).is_none(),
    ensures
        hex_bytes(text, n).is_none(),
    decreases n - k,
{
    if k < n {
        lemma_hex_bytes_none(text, k, n - 1);
    }
}

/// The value of a hexadecimal digit.
fn hex_digit_of(c: char) -> (v: Option<u8>)
    ensures
        match v {
            Some(d) => hex_value(c) == Some(d as int) && d < 16,
            None => hex_value(c).is_none(),
        },
{
    if '0' <= c && c <= '9' {
        Some(c as u8 - 48)
    } else if 'a' <= c && c <= 'f' {
        Some(c as u8 - 87)
    } else if 'A' <= c && c <= 'F' {
        Some(c as u8 - 55)
    } else {
        None
    }
}

/// Reads bytes written in hexadecimal.
pub fn hex_decode(chars: &Vec<char>) -> (bytes: Option<Vec<u8>>)
    ensures
        match (bytes, hex_decoded(chars@)) {
            (Some(b), Some(expected)) => b@ == expected,
            (None, None) => true,
            _ => false,
        },
{
    let n = chars.len();
    if n % 2 != 0 {
        return None;
    }
    let mut out: Vec<u8> = Vec::new();
    let mut k: usize = 0;
    while k < n / 2
        invariant
            0 <= k <= n / 2,
            n == chars@.len(),
            n % 2 == 0,
            hex_bytes(chars@, k as int) == Some(out@),
        decreases n / 2 - k,
    {
        match (hex_digit_of(chars[2 * k]), hex_digit_of(chars[2 * k + 1])) {
            (Some(high), Some(low)) => {
                out.push(high * 16 + low);
            },
            _ => {
                proof {
                    lemma_hex_bytes_none(chars@, k + 1, n as int / 2);
                }
                return None;
            },
        }
        k = k + 1;
    }
    Some(out)
}

/// The key and the value of a part of the header: what stands before and
/// behind its first `=`, each without the white space around it.
pub open spec fn key_of(part: Seq<char>) -> Seq<char> {
    let inner = trimmed(part);
    trimmed(inner.subrange(0, first_index(inner, '=', 0)))
}

/// The value of a part of the header; empty where the part has no `=`.
pub open spec fn value_of(part: Seq<char>) -> Seq<char> {
    let inner = trimmed(part);
    let at = first_index(inner, '=', 0);
    if at >= inner.len() {
        Seq::empty()
    } else {
        trimmed(inner.subrange(at + 1, inner.len() as int))
    }
}

/// What the first `k` parts of a signature header give: the time of the
/// last `t` (none where it does not read as a number) and the signatures
/// of the `v1` parts. None where a `v1` part is not hexadecimal.
pub open spec fn header_of(parts: Seq<Seq<char>>, k: int) -> Option<(Option<i64>, Seq<Seq<u8>>)>
    decreases k,
{
    if k <= 0 {
        Some((None, Seq::empty()))
    } else {
        match header_of(parts, k - 1) {
            None => None,
            Some((time, signatures)) => if key_of(parts[k - 1]) == "t"@ {
                Some(
                    (
                        match signed_of(value_of(parts[k - 1])) {
                            Some(t) => Some(t as i64),
                            None => None,
                        },
                        signatures,
                    ),
                )
            } else if key_of(parts[k - 1]) == "v1"@ {
                match hex_decoded(value_of(parts[k - 1])) {
                    Some(bytes) => Some((time, signatures.push(bytes))),
                    None => None,
                }
            } else {
                Some((time, signatures))
            },
        }
    }
}

/// A header that fails at some part fails in all.
pub proof fn lemma_header_fails(parts: Seq<Seq<char>>, k: int, n: int)
    requires
        0 <= k <= n,
        header_of(parts, k).is_none(),
    ensures
        header_of(parts, n).is_none(),
    decreases n - k,
{
    if k < n {
        lemma_header_fails(parts, k, n - 1);
    }
}

/// The bytes of a text of characters below 256.
pub open spec fn bytes_of(text: Seq<char>) -> Seq<u8> {
    Seq::new(text.len(), |i: int| text[i] as u8)
}

/// The decimal notation of a whole number, with a minus sign where it is negative.
pub open spec fn signed_decimal(value: int) -> Seq<char> {
    if value < 0 {
        seq!['-'] + decimal((-value) as nat)
    } else {
        decimal(value as nat)
    }
}

/// What is signed: the time of the signature in decimal, a full stop, and
/// the payload.
pub open spec fn signed_payload(time: i64, payload: Seq<u8>) -> Seq<u8> {
    bytes_of(signed_decimal(time as int)) + seq![46u8] + payload
}

/// Appends the decimal notation of a number as bytes.
fn push_decimal_bytes(out: &mut Vec<u8>, n: u64)
    ensures
        final(out)@ == old(out)@ + bytes_of(decimal(n as nat)),
    decreases n,
{
    if n >= 10 {
        push_decimal_bytes(out, n / 10);
    }
    let d = (n % 10) as u8;
    assert(digit_char(d as int) as u8 == 48 + d);
    out.push(48 + d);
    assert(out@ =~= old(out)@ + bytes_of(decimal(n as nat)));
}

/// Whether one of the signatures is the given code.
pub open spec fn has_signature(signatures: Seq<Seq<u8>>, code: Seq<u8>) -> bool {
    exists|i: int| 0 <= i < signatures.len() && #[trigger] signatures[i] == code
}

/// Why a webhook is not taken as signed, if it is not.
pub enum SignatureFault {
    /// The header gives no time or no signature, a signature is not
    /// hexadecimal, or none of the signatures is that of the payload.
    Invalid,
    /// The time of the signature lies too far from the time of the check.
    Expired,
    /// The secret is no key.
    BadSecret,
}

/// The verdict on the signature header of a webhook with this payload,
/// checked at `now` (in seconds since the Unix epoch) under a secret.
///
/// The header is a list of `key=value` parts between commas. It must give
/// a time `t` and at least one signature `v1` in hexadecimal; the time must
/// lie within the tolerance of `now`; and one of the signatures must be the
/// HMAC-SHA256, under the secret, of the time, a full stop and the payload.
pub open spec fn signature_verdict(secret: Seq<u8>, header: Seq<char>, payload: Seq<u8>, now: i64) -> Result<
    (),
    SignatureFault,
> {
    let parts = split_of(header, ',');
    match header_of(parts, parts.len() as int) {
        None => Err(SignatureFault::Invalid),
        Some((None, _)) => Err(SignatureFault::Invalid),
        Some((Some(time), signatures)) => if signatures.len() == 0 {
            Err(SignatureFault::Invalid)
        } else if now - time > TOLERANCE_SECONDS || time - now > TOLERANCE_SECONDS {
            Err(SignatureFault::Expired)
        } else {
            match hmac_sha256_of(secret, signed_payload(time, payload)) {
                None => Err(SignatureFault::BadSecret),
                Some(code) => if has_signature(signatures, code) {
                    Ok(())
                } else {
                    Err(SignatureFault::Invalid)
                },
            }
        },
    }
}

/// Whether a failure is the answer to a fault of a signature.
pub open spec fn answers(err: AppError, fault: SignatureFault) -> bool {
    match (err, fault) {
        (AppError::Unauthorized(text), SignatureFault::Invalid) => text@
            == "Invalid Stripe signature"@,
        (AppError::Unauthorized(text), SignatureFault::Expired) => text@
            == "Expired Stripe signature"@,
        (AppError::Internal(text), SignatureFault::BadSecret) => text@
            == "Invalid Stripe webhook secret"@,
        _ => false,
    }
}

/// The failure for a header that is not taken.
fn invalid_signature() -> (err: AppError)
    ensures
        answers(err, SignatureFault::Invalid),
{
    AppError::Unauthorized(String::from_str("Invalid Stripe signature"))
}

/// Checks the signature header of a webhook; see [`signature_verdict`].
#[verifier::rlimit(60)]
pub fn verify_stripe_signature(secret: &str, signature_header: &str, payload: &Vec<u8>, now: i64) -> (result:
    Result<(), AppError>)
    ensures
        match (result, signature_verdict(secret.spec_bytes(), signature_header@, payload@, now)) {
            (Ok(_), Ok(_)) => true,
            (Err(err), Err(fault)) => answers(err, fault),
            _ => false,
        },
{
    let header = chars_of(signature_header);
    let parts = split(&header, ',');
    let ghost pieces = pieces_of(parts@);
    let t_key = chars_of("t");
    let v1_key = chars_of("v1");
    let mut time: Option<i64> = None;
    let mut signatures: Vec<Vec<u8>> = Vec::new();
    let mut failed = false;
    let mut k: usize = 0;
    while k < parts.len() && !failed
        invariant
            0 <= k <= parts@.len(),
            pieces == pieces_of(parts@),
            t_key@ == "t"@,
            v1_key@ == "v1"@,
            !failed ==> header_of(pieces, k as int) == Some((time, codes_of(signatures@))),
            failed ==> header_of(pieces, pieces.len() as int).is_none(),
        decreases parts@.len() - k + if failed {
            0int
        } else {
            1int
        },
    {
        let inner = trim_chars(&parts[k]);
        assert(pieces[k as int] == parts@[k as int]@);
        let at = index_of_char(&inner, '=', 0);
        let key = trim_chars(&slice_of(&inner, 0, at));
        let value = if at >= inner.len() {
            Vec::new()
        } else {
            trim_chars(&slice_of(&inner, at + 1, inner.len()))
        };
        assert(key@ == key_of(pieces[k as int]));
        assert(value@ == value_of(pieces[k as int]));
        if same_chars(&key, &t_key) {
            time = parse_i64(&value);
            k = k + 1;
        } else if same_chars(&key, &v1_key) {
            match hex_decode(&value) {
                Some(bytes) => {
                    let ghost before = codes_of(signatures@);
                    signatures.push(bytes);
                    assert(codes_of(signatures@) =~= before.push(bytes@));
                    k = k + 1;
                },
                None => {
                    proof {
                        lemma_header_fails(pieces, k + 1, pieces.len() as int);
                    }
                    failed = true;
                },
            }
        } else {
            k = k + 1;
        }
    }
    if failed {
        return Err(invalid_signature());
    }
    let time = match time {
        Some(t) => t,
        None => {
            return Err(invalid_signature());
        },
    };
    if signatures.len() == 0 {
        return Err(invalid_signature());
    }
    let apart: i128 = now as i128 - time as i128;
    if apart > TOLERANCE_SECONDS as i128 || -apart > TOLERANCE_SECONDS as i128 {
        return Err(AppError::Unauthorized(String::from_str("Expired Stripe signature")));
    }
    let signed = signed_bytes(time, payload);
    let code = match hmac_sha256(secret.as_bytes(), &signed) {
        Some(code) => code,
        None => {
            return Err(AppError::Internal(String::from_str("Invalid Stripe webhook secret")));
        },
    };
    if any_matches(&signatures, &code) {
        Ok(())
    } else {
        Err(invalid_signature())
    }
}

/// Writes what is signed.
fn signed_bytes(time: i64, payload: &Vec<u8>) -> (signed: Vec<u8>)
    ensures
        signed@ == signed_payload(time, payload@),
{
    let mut signed: Vec<u8> = Vec::new();
    if time < 0 {
        signed.push(45);
        push_decimal_bytes(&mut signed, (-(time as i128)) as u64);
    } else {
        push_decimal_bytes(&mut signed, time as u64);
    }
    assert(signed@ =~= bytes_of(signed_decimal(time as int)));
    signed.push(46);
    let mut j: usize = 0;
    while j < payload.len()
        invariant
            0 <= j <= payload@.len(),
            signed@ == bytes_of(signed_decimal(time as int)) + seq![46u8] + payload@.subrange(
                0,
                j as int,
            ),
        decreases payload@.len() - j,
    {
        signed.push(payload[j]);
        assert(signed@ =~= bytes_of(signed_decimal(time as int)) + seq![46u8] + payload@.subrange(
            0,
            j + 1,
        ));
        j = j + 1;
    }
    assert(payload@.subrange(0, payload@.len() as int) =~= payload@);
    signed
}

/// Tells whether one of the signatures is the code, comparing each in
/// constant time.
fn any_matches(signatures: &Vec<Vec<u8>>, code: &Vec<u8>) -> (found: bool)
    ensures
        found == has_signature(codes_of(signatures@), code@),
{
    let mut c: usize = 0;
    while c < signatures.len()
        invariant
            0 <= c <= signatures@.len(),
            forall|i: int| 0 <= i < c ==> #[trigger] codes_of(signatures@)[i] != code@,
        decreases signatures@.len() - c,
    {
        if constant_time_eq(&signatures[c], code) {
            assert(codes_of(signatures@)[c as int] == code@);
            return true;
        }
        c = c + 1;
    }
    false
}

/// The byte strings of a list of signatures.
pub open spec fn codes_of(signatures: Seq<Vec<u8>>) -> Seq<Seq<u8>> {
    Seq::new(signatures.len(), |i: int| signatures[i]@)
}

/// Whether two texts hold the same characters.
fn same_chars(a: &Vec<char>, b: &Vec<char>) -> (same: bool)
    ensures
        same == (a@ == b@),
{
    if a.len() != b.len() {
        return false;
    }
    let mut i: usize = 0;
    while i < a.len()
        invariant
            0 <= i <= a@.len(),
            a@.len() == b@.len(),
            forall|j: int| 0 <= j < i ==> a@[j] == b@[j],
        decreases a@.len() - i,
    {
        if a[i] != b[i] {
            return false;
        }
        i = i + 1;
    }
    assert(a@ =~= b@);
    true
}

} // verus!
