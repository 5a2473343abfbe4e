//! Light obfuscation of stored secrets: the key is SHA-256 of password and
//! salt, the text is XOR-ed with the key (repeated) and wrapped in Base64.

use base64::engine::general_purpose;
use base64::Engine;
use sha2::Digest;
use sha2::Sha256;
use vstd::prelude::*;
use vstd::utf8::decode_utf8;
use vstd::utf8::encode_utf8;
use vstd::utf8::valid_utf8;


verus! {

broadcast use vstd::utf8::encode_utf8_valid_utf8, vstd::utf8::encode_utf8_decode_utf8;

// ---------------------------------------------------------------------------
// Names for what the outside crates compute
// ---------------------------------------------------------------------------

/// The SHA-256 digest of a byte sequence.
pub uninterp spec fn sha256_spec(data: Seq<u8>) -> Seq<u8>;

/// The character of the standard Base64 alphabet for a 6-bit value:
/// `A`-`Z`, `a`-`z`, `0`-`9`, `+`, `/`.
pub open spec fn base64_digit(v: int) -> char {
    if v < 26 {
        (65 + v) as char
    } else if v < 52 {
        (97 + v - 26) as char
    } else if v < 62 {
        (48 + v - 52) as char
    } else if v == 62 {
        '+'
    } else {
        '/'
    }
}

/// The standard (padded) Base64 text of a byte sequence: each group of
/// three bytes, read as 24 bits, gives four characters of six bits each; a
/// last group of one or two bytes is filled with zero bits and padded with
/// `=` to four characters.
pub open spec fn base64_encode_spec(data: Seq<u8>) -> Seq<char>
    decreases data.len(),
{
    if data.len() == 0 {
        Seq::empty()
    } else if data.len() == 1 {
        let a = data[0] as int;
        seq![base64_digit(a / 4), base64_digit((a % 4) * 16), '=', '=']
    } else if data.len() == 2 {
        let a = data[0] as int;
        let b = data[1] as int;
        seq![base64_digit(a / 4), base64_digit((a % 4) * 16 + b / 16), base64_digit((b % 16) * 4), '=']
    } else {
        let a = data[0] as int;
        let b = data[1] as int;
        let c = data[2] as int;
        seq![
            base64_digit(a / 4),
            base64_digit((a % 4) * 16 + b / 16),
            base64_digit((b % 16) * 4 + c / 64),
            base64_digit(c % 64),
        ] + base64_encode_spec(data.skip(3))
    }
}

/// The bytes that a standard Base64 decoder reads from `text`, or `None`
/// where `text` is not canonical padded Base64.
pub uninterp spec fn base64_decode_spec(text: Seq<u8>) -> Option<Seq<u8>>;

/// `sha2::Sha256::digest`: the result is the digest named `sha256_spec`, and
/// has the 32 bytes of SHA-256's output size.
#[verifier::external_body]
pub(crate) fn sha256_digest(data: &[u8]) -> (res: Vec<u8>)
    ensures
        res@ == sha256_spec(data@),
        res@.len() == 32,
{
    Sha256::digest(data).to_vec()
}

/// A character of the standard Base64 alphabet, or the padding `=`.
pub open spec fn is_base64_char(c: char) -> bool {
    ('A' <= c && c <= 'Z') || ('a' <= c && c <= 'z') || ('0' <= c && c <= '9') || c == '+' || c
        == '/' || c == '='
}

/// `base64::engine::general_purpose::STANDARD.encode`: the result is the
/// padded standard Base64 text `base64_encode_spec`: four characters for
/// every started group of three bytes, all from the standard alphabet or `=`. The same
/// engine's decoder reads the original bytes back from that text (the
/// encoder writes canonical padding, which is what the decoder requires).
/// The encoder panics only where the output length overflows `usize`, which
/// `requires` leaves out.
#[verifier::external_body]
fn base64_encode(data: &[u8]) -> (res: String)
    requires
        (data@.len() + 2) / 3 * 4 <= usize::MAX,
    ensures
        res@ == base64_encode_spec(data@),
        res@.len() == (data@.len() + 2) / 3 * 4,
        forall|i: int| 0 <= i < res@.len() ==> is_base64_char(#[trigger] res@[i]),
        base64_decode_spec(encode_utf8(res@)) == Some(data@),
{
    general_purpose::STANDARD.encode(data)
}

/// `base64::engine::general_purpose::STANDARD.decode`: `Ok` with the bytes
/// named `base64_decode_spec` where that is `Some`, `Err` with the decoder's
/// message where it is `None`. The message text is not stated.
#[verifier::external_body]
fn base64_decode(text: &[u8]) -> (res: Result<Vec<u8>, String>)
    ensures
        match res {
            Ok(v) => base64_decode_spec(text@) == Some(v@),
            Err(_) => base64_decode_spec(text@) is None,
        },
{
    general_purpose::STANDARD.decode(text).map_err(|e| e.to_string())
}

/// `String::from_utf8`: `Ok` with the decoded text exactly when the bytes are
/// valid UTF-8, `Err` with std's message otherwise (its text is not stated).
#[verifier::external_body]
fn string_from_utf8(bytes: Vec<u8>) -> (res: Result<String, String>)
    ensures
        match res {
            Ok(s) => valid_utf8(bytes@) && s@ == decode_utf8(bytes@),
            Err(_) => !valid_utf8(bytes@),
        },
{
    String::from_utf8(bytes).map_err(|e| e.to_string())
}

// ---------------------------------------------------------------------------
// Model
// ---------------------------------------------------------------------------

/// The key for a password and a salt: SHA-256 of their UTF-8 bytes, password first.
pub open spec fn derive_key_spec(password: Seq<char>, salt: Seq<char>) -> Seq<u8> {
    sha256_spec(encode_utf8(password) + encode_utf8(salt))
}

/// `data` XOR-ed byte by byte with `key`, the key repeated as often as needed.
pub open spec fn xor_spec(data: Seq<u8>, key: Seq<u8>) -> Seq<u8> {
    Seq::new(data.len(), |i: int| data[i] ^ key[i % key.len() as int])
}

/// The text that `encrypt` returns.
pub open spec fn encrypt_spec(plaintext: Seq<char>, password: Seq<char>, salt: Seq<char>) -> Seq<
    char,
> {
    base64_encode_spec(xor_spec(encode_utf8(plaintext), derive_key_spec(password, salt)))
}

/// Why a ciphertext could not be decrypted.
pub enum DecryptFailure {
    /// The text is not standard Base64.
    Base64,
    /// The de-obfuscated bytes are not UTF-8.
    Utf8,
}

/// What `decrypt` makes of a ciphertext: the plaintext, or the stage that failed.
pub open spec fn decrypt_spec(ciphertext: Seq<char>, password: Seq<char>, salt: Seq<char>) -> Result<
    Seq<char>,
    DecryptFailure,
> {
    match base64_decode_spec(encode_utf8(ciphertext)) {
        None => Err(DecryptFailure::Base64),
        Some(raw) => {
            let plain = xor_spec(raw, derive_key_spec(password, salt));
            if valid_utf8(plain) {
                Ok(decode_utf8(plain))
            } else {
                Err(DecryptFailure::Utf8)
            }
        },
    }
}

/// XOR with the same non-empty key twice gives the data back.
pub proof fn lemma_xor_involution(data: Seq<u8>, key: Seq<u8>)
    requires
        key.len() > 0,
    ensures
        xor_spec(xor_spec(data, key), key) == data,
{
    let once = xor_spec(data, key);
    assert forall|i: int| 0 <= i < data.len() implies #[trigger] xor_spec(once, key)[i]
        == data[i] by {
        let a = data[i];
        let b = key[i % key.len() as int];
        assert((a ^ b) ^ b == a) by (bit_vector);
    }
    assert(xor_spec(once, key) =~= data);
}

/// What `encrypt` Base64-encodes: the UTF-8 bytes of the plaintext, each
/// XOR-ed with the byte of the key (SHA-256 of the password's and the salt's
/// UTF-8 bytes) at its position modulo the key's length, so the key repeats
/// over the whole text. Hence two positions in the same place of the key
/// cycle are obfuscated with the same key byte.
pub proof fn lemma_encrypt_repeats_key(plaintext: Seq<char>, password: Seq<char>, salt: Seq<char>)
    ensures
        ({
            let data = encode_utf8(plaintext);
            let key = sha256_spec(encode_utf8(password) + encode_utf8(salt));
            exists|obf: Seq<u8>|
                {
                    &&& #[trigger] base64_encode_spec(obf) == encrypt_spec(plaintext, password, salt)
                    &&& obf.len() == data.len()
                    &&& forall|i: int|
                        0 <= i < data.len() ==> #[trigger] obf[i] == data[i] ^ key[i % (key.len() as int)]
                    &&& forall|i: int, j: int|
                        0 <= i < data.len() && 0 <= j < data.len() && i % (key.len() as int) == j
                            % (key.len() as int) ==> #[trigger] (obf[i] ^ data[i]) == #[trigger] (obf[j]
                            ^ data[j])
                }
        }),
{
    let data = encode_utf8(plaintext);
    let key = sha256_spec(encode_utf8(password) + encode_utf8(salt));
    let obf = xor_spec(data, key);
    assert forall|i: int, j: int|
        0 <= i < data.len() && 0 <= j < data.len() && i % (key.len() as int) == j % (key.len() as int) implies (
        obf[i] ^ data[i]) == (obf[j] ^ data[j]) by {
        let a = data[i];
        let b = data[j];
        let k = key[i % (key.len() as int)];
        assert(obf[i] == a ^ k && obf[j] == b ^ k);
        assert((a ^ k) ^ a == k) by (bit_vector);
        assert((b ^ k) ^ b == k) by (bit_vector);
    }
    assert(base64_encode_spec(obf) == encrypt_spec(plaintext, password, salt));
}

// ---------------------------------------------------------------------------
// Implementation
// ---------------------------------------------------------------------------

fn append_bytes(v: &mut Vec<u8>, s: &[u8])
    ensures
        final(v)@ == old(v)@ + s@,
{
    let ghost start = v@;
    for i in 0..s.len()
        invariant
            v@ == start + s@.take(i as int),
    {
        v.push(s[i]);
        assert(start + s@.take(i + 1) =~= (start + s@.take(i as int)).push(s@[i as int]));
    }
    assert(s@.take(s@.len() as int) =~= s@);
}

fn derive_key(password: &str, salt: &str) -> (key: Vec<u8>)
    ensures
        key@ == derive_key_spec(password@, salt@),
        key@.len() == 32,
{
    let mut material: Vec<u8> = Vec::new();
    append_bytes(&mut material, password.as_bytes());
    append_bytes(&mut material, salt.as_bytes());
    assert(material@ =~= encode_utf8(password@) + encode_utf8(salt@));
    sha256_digest(material.as_slice())
}

fn xor_bytes(data: &[u8], key: &[u8]) -> (res: Vec<u8>)
    requires
        key@.len() > 0 || data@.len() == 0,
    ensures
        res@ == xor_spec(data@, key@),
{
    let mut res: Vec<u8> = Vec::new();
    for i in 0..data.len()
        invariant
            key@.len() > 0 || data@.len() == 0,
            res@ =~= xor_spec(data@, key@).take(i as int),
    {
        res.push(data[i] ^ key[i % key.len()]);
    }
    assert(xor_spec(data@, key@).take(data@.len() as int) =~= xor_spec(data@, key@));
    res
}

/// Obfuscates `plaintext` under `password` and `salt` and returns Base64 text.
/// Decrypting the result with the same password and salt gives `plaintext`
/// back.
pub fn encrypt(plaintext: &str, password: &str, salt: &str) -> (res: String)
    requires
        (encode_utf8(plaintext@).len() + 2) / 3 * 4 <= usize::MAX,
    ensures
        res@ == encrypt_spec(plaintext@, password@, salt@),
        res@.len() == (encode_utf8(plaintext@).len() + 2) / 3 * 4,
        forall|i: int| 0 <= i < res@.len() ==> is_base64_char(#[trigger] res@[i]),
        decrypt_spec(res@, password@, salt@) == Ok::<Seq<char>, DecryptFailure>(plaintext@),
{
    let key = derive_key(password, salt);
    let bytes = plaintext.as_bytes();
    let encrypted = xor_bytes(bytes, key.as_slice());
    let res = base64_encode(encrypted.as_slice());
    proof {
        lemma_xor_involution(encode_utf8(plaintext@), key@);
    }
    res
}

/// Reverses `encrypt`: Base64-decodes, XORs with the key, reads UTF-8.
/// The error names the stage that failed.
pub fn decrypt(ciphertext: &str, password: &str, salt: &str) -> (res: Result<String, String>)
    ensures
        match decrypt_spec(ciphertext@, password@, salt@) {
            Ok(p) => res matches Ok(s) && s@ == p,
            Err(DecryptFailure::Base64) => res matches Err(e) && e@.len()
                >= "Base64 解码失败: "@.len() && e@.take("Base64 解码失败: "@.len() as int)
                == "Base64 解码失败: "@,
            Err(DecryptFailure::Utf8) => res matches Err(e) && e@.len() >= "UTF-8 解码失败: "@.len()
                && e@.take("UTF-8 解码失败: "@.len() as int) == "UTF-8 解码失败: "@,
        },
{
    let key = derive_key(password, salt);
    let decoded = match base64_decode(ciphertext.as_bytes()) {
        Ok(v) => v,
        Err(msg) => {
            let mut e = "Base64 解码失败: ".to_owned();
            e.append(msg.as_str());
            assert(e@.take("Base64 解码失败: "@.len() as int) =~= "Base64 解码失败: "@);
            return Err(e);
        },
    };
    let decrypted = xor_bytes(decoded.as_slice(), key.as_slice());
    match string_from_utf8(decrypted) {
        Ok(s) => Ok(s),
        Err(msg) => {
            let mut e = "UTF-8 解码失败: ".to_owned();
            e.append(msg.as_str());
            assert(e@.take("UTF-8 解码失败: "@.len() as int) =~= "UTF-8 解码失败: "@);
            Err(e)
        },
    }
}

} // verus!
