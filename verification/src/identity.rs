//! The login identity of a resource: a user name derived from the name
//! and the namespace of the resource by hashing and encoding, and a
//! random password. The hash, the encoding and the random characters come
//! from the `sha3`, `bech32` and `rand` crates; what is stated of them
//! here is taken on trust.

use crate::error::Error;
use bech32::ToBase32;
use rand::distributions::DistString;
use sha3::Digest;
use vstd::prelude::*;
use vstd::string::StringSliceAdditionalSpecFns;

verus! {

/// The human-readable part that every derived user name begins with.
pub const USERNAME_PREFIX: &'static str = "dmtr_dbsync";

/// The number of characters of a derived user name.
pub const USERNAME_LENGTH: usize = 32;

/// The number of characters of a generated password.
pub const PASSWORD_LENGTH: usize = 16;

/// What `Sha3_256::digest` returns for a message.
pub uninterp spec fn sha3_256_of(message: Seq<u8>) -> Seq<u8>;

/// The text that `bech32::encode` returns, in the `Bech32` variant, for
/// a human-readable part that it accepts and for the data as
/// `ToBase32::to_base32` regroups its bytes into groups of five bits. It
/// names the two calls together, and depends on the part and on the
/// bytes alone.
pub uninterp spec fn bech32_of(hrp: Seq<char>, data: Seq<u8>) -> Seq<char>;

/// Whether `c` is a lowercase letter of the Latin alphabet.
pub open spec fn is_lower(c: char) -> bool {
    'a' <= c && c <= 'z'
}

/// Whether `c` is an uppercase letter of the Latin alphabet.
pub open spec fn is_upper(c: char) -> bool {
    'A' <= c && c <= 'Z'
}

/// Whether `c` is a letter of the Latin alphabet or a decimal digit.
pub open spec fn is_alphanumeric(c: char) -> bool {
    is_lower(c) || is_upper(c) || ('0' <= c && c <= '9')
}

/// Whether `c` belongs to the alphabet of the data part of the encoding:
/// the lowercase letters and the digits without `1`, `b`, `i` and `o`.
pub open spec fn is_data_char(c: char) -> bool {
    (is_lower(c) || ('0' <= c && c <= '9')) && c != '1' && c != 'b' && c != 'i' && c != 'o'
}

/// Whether the encoding accepts a human-readable part: one to
/// eighty-three printable ASCII characters, not of both cases.
pub open spec fn valid_hrp(hrp: Seq<char>) -> bool {
    &&& 1 <= hrp.len() <= 83
    &&& forall|i: int| 0 <= i < hrp.len() ==> 33 <= (#[trigger] hrp[i]) as u32 <= 126
    &&& !((exists|i: int| 0 <= i < hrp.len() && is_lower(#[trigger] hrp[i])) && (exists|i: int|
        0 <= i < hrp.len() && is_upper(#[trigger] hrp[i])))
}

/// The shape of an encoded text for a human-readable part without
/// uppercase letters: the part itself, the separator `1`, then one
/// character for every five bits of the data, rounded up, and six
/// characters of checksum, all from the data alphabet.
pub open spec fn encoded_shape(hrp: Seq<char>, data_len: nat, text: Seq<char>) -> bool {
    (forall|i: int| 0 <= i < hrp.len() ==> !is_upper(#[trigger] hrp[i])) ==> {
        &&& text.len() == hrp.len() + 1 + (data_len * 8 + 4) / 5 + 6
        &&& text.subrange(0, hrp.len() as int) == hrp
        &&& text[hrp.len() as int] == '1'
        &&& forall|i: int| hrp.len() < i < text.len() ==> is_data_char(#[trigger] text[i])
    }
}

/// `Sha3_256::digest`: the digest of the message, which has 32 bytes.
#[verifier::external_body]
fn sha3_256(message: &Vec<u8>) -> (digest: Vec<u8>)
    ensures
        digest@ == sha3_256_of(message@),
        digest@.len() == 32,
{
    sha3::Sha3_256::digest(message.as_slice()).to_vec()
}

/// `bech32::encode` in the `Bech32` variant, on the data as
/// `ToBase32::to_base32` gives it: it succeeds exactly on a
/// human-readable part that it accepts, and the text then has the shape
/// of the encoding; a refusal comes back as the message of its error.
#[verifier::external_body]
fn bech32_encode(hrp: &str, data: &Vec<u8>) -> (r: Result<String, String>)
    ensures
        r is Ok <==> valid_hrp(hrp@),
        r is Ok ==> r.unwrap()@ == bech32_of(hrp@, data@) && encoded_shape(
            hrp@,
            data@.len(),
            r.unwrap()@,
        ),
{
    match bech32::encode(hrp, data.to_base32(), bech32::Variant::Bech32) {
        Ok(text) => Ok(text),
        Err(e) => Err(e.to_string()),
    }
}

/// `DistString::sample_string` of `rand::distributions::Alphanumeric` on
/// the generator of the thread: as many characters as asked for, each a
/// letter or a digit. Which ones is left open. The generator of the
/// thread takes its seed from the operating system, and the call panics
/// where the operating system has none to give.
#[verifier::external_body]
fn random_alphanumeric(len: usize) -> (s: String)
    ensures
        s@.len() == len,
        forall|i: int| 0 <= i < s@.len() ==> is_alphanumeric(#[trigger] s@[i]),
{
    rand::distributions::Alphanumeric.sample_string(&mut rand::thread_rng(), len)
}

/// The first `n` characters of a text, or the whole text if it is
/// shorter.
pub open spec fn truncated_text(text: Seq<char>, n: nat) -> Seq<char> {
    if text.len() <= n {
        text
    } else {
        text.subrange(0, n as int)
    }
}

/// Keeps the first `n` characters of a text.
pub fn truncated(text: &str, n: usize) -> (r: String)
    ensures
        r@ == truncated_text(text@, n as nat),
{
    let len = text.unicode_len();
    if len <= n {
        String::from_str(text)
    } else {
        String::from_str(text.substring_char(0, n))
    }
}

/// The user name derived from a text: the encoding of the digest of its
/// UTF-8 bytes under the prefix, cut to the length of a user name.
pub open spec fn username_hash_of(text: Seq<char>) -> Seq<char> {
    truncated_text(
        bech32_of(USERNAME_PREFIX@, sha3_256_of(vstd::utf8::encode_utf8(text))),
        USERNAME_LENGTH as nat,
    )
}

/// Whether a text can stand as a database identifier without quoting:
/// a lowercase letter or an underscore first, then lowercase letters,
/// digits and underscores, at most sixty-three in all.
pub open spec fn is_identifier(text: Seq<char>) -> bool {
    &&& 1 <= text.len() <= 63
    &&& is_lower(text[0]) || text[0] == '_'
    &&& forall|i: int|
        0 <= i < text.len() ==> is_lower(#[trigger] text[i]) || text[i] == '_' || ('0' <= text[i]
            && text[i] <= '9')
}

/// The prefix of the user names is a human-readable part that the
/// encoding accepts, without uppercase letters.
pub proof fn lemma_prefix_is_valid()
    ensures
        USERNAME_PREFIX@.len() == 11,
        valid_hrp(USERNAME_PREFIX@),
        forall|i: int| 0 <= i < USERNAME_PREFIX@.len() ==> !is_upper(#[trigger] USERNAME_PREFIX@[i]),
        forall|i: int|
            0 <= i < USERNAME_PREFIX@.len() ==> is_lower(#[trigger] USERNAME_PREFIX@[i])
                || USERNAME_PREFIX@[i] == '_',
        is_lower(USERNAME_PREFIX@[0]),
{
    reveal_strlit("dmtr_dbsync");
    let p = USERNAME_PREFIX@;
    assert(p.len() == 11);
    assert(p[0] == 'd' && p[1] == 'm' && p[2] == 't' && p[3] == 'r' && p[4] == '_');
    assert(p[5] == 'd' && p[6] == 'b' && p[7] == 's' && p[8] == 'y' && p[9] == 'n' && p[10] == 'c');
    assert forall|i: int| 0 <= i < p.len() implies (is_lower(#[trigger] p[i]) || p[i] == '_') by {
        if i == 0 {
        } else if i == 1 {
        } else if i == 2 {
        } else if i == 3 {
        } else if i == 4 {
        } else if i == 5 {
        } else if i == 6 {
        } else if i == 7 {
        } else if i == 8 {
        } else if i == 9 {
        } else {
        }
    }
    assert forall|i: int| 0 <= i < p.len() implies 33 <= (#[trigger] p[i]) as u32 <= 126 by {
        assert(is_lower(p[i]) || p[i] == '_');
    }
    assert forall|i: int| 0 <= i < p.len() implies !is_upper(#[trigger] p[i]) by {
        assert(is_lower(p[i]) || p[i] == '_');
    }
}

/// An encoded text under the prefix, cut to the length of a user name,
/// is an identifier of that length that begins with the prefix and the
/// separator.
pub proof fn lemma_username_is_identifier(encoded: Seq<char>, data_len: nat)
    requires
        encoded_shape(USERNAME_PREFIX@, data_len, encoded),
        data_len >= 9,
    ensures
        truncated_text(encoded, USERNAME_LENGTH as nat).len() == USERNAME_LENGTH,
        is_identifier(truncated_text(encoded, USERNAME_LENGTH as nat)),
        truncated_text(encoded, USERNAME_LENGTH as nat).subrange(0, 11) == USERNAME_PREFIX@,
        truncated_text(encoded, USERNAME_LENGTH as nat)[11] == '1',
{
    lemma_prefix_is_valid();
    let p = USERNAME_PREFIX@;
    let name = truncated_text(encoded, USERNAME_LENGTH as nat);
    assert(encoded.len() >= 11 + 1 + 14 + 6);
    assert(name.len() == 32);
    assert(name.subrange(0, 11) =~= encoded.subrange(0, 11));
    assert forall|i: int| 0 <= i < name.len() implies (is_lower(#[trigger] name[i]) || name[i]
        == '_' || ('0' <= name[i] && name[i] <= '9')) by {
        assert(name[i] == encoded[i]);
        if i < 11 {
            assert(encoded.subrange(0, 11)[i] == p[i]);
            assert(is_lower(p[i]) || p[i] == '_');
        } else if i == 11 {
        } else {
            assert(is_data_char(encoded[i]));
        }
    }
    assert(name[0] == encoded.subrange(0, 11)[0]);
}

/// Derives the user name for a text, most often the name and the
/// namespace of a resource joined by a dot. The same text always gives
/// the same user name, and every user name is a database identifier of
/// [`USERNAME_LENGTH`] characters that begins with [`USERNAME_PREFIX`]
/// and the separator `1`.
pub fn gen_username_hash(username: &str) -> (r: Result<String, Error>)
    ensures
        r is Ok,
        r.unwrap()@ == username_hash_of(username@),
        r.unwrap()@.len() == USERNAME_LENGTH,
        is_identifier(r.unwrap()@),
        r.unwrap()@.subrange(0, 11) == USERNAME_PREFIX@,
        r.unwrap()@[11] == '1',
{
    let bytes = username.as_bytes_vec();
    let digest = sha3_256(&bytes);
    proof {
        lemma_prefix_is_valid();
    }
    match bech32_encode(USERNAME_PREFIX, &digest) {
        Ok(encoded) => {
            proof {
                lemma_username_is_identifier(encoded@, 32);
            }
            Ok(truncated(encoded.as_str(), USERNAME_LENGTH))
        },
        Err(message) => Err(Error::Bech32Error(message)),
    }
}

/// Whether a text is a password as this crate generates them:
/// [`PASSWORD_LENGTH`] letters and digits.
pub open spec fn is_password(text: Seq<char>) -> bool {
    &&& text.len() == PASSWORD_LENGTH
    &&& forall|i: int| 0 <= i < text.len() ==> is_alphanumeric(#[trigger] text[i])
}

/// Generates a password: [`PASSWORD_LENGTH`] random letters and digits.
pub fn gen_password() -> (r: String)
    ensures
        is_password(r@),
{
    random_alphanumeric(PASSWORD_LENGTH)
}

} // verus!
