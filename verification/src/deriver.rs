//! From a domain and a passphrase to the password.

use vstd::prelude::*;
use crate::config::{Mkpw, MAX_PWLEN};
use crate::digest::{md5, md5_digest, DIGEST_LEN};
use crate::encoding::{
    base64_text, data_len, encode_standard, encode_url_safe, encoded_len, in_alphabet,
    lemma_base64_text_shape, padding,
};

verus! {

/// The number of characters of an encoded digest that carry bits of it.
pub const DIGEST_DATA_LEN: usize = 22;

/// The bytes that are hashed: the domain, a colon and the passphrase, in UTF-8.
pub open spec fn salted(domain: Seq<char>, passphrase: Seq<char>) -> Seq<u8> {
    vstd::utf8::encode_utf8(domain + seq![':'] + passphrase)
}

/// The first `length` characters of the digest's base64 text.
pub open spec fn password_text(digest: Seq<u8>, url_safe: bool, length: nat) -> Seq<char> {
    base64_text(digest, url_safe).take(length as int)
}

/// The password for a domain and a passphrase.
pub open spec fn derived_password(
    domain: Seq<char>,
    passphrase: Seq<char>,
    url_safe: bool,
    length: nat,
) -> Seq<char> {
    password_text(md5_digest(salted(domain, passphrase))@, url_safe, length)
}

/// `true` where `text` is a password of `length` characters in the alphabet
/// chosen: the characters that carry bits are of the alphabet, and what lies
/// beyond them is padding.
pub open spec fn well_formed(text: Seq<char>, url_safe: bool, length: nat) -> bool {
    &&& text.len() == length
    &&& forall|i: int| 0 <= i < length && i < DIGEST_DATA_LEN ==> in_alphabet(#[trigger] text[i], url_safe)
    &&& forall|i: int| DIGEST_DATA_LEN <= i < length ==> #[trigger] text[i] == padding()
}

/// Encodes a digest and cuts the text to `length` characters.
pub fn password_from_digest(digest: &[u8; 16], url_safe: bool, length: usize) -> (password: String)
    requires
        length <= MAX_PWLEN,
    ensures
        password@ == password_text(digest@, url_safe, length as nat),
        well_formed(password@, url_safe, length as nat),
{
    let text = if url_safe {
        encode_url_safe(digest.as_slice())
    } else {
        encode_standard(digest.as_slice())
    };
    proof {
        lemma_password_text(digest@, url_safe, length as nat);
    }
    let cut = text.as_str().substring_char(0, length);
    assert(cut@ =~= password_text(digest@, url_safe, length as nat));
    cut.to_owned()
}

/// Derives the password for `domain` from `passphrase`: the first `length`
/// characters of the base64 text of the MD5 digest of the two, joined by a colon.
pub fn derive(domain: &str, passphrase: &str, url_safe: bool, length: usize) -> (password: String)
    requires
        length <= MAX_PWLEN,
    ensures
        password@ == derived_password(domain@, passphrase@, url_safe, length as nat),
        password@.len() == length,
        well_formed(password@, url_safe, length as nat),
{
    let mut joined = String::from_str(domain);
    joined.append(":");
    joined.append(passphrase);
    proof {
        reveal_strlit(":");
        assert(joined@ =~= domain@ + seq![':'] + passphrase@);
    }
    let digest = md5(joined.as_str().as_bytes());
    password_from_digest(&digest, url_safe, length)
}

impl Mkpw {
    /// The password for this domain from `passphrase`, in the alphabet and of
    /// the length that the settings give.
    pub fn generate_pw(&self, passphrase: &str) -> (password: String)
        ensures
            password@ == derived_password(
                self@.domain,
                passphrase@,
                self@.urlsafe,
                self@.pwlen,
            ),
            password@.len() == self@.pwlen,
            well_formed(password@, self@.urlsafe, self@.pwlen),
    {
        derive(self.domain(), passphrase, self.urlsafe(), self.pwlen())
    }
}

/// The text of a digest has `MAX_PWLEN` characters, and each cut of it is a
/// well-formed password.
pub proof fn lemma_password_text(digest: Seq<u8>, url_safe: bool, length: nat)
    requires
        digest.len() == DIGEST_LEN,
        length <= MAX_PWLEN,
    ensures
        base64_text(digest, url_safe).len() == MAX_PWLEN,
        well_formed(password_text(digest, url_safe, length), url_safe, length),
{
    lemma_base64_text_shape(digest, url_safe);
    assert(data_len(digest.len()) == DIGEST_DATA_LEN);
    assert(encoded_len(digest.len()) == MAX_PWLEN);
}

/// Two derivations from the same domain, passphrase, alphabet and length give
/// the same password: whatever two calls of `derive` return on them is equal.
pub proof fn lemma_derivation_is_deterministic(
    first: Seq<char>,
    second: Seq<char>,
    domain: Seq<char>,
    passphrase: Seq<char>,
    url_safe: bool,
    length: nat,
)
    requires
        first == derived_password(domain, passphrase, url_safe, length),
        second == derived_password(domain, passphrase, url_safe, length),
    ensures
        first == second,
{
}

/// A password has the length asked for and is well formed. It is the text of
/// the digest cut to that length: the first `length` characters of the
/// password of full length, which is the whole base64 text.
pub proof fn lemma_password_is_cut_of_full_text(
    domain: Seq<char>,
    passphrase: Seq<char>,
    url_safe: bool,
    length: nat,
)
    requires
        length <= MAX_PWLEN,
    ensures
        derived_password(domain, passphrase, url_safe, length).len() == length,
        well_formed(derived_password(domain, passphrase, url_safe, length), url_safe, length),
        derived_password(domain, passphrase, url_safe, MAX_PWLEN as nat) == base64_text(
            md5_digest(salted(domain, passphrase))@,
            url_safe,
        ),
        derived_password(domain, passphrase, url_safe, length) == derived_password(
            domain,
            passphrase,
            url_safe,
            MAX_PWLEN as nat,
        ).take(length as int),
{
    let digest = md5_digest(salted(domain, passphrase))@;
    lemma_password_text(digest, url_safe, length);
    let full = base64_text(digest, url_safe);
    assert(full.take(MAX_PWLEN as int) =~= full);
    assert(full.take(MAX_PWLEN as int).take(length as int) =~= full.take(length as int));
}

/// A password in the URL-safe alphabet holds neither `+` nor `/`, and one in
/// the standard alphabet neither `-` nor `_`.
pub proof fn lemma_alphabets_keep_apart(text: Seq<char>, url_safe: bool, length: nat)
    requires
        well_formed(text, url_safe, length),
    ensures
        forall|i: int|
            0 <= i < text.len() ==> if url_safe {
                #[trigger] text[i] != '+' && text[i] != '/'
            } else {
                text[i] != '-' && text[i] != '_'
            },
{
    assert forall|i: int| 0 <= i < text.len() implies if url_safe {
        #[trigger] text[i] != '+' && text[i] != '/'
    } else {
        text[i] != '-' && text[i] != '_'
    } by {
        if i < DIGEST_DATA_LEN {
            assert(in_alphabet(text[i], url_safe));
        } else {
            assert(text[i] == padding());
        }
    }
}

} // verus!
