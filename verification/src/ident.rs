//! Random identifiers: ids of rows, tokens, secrets.

use vstd::prelude::*;

verus! {

/// The number of characters of a generated id.
pub const ID_LENGTH: usize = 32;

/// Whether a byte is an ASCII letter or digit.
pub open spec fn is_alphanumeric(b: u8) -> bool {
    ||| 0x30 <= b <= 0x39
    ||| 0x41 <= b <= 0x5a
    ||| 0x61 <= b <= 0x7a
}

/// Whether every character of a text is an ASCII letter or digit.
pub open spec fn is_alphanumeric_text(text: Seq<char>) -> bool {
    forall|i: int|
        0 <= i < text.len() ==> (#[trigger] text[i] as u32) < 128 && is_alphanumeric(
            text[i] as u8,
        )
}

/// One draw of `rand::Rng::sample` on the thread's generator with the
/// distribution `rand::distributions::Alphanumeric`. The distribution picks
/// from the ASCII letters and digits, so whatever is drawn is one of them;
/// nothing else is claimed of the outcome.
#[verifier::external_body]
fn sample_alphanumeric() -> (b: u8)
    ensures
        is_alphanumeric(b),
{
    rand::Rng::sample(&mut rand::thread_rng(), rand::distributions::Alphanumeric)
}

/// `String::push` of std, for a byte taken as the character of that code:
/// the character is appended at the end.
#[verifier::external_body]
fn push_ascii(text: &mut String, b: u8)
    ensures
        final(text)@ == old(text)@.push(b as char),
{
    text.push(char::from(b))
}

/// Sixteen bytes from `rand::RngCore::fill_bytes` on the thread's generator.
/// Nothing is claimed of them.
#[verifier::external_body]
pub(crate) fn random_salt() -> (salt: [u8; 16]) {
    let mut salt = [0u8; 16];
    rand::RngCore::fill_bytes(&mut rand::thread_rng(), &mut salt);
    salt
}

/// A random text of `len` ASCII letters and digits.
pub fn random_text(len: usize) -> (text: String)
    ensures
        text@.len() == len,
        is_alphanumeric_text(text@),
{
    let mut text = String::new();
    let mut i: usize = 0;
    while i < len
        invariant
            i <= len,
            text@.len() == i,
            is_alphanumeric_text(text@),
        decreases len - i,
    {
        let b = sample_alphanumeric();
        let ghost before = text@;
        push_ascii(&mut text, b);
        proof {
            assert forall|j: int| 0 <= j < text@.len() implies (#[trigger] text@[j] as u32) < 128
                && is_alphanumeric(text@[j] as u8) by {
                if j < before.len() {
                    assert(text@[j] == before[j]);
                } else {
                    assert(text@[j] == b as char);
                    assert((b as char) as u8 == b);
                }
            }
        }
        i = i + 1;
    }
    text
}

/// A fresh id: 32 random ASCII letters and digits.
pub fn gen_id() -> (id: String)
    ensures
        id@.len() == ID_LENGTH,
        is_alphanumeric_text(id@),
{
    random_text(ID_LENGTH)
}

} // verus!
