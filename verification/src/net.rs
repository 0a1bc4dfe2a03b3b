//! What an endpoint is set up with.

use std::str::FromStr;
use vstd::prelude::*;

use crate::node_id::hex_of;

verus! {

/// What `iroh_base::SecretKey::from_str` makes of a text: the bytes of the key, or the text
/// of the error.
pub uninterp spec fn secret_key_from_str(text: Seq<char>) -> Result<Seq<u8>, Seq<char>>;

/// Whether a text is read as the secret key with the given bytes.
pub open spec fn is_secret_key(text: Seq<char>, bytes: Seq<u8>) -> bool {
    secret_key_from_str(text) matches Ok(found) && found == bytes
}

/// Whether a text is refused as a secret key for the given reason.
pub open spec fn is_no_secret_key(text: Seq<char>, reason: Seq<char>) -> bool {
    secret_key_from_str(text) matches Err(given) && given == reason
}

/// `iroh_base::SecretKey::from_str`, which reads a secret key from hexadecimal digits or
/// from base 32. Any 32 bytes are a key, and it reads their hexadecimal form as that key.
#[verifier::external_body]
fn parse_secret_key(text: &str) -> (result: Result<[u8; 32], String>)
    ensures
        result is Ok <==> secret_key_from_str(text@) is Ok,
        result matches Ok(bytes) ==> is_secret_key(text@, bytes@),
        result matches Err(reason) ==> is_no_secret_key(text@, reason@),
        forall|bytes: Seq<u8>|
            bytes.len() == 32 && text@ == #[trigger] hex_of(bytes) ==> result is Ok,
        forall|bytes: Seq<u8>|
            bytes.len() == 32 && text@ == #[trigger] hex_of(bytes) ==> (result matches Ok(found)
                ==> found@ == bytes),
{
    match iroh_base::SecretKey::from_str(text) {
        Ok(key) => Ok(key.to_bytes()),
        Err(error) => Err(error.to_string()),
    }
}

/// The secret key that an endpoint is bound with.
pub enum KeyChoice {
    /// The key that was set.
    Given([u8; 32]),
    /// A key that is made for this endpoint.
    Generate,
    /// What was set is no key. Holds the reason.
    Invalid(String),
}

/// Decides which secret key an endpoint is bound with, from the text that the environment
/// sets for it, if it does.
pub fn secret_key_choice(secret: Option<&str>) -> (choice: KeyChoice)
    ensures
        match secret {
            None => choice is Generate,
            Some(text) => match choice {
                KeyChoice::Given(bytes) => is_secret_key(text@, bytes@),
                KeyChoice::Invalid(reason) => is_no_secret_key(text@, reason@),
                KeyChoice::Generate => false,
            },
        },
        secret matches Some(text) ==> forall|bytes: Seq<u8>|
            #![trigger hex_of(bytes)]
            bytes.len() == 32 && text@ == hex_of(bytes) ==> (choice matches
                KeyChoice::Given(found) && found@ == bytes),
{
    match secret {
        None => KeyChoice::Generate,
        Some(text) => match parse_secret_key(text) {
            Ok(bytes) => KeyChoice::Given(bytes),
            Err(reason) => KeyChoice::Invalid(reason),
        },
    }
}

/// Decides whether an incoming connection speaks our protocol.
pub fn speaks_protocol(offered: &[u8], ours: &[u8]) -> (speaks: bool)
    ensures
        speaks == (offered@ == ours@),
{
    if offered.len() != ours.len() {
        return false;
    }
    let mut next: usize = 0;
    while next < ours.len()
        invariant
            next <= ours@.len(),
            offered@.len() == ours@.len(),
            forall|i: int| 0 <= i < next ==> offered@[i] == ours@[i],
        decreases ours@.len() - next,
    {
        if offered[next] != ours[next] {
            return false;
        }
        next = next + 1;
    }
    assert(offered@ =~= ours@);
    true
}

/// A text is read as one secret key or refused for one reason, never both.
pub proof fn secrets_are_read_one_way(text: Seq<char>, bytes: Seq<u8>, reason: Seq<char>)
    ensures
        is_secret_key(text, bytes) <==> secret_key_from_str(text) == Ok::<Seq<u8>, Seq<char>>(
            bytes,
        ),
        is_no_secret_key(text, reason) <==> secret_key_from_str(text) == Err::<
            Seq<u8>,
            Seq<char>,
        >(reason),
{
}

/// A key that is set in hexadecimal form is the one that is used, and one is made exactly if none
/// is set.
pub proof fn set_keys_are_used(
    text: &str,
    bytes: Seq<u8>,
    choice: KeyChoice,
    other: KeyChoice,
)
    requires
        call_ensures(secret_key_choice, (Some(text),), choice),
        call_ensures(secret_key_choice, (None,), other),
    ensures
        bytes.len() == 32 && text@ == hex_of(bytes) ==> (choice matches KeyChoice::Given(found)
            && found@ == bytes),
        !(choice is Generate),
        other is Generate,
{
}

/// A connection speaks our protocol exactly if it has offered it byte for byte.
pub proof fn protocols_are_told_by_their_bytes(offered: &[u8], ours: &[u8], speaks: bool)
    requires
        call_ensures(speaks_protocol, (offered, ours), speaks),
    ensures
        speaks <==> offered@.len() == ours@.len() && (forall|i: int|
            0 <= i < ours@.len() ==> #[trigger] offered@[i] == ours@[i]),
{
    if offered@.len() == ours@.len() && (forall|i: int|
        0 <= i < ours@.len() ==> #[trigger] offered@[i] == ours@[i]) {
        assert(offered@ =~= ours@);
    }
}

} // verus!
