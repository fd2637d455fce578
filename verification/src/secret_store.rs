//! Where connection secrets are kept, and what each keychain reply means.
//!
//! On macOS a secret goes to the data-protection keychain behind Touch ID /
//! passcode first; when that keychain cannot be used (an unsigned build has
//! no entitlement for it) the legacy OS keychain is used instead. Elsewhere
//! only the legacy keychain is used. Talking to the keychains is the caller's
//! part: these functions decide, from each reply, whether the operation is
//! done and with what result, or whether the legacy keychain is asked next.
use crate::error::Error;
use crate::text::owned;
use vstd::prelude::*;

verus! {

/// The keychain service under which the secrets are stored.
pub const SERVICE: &'static str = "io.cirrus.novacirrus";

/// Keychain status: no such item.
pub const ERR_ITEM_NOT_FOUND: i32 = -25300;

/// Keychain status: the app lacks the keychain-access-groups entitlement
/// (an unsigned build).
pub const ERR_MISSING_ENTITLEMENT: i32 = -34018;

/// Keychain status: a parameter was not valid.
pub const ERR_PARAM: i32 = -50;

/// Keychain status: no keychain is available.
pub const ERR_NOT_AVAILABLE: i32 = -25291;

/// Keychain status: the user cancelled the prompt.
pub const ERR_USER_CANCELED: i32 = -128;

/// Keychain status: authentication failed.
pub const ERR_AUTH_FAILED: i32 = -25293;

/// The outcome of reading a secret from the biometric keychain.
pub enum Read {
    Found(Vec<u8>),
    /// No biometric item exists for this id.
    NotFound,
    /// The biometric keychain is not usable here; the legacy one is asked.
    Unsupported,
    /// The user cancelled or failed Touch ID: the failure is reported, and no
    /// unprotected copy is read instead.
    Denied,
}

/// What a step of a keychain operation decides: the operation is done with
/// this result, or the legacy keychain is asked next.
pub enum Step<T> {
    Done(Result<T, Error>),
    Legacy,
}

/// A failure reported by the legacy keychain: whether it is the "no such
/// entry" failure, and its message.
pub struct KeychainError {
    pub no_entry: bool,
    pub message: String,
}

/// Statuses under which the biometric keychain is taken to be unusable here.
pub open spec fn unsupported_status(code: i32) -> bool {
    code == ERR_MISSING_ENTITLEMENT || code == ERR_PARAM || code == ERR_NOT_AVAILABLE
}

/// Whether a keychain status means that the biometric keychain is unusable here
/// (missing entitlement, bad parameter, no keychain).
pub fn is_unsupported(code: i32) -> (r: bool)
    ensures
        r == unsupported_status(code),
{
    code == ERR_MISSING_ENTITLEMENT || code == ERR_PARAM || code == ERR_NOT_AVAILABLE
}

/// The outcome of a biometric read that failed with status `code`: no item,
/// a refusal by the user, or (for any other status, the expected ones and the
/// unexpected alike) a keychain that is not usable here.
pub fn read_failure(code: i32) -> (r: Read)
    ensures
        code == ERR_ITEM_NOT_FOUND ==> r is NotFound,
        (code == ERR_USER_CANCELED || code == ERR_AUTH_FAILED) ==> r is Denied,
        (code != ERR_ITEM_NOT_FOUND && code != ERR_USER_CANCELED && code != ERR_AUTH_FAILED)
            ==> r is Unsupported,
{
    if code == ERR_ITEM_NOT_FOUND {
        Read::NotFound
    } else if code == ERR_USER_CANCELED || code == ERR_AUTH_FAILED {
        Read::Denied
    } else if is_unsupported(code) {
        Read::Unsupported
    } else {
        Read::Unsupported
    }
}

/// What `String::from_utf8_lossy` makes of a byte string: the text it
/// encodes, with each invalid sequence replaced by U+FFFD.
pub uninterp spec fn utf8_lossy(bytes: Seq<u8>) -> Seq<char>;

/// `String::from_utf8_lossy(bytes).into_owned()`, named by [`utf8_lossy`].
#[verifier::external_body]
fn decode_lossy(bytes: &Vec<u8>) -> (r: String)
    ensures
        r@ == utf8_lossy(bytes@),
{
    String::from_utf8_lossy(bytes.as_slice()).into_owned()
}

/// The message reported when the user refuses Touch ID.
pub open spec fn denied_message() -> Seq<char> {
    "Biometric authentication was cancelled \u{2014} secret not unlocked"@
}

/// Reading a secret, after the biometric keychain answered `biometric`: a
/// found secret is the text of its bytes; a refusal is an error; no item or
/// an unusable keychain sends the read on to the legacy keychain.
pub fn read(biometric: Read) -> (r: Step<Option<String>>)
    ensures
        match biometric {
            Read::Found(bytes) => r matches Step::Done(Ok(Some(s))) && s@ == utf8_lossy(bytes@),
            Read::Denied => r matches Step::Done(Err(Error::Msg(m))) && m@ == denied_message(),
            Read::NotFound => r is Legacy,
            Read::Unsupported => r is Legacy,
        },
{
    match biometric {
        Read::Found(bytes) => Step::Done(Ok(Some(decode_lossy(&bytes)))),
        Read::Denied => Step::Done(
            Err(Error::Msg(owned("Biometric authentication was cancelled \u{2014} secret not unlocked"))),
        ),
        Read::NotFound => Step::Legacy,
        Read::Unsupported => Step::Legacy,
    }
}

/// Writing a secret, after the biometric keychain did (`stored`) or did not
/// store it: done, or on to the legacy keychain.
pub fn write(stored: bool) -> (r: Step<()>)
    ensures
        stored ==> r matches Step::Done(Ok(())),
        !stored ==> r is Legacy,
{
    if stored {
        Step::Done(Ok(()))
    } else {
        Step::Legacy
    }
}

/// The result of a read from the legacy keychain: the secret, none when there
/// is no entry, or the keychain error.
pub fn legacy_read(reply: Result<String, KeychainError>) -> (r: Result<Option<String>, Error>)
    ensures
        match reply {
            Ok(s) => r == Ok::<Option<String>, Error>(Some(s)),
            Err(e) => if e.no_entry {
                r == Ok::<Option<String>, Error>(None)
            } else {
                r matches Err(Error::Keyring(m)) && m == e.message
            },
        },
{
    match reply {
        Ok(s) => Ok(Some(s)),
        Err(e) => if e.no_entry {
            Ok(None)
        } else {
            Err(Error::Keyring(e.message))
        },
    }
}

/// The result of a write to the legacy keychain: any failure, a missing entry
/// included, is a keychain error.
pub fn legacy_write(reply: Result<(), KeychainError>) -> (r: Result<(), Error>)
    ensures
        match reply {
            Ok(_) => r is Ok,
            Err(e) => r matches Err(Error::Keyring(m)) && m == e.message,
        },
{
    match reply {
        Ok(_) => Ok(()),
        Err(e) => Err(Error::Keyring(e.message)),
    }
}

/// The result of removing a secret, given the legacy keychain's reply (the
/// biometric copy is removed on a best-effort basis first): removing what is
/// not there succeeds; any other failure is a keychain error.
pub fn clear(reply: Result<(), KeychainError>) -> (r: Result<(), Error>)
    ensures
        match reply {
            Ok(_) => r is Ok,
            Err(e) => if e.no_entry {
                r is Ok
            } else {
                r matches Err(Error::Keyring(m)) && m == e.message
            },
        },
{
    match reply {
        Ok(_) => Ok(()),
        Err(e) => if e.no_entry {
            Ok(())
        } else {
            Err(Error::Keyring(e.message))
        },
    }
}

} // verus!
