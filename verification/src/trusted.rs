//! Contracts assumed of the outside crates the core calls: fresh
//! identifiers, the clock, media-type guesses, and the cancellation signal.

use vstd::prelude::*;

verus! {

/// Relies on uuid's `Uuid::new_v4` and its `Display`: a freshly generated
/// random identifier, rendered in the 36-character hyphenated form.
#[verifier::external_body]
pub fn fresh_id() -> (r: String)
    ensures
        r@.len() == 36,
{
    uuid::Uuid::new_v4().to_string()
}

/// Relies on chrono's `Utc::now` and `DateTime::timestamp`: the current time
/// as whole seconds since the Unix epoch. Nothing is assumed of the value.
#[verifier::external_body]
pub fn now_timestamp() -> (r: i64) {
    chrono::Utc::now().timestamp()
}

/// The subtype that mime_guess derives for a file extension; it depends on
/// the extension alone.
pub uninterp spec fn mime_subtype_of(ext: Seq<char>) -> Seq<char>;

/// Relies on mime_guess's `from_ext` and `first_or_octet_stream`: the guess
/// is a pure lookup on the extension; the subtype of its essence is returned.
#[verifier::external_body]
pub fn mime_subtype_for_ext(ext: &str) -> (r: String)
    ensures
        r@ == mime_subtype_of(ext@),
{
    let guessed = mime_guess::from_ext(ext).first_or_octet_stream();
    match guessed.essence_str().split('/').nth(1) {
        Some(sub) => sub.to_string(),
        None => "bin".to_string(),
    }
}

#[verifier::external_type_specification]
#[verifier::external_body]
pub struct ExCancellationToken(tokio_util::sync::CancellationToken);

/// Relies on tokio-util: a fresh, untripped cancellation signal. Nothing is
/// assumed of its state, which other clones of it may change at any time.
pub assume_specification[ tokio_util::sync::CancellationToken::new ]() -> (t:
    tokio_util::sync::CancellationToken);

/// Relies on tokio-util: trips the signal for every clone of the token.
pub assume_specification[ tokio_util::sync::CancellationToken::cancel ](
    t: &tokio_util::sync::CancellationToken,
);

/// Relies on tokio-util: whether the signal has been tripped. The answer can
/// differ between calls, so nothing is assumed of it.
pub assume_specification[ tokio_util::sync::CancellationToken::is_cancelled ](
    t: &tokio_util::sync::CancellationToken,
) -> (r: bool);

/// Relies on tokio-util: a clone observes the same underlying signal.
pub assume_specification[ <tokio_util::sync::CancellationToken as Clone>::clone ](
    t: &tokio_util::sync::CancellationToken,
) -> (r: tokio_util::sync::CancellationToken);

} // verus!
