use vstd::prelude::*;
use tokio_util::sync::CancellationToken;

verus! {

/// tokio-util's cancellation token: a handle that is shared by the owner of
/// a task, who cancels, and the task, which asks whether it was cancelled.
#[verifier::external_type_specification]
#[verifier::external_body]
pub struct ExCancellationToken(tokio_util::sync::CancellationToken);

/// `CancellationToken::new`: a token that nobody has cancelled yet.
#[verifier::external_body]
pub(crate) fn new_token() -> CancellationToken {
    CancellationToken::new()
}

/// `CancellationToken::clone`: a second handle on the same token. Cancelling
/// through either handle cancels both, so the two stand for one token.
#[verifier::external_body]
pub(crate) fn share_token(token: &CancellationToken) -> (handle: CancellationToken)
    ensures
        handle == *token,
{
    token.clone()
}

/// `CancellationToken::cancel`: requests cancellation of every task that
/// holds a handle on the token.
#[verifier::external_body]
pub(crate) fn cancel_token(token: &CancellationToken) {
    token.cancel()
}

/// `CancellationToken::is_cancelled`: whether cancellation was requested. The
/// answer changes when another task cancels the token.
#[verifier::external_body]
pub(crate) fn token_cancelled(token: &CancellationToken) -> bool {
    token.is_cancelled()
}

} // verus!
