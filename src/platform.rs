//! The two facts that only the host can supply: random words and privilege.
use vstd::prelude::*;

verus! {

/// Relies on `rand::random::<u64>` (thread-local generator): a uniformly drawn
/// word. Nothing is promised about which word comes back.
#[verifier::external_body]
pub(crate) fn random_word() -> (r: u64) {
    rand::random::<u64>()
}

/// Relies on `nix::unistd::Uid::effective` and `Uid::is_root`: whether the
/// effective user of this process is the superuser. The answer depends on
/// the process, so nothing is promised about it.
#[verifier::external_body]
pub(crate) fn running_as_root() -> (r: bool) {
    nix::unistd::Uid::effective().is_root()
}

} // verus!
