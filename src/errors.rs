use vstd::prelude::*;

verus! {

/// The kinds of failure the orchestration reports.
#[derive(Clone, Copy, Debug, PartialEq, Eq, Structural)]
pub enum ErrorKind {
    /// The client process could not be started.
    Launch,
    /// No new client window appeared in time.
    DiscoveryTimeout,
    /// The redirect listener could not bind or did not finish serving.
    Proxy,
    /// The hosts table could not be changed.
    Redirect,
    /// Synthetic input could not be delivered.
    Input,
    /// The operator stopped the run.
    Interrupted,
}


impl ErrorKind {
    /// A short description of the failure.
    pub fn describe(&self) -> (r: &'static str)
        ensures
            *self == ErrorKind::Launch ==> r@ == "the client process could not be started"@,
            *self == ErrorKind::DiscoveryTimeout ==> r@ == "no client window appeared in time"@,
            *self == ErrorKind::Proxy ==> r@ == "the redirect listener failed"@,
            *self == ErrorKind::Redirect ==> r@ == "the hosts table could not be changed"@,
            *self == ErrorKind::Input ==> r@ == "synthetic input failed"@,
            *self == ErrorKind::Interrupted ==> r@ == "interrupted by the operator"@,
    {
        match self {
            ErrorKind::Launch => "the client process could not be started",
            ErrorKind::DiscoveryTimeout => "no client window appeared in time",
            ErrorKind::Proxy => "the redirect listener failed",
            ErrorKind::Redirect => "the hosts table could not be changed",
            ErrorKind::Input => "synthetic input failed",
            ErrorKind::Interrupted => "interrupted by the operator",
        }
    }
}

} // verus!
