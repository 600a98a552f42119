//! Whether the program reports what it does in detail.
use vstd::prelude::*;
use vstd::string::*;

verus! {

/// The verbosity setting of a run.
#[derive(Debug)]
pub struct Verbosity {
    enabled: bool,
}

impl View for Verbosity {
    type V = bool;

    closed spec fn view(&self) -> bool {
        self.enabled
    }
}

impl Verbosity {
    /// Verbose output starts off.
    pub fn new() -> (r: Verbosity)
        ensures
            !r@,
    {
        Verbosity { enabled: false }
    }
}

/// Turns verbose output on or off; turning it on gives the notice to show.
pub fn set_verbose(verbosity: &mut Verbosity, enabled: bool) -> (notice: Option<String>)
    ensures
        final(verbosity)@ == enabled,
        enabled ==> (notice matches Some(text) && text@ == "Verbosity enabled"@),
        !enabled ==> notice is None,
{
    verbosity.enabled = enabled;
    if enabled {
        Some(String::from_str("Verbosity enabled"))
    } else {
        None
    }
}

/// Whether verbose output is on.
pub fn is_verbose(verbosity: &Verbosity) -> (r: bool)
    ensures
        r == verbosity@,
{
    verbosity.enabled
}

} // verus!
