//! Release channels: the named release tracks of the toolchain.

use vstd::prelude::*;
use vstd::string::StringExecFns;

use crate::errors::RustReleasesError;

verus! {

broadcast use vstd::string::group_string_axioms;

/// A release track of the toolchain. A `Channel` is used both as a
/// caller-supplied filter and as the tag recorded on each manifest source
/// descriptor of the meta manifest.
#[derive(Clone, Copy, Debug, PartialEq, Eq, Structural)]
pub enum Channel {
    Stable,
    Beta,
    Nightly,
}

impl Channel {
    /// The lower-case name of the channel, as it appears in manifest urls
    /// and in cache file names.
    pub open spec fn spec_name(self) -> Seq<char> {
        match self {
            Channel::Stable => "stable"@,
            Channel::Beta => "beta"@,
            Channel::Nightly => "nightly"@,
        }
    }

    /// The lower-case name of the channel.
    pub fn name(&self) -> (r: String)
        ensures
            r@ == self.spec_name(),
    {
        match self {
            Channel::Stable => String::from_str("stable"),
            Channel::Beta => String::from_str("beta"),
            Channel::Nightly => String::from_str("nightly"),
        }
    }

    /// Looks a channel up by its lower-case name; any other name is the
    /// `NoSuchChannel` error carrying the offending name.
    pub fn from_name(s: &str) -> (r: Result<Channel, RustReleasesError>)
        ensures
            s@ == "stable"@ ==> r == Ok::<Channel, RustReleasesError>(Channel::Stable),
            s@ == "beta"@ ==> r == Ok::<Channel, RustReleasesError>(Channel::Beta),
            s@ == "nightly"@ ==> r == Ok::<Channel, RustReleasesError>(Channel::Nightly),
            s@ != "stable"@ && s@ != "beta"@ && s@ != "nightly"@ ==> (r matches Err(
                RustReleasesError::NoSuchChannel(n),
            ) && n@ == s@),
    {
        proof {
            reveal_strlit("stable");
            reveal_strlit("beta");
            reveal_strlit("nightly");
            assert("stable"@.len() == 6);
            assert("beta"@.len() == 4);
            assert("nightly"@.len() == 7);
        }
        let name = String::from_str(s);
        if name == String::from_str("stable") {
            Ok(Channel::Stable)
        } else if name == String::from_str("beta") {
            Ok(Channel::Beta)
        } else if name == String::from_str("nightly") {
            Ok(Channel::Nightly)
        } else {
            Err(RustReleasesError::NoSuchChannel(name))
        }
    }
}

} // verus!
