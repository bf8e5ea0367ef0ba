//! The errors of service-group, bind and binding-mode parsing.

use vstd::prelude::*;

verus! {

/// Why a service group, a service bind or a binding mode was refused.
/// Each variant carries the text that was refused.
#[derive(Clone, Debug, PartialEq, Eq)]
pub enum Error {
    /// The text is not a service group (`service.group[@organization]`).
    InvalidServiceGroup(String),
    /// The text is not a bind (`name:service_group`).
    InvalidBinding(String),
    /// The text is neither `relaxed` nor `strict`, in any case.
    BadBindingMode(String),
}

impl Error {
    /// This error refuses `text` as a service group.
    pub open spec fn refuses_service_group(self, text: Seq<char>) -> bool {
        self matches Error::InvalidServiceGroup(v) && v@ == text
    }

    /// This error refuses `text` as a bind.
    pub open spec fn refuses_binding(self, text: Seq<char>) -> bool {
        self matches Error::InvalidBinding(v) && v@ == text
    }

    /// This error refuses `text` as a binding mode.
    pub open spec fn refuses_binding_mode(self, text: Seq<char>) -> bool {
        self matches Error::BadBindingMode(v) && v@ == text
    }
}

} // verus!
