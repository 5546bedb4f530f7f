//! How far git's configuration keys are supported.
use vstd::prelude::*;

verus! {

/// Whether and where a configuration key is used.
#[derive(Clone, Copy)]
pub enum Usage {
    NotApplicable,
    Planned { note: Option<&'static str> },
    InModule { name: &'static str, deviation: Option<&'static str> },
}

impl Usage {
    /// A one-character summary of the usage.
    pub fn icon(&self) -> (r: &'static str)
        ensures
            match self {
                Usage::NotApplicable => r@ == "❌"@,
                Usage::Planned { .. } => r@ == "🕒"@,
                Usage::InModule { deviation, .. } => if deviation.is_some() {
                    r@ == "👌️"@
                } else {
                    r@ == "✅"@
                },
            },
    {
        match self {
            Usage::NotApplicable => "❌",
            Usage::Planned { .. } => "🕒",
            Usage::InModule { deviation, .. } => if deviation.is_some() {
                "👌️"
            } else {
                "✅"
            },
        }
    }
}

} // verus!
