//! What an import reports without failing.

use vstd::prelude::*;
use vstd::string::*;
use crate::log::LogLevel;

verus! {

/// Something that went wrong during an import and did not stop it.
#[derive(Debug)]
pub struct ImportWarning {
    pub severity: LogLevel,
    pub message: String,
}

/// A warning as contracts see it.
pub struct WarningView {
    pub severity: LogLevel,
    pub message: Seq<char>,
}

impl View for ImportWarning {
    type V = WarningView;

    open spec fn view(&self) -> WarningView {
        WarningView { severity: self.severity, message: self.message@ }
    }
}

/// The views of a sequence of warnings, in order.
pub open spec fn warning_views(warnings: Seq<ImportWarning>) -> Seq<WarningView> {
    warnings.map_values(|w: ImportWarning| w@)
}

impl ImportWarning {
    /// A warning whose message is `prefix` followed by `detail`.
    pub fn new(severity: LogLevel, prefix: &str, detail: &str) -> (w: Self)
        ensures
            w@ == (WarningView { severity, message: prefix@ + detail@ }),
    {
        let mut message = String::from_str(prefix);
        message.append(detail);
        ImportWarning { severity, message }
    }
}

} // verus!
