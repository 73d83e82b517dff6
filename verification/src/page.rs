//! The page that reports how the protected action went.

use vstd::prelude::*;
use vstd::string::*;

verus! {

/// How the action went, as its invoker reports it. The texts are shown as
/// they are; nothing in them is interpreted.
pub enum ActionReport {
    /// The tool ran and exited successfully.
    Succeeded,
    /// The tool ran and failed: how it exited, and what it wrote as error
    /// output.
    Failed { status: String, diagnostic: String },
    /// The tool could not be started.
    NotLaunched { diagnostic: String },
}

/// The page for a report.
pub open spec fn page_text(report: ActionReport) -> Seq<char> {
    match report {
        ActionReport::Succeeded => "<h1>Toggled media successfully</h1>"@,
        ActionReport::Failed { status, diagnostic } =>
            "<h1>Failed to toggle media</h1><h2>ydotool exited with "@ + status@ + "</h2><pre>"@
                + diagnostic@ + "</pre>"@,
        ActionReport::NotLaunched { diagnostic } => "<h1>Error launching ydotool</h1><pre>"@
            + diagnostic@ + "</pre>"@,
    }
}

/// Renders the page for a report.
pub fn render_report(report: &ActionReport) -> (page: String)
    ensures
        page@ == page_text(*report),
{
    match report {
        ActionReport::Succeeded => String::from_str("<h1>Toggled media successfully</h1>"),
        ActionReport::Failed { status, diagnostic } => {
            let mut page = String::from_str(
                "<h1>Failed to toggle media</h1><h2>ydotool exited with ",
            );
            page.append(status.as_str());
            page.append("</h2><pre>");
            page.append(diagnostic.as_str());
            page.append("</pre>");
            page
        },
        ActionReport::NotLaunched { diagnostic } => {
            let mut page = String::from_str("<h1>Error launching ydotool</h1><pre>");
            page.append(diagnostic.as_str());
            page.append("</pre>");
            page
        },
    }
}

} // verus!
