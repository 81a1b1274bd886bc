//! What the plugin host has to tell of its plugins, for the log.

use crate::error::{error_text, joined, ErrorView, ScriptError};
use vstd::prelude::*;
use vstd::string::*;

verus! {

/// One thing to tell of a plugin, which is named first.
#[derive(Debug)]
pub enum Report {
    /// The plugin was loaded, from the path given.
    Loaded(String, String),
    /// The plugin could not be compiled.
    LoadFailed(String, ScriptError),
    /// The hook given failed.
    HookFailed(String, String, ScriptError),
}

/// A report as a mathematical value.
pub enum ReportView {
    Loaded(Seq<char>, Seq<char>),
    LoadFailed(Seq<char>, ErrorView),
    HookFailed(Seq<char>, Seq<char>, ErrorView),
}

impl View for Report {
    type V = ReportView;

    open spec fn view(&self) -> ReportView {
        match self {
            Report::Loaded(plugin, path) => ReportView::Loaded(plugin@, path@),
            Report::LoadFailed(plugin, e) => ReportView::LoadFailed(plugin@, e@),
            Report::HookFailed(plugin, hook, e) => ReportView::HookFailed(plugin@, hook@, e@),
        }
    }
}

/// Reports as mathematical values.
pub open spec fn report_views(reports: Seq<Report>) -> Seq<ReportView> {
    reports.map_values(|r: Report| r@)
}

/// Reports with one more, if there is one.
pub open spec fn noted(reports: Seq<ReportView>, report: Option<ReportView>) -> Seq<ReportView> {
    match report {
        Some(report) => reports.push(report),
        None => reports,
    }
}

/// The text of a report. Errors are told in full.
pub open spec fn report_text(report: ReportView) -> Seq<char> {
    match report {
        ReportView::Loaded(plugin, path) => "plugin `"@ + plugin + "` loaded from "@ + path,
        ReportView::LoadFailed(plugin, e) => "plugin `"@ + plugin + "`: "@ + error_text(e),
        ReportView::HookFailed(plugin, hook, e) => "plugin `"@ + plugin + "` "@ + hook + ": "@
            + error_text(e),
    }
}

impl Report {
    /// Whether the report is of a failure.
    pub fn is_failure(&self) -> (r: bool)
        ensures
            r == !(self@ is Loaded),
    {
        match self {
            Report::Loaded(_, _) => false,
            Report::LoadFailed(_, _) | Report::HookFailed(_, _, _) => true,
        }
    }

    /// The text of the report.
    pub fn to_string(&self) -> (r: String)
        ensures
            r@ == report_text(self@),
    {
        match self {
            Report::Loaded(plugin, path) => joined(
                joined(joined("plugin `", plugin.as_str()).as_str(), "` loaded from ").as_str(),
                path.as_str(),
            ),
            Report::LoadFailed(plugin, e) => joined(
                joined(joined("plugin `", plugin.as_str()).as_str(), "`: ").as_str(),
                e.to_string().as_str(),
            ),
            Report::HookFailed(plugin, hook, e) => {
                let who = joined(joined("plugin `", plugin.as_str()).as_str(), "` ");
                joined(
                    joined(joined(who.as_str(), hook.as_str()).as_str(), ": ").as_str(),
                    e.to_string().as_str(),
                )
            },
        }
    }
}

/// Takes note of a report.
pub(crate) fn note(journal: &mut Vec<Report>, report: Report)
    ensures
        report_views(final(journal)@) == report_views(old(journal)@).push(report@),
{
    let ghost before = journal@;
    journal.push(report);
    assert(report_views(journal@) =~= report_views(before).push(report@));
}

/// A report names the plugin, and the path or the whole error.
pub proof fn reports_are_told_in_full(
    plugin: Seq<char>,
    hook: Seq<char>,
    path: Seq<char>,
    e: ErrorView,
)
    ensures
        report_text(ReportView::Loaded(plugin, path)) == "plugin `"@ + plugin + "` loaded from "@
            + path,
        report_text(ReportView::LoadFailed(plugin, e)) == "plugin `"@ + plugin + "`: "@
            + error_text(e),
        report_text(ReportView::HookFailed(plugin, hook, e)) == "plugin `"@ + plugin + "` "@ + hook
            + ": "@ + error_text(e),
{
}

/// Reports are seen as what they are, one for one.
pub proof fn reports_are_seen_one_for_one(
    reports: Seq<Report>,
    plugin: String,
    text: String,
    e: ScriptError,
)
    ensures
        Report::Loaded(plugin, text)@ == ReportView::Loaded(plugin@, text@),
        Report::LoadFailed(plugin, e)@ == ReportView::LoadFailed(plugin@, e@),
        Report::HookFailed(plugin, text, e)@ == ReportView::HookFailed(plugin@, text@, e@),
        report_views(reports).len() == reports.len(),
        forall|i: int| 0 <= i < reports.len() ==> #[trigger] report_views(reports)[i]
            == reports[i]@,
{
}

} // verus!
