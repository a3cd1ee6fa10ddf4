//! What is done when the client reports that offsets were committed.
use vstd::prelude::*;

verus! {

/// What is done with a commit report.
#[derive(Debug)]
pub enum CommitAction {
    /// Nobody asked for reports.
    Ignore,
    /// Pass the committed offsets on.
    Forward,
    /// Warn that the commit failed with this text.
    Warn(String),
}

/// What a `CommitAction` says.
pub enum CommitActionView {
    Ignore,
    Forward,
    Warn(Seq<char>),
}

impl View for CommitAction {
    type V = CommitActionView;

    open spec fn view(&self) -> CommitActionView {
        match self {
            CommitAction::Ignore => CommitActionView::Ignore,
            CommitAction::Forward => CommitActionView::Forward,
            CommitAction::Warn(text) => CommitActionView::Warn(text@),
        }
    }
}

/// What is done with a report of `result`. `hooked` tells whether somebody asked
/// for the committed offsets.
pub open spec fn report_action(hooked: bool, result: Result<(), String>) -> CommitActionView {
    match result {
        _ if !hooked => CommitActionView::Ignore,
        Ok(()) => CommitActionView::Forward,
        Err(text) => CommitActionView::Warn(text@),
    }
}

/// Decides what is done with a commit report. `hooked` tells whether somebody
/// asked for the committed offsets.
pub fn commit_action(hooked: bool, result: Result<(), String>) -> (r: CommitAction)
    ensures
        match r {
            CommitAction::Ignore => !hooked,
            CommitAction::Forward => hooked && result is Ok,
            CommitAction::Warn(text) => hooked && result == Err::<(), String>(text),
        },
        r@ == report_action(hooked, result),
{
    if hooked {
        match result {
            Ok(()) => CommitAction::Forward,
            Err(text) => CommitAction::Warn(text),
        }
    } else {
        CommitAction::Ignore
    }
}

/// Where nobody asked for reports, every report is ignored; where somebody did, a
/// commit is passed on and a failure is told in its own words.
pub proof fn reports_reach_who_asked(result: Result<(), String>, text: String)
    ensures
        report_action(false, result) is Ignore,
        report_action(true, Ok(())) is Forward,
        report_action(true, Err(text)) == CommitActionView::Warn(text@),
{
}

/// The view of an action tells the action and its text.
pub proof fn commit_views_tell_the_action(text: String)
    ensures
        CommitAction::Ignore@ is Ignore,
        CommitAction::Forward@ is Forward,
        CommitAction::Warn(text)@ == CommitActionView::Warn(text@),
{
}

} // verus!
