//! What the commands print, line by line.
pub mod cleanup;
pub mod inventory;
pub mod monitoring;
pub mod purge;
pub mod service;

use crate::model::{Account, AccountView, ScanIssue, ScanIssueView};
use crate::text::{decimal, join3, join4, number};
use crate::time::{utc_text, Timestamp, TO_THE_SECOND};
use crate::value::{add_to, nothing, Value};
use vstd::prelude::*;

verus! {

/// A text, or what stands for it where there is none.
pub open spec fn or(text: Option<Seq<char>>, otherwise: Seq<char>) -> Seq<char> {
    match text {
        Some(text) => text,
        None => otherwise,
    }
}

pub(crate) fn text_or<'a>(text: &'a Option<String>, otherwise: &'a str) -> (result: &'a str)
    ensures
        result@ == or(text.deep_view(), otherwise@),
{
    match text {
        Some(text) => text.as_str(),
        None => otherwise,
    }
}

/// An instant to the second.
pub open spec fn second(at: Timestamp) -> Seq<char> {
    utc_text(at.unix_seconds() as i64, at.subsecond() as u32, TO_THE_SECOND@)
}

/// The smaller of two counts.
pub open spec fn least(a: nat, b: nat) -> nat {
    if a < b {
        a
    } else {
        b
    }
}

/// Yes or no.
pub open spec fn yes_or_no(yes: bool) -> Seq<char> {
    if yes {
        "yes"@
    } else {
        "no"@
    }
}

pub(crate) fn say_yes_or_no(yes: bool) -> (result: &'static str)
    ensures
        result@ == yes_or_no(yes),
{
    if yes {
        "yes"
    } else {
        "no"
    }
}

/// A provider and a login.
pub open spec fn account_name(account: AccountView) -> Seq<char> {
    account.provider + ":"@ + account.login
}

pub(crate) fn name_account(account: &Account) -> (result: String)
    ensures
        result@ == account_name(account.deep_view()),
{
    join3(account.provider.as_str(), ":", account.login.as_str())
}

pub(crate) fn count_text(count: usize) -> (result: String)
    ensures
        result@ == decimal(count as nat),
{
    number(count as u64)
}

pub(crate) fn add_all(lines: &mut Vec<String>, more: Vec<String>)
    ensures
        final(lines).deep_view() == old(lines).deep_view() + more.deep_view(),
{
    let ghost before = lines.deep_view();
    let ghost all = more.deep_view();
    let mut i: usize = 0;
    assert(before + all.take(0) =~= before);
    while i < more.len()
        invariant
            all == more.deep_view(),
            i <= more.len(),
            lines.deep_view() == before + all.take(i as int),
        decreases more.len() - i,
    {
        add_to(lines, more[i].copied());
        i = i + 1;
        assert(before + all.take(i as int) =~= (before + all.take(i - 1)).push(all[i - 1]));
    }
    assert(all.take(i as int) =~= all);
}

// ---------------------------------------------------------------------------------------------
// What went wrong.
// ---------------------------------------------------------------------------------------------

/// A repository that a scan left out.
pub open spec fn issue_line(issue: ScanIssueView) -> Seq<char> {
    "- "@ + or(issue.repository, "<account>"@) + ": "@ + issue.message
}

/// The repositories that a scan left out, if there are any.
pub open spec fn issue_lines(issues: Seq<ScanIssueView>) -> Seq<Seq<char>> {
    if issues.len() == 0 {
        Seq::empty()
    } else {
        seq![""@, "Scan completed with "@ + decimal(issues.len()) + " issue(s):"@] + Seq::new(
            issues.len(),
            |k: int| issue_line(issues[k]),
        )
    }
}

/// Describes what a scan left out.
pub fn describe_scan_issues(issues: &Vec<ScanIssue>) -> (result: Vec<String>)
    ensures
        result.deep_view() == issue_lines(issues.deep_view()),
{
    let mut lines: Vec<String> = nothing();
    if issues.len() == 0 {
        return lines;
    }
    add_to(&mut lines, "".to_string());
    add_to(&mut lines, join3("Scan completed with ", count_text(issues.len()).as_str(), " issue(s):"));
    let ghost head = lines.deep_view();
    let ghost all = issues.deep_view();
    let mut i: usize = 0;
    assert(head + Seq::new(0, |k: int| issue_line(all[k])) =~= head);
    while i < issues.len()
        invariant
            all == issues.deep_view(),
            i <= issues.len(),
            lines.deep_view() == head + Seq::new(i as nat, |k: int| issue_line(all[k])),
        decreases issues.len() - i,
    {
        assert(all[i as int] == issues@[i as int].deep_view());
        add_to(&mut lines, join4("- ", text_or(&issues[i].repository, "<account>"), ": ", issues[i].message.as_str()));
        i = i + 1;
        assert(lines.deep_view() =~= head + Seq::new(i as nat, |k: int| issue_line(all[k])));
    }
    lines
}

/// A record that could not be read.
#[derive(Clone, Debug, PartialEq, Eq)]
pub struct ReadIssue {
    pub path: String,
    pub message: String,
}

#[verifier::ext_equal]
pub struct ReadIssueView {
    pub path: Seq<char>,
    pub message: Seq<char>,
}

impl DeepView for ReadIssue {
    type V = ReadIssueView;

    open spec fn deep_view(&self) -> ReadIssueView {
        ReadIssueView { path: self.path@, message: self.message@ }
    }
}

/// Records that are kept, and for whom they are read.
#[derive(Clone, Copy, Debug, PartialEq, Eq, Structural)]
pub enum Records {
    Samples,
    SamplesForDaemon,
    Executions,
    Purges,
}

/// What stands above the records that could not be read.
pub open spec fn unreadable_heading(records: Records, count: nat) -> Seq<char> {
    match records {
        Records::Samples => "Monitoring history contains "@ + decimal(count) + " unreadable sample(s):"@,
        Records::SamplesForDaemon => "Monitoring history read issues:"@,
        Records::Executions => "Audit history contains "@ + decimal(count) + " unreadable record(s):"@,
        Records::Purges => "Audit read issues:"@,
    }
}

/// What stands before each of them.
pub open spec fn bullet(records: Records) -> Seq<char> {
    match records {
        Records::Samples | Records::Executions => "- "@,
        Records::SamplesForDaemon | Records::Purges => "  "@,
    }
}

/// A record that could not be read.
pub open spec fn unreadable_line(records: Records, issue: ReadIssueView) -> Seq<char> {
    bullet(records) + issue.path + ": "@ + issue.message
}

/// The records that could not be read, if there are any.
pub open spec fn unreadable_lines(records: Records, issues: Seq<ReadIssueView>) -> Seq<Seq<char>> {
    if issues.len() == 0 {
        Seq::empty()
    } else {
        seq![""@, unreadable_heading(records, issues.len())] + Seq::new(
            issues.len(),
            |k: int| unreadable_line(records, issues[k]),
        )
    }
}

/// Describes the records that could not be read.
pub fn describe_read_issues(records: Records, issues: &Vec<ReadIssue>) -> (result: Vec<String>)
    ensures
        result.deep_view() == unreadable_lines(records, issues.deep_view()),
{
    let mut lines: Vec<String> = nothing();
    if issues.len() == 0 {
        return lines;
    }
    let heading = match records {
        Records::Samples => join3(
            "Monitoring history contains ",
            count_text(issues.len()).as_str(),
            " unreadable sample(s):",
        ),
        Records::SamplesForDaemon => "Monitoring history read issues:".to_string(),
        Records::Executions => join3(
            "Audit history contains ",
            count_text(issues.len()).as_str(),
            " unreadable record(s):",
        ),
        Records::Purges => "Audit read issues:".to_string(),
    };
    let mark = match records {
        Records::Samples | Records::Executions => "- ",
        Records::SamplesForDaemon | Records::Purges => "  ",
    };
    add_to(&mut lines, "".to_string());
    add_to(&mut lines, heading);
    let ghost head = lines.deep_view();
    let ghost all = issues.deep_view();
    let mut i: usize = 0;
    assert(head + Seq::new(0, |k: int| unreadable_line(records, all[k])) =~= head);
    while i < issues.len()
        invariant
            all == issues.deep_view(),
            mark@ == bullet(records),
            i <= issues.len(),
            lines.deep_view() == head + Seq::new(i as nat, |k: int| unreadable_line(records, all[k])),
        decreases issues.len() - i,
    {
        assert(all[i as int] == issues@[i as int].deep_view());
        add_to(&mut lines, join4(mark, issues[i].path.as_str(), ": ", issues[i].message.as_str()));
        i = i + 1;
        assert(lines.deep_view() =~= head + Seq::new(i as nat, |k: int| unreadable_line(records, all[k])));
    }
    lines
}

/// Every repository that a scan left out is written in a line, in their order, below how many there
/// are; nothing is written where there are none.
pub proof fn every_issue_is_written(issues: Seq<ScanIssueView>, k: int)
    ensures
        issues.len() == 0 ==> issue_lines(issues).len() == 0,
        issues.len() > 0 ==> issue_lines(issues).len() == 2 + issues.len() && issue_lines(issues)[1]
            == "Scan completed with "@ + decimal(issues.len()) + " issue(s):"@,
        0 <= k < issues.len() && issues[k].repository is Some ==> issue_lines(issues)[2 + k] == "- "@
            + issues[k].repository->0 + ": "@ + issues[k].message,
        0 <= k < issues.len() && issues[k].repository is None ==> issue_lines(issues)[2 + k] == "- "@ + "<account>"@
            + ": "@ + issues[k].message,
{
}

/// Every record that could not be read is written with its path and why, in their order; nothing is
/// written where there are none.
pub proof fn every_unreadable_record_is_written(records: Records, issues: Seq<ReadIssueView>, k: int)
    ensures
        issues.len() == 0 ==> unreadable_lines(records, issues).len() == 0,
        issues.len() > 0 ==> unreadable_lines(records, issues).len() == 2 + issues.len(),
        0 <= k < issues.len() && (records is Samples || records is Executions) ==> unreadable_lines(records, issues)[2
            + k] == "- "@ + issues[k].path + ": "@ + issues[k].message,
        0 <= k < issues.len() && (records is SamplesForDaemon || records is Purges) ==> unreadable_lines(
            records,
            issues,
        )[2 + k] == "  "@ + issues[k].path + ": "@ + issues[k].message,
{
}

} // verus!
