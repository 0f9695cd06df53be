//! Validation issues: the record each graph check emits, its
//! mathematical view, and the helpers the checks share to build them.

use vstd::prelude::*;
use vstd::string::*;
use crate::text::{dec, u64_to_string};

verus! {

/// Severity classification of a [`ValidationIssue`].
#[derive(Debug, Clone, Copy, PartialEq, Eq, Structural)]
pub enum Severity {
    /// A hard violation that breaks an invariant.
    Error,
    /// A soft violation that should be looked at.
    Warning,
}

/// The lower-case name of a severity.
pub open spec fn severity_name(s: Severity) -> Seq<char> {
    match s {
        Severity::Error => "error"@,
        Severity::Warning => "warning"@,
    }
}

impl Severity {
    /// The lower-case name (`error`, `warning`).
    pub fn name(&self) -> (r: &'static str)
        ensures
            r@ == severity_name(*self),
    {
        match self {
            Severity::Error => "error",
            Severity::Warning => "warning",
        }
    }
}

/// One finding of `validate`.
#[derive(Debug)]
pub struct ValidationIssue {
    /// Invariant code (`INV-003`, `PARSE`, ...).
    pub invariant: String,
    /// Severity.
    pub severity: Severity,
    /// Kind of the offending node (`shape`, ...).
    pub node_type: String,
    /// Id of the offending node, in decimal.
    pub node_id: String,
    /// Human-readable explanation.
    pub message: String,
}

/// The content of a [`ValidationIssue`].
pub struct IssueSpec {
    /// Invariant code.
    pub invariant: Seq<char>,
    /// Severity.
    pub severity: Severity,
    /// Node kind.
    pub node_type: Seq<char>,
    /// Node id text.
    pub node_id: Seq<char>,
    /// Message.
    pub message: Seq<char>,
}

impl View for ValidationIssue {
    type V = IssueSpec;

    open spec fn view(&self) -> IssueSpec {
        IssueSpec {
            invariant: self.invariant@,
            severity: self.severity,
            node_type: self.node_type@,
            node_id: self.node_id@,
            message: self.message@,
        }
    }
}

/// The contents of a list of issues.
pub open spec fn issues_view(s: Seq<ValidationIssue>) -> Seq<IssueSpec> {
    s.map_values(|i: ValidationIssue| i@)
}

/// An error-severity issue about node `id`.
pub open spec fn err(inv: Seq<char>, node_type: Seq<char>, id: u64, msg: Seq<char>) -> IssueSpec {
    IssueSpec {
        invariant: inv,
        severity: Severity::Error,
        node_type,
        node_id: dec(id as nat),
        message: msg,
    }
}

/// The issues `f` gives for each element of `s` (with its index), in
/// order.
pub open spec fn flat<A>(s: Seq<A>, f: spec_fn(int, A) -> Seq<IssueSpec>) -> Seq<IssueSpec>
    decreases s.len(),
{
    if s.len() == 0 {
        Seq::empty()
    } else {
        flat(s.drop_last(), f) + f(s.len() - 1, s.last())
    }
}

/// One more element of a `flat`.
pub proof fn lemma_flat_step<A>(s: Seq<A>, i: int, f: spec_fn(int, A) -> Seq<IssueSpec>)
    requires
        0 <= i < s.len(),
    ensures
        flat(s.take(i + 1), f) == flat(s.take(i), f) + f(i, s[i]),
{
    assert(s.take(i + 1).drop_last() =~= s.take(i));
}

/// A `flat` over the whole sequence.
pub proof fn lemma_flat_whole<A>(s: Seq<A>, f: spec_fn(int, A) -> Seq<IssueSpec>)
    ensures
        flat(s.take(s.len() as int), f) == flat(s, f),
{
    assert(s.take(s.len() as int) =~= s);
}

/// What `f` gives for one element is part of the `flat`.
pub proof fn lemma_flat_contains<A>(s: Seq<A>, f: spec_fn(int, A) -> Seq<IssueSpec>, q: int, x: IssueSpec)
    requires
        0 <= q < s.len(),
        f(q, s[q]).contains(x),
    ensures
        flat(s, f).contains(x),
    decreases s.len(),
{
    let a = flat(s.drop_last(), f);
    let b = f(s.len() - 1, s.last());
    if q < s.len() - 1 {
        assert(s.drop_last()[q] == s[q]);
        lemma_flat_contains(s.drop_last(), f, q, x);
        let k = choose|k: int| 0 <= k < a.len() && a[k] == x;
        assert((a + b)[k] == x);
    } else {
        let k = choose|k: int| 0 <= k < b.len() && b[k] == x;
        assert((a + b)[a.len() + k] == x);
    }
}

/// Appends an issue.
pub fn push_issue(
    issues: &mut Vec<ValidationIssue>,
    inv: &str,
    severity: Severity,
    node_type: &str,
    id: u64,
    message: String,
)
    ensures
        issues_view(final(issues)@) == issues_view(old(issues)@).push(
            IssueSpec {
                invariant: inv@,
                severity,
                node_type: node_type@,
                node_id: dec(id as nat),
                message: message@,
            },
        ),
{
    let ghost before = issues@;
    let issue = ValidationIssue {
        invariant: inv.to_owned(),
        severity,
        node_type: node_type.to_owned(),
        node_id: u64_to_string(id),
        message,
    };
    issues.push(issue);
    assert(issues_view(issues@) =~= issues_view(before).push(issue@));
}

/// Appends an error-severity issue.
pub fn push_err(issues: &mut Vec<ValidationIssue>, inv: &str, node_type: &str, id: u64, message: String)
    ensures
        issues_view(final(issues)@) == issues_view(old(issues)@).push(
            err(inv@, node_type@, id, message@),
        ),
{
    push_issue(issues, inv, Severity::Error, node_type, id, message);
}

/// `prefix` followed by the decimal rendering of `n`.
pub fn with_num(prefix: &str, n: u64) -> (r: String)
    ensures
        r@ == prefix@ + dec(n as nat),
{
    let mut r = prefix.to_owned();
    let d = u64_to_string(n);
    r.append(d.as_str());
    r
}

/// Appends `t` to `s`.
pub fn append_str(s: &mut String, t: &str)
    ensures
        final(s)@ == old(s)@ + t@,
{
    s.append(t);
}

/// Appends the decimal rendering of `n` to `s`.
pub fn append_num(s: &mut String, n: u64)
    ensures
        final(s)@ == old(s)@ + dec(n as nat),
{
    let d = u64_to_string(n);
    s.append(d.as_str());
}

/// The one-line rendering of an issue:
/// `[severity] [invariant] node_type:node_id — message`.
pub open spec fn issue_line(i: IssueSpec) -> Seq<char> {
    "["@ + severity_name(i.severity) + "] ["@ + i.invariant + "] "@ + i.node_type + ":"@ + i.node_id
        + " — "@ + i.message
}

impl ValidationIssue {
    /// Renders the issue on one line (see [`issue_line`]).
    pub fn render(&self) -> (r: String)
        ensures
            r@ == issue_line(self@),
    {
        let mut r = String::new();
        append_str(&mut r, "[");
        append_str(&mut r, self.severity.name());
        append_str(&mut r, "] [");
        append_str(&mut r, self.invariant.as_str());
        append_str(&mut r, "] ");
        append_str(&mut r, self.node_type.as_str());
        append_str(&mut r, ":");
        append_str(&mut r, self.node_id.as_str());
        append_str(&mut r, " — ");
        append_str(&mut r, self.message.as_str());
        proof {
            reveal_strlit("[");
            reveal_strlit("] [");
            reveal_strlit("] ");
            reveal_strlit(":");
            reveal_strlit(" — ");
        }
        r
    }
}

} // verus!
