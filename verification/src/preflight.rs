//! The decisions of `preflight`, the preamble printed for agent
//! skills: the update notice, the schema-drift warning that replaces
//! everything after it, and what follows when the store is current.

use vstd::prelude::*;
use crate::issues::{append_num, append_str};
use crate::profile_checks::same_text;
use crate::text::{chars_of, dec, owned, string_of};
use crate::version::{StoreVersion, current_store_version, version_lt, version_text};

verus! {

/// How the on-disk store version differs from the one this library
/// expects.
#[derive(Debug)]
pub enum SchemaDrift {
    /// Older: `shapes migrate` upgrades it.
    Outdated(StoreVersion),
    /// Newer: the binary must be upgraded.
    Newer(StoreVersion),
}

/// The expected store version.
pub open spec fn current_version_spec() -> StoreVersion {
    StoreVersion { major: 0, minor: 2, patch: 0 }
}

/// The drift of `on_disk` from the expected version; `None` when equal.
pub open spec fn drift_of(on_disk: StoreVersion) -> Option<SchemaDrift> {
    if version_lt(on_disk, current_version_spec()) {
        Some(SchemaDrift::Outdated(on_disk))
    } else if version_lt(current_version_spec(), on_disk) {
        Some(SchemaDrift::Newer(on_disk))
    } else {
        None
    }
}

/// Compares the on-disk store version with the expected one.
pub fn schema_drift(on_disk: &StoreVersion) -> (r: Option<SchemaDrift>)
    ensures
        r == drift_of(*on_disk),
{
    let current = current_store_version();
    if on_disk.is_older_than(&current) {
        Some(SchemaDrift::Outdated(*on_disk))
    } else if current.is_older_than(on_disk) {
        Some(SchemaDrift::Newer(*on_disk))
    } else {
        None
    }
}

/// The drift warning preflight prints.
pub open spec fn drift_text(d: SchemaDrift) -> Seq<char> {
    match d {
        SchemaDrift::Outdated(v) => "MIGRATION NEEDED: Run `shapes migrate` — .shapes/ store is at version "@
            + version_text(v) + " but this CLI expects "@ + version_text(current_version_spec()) + "."@,
        SchemaDrift::Newer(v) => "STORE AHEAD OF CLI: Run `cargo install shapes-cli` — .shapes/ store is at version "@
            + version_text(v) + " but this CLI only supports up to "@ + version_text(current_version_spec())
            + "."@,
    }
}

/// Returns [`drift_text`] of `d`.
pub fn drift_message(d: &SchemaDrift) -> (r: String)
    ensures
        r@ == drift_text(*d),
{
    let current = current_store_version().to_string();
    match d {
        SchemaDrift::Outdated(v) => {
            let mut r = owned("MIGRATION NEEDED: Run `shapes migrate` — .shapes/ store is at version ");
            append_str(&mut r, v.to_string().as_str());
            append_str(&mut r, " but this CLI expects ");
            append_str(&mut r, current.as_str());
            append_str(&mut r, ".");
            proof {
                reveal_strlit("MIGRATION NEEDED: Run `shapes migrate` — .shapes/ store is at version ");
                reveal_strlit(" but this CLI expects ");
                reveal_strlit(".");
            }
            r
        },
        SchemaDrift::Newer(v) => {
            let mut r = owned("STORE AHEAD OF CLI: Run `cargo install shapes-cli` — .shapes/ store is at version ");
            append_str(&mut r, v.to_string().as_str());
            append_str(&mut r, " but this CLI only supports up to ");
            append_str(&mut r, current.as_str());
            append_str(&mut r, ".");
            proof {
                reveal_strlit("STORE AHEAD OF CLI: Run `cargo install shapes-cli` — .shapes/ store is at version ");
                reveal_strlit(" but this CLI only supports up to ");
                reveal_strlit(".");
            }
            r
        },
    }
}

/// Whether `pat` occurs in `s` at position `p`.
pub open spec fn occurs_at(s: Seq<char>, pat: Seq<char>, p: int) -> bool {
    0 <= p && p + pat.len() <= s.len() && s.subrange(p, p + pat.len()) == pat
}

/// Whether `p` is the first position where `pat` occurs in `s`.
pub open spec fn first_occurrence(s: Seq<char>, pat: Seq<char>, p: int) -> bool {
    occurs_at(s, pat, p) && forall|q: int| 0 <= q < p ==> !occurs_at(s, pat, q)
}

/// The marker that precedes the newest version in the registry's reply.
pub open spec fn max_version_marker() -> Seq<char> {
    "\"max_version\":\""@
}

/// What [`parse_max_version`] gives for `body`: the text from after
/// the first `"max_version":"` up to the next `"`; `None` when either
/// is missing.
pub open spec fn max_version_of(body: Seq<char>, r: Option<Seq<char>>) -> bool {
    let m = max_version_marker();
    match r {
        Some(v) => exists|p: int, e: int|
            #![trigger first_occurrence(body, m, p), body[e]]
            {
                &&& first_occurrence(body, m, p)
                &&& p + m.len() <= e < body.len()
                &&& body[e] == '"'
                &&& forall|k: int| p + m.len() <= k < e ==> body[k] != '"'
                &&& v == body.subrange(p + m.len(), e)
            },
        None => (forall|p: int| !occurs_at(body, m, p)) || exists|p: int|
            #![trigger first_occurrence(body, m, p)]
            first_occurrence(body, m, p) && forall|k: int| p + m.len() <= k < body.len() ==> body[k] != '"',
    }
}

/// Whether `pat` occurs in `s` at `p`, decided.
fn matches_at(s: &Vec<char>, pat: &Vec<char>, p: usize) -> (r: bool)
    requires
        p <= s@.len(),
    ensures
        r == occurs_at(s@, pat@, p as int),
{
    if pat.len() > s.len() - p {
        return false;
    }
    let mut k: usize = 0;
    while k < pat.len()
        invariant
            k <= pat@.len(),
            p + pat@.len() <= s@.len(),
            s@.len() == s.len(),
            pat@.len() == pat.len(),
            forall|j: int| 0 <= j < k ==> s@[p + j] == pat@[j],
        decreases pat@.len() - k,
    {
        assert(p + k < s@.len());
        if s[p + k] != pat[k] {
            assert(s@.subrange(p as int, p + pat@.len())[k as int] != pat@[k as int]);
            return false;
        }
        k = k + 1;
    }
    assert(s@.subrange(p as int, p + pat@.len()) =~= pat@);
    true
}

/// Reads the newest published version out of the registry's JSON
/// reply: the text between the first `"max_version":"` and the next
/// `"`.
pub fn parse_max_version(body: &str) -> (r: Option<String>)
    ensures
        max_version_of(body@, match r {
            Some(v) => Some(v@),
            None => None,
        }),
{
    let s = chars_of(body);
    let marker_text = "\"max_version\":\"";
    let m = chars_of(marker_text);
    proof {
        reveal_strlit("\"max_version\":\"");
    }
    assert(m@ == max_version_marker());
    let mut p: usize = 0;
    let mut found = false;
    while p < s.len() && !found
        invariant
            p <= s@.len(),
            m@ == max_version_marker(),
            found ==> p <= s@.len() && first_occurrence(s@, m@, p as int),
            !found ==> forall|q: int| 0 <= q < p ==> !occurs_at(s@, m@, q),
        decreases s@.len() - p + (if found { 0int } else { 1int }),
    {
        if matches_at(&s, &m, p) {
            found = true;
        } else {
            p = p + 1;
        }
    }
    if !found {
        assert forall|q: int| !occurs_at(s@, m@, q) by {
            if 0 <= q && q < p {
            } else if q >= p {
                assert(q + m@.len() > s@.len());
            }
        }
        return None;
    }
    let start = p + m.len();
    let mut e = start;
    while e < s.len() && s[e] != '"'
        invariant
            start <= e <= s@.len(),
            forall|k: int| start <= k < e ==> s@[k] != '"',
        decreases s@.len() - e,
    {
        e = e + 1;
    }
    if e == s.len() {
        assert(first_occurrence(s@, m@, p as int));
        return None;
    }
    let mut v: Vec<char> = Vec::new();
    let mut k = start;
    while k < e
        invariant
            start <= k <= e,
            e < s@.len(),
            v@ == s@.subrange(start as int, k as int),
        decreases e - k,
    {
        v.push(s[k]);
        assert(s@.subrange(start as int, k + 1) =~= s@.subrange(start as int, k as int).push(s@[k as int]));
        k = k + 1;
    }
    let r = string_of(&v);
    assert(first_occurrence(s@, m@, p as int));
    assert(s@[e as int] == '"');
    Some(r)
}

/// What preflight prints: its lines, then the shape tree when
/// `show_tree`.
#[derive(Debug)]
pub struct PreflightPlan {
    /// Lines to print, in order.
    pub lines: Vec<String>,
    /// Whether the shape tree follows.
    pub show_tree: bool,
}

/// The lines of the preamble and whether the tree follows, for CLI
/// version `version`, the newest published version `latest` (if the
/// update check got one), the store's drift, whether a store exists,
/// and whether it runs for `init`.
pub open spec fn preflight_spec(
    version: Seq<char>,
    latest: Option<Seq<char>>,
    drift: Option<SchemaDrift>,
    store_exists: bool,
    init: bool,
) -> (Seq<Seq<char>>, bool) {
    let head = seq!["Shapes CLI v"@ + version] + match latest {
        Some(l) => if l != version {
            seq!["UPDATE AVAILABLE: v"@ + l + " — run: cargo install shapes-cli"@]
        } else {
            seq![]
        },
        None => seq![],
    };
    match drift {
        Some(d) => (head + seq![""@, drift_text(d)], false),
        None => if init {
            if store_exists {
                (head + seq![""@, "NOTE: .shapes/ already exists in this project."@], true)
            } else {
                (head, false)
            }
        } else if !store_exists {
            (
                head + seq![
                    ""@,
                    "No .shapes/ directory found in this project."@,
                    "Run /shapes:shapes-init to bootstrap the shapes graph."@,
                ],
                false,
            )
        } else {
            (head + seq![""@], true)
        },
    }
}

/// The views of a list of strings.
pub open spec fn texts(v: Seq<String>) -> Seq<Seq<char>> {
    v.map_values(|s: String| s@)
}

/// Appends a line.
fn push_line(lines: &mut Vec<String>, s: &str)
    ensures
        texts(final(lines)@) == texts(old(lines)@).push(s@),
{
    let ghost before = lines@;
    lines.push(owned(s));
    assert(texts(lines@) =~= texts(before).push(s@));
}

/// Decides the preamble (see [`preflight_spec`]). A drift warning, when
/// there is one, is the last line: nothing about the tree follows it.
pub fn preflight(
    version: &str,
    latest: &Option<String>,
    drift: &Option<SchemaDrift>,
    store_exists: bool,
    init: bool,
) -> (r: PreflightPlan)
    ensures
        (texts(r.lines@), r.show_tree) == preflight_spec(
            version@,
            match latest {
                Some(l) => Some(l@),
                None => None,
            },
            *drift,
            store_exists,
            init,
        ),
{
    proof {
        reveal_strlit("Shapes CLI v");
        reveal_strlit("UPDATE AVAILABLE: v");
        reveal_strlit(" — run: cargo install shapes-cli");
        reveal_strlit("");
        reveal_strlit("NOTE: .shapes/ already exists in this project.");
        reveal_strlit("No .shapes/ directory found in this project.");
        reveal_strlit("Run /shapes:shapes-init to bootstrap the shapes graph.");
    }
    let mut lines: Vec<String> = Vec::new();
    let mut first = owned("Shapes CLI v");
    append_str(&mut first, version);
    let ghost e = lines@;
    lines.push(first);
    assert(texts(lines@) =~= seq!["Shapes CLI v"@ + version@]);
    match latest {
        Some(l) => {
            if !same_text(l.as_str(), version) {
                let mut u = owned("UPDATE AVAILABLE: v");
                append_str(&mut u, l.as_str());
                append_str(&mut u, " — run: cargo install shapes-cli");
                let ghost before = lines@;
                lines.push(u);
                assert(texts(lines@) =~= texts(before).push(u@));
            }
        },
        None => {},
    }
    let ghost head = texts(lines@);
    match drift {
        Some(d) => {
            push_line(&mut lines, "");
            let msg = drift_message(d);
            let ghost before = lines@;
            lines.push(msg);
            assert(texts(lines@) =~= texts(before).push(msg@));
            assert(texts(lines@) =~= head + seq![""@, drift_text(*d)]);
            return PreflightPlan { lines, show_tree: false };
        },
        None => {},
    }
    if init {
        if store_exists {
            push_line(&mut lines, "");
            push_line(&mut lines, "NOTE: .shapes/ already exists in this project.");
            assert(texts(lines@) =~= head + seq![""@, "NOTE: .shapes/ already exists in this project."@]);
            PreflightPlan { lines, show_tree: true }
        } else {
            PreflightPlan { lines, show_tree: false }
        }
    } else if !store_exists {
        push_line(&mut lines, "");
        push_line(&mut lines, "No .shapes/ directory found in this project.");
        push_line(&mut lines, "Run /shapes:shapes-init to bootstrap the shapes graph.");
        assert(texts(lines@) =~= head + seq![
            ""@,
            "No .shapes/ directory found in this project."@,
            "Run /shapes:shapes-init to bootstrap the shapes graph."@,
        ]);
        PreflightPlan { lines, show_tree: false }
    } else {
        push_line(&mut lines, "");
        assert(texts(lines@) =~= head + seq![""@]);
        PreflightPlan { lines, show_tree: true }
    }
}

/// The refusal of a store at another version than the expected one.
pub open spec fn wrong_version_text(on_disk: StoreVersion) -> Seq<char> {
    ".shapes/ store is at version "@ + version_text(on_disk) + " but this CLI expects "@
        + version_text(current_version_spec()) + ". Run `shapes migrate` to upgrade."@
}

/// Accepts a store only at exactly the expected version; commands read
/// a store once it is accepted here.
pub fn check_store_version(on_disk: &StoreVersion) -> (r: Result<(), String>)
    ensures
        match r {
            Ok(()) => *on_disk == current_version_spec(),
            Err(m) => *on_disk != current_version_spec() && m@ == wrong_version_text(*on_disk),
        },
{
    let current = current_store_version();
    if on_disk.major == current.major && on_disk.minor == current.minor && on_disk.patch
        == current.patch {
        return Ok(());
    }
    let mut m = owned(".shapes/ store is at version ");
    append_str(&mut m, on_disk.to_string().as_str());
    append_str(&mut m, " but this CLI expects ");
    append_str(&mut m, current.to_string().as_str());
    append_str(&mut m, ". Run `shapes migrate` to upgrade.");
    proof {
        reveal_strlit(".shapes/ store is at version ");
        reveal_strlit(" but this CLI expects ");
        reveal_strlit(". Run `shapes migrate` to upgrade.");
    }
    Err(m)
}

/// How `fmt --check` ends after finding `dirty` files out of canonical
/// form.
pub open spec fn fmt_outcome_spec(check: bool, dirty: u32) -> Result<(), Seq<char>> {
    if check && dirty > 0 {
        Err(dec(dirty as nat) + " file(s) not in canonical format (run `shapes fmt` to fix)"@)
    } else {
        Ok(())
    }
}

/// Decides how `fmt` ends (see [`fmt_outcome_spec`]).
pub fn fmt_outcome(check: bool, dirty: u32) -> (r: Result<(), String>)
    ensures
        match (r, fmt_outcome_spec(check, dirty)) {
            (Ok(()), Ok(())) => true,
            (Err(m), Err(t)) => m@ == t,
            _ => false,
        },
{
    if check && dirty > 0 {
        let mut m = String::new();
        append_num(&mut m, dirty as u64);
        append_str(&mut m, " file(s) not in canonical format (run `shapes fmt` to fix)");
        proof {
            reveal_strlit(" file(s) not in canonical format (run `shapes fmt` to fix)");
        }
        Err(m)
    } else {
        Ok(())
    }
}

} // verus!
