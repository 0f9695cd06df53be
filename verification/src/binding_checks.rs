//! Binding checks of `validate`: `path` bindings must be non-empty,
//! repo-relative, `/`-separated, stay under the workspace root and exist
//! (INV-017); `url` bindings must be well-formed absolute URLs with an
//! allowed scheme (INV-018).

use vstd::prelude::*;
use crate::dag_node::{DagNode, HoldsBindings};
use crate::ids::{NodeType, type_name_of};
use crate::issues::{
    IssueSpec, ValidationIssue, append_num, append_str, err, flat, issues_view, lemma_flat_step,
    lemma_flat_whole, push_err,
};
use crate::model::{Amendment, Binding, Evidence, Provenance, Realization};
use crate::store::{NodeFile, get_node, loaded, node_keys};
use crate::profile_checks::same_text;
use crate::text::{chars_of, dec, owned, string_of};
use crate::version::{split_chars, split_on};

verus! {

/// Whether `c` has the Unicode `White_Space` property (the code points
/// that `char::is_whitespace` accepts): U+0009–U+000D, U+0020, U+0085,
/// U+00A0, U+1680, U+2000–U+200A, U+2028, U+2029, U+202F, U+205F and
/// U+3000.
pub open spec fn unicode_white_space(c: char) -> bool {
    let n = c as u32;
    (0x9 <= n && n <= 0xd) || n == 0x20 || n == 0x85 || n == 0xa0 || n == 0x1680 || (0x2000 <= n
        && n <= 0x200a) || n == 0x2028 || n == 0x2029 || n == 0x202f || n == 0x205f || n == 0x3000
}

/// Whether `c` is a Unicode white-space character.
fn is_whitespace(c: char) -> (r: bool)
    ensures
        r == unicode_white_space(c),
{
    let n = c as u32;
    (0x9 <= n && n <= 0xd) || n == 0x20 || n == 0x85 || n == 0xa0 || n == 0x1680 || (0x2000 <= n
        && n <= 0x200a) || n == 0x2028 || n == 0x2029 || n == 0x202f || n == 0x205f || n == 0x3000
}

/// Whether the lexical walk of path components `parts`, starting `depth`
/// levels below the root, climbs above it: `..` leaves a level, empty
/// and `.` components stay, any other component enters one.
pub open spec fn escapes_from(parts: Seq<Seq<char>>, depth: nat) -> bool
    decreases parts.len(),
{
    if parts.len() == 0 {
        false
    } else {
        let p = parts[0];
        let rest = parts.subrange(1, parts.len() as int);
        if p == seq!['.', '.'] {
            if depth == 0 {
                true
            } else {
                escapes_from(rest, (depth - 1) as nat)
            }
        } else if p.len() == 0 || p == seq!['.'] {
            escapes_from(rest, depth)
        } else {
            escapes_from(rest, depth + 1)
        }
    }
}

/// Whether a relative path climbs above the directory it is resolved in.
pub open spec fn path_escapes(v: Seq<char>) -> bool {
    escapes_from(split_on(v, '/'), 0)
}

/// What is wrong with a `path` binding value, given the values that
/// exist on disk.
pub open spec fn path_problem(v: Seq<char>, existing: Seq<Seq<char>>) -> Option<Seq<char>> {
    if v.len() == 0 {
        Some("path binding value is empty"@)
    } else if v.contains('\\') {
        Some("path '"@ + v + "' contains '\\'; bindings must use '/' separators"@)
    } else if v[0] == '/' {
        Some("path '"@ + v + "' is absolute; bindings must be repo-relative"@)
    } else if path_escapes(v) {
        Some("path '"@ + v + "' escapes the workspace root"@)
    } else if !existing.contains(v) {
        Some("path '"@ + v + "' does not resolve to an existing file or directory"@)
    } else {
        None
    }
}

/// Index of the first `://` in `v` at or after `k`, or `-1`.
pub open spec fn find_sep(v: Seq<char>, k: int) -> int
    decreases v.len() - k,
{
    if k < 0 || k + 3 > v.len() {
        -1
    } else if v[k] == ':' && v[k + 1] == '/' && v[k + 2] == '/' {
        k
    } else {
        find_sep(v, k + 1)
    }
}

/// The URL schemes a `url` binding may use.
pub open spec fn allowed_scheme(s: Seq<char>) -> bool {
    s == "http"@ || s == "https"@ || s == "git"@ || s == "ssh"@
}

/// What is wrong with a `url` binding value.
pub open spec fn url_problem(v: Seq<char>) -> Option<Seq<char>> {
    if v.len() == 0 {
        Some("url binding value is empty"@)
    } else if exists|i: int| 0 <= i < v.len() && unicode_white_space(#[trigger] v[i]) {
        Some("url '"@ + v + "' contains whitespace"@)
    } else {
        let k = find_sep(v, 0);
        if k < 0 {
            Some("url '"@ + v + "' is not a well-formed absolute URL (missing scheme://)"@)
        } else if !allowed_scheme(v.take(k)) {
            Some(
                "url '"@ + v + "' has unsupported scheme '"@ + v.take(k)
                    + "'; allowed: http, https, git, ssh"@,
            )
        } else if k + 3 == v.len() {
            Some("url '"@ + v + "' has empty authority/path after '"@ + v.take(k) + "://'"@)
        } else {
            None
        }
    }
}

/// Whether a relative path's components climb above its root.
fn escapes(v: &Vec<char>) -> (r: bool)
    ensures
        r == path_escapes(v@),
{
    let parts = split_chars(v, '/');
    let ghost ps = split_on(v@, '/');
    let mut depth: usize = 0;
    let mut i: usize = 0;
    assert(ps.subrange(0, ps.len() as int) =~= ps);
    while i < parts.len()
        invariant
            i <= parts.len(),
            parts@.len() == ps.len(),
            ps == split_on(v@, '/'),
            forall|j: int| 0 <= j < parts@.len() ==> #[trigger] parts@[j]@ == ps[j],
            depth <= i,
            escapes_from(ps, 0) == escapes_from(ps.subrange(i as int, ps.len() as int), depth as nat),
        decreases parts.len() - i,
    {
        let p = &parts[i];
        let ghost rest = ps.subrange(i as int, ps.len() as int);
        assert(rest[0] == p@);
        assert(rest.subrange(1, rest.len() as int) =~= ps.subrange(i + 1, ps.len() as int));
        let dotdot = p.len() == 2 && p[0] == '.' && p[1] == '.';
        let dot = p.len() == 1 && p[0] == '.';
        assert(dotdot == (p@ == seq!['.', '.'])) by {
            if p@ == seq!['.', '.'] {
                assert(p@.len() == 2);
            }
            if dotdot {
                assert(p@ =~= seq!['.', '.']);
            }
        }
        assert(dot == (p@ == seq!['.'])) by {
            if dot {
                assert(p@ =~= seq!['.']);
            }
        }
        if dotdot {
            if depth == 0 {
                return true;
            }
            depth = depth - 1;
        } else if p.len() == 0 || dot {
        } else {
            depth = depth + 1;
        }
        i = i + 1;
    }
    assert(ps.subrange(i as int, ps.len() as int) =~= Seq::<Seq<char>>::empty());
    false
}

/// Whether `x` holds `c`.
fn has_char(x: &Vec<char>, c: char) -> (r: bool)
    ensures
        r == x@.contains(c),
{
    let mut i: usize = 0;
    while i < x.len()
        invariant
            i <= x.len(),
            forall|j: int| 0 <= j < i ==> x@[j] != c,
        decreases x.len() - i,
    {
        if x[i] == c {
            assert(x@[i as int] == c);
            return true;
        }
        i = i + 1;
    }
    false
}

/// Whether `s` holds one of `items`.
fn holds_text(items: &Vec<String>, s: &str) -> (r: bool)
    ensures
        r == items@.map_values(|t: String| t@).contains(s@),
{
    let ghost m = items@.map_values(|t: String| t@);
    let mut i: usize = 0;
    while i < items.len()
        invariant
            i <= items.len(),
            m == items@.map_values(|t: String| t@),
            forall|j: int| 0 <= j < i ==> m[j] != s@,
        decreases items.len() - i,
    {
        if same_text(items[i].as_str(), s) {
            assert(m[i as int] == s@);
            return true;
        }
        i = i + 1;
    }
    false
}

/// `"<kind> '" + v + "' " + tail`.
fn quoted(kind: &str, v: &str, tail: &str) -> (r: String)
    ensures
        r@ == kind@ + " '"@ + v@ + "' "@ + tail@,
{
    let mut m = owned(kind);
    append_str(&mut m, " '");
    append_str(&mut m, v);
    append_str(&mut m, "' ");
    append_str(&mut m, tail);
    m
}

/// What is wrong with a `path` binding value.
pub fn check_path_value(v: &str, existing: &Vec<String>) -> (r: Option<String>)
    ensures
        match r {
            Some(m) => path_problem(v@, existing@.map_values(|t: String| t@)) == Some(m@),
            None => path_problem(v@, existing@.map_values(|t: String| t@)) is None,
        },
{
    proof {
        reveal_strlit("path");
        reveal_strlit(" '");
        reveal_strlit("' ");
        reveal_strlit("path '");
        reveal_strlit("contains '\\'; bindings must use '/' separators");
        reveal_strlit("' contains '\\'; bindings must use '/' separators");
        reveal_strlit("is absolute; bindings must be repo-relative");
        reveal_strlit("' is absolute; bindings must be repo-relative");
        reveal_strlit("escapes the workspace root");
        reveal_strlit("' escapes the workspace root");
        reveal_strlit("does not resolve to an existing file or directory");
        reveal_strlit("' does not resolve to an existing file or directory");
    }
    let x = chars_of(v);
    if x.len() == 0 {
        return Some(owned("path binding value is empty"));
    }
    if has_char(&x, '\\') {
        return Some(quoted("path", v, "contains '\\'; bindings must use '/' separators"));
    }
    if x[0] == '/' {
        return Some(quoted("path", v, "is absolute; bindings must be repo-relative"));
    }
    if escapes(&x) {
        return Some(quoted("path", v, "escapes the workspace root"));
    }
    if !holds_text(existing, v) {
        return Some(quoted("path", v, "does not resolve to an existing file or directory"));
    }
    None
}

/// The first `k` characters of `x`.
fn prefix_string(x: &Vec<char>, k: usize) -> (r: String)
    requires
        k <= x.len(),
    ensures
        r@ == x@.take(k as int),
{
    let mut v: Vec<char> = Vec::new();
    let mut i: usize = 0;
    while i < k
        invariant
            i <= k,
            k <= x.len(),
            v@ =~= x@.take(i as int),
        decreases k - i,
    {
        v.push(x[i]);
        i = i + 1;
    }
    string_of(&v)
}

/// What is wrong with a `url` binding value.
pub fn check_url_value(v: &str) -> (r: Option<String>)
    ensures
        match r {
            Some(m) => url_problem(v@) == Some(m@),
            None => url_problem(v@) is None,
        },
{
    proof {
        reveal_strlit("url");
        reveal_strlit(" '");
        reveal_strlit("' ");
        reveal_strlit("contains whitespace");
        reveal_strlit("is not a well-formed absolute URL (missing scheme://)");
        reveal_strlit("url '");
        reveal_strlit("' contains whitespace");
        reveal_strlit("' is not a well-formed absolute URL (missing scheme://)");
        reveal_strlit("' has unsupported scheme '");
        reveal_strlit("'; allowed: http, https, git, ssh");
        reveal_strlit("' has empty authority/path after '");
        reveal_strlit("://'");
        reveal_strlit("http");
        reveal_strlit("https");
        reveal_strlit("git");
        reveal_strlit("ssh");
    }
    let x = chars_of(v);
    if x.len() == 0 {
        return Some(owned("url binding value is empty"));
    }
    let mut i: usize = 0;
    while i < x.len()
        invariant
            i <= x.len(),
            x@ == v@,
            forall|j: int| 0 <= j < i ==> !unicode_white_space(#[trigger] x@[j]),
        decreases x.len() - i,
    {
        if is_whitespace(x[i]) {
            assert(unicode_white_space(v@[i as int]));
            let mut m = owned("url '");
            append_str(&mut m, v);
            append_str(&mut m, "' contains whitespace");
            return Some(m);
        }
        i = i + 1;
    }
    let mut k: usize = 0;
    let mut found = false;
    while k < x.len() && x.len() - k >= 3
        invariant_except_break
            !found,
            find_sep(v@, 0) == find_sep(v@, k as int),
        invariant
            x@ == v@,
            x.len() >= 1,
            k <= x.len(),
        ensures
            found ==> find_sep(v@, 0) == k && k + 3 <= x.len(),
            !found ==> find_sep(v@, 0) == -1,
        decreases x.len() - k,
    {
        if x[k] == ':' && x[k + 1] == '/' && x[k + 2] == '/' {
            found = true;
            break;
        }
        k = k + 1;
    }
    if !found {
        return Some(quoted("url", v, "is not a well-formed absolute URL (missing scheme://)"));
    }
    assert(find_sep(v@, 0) == k);
    let scheme = prefix_string(&x, k);
    if !(same_text(scheme.as_str(), "http") || same_text(scheme.as_str(), "https") || same_text(
        scheme.as_str(),
        "git",
    ) || same_text(scheme.as_str(), "ssh")) {
        let mut m = owned("url '");
        append_str(&mut m, v);
        append_str(&mut m, "' has unsupported scheme '");
        append_str(&mut m, scheme.as_str());
        append_str(&mut m, "'; allowed: http, https, git, ssh");
        return Some(m);
    }
    if k + 3 == x.len() {
        let mut m = owned("url '");
        append_str(&mut m, v);
        append_str(&mut m, "' has empty authority/path after '");
        append_str(&mut m, scheme.as_str());
        append_str(&mut m, "://'");
        return Some(m);
    }
    None
}

/// `loc.bindings[b]: msg`.
pub open spec fn binding_msg(loc: Seq<char>, b: int, msg: Seq<char>) -> Seq<char> {
    loc + ".bindings["@ + dec(b as nat) + "]: "@ + msg
}

/// INV-018 for the `b`-th binding of a holder at `loc`.
pub open spec fn url_fn(tn: Seq<char>, id: u64, loc: Seq<char>) -> spec_fn(int, Binding) -> Seq<IssueSpec> {
    |b: int, bind: Binding|
        if bind.scheme@ == "url"@ {
            match url_problem(bind.value@) {
                Some(m) => seq![err("INV-018"@, tn, id, binding_msg(loc, b, m))],
                None => Seq::empty(),
            }
        } else {
            Seq::empty()
        }
}

/// INV-017 for the `b`-th binding of a holder at `loc`.
pub open spec fn path_fn(tn: Seq<char>, id: u64, loc: Seq<char>, existing: Seq<Seq<char>>) -> spec_fn(int, Binding) -> Seq<IssueSpec> {
    |b: int, bind: Binding|
        if bind.scheme@ == "path"@ {
            match path_problem(bind.value@, existing) {
                Some(m) => seq![err("INV-017"@, tn, id, binding_msg(loc, b, m))],
                None => Seq::empty(),
            }
        } else {
            Seq::empty()
        }
}

/// Emits the INV-018 (`path == false`) or INV-017 (`path == true`)
/// errors of the bindings at `loc`.
fn check_bindings(
    bindings: &Vec<Binding>,
    tn: &str,
    id: u64,
    loc: &str,
    path: bool,
    existing: &Vec<String>,
    issues: &mut Vec<ValidationIssue>,
)
    ensures
        issues_view(final(issues)@) == issues_view(old(issues)@) + flat(
            bindings@,
            if path {
                path_fn(tn@, id, loc@, existing@.map_values(|t: String| t@))
            } else {
                url_fn(tn@, id, loc@)
            },
        ),
{
    proof {
        reveal_strlit("url");
        reveal_strlit("path");
    }
    let ghost base = issues_view(issues@);
    let ghost f = if path {
        path_fn(tn@, id, loc@, existing@.map_values(|t: String| t@))
    } else {
        url_fn(tn@, id, loc@)
    };
    let mut i: usize = 0;
    while i < bindings.len()
        invariant
            i <= bindings.len(),
            f == if path {
                path_fn(tn@, id, loc@, existing@.map_values(|t: String| t@))
            } else {
                url_fn(tn@, id, loc@)
            },
            issues_view(issues@) == base + flat(bindings@.take(i as int), f),
        decreases bindings.len() - i,
    {
        proof {
            lemma_flat_step(bindings@, i as int, f);
        }
        let bind = &bindings[i];
        let problem = if path {
            if same_text(bind.scheme.as_str(), "path") {
                check_path_value(bind.value.as_str(), existing)
            } else {
                None
            }
        } else {
            if same_text(bind.scheme.as_str(), "url") {
                check_url_value(bind.value.as_str())
            } else {
                None
            }
        };
        if let Some(m) = problem {
            let mut msg = owned(loc);
            append_str(&mut msg, ".bindings[");
            append_num(&mut msg, i as u64);
            append_str(&mut msg, "]: ");
            append_str(&mut msg, m.as_str());
            push_err(issues, if path { "INV-017" } else { "INV-018" }, tn, id, msg);
        }
        assert(issues_view(issues@) =~= base + flat(bindings@.take(i + 1), f));
        i = i + 1;
    }
    proof {
        lemma_flat_whole(bindings@, f);
    }
}

/// `holder[idx]`.
pub open spec fn holder_loc(holder: Seq<char>, idx: int) -> Seq<char> {
    holder + "["@ + dec(idx as nat) + "]"@
}

/// INV-018 then, when paths are checked, INV-017 errors of the `idx`-th
/// holder.
pub open spec fn holder_bind_fn<H: HoldsBindings>(tn: Seq<char>, id: u64, holder: Seq<char>, existing: Option<Seq<Seq<char>>>) -> spec_fn(int, H) -> Seq<IssueSpec> {
    |idx: int, h: H|
        flat(h.bindings_spec(), url_fn(tn, id, holder_loc(holder, idx))) + match existing {
            Some(ex) => flat(h.bindings_spec(), path_fn(tn, id, holder_loc(holder, idx), ex)),
            None => Seq::empty(),
        }
}

/// The path values known to exist, as text.
pub open spec fn existing_view(existing: Option<Vec<String>>) -> Option<Seq<Seq<char>>> {
    match existing {
        Some(v) => Some(v@.map_values(|t: String| t@)),
        None => None,
    }
}

/// Emits the binding errors of every holder in `holders`.
pub fn check_holders<H: HoldsBindings>(
    holders: &Vec<H>,
    tn: &str,
    id: u64,
    holder: &str,
    existing: &Option<Vec<String>>,
    issues: &mut Vec<ValidationIssue>,
)
    ensures
        issues_view(final(issues)@) == issues_view(old(issues)@) + flat(
            holders@,
            holder_bind_fn(tn@, id, holder@, existing_view(*existing)),
        ),
{
    let ghost base = issues_view(issues@);
    let ghost f = holder_bind_fn::<H>(tn@, id, holder@, existing_view(*existing));
    let mut i: usize = 0;
    while i < holders.len()
        invariant
            i <= holders.len(),
            f == holder_bind_fn::<H>(tn@, id, holder@, existing_view(*existing)),
            issues_view(issues@) == base + flat(holders@.take(i as int), f),
        decreases holders.len() - i,
    {
        proof {
            lemma_flat_step(holders@, i as int, f);
        }
        let mut loc = owned(holder);
        append_str(&mut loc, "[");
        append_num(&mut loc, i as u64);
        append_str(&mut loc, "]");
        let bs = holders[i].bindings_ref();
        let ghost before = issues_view(issues@);
        let empty: Vec<String> = Vec::new();
        check_bindings(bs, tn, id, loc.as_str(), false, &empty, issues);
        if let Some(ex) = existing {
            check_bindings(bs, tn, id, loc.as_str(), true, ex, issues);
        }
        assert(issues_view(issues@) =~= base + flat(holders@.take(i + 1), f));
        i = i + 1;
    }
    proof {
        lemma_flat_whole(holders@, f);
    }
}

/// Binding errors of one node: realization, evidence, then provenance
/// holders.
pub open spec fn node_binding_issues(
    tn: Seq<char>,
    id: u64,
    reals: Seq<Realization>,
    ev: Seq<Evidence>,
    prov: Seq<Provenance>,
    existing: Option<Seq<Seq<char>>>,
) -> Seq<IssueSpec> {
    flat(reals, holder_bind_fn(tn, id, "realization"@, existing)) + flat(
        ev,
        holder_bind_fn(tn, id, "evidence"@, existing),
    ) + flat(prov, holder_bind_fn(tn, id, "provenance"@, existing))
}

/// Emits the binding errors of one node.
fn check_node_bindings(
    tn: &str,
    id: u64,
    reals: &Vec<Realization>,
    ev: &Vec<Evidence>,
    prov: &Vec<Provenance>,
    existing: &Option<Vec<String>>,
    issues: &mut Vec<ValidationIssue>,
)
    ensures
        issues_view(final(issues)@) == issues_view(old(issues)@) + node_binding_issues(
            tn@,
            id,
            reals@,
            ev@,
            prov@,
            existing_view(*existing),
        ),
{
    let ghost base = issues_view(issues@);
    check_holders(reals, tn, id, "realization", existing, issues);
    check_holders(ev, tn, id, "evidence", existing, issues);
    check_holders(prov, tn, id, "provenance", existing, issues);
    assert(issues_view(issues@) =~= base + node_binding_issues(
        tn@,
        id,
        reals@,
        ev@,
        prov@,
        existing_view(*existing),
    ));
}

/// The binding errors of the DAG node with key `id`.
pub open spec fn dag_binding_fn<N: DagNode>(f: Seq<NodeFile<N>>, nt: NodeType, existing: Option<Seq<Seq<char>>>) -> spec_fn(int, u64) -> Seq<IssueSpec> {
    |i: int, id: u64|
        match loaded(f, id) {
            Some(n) => node_binding_issues(
                type_name_of(nt),
                id,
                n.realization_spec(),
                n.evidence_spec(),
                n.provenance_spec(),
                existing,
            ),
            None => Seq::empty(),
        }
}

/// Emits the binding errors of one DAG, node by node in id order.
pub fn check_dag_bindings<N: DagNode>(
    files: &Vec<NodeFile<N>>,
    keys: &Vec<u64>,
    nt: NodeType,
    existing: &Option<Vec<String>>,
    issues: &mut Vec<ValidationIssue>,
)
    requires
        keys@ == node_keys(files@),
    ensures
        issues_view(final(issues)@) == issues_view(old(issues)@) + flat(
            node_keys(files@),
            dag_binding_fn(files@, nt, existing_view(*existing)),
        ),
{
    let tn = nt.name();
    let ghost base = issues_view(issues@);
    let ghost f = dag_binding_fn(files@, nt, existing_view(*existing));
    let mut i: usize = 0;
    while i < keys.len()
        invariant
            i <= keys.len(),
            keys@ == node_keys(files@),
            tn@ == type_name_of(nt),
            f == dag_binding_fn(files@, nt, existing_view(*existing)),
            issues_view(issues@) == base + flat(keys@.take(i as int), f),
        decreases keys.len() - i,
    {
        proof {
            lemma_flat_step(keys@, i as int, f);
        }
        let id = keys[i];
        if let Some(n) = get_node(files, id) {
            check_node_bindings(tn, id, n.realization_ref(), n.evidence_ref(), n.provenance_ref(), existing, issues);
        }
        assert(issues_view(issues@) =~= base + flat(keys@.take(i + 1), f));
        i = i + 1;
    }
    proof {
        lemma_flat_whole(keys@, f);
    }
}

/// The binding errors of the amendment with key `aid`.
pub open spec fn amendment_binding_fn(af: Seq<NodeFile<Amendment>>, existing: Option<Seq<Seq<char>>>) -> spec_fn(int, u64) -> Seq<IssueSpec> {
    |i: int, aid: u64|
        match loaded(af, aid) {
            Some(a) => node_binding_issues(
                "amendment"@,
                aid,
                a.realization@,
                a.evidence@,
                a.provenance@,
                existing,
            ),
            None => Seq::empty(),
        }
}

/// Emits the binding errors of the amendments, in id order.
pub fn check_amendment_bindings(
    af: &Vec<NodeFile<Amendment>>,
    akeys: &Vec<u64>,
    existing: &Option<Vec<String>>,
    issues: &mut Vec<ValidationIssue>,
)
    requires
        akeys@ == node_keys(af@),
    ensures
        issues_view(final(issues)@) == issues_view(old(issues)@) + flat(
            node_keys(af@),
            amendment_binding_fn(af@, existing_view(*existing)),
        ),
{
    let ghost base = issues_view(issues@);
    let ghost f = amendment_binding_fn(af@, existing_view(*existing));
    let mut i: usize = 0;
    while i < akeys.len()
        invariant
            i <= akeys.len(),
            akeys@ == node_keys(af@),
            f == amendment_binding_fn(af@, existing_view(*existing)),
            issues_view(issues@) == base + flat(akeys@.take(i as int), f),
        decreases akeys.len() - i,
    {
        proof {
            lemma_flat_step(akeys@, i as int, f);
        }
        let aid = akeys[i];
        if let Some(a) = get_node(af, aid) {
            check_node_bindings("amendment", aid, &a.realization, &a.evidence, &a.provenance, existing, issues);
        }
        assert(issues_view(issues@) =~= base + flat(akeys@.take(i + 1), f));
        i = i + 1;
    }
    proof {
        lemma_flat_whole(akeys@, f);
    }
}

} // verus!
