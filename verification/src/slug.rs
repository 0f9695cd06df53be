//! File names of stored nodes: `<id>-<slug>.yaml`, where the slug is
//! the node's name lower-cased, with every run of other characters
//! collapsed into one hyphen and no hyphen at either end.

use vstd::prelude::*;
use crate::issues::{append_num, append_str};
use crate::text::{chars_of, dec, push_char};

verus! {

/// What `str::to_lowercase` gives for `s`.
pub uninterp spec fn lowercase_of(s: Seq<char>) -> Seq<char>;

/// Whether `char::is_alphanumeric` holds of `c`.
pub uninterp spec fn unicode_alphanumeric(c: char) -> bool;

/// `str::to_lowercase`: the lower-case mapping of `s` under Unicode's
/// `Lowercase` derived property, which depends on `s` alone. The
/// contract names the result and claims nothing more of it.
#[verifier::external_body]
fn to_lowercase(s: &str) -> (r: String)
    ensures
        r@ == lowercase_of(s@),
{
    s.to_lowercase()
}

/// `char::is_alphanumeric`: whether `c` is alphabetic or numeric in
/// Unicode's terms. The contract names the property and claims nothing
/// more of it.
#[verifier::external_body]
fn is_alphanumeric(c: char) -> (r: bool)
    ensures
        r == unicode_alphanumeric(c),
{
    c.is_alphanumeric()
}

/// `c` if it is alphanumeric, else a hyphen.
pub open spec fn slug_char(c: char) -> char {
    if unicode_alphanumeric(c) {
        c
    } else {
        '-'
    }
}

/// `s` with every run of hyphens cut to one and leading hyphens
/// dropped.
pub open spec fn collapse_hyphens(s: Seq<char>) -> Seq<char>
    decreases s.len(),
{
    if s.len() == 0 {
        Seq::empty()
    } else {
        let r = collapse_hyphens(s.drop_last());
        if s.last() == '-' {
            if r.len() == 0 || r.last() == '-' {
                r
            } else {
                r.push('-')
            }
        } else {
            r.push(s.last())
        }
    }
}

/// The slug of `name`: its lower-case form with non-alphanumerics
/// turned into hyphens, runs of hyphens collapsed, no hyphen at either
/// end, and `node` when nothing is left.
pub open spec fn slug_of(name: Seq<char>) -> Seq<char> {
    let r = collapse_hyphens(lowercase_of(name).map_values(|c: char| slug_char(c)));
    let t = if r.len() > 0 && r.last() == '-' {
        r.drop_last()
    } else {
        r
    };
    if t.len() == 0 {
        "node"@
    } else {
        t
    }
}

/// A collapsed sequence holds no two hyphens in a row, does not start
/// with one, and holds only hyphens and characters of `s`.
pub proof fn lemma_collapse_shape(s: Seq<char>)
    ensures
        collapse_hyphens(s).len() > 0 ==> collapse_hyphens(s)[0] != '-',
        forall|i: int|
            0 <= i < collapse_hyphens(s).len() - 1 ==> !(collapse_hyphens(s)[i] == '-' && #[trigger] collapse_hyphens(s)[i + 1] == '-'),
        forall|i: int|
            0 <= i < collapse_hyphens(s).len() && #[trigger] collapse_hyphens(s)[i] != '-' ==> s.contains(collapse_hyphens(s)[i]),
    decreases s.len(),
{
    if s.len() > 0 {
        let p = s.drop_last();
        lemma_collapse_shape(p);
        let r = collapse_hyphens(p);
        let q = collapse_hyphens(s);
        assert forall|i: int| 0 <= i < q.len() && #[trigger] q[i] != '-' implies s.contains(q[i]) by {
            if i < r.len() {
                assert(q[i] == r[i]);
                assert(p.contains(r[i]));
                let k = choose|k: int| 0 <= k < p.len() && p[k] == r[i];
                assert(s[k] == p[k]);
            } else {
                assert(s[s.len() - 1] == s.last());
            }
        }
        assert forall|i: int| 0 <= i < q.len() - 1 implies !(q[i] == '-' && #[trigger] q[i + 1] == '-') by {
            if i + 1 < r.len() {
                assert(q[i] == r[i] && q[i + 1] == r[i + 1]);
            }
        }
    }
}

/// The slug never starts or ends with a hyphen, holds no two hyphens in
/// a row, and, unless it is the fallback `node`, holds besides hyphens
/// only alphanumeric characters of the lower-cased name.
pub proof fn law_slug_shape(name: Seq<char>)
    ensures
        slug_of(name).len() > 0,
        slug_of(name)[0] != '-',
        slug_of(name).last() != '-',
        forall|i: int|
            0 <= i < slug_of(name).len() - 1 ==> !(slug_of(name)[i] == '-' && #[trigger] slug_of(name)[i + 1] == '-'),
        slug_of(name) != "node"@ ==> forall|i: int|
            0 <= i < slug_of(name).len() && #[trigger] slug_of(name)[i] != '-' ==> unicode_alphanumeric(slug_of(name)[i])
                && lowercase_of(name).contains(slug_of(name)[i]),
{
    reveal_strlit("node");
    let m = lowercase_of(name).map_values(|c: char| slug_char(c));
    lemma_collapse_shape(m);
    let r = collapse_hyphens(m);
    let t = if r.len() > 0 && r.last() == '-' {
        r.drop_last()
    } else {
        r
    };
    if t.len() > 0 {
        assert(t[0] == r[0]);
        assert(t.last() != '-') by {
            if r.len() > 0 && r.last() == '-' {
                let j = r.len() - 2;
                assert(t.last() == r[j]);
                assert(!(r[j] == '-' && r[j + 1] == '-'));
            }
        }
        assert forall|i: int| 0 <= i < t.len() - 1 implies !(t[i] == '-' && #[trigger] t[i + 1] == '-') by {
            assert(t[i] == r[i] && t[i + 1] == r[i + 1]);
        }
        assert forall|i: int| 0 <= i < t.len() && #[trigger] t[i] != '-' implies unicode_alphanumeric(t[i])
            && lowercase_of(name).contains(t[i]) by {
            assert(t[i] == r[i]);
            assert(m.contains(r[i]));
            let k = choose|k: int| 0 <= k < m.len() && m[k] == r[i];
            assert(m[k] == slug_char(lowercase_of(name)[k]));
            assert(lowercase_of(name)[k] == t[i]);
        }
    }
}

/// Turns a node name into a filename-safe slug (see [`slug_of`]).
pub fn slugify(name: &str) -> (r: String)
    ensures
        r@ == slug_of(name@),
{
    let lower = to_lowercase(name);
    let cs = chars_of(lower.as_str());
    let ghost m = lowercase_of(name@).map_values(|c: char| slug_char(c));
    let mut out: Vec<char> = Vec::new();
    let mut prev_hyphen = true;
    let mut i: usize = 0;
    while i < cs.len()
        invariant
            i <= cs@.len(),
            cs@ == lowercase_of(name@),
            m == lowercase_of(name@).map_values(|c: char| slug_char(c)),
            out@ == collapse_hyphens(m.take(i as int)),
            prev_hyphen == (out@.len() == 0 || out@.last() == '-'),
        decreases cs@.len() - i,
    {
        let c = if is_alphanumeric(cs[i]) {
            cs[i]
        } else {
            '-'
        };
        assert(m.take(i + 1).drop_last() =~= m.take(i as int));
        assert(m.take(i + 1).last() == c);
        if c == '-' {
            if !prev_hyphen {
                out.push('-');
            }
            prev_hyphen = true;
        } else {
            out.push(c);
            prev_hyphen = false;
        }
        i = i + 1;
    }
    assert(m.take(i as int) =~= m);
    if out.len() > 0 && out[out.len() - 1] == '-' {
        out.pop();
    }
    if out.len() == 0 {
        let r = String::from_str("node");
        proof {
            reveal_strlit("node");
        }
        r
    } else {
        let mut r = String::new();
        let mut k: usize = 0;
        while k < out.len()
            invariant
                k <= out@.len(),
                r@ == out@.take(k as int),
            decreases out@.len() - k,
        {
            push_char(&mut r, out[k]);
            assert(out@.take(k + 1) =~= out@.take(k as int).push(out@[k as int]));
            k = k + 1;
        }
        assert(out@.take(k as int) =~= out@);
        r
    }
}

/// The file name of node `id` named `name`: `<id>-<slug>.yaml`.
pub open spec fn node_file_name(id: u64, name: Seq<char>) -> Seq<char> {
    dec(id as nat) + "-"@ + slug_of(name) + ".yaml"@
}

/// Returns [`node_file_name`] of `id` and `name`.
pub fn file_name_for(id: u64, name: &str) -> (r: String)
    ensures
        r@ == node_file_name(id, name@),
{
    let mut r = String::new();
    append_num(&mut r, id);
    append_str(&mut r, "-");
    let slug = slugify(name);
    append_str(&mut r, slug.as_str());
    append_str(&mut r, ".yaml");
    proof {
        reveal_strlit("-");
        reveal_strlit(".yaml");
    }
    r
}

} // verus!
