//! Profile-driven checks of `validate`: required fields (INV-010,
//! INV-014), kind and source allow-lists (INV-012, INV-013), field
//! types (INV-015), and profile self-consistency (INV-016).

use vstd::prelude::*;
use crate::dag_node::{DagNode, HoldsBindings};
use crate::ids::{NodeType, type_name_of};
use crate::issues::{
    IssueSpec, ValidationIssue, append_num, append_str, err, flat, issues_view, lemma_flat_step,
    lemma_flat_whole, push_err,
};
use crate::model::{
    Binding, Evidence, FieldDef, FieldGroup, FieldSection, Intent, MapEntry, Profile, Provenance, Realization,
    YamlKind, YamlValue, map_has_key,
};
use crate::store::{NodeFile, get_node, loaded, node_keys};
use crate::text::{chars_of, dec, owned};

verus! {

/// Whether two strings hold the same text.
pub fn same_text(a: &str, b: &str) -> (r: bool)
    ensures
        r == (a@ == b@),
{
    let x = chars_of(a);
    let y = chars_of(b);
    if x.len() != y.len() {
        return false;
    }
    let mut i: usize = 0;
    while i < x.len()
        invariant
            i <= x.len(),
            x.len() == y.len(),
            x@ == a@,
            y@ == b@,
            forall|j: int| 0 <= j < i ==> x@[j] == y@[j],
        decreases x.len() - i,
    {
        if x[i] != y[i] {
            assert(a@[i as int] != b@[i as int]);
            return false;
        }
        i = i + 1;
    }
    assert(x@ =~= y@);
    true
}

/// The value stored under `key` in an open map (the first entry with it).
pub open spec fn map_get(m: Seq<MapEntry>, key: Seq<char>) -> Option<YamlValue>
    decreases m.len(),
{
    if m.len() == 0 {
        None
    } else {
        match map_get(m.drop_last(), key) {
            Some(v) => Some(v),
            None => if m.last().key@ == key {
                Some(m.last().value)
            } else {
                None
            },
        }
    }
}

/// Looks `key` up in an open map.
pub fn map_lookup<'a>(m: &'a Vec<MapEntry>, key: &str) -> (r: Option<&'a YamlValue>)
    ensures
        match r {
            Some(v) => map_get(m@, key@) == Some(*v),
            None => map_get(m@, key@) is None,
        },
        r is Some <==> map_has_key(m@, key@),
{
    let mut i: usize = 0;
    while i < m.len()
        invariant
            i <= m.len(),
            map_get(m@.take(i as int), key@) is None,
            forall|j: int| 0 <= j < i ==> (#[trigger] m@[j]).key@ != key@,
        decreases m.len() - i,
    {
        assert(m@.take(i + 1).drop_last() =~= m@.take(i as int));
        if same_text(m[i].key.as_str(), key) {
            proof {
                lemma_map_get_prefix(m@, key@, i + 1);
            }
            assert(m@.take(i + 1).last() == m@[i as int]);
            return Some(&m[i].value);
        }
        i = i + 1;
    }
    assert(m@.take(i as int) =~= m@);
    None
}

proof fn lemma_map_get_prefix(m: Seq<MapEntry>, key: Seq<char>, k: int)
    requires
        0 <= k <= m.len(),
        map_get(m.take(k), key) is Some,
    ensures
        map_get(m, key) == map_get(m.take(k), key),
    decreases m.len() - k,
{
    if k < m.len() {
        assert(m.drop_last().take(k) =~= m.take(k));
        lemma_map_get_prefix(m.drop_last(), key, k);
    } else {
        assert(m.take(k) =~= m);
    }
}

/// INV-010/INV-014: a required field missing from the map.
pub open spec fn required_fn(m: Seq<MapEntry>, tn: Seq<char>, id: u64, location: Seq<char>, inv: Seq<char>) -> spec_fn(int, FieldDef) -> Seq<IssueSpec> {
    |i: int, fd: FieldDef|
        if fd.required && !map_has_key(m, fd.name@) {
            seq![
                err(
                    inv,
                    tn,
                    id,
                    "missing required "@ + location + " field '"@ + fd.name@
                        + "' (defined by profile)"@,
                ),
            ]
        } else {
            Seq::empty()
        }
}

/// Emits one error per required field of `fields` missing from `m`.
pub fn check_required_fields(
    fields: &Vec<FieldDef>,
    m: &Vec<MapEntry>,
    tn: &str,
    id: u64,
    location: &str,
    inv: &str,
    issues: &mut Vec<ValidationIssue>,
)
    ensures
        issues_view(final(issues)@) == issues_view(old(issues)@) + flat(
            fields@,
            required_fn(m@, tn@, id, location@, inv@),
        ),
{
    let ghost base = issues_view(issues@);
    let ghost f = required_fn(m@, tn@, id, location@, inv@);
    let mut i: usize = 0;
    while i < fields.len()
        invariant
            i <= fields.len(),
            f == required_fn(m@, tn@, id, location@, inv@),
            issues_view(issues@) == base + flat(fields@.take(i as int), f),
        decreases fields.len() - i,
    {
        proof {
            lemma_flat_step(fields@, i as int, f);
        }
        let fd = &fields[i];
        if fd.required && map_lookup(m, fd.name.as_str()).is_none() {
            let mut msg = owned("missing required ");
            append_str(&mut msg, location);
            append_str(&mut msg, " field '");
            append_str(&mut msg, fd.name.as_str());
            append_str(&mut msg, "' (defined by profile)");
            push_err(issues, inv, tn, id, msg);
        }
        assert(issues_view(issues@) =~= base + flat(fields@.take(i + 1), f));
        i = i + 1;
    }
    proof {
        lemma_flat_whole(fields@, f);
    }
}

/// Whether `v` has the declared type `t`. Unknown type names accept
/// anything.
pub open spec fn value_matches_type(v: YamlValue, t: Seq<char>) -> bool {
    if t == "string"@ {
        v.kind == YamlKind::String
    } else if t == "bool"@ || t == "boolean"@ {
        v.kind == YamlKind::Bool
    } else if t == "integer"@ || t == "int"@ {
        v.kind == (YamlKind::Number { integral: true })
    } else if t == "number"@ || t == "float"@ {
        v.kind is Number
    } else if t == "list"@ || t == "sequence"@ || t == "array"@ {
        v.kind == YamlKind::Sequence
    } else if t == "map"@ || t == "mapping"@ || t == "object"@ {
        v.kind == YamlKind::Mapping
    } else {
        true
    }
}

/// Short name of a value's variant.
pub open spec fn kind_name(k: YamlKind) -> Seq<char> {
    match k {
        YamlKind::Null => "null"@,
        YamlKind::Bool => "bool"@,
        YamlKind::Number { .. } => "number"@,
        YamlKind::String => "string"@,
        YamlKind::Sequence => "sequence"@,
        YamlKind::Mapping => "mapping"@,
        YamlKind::Tagged => "tagged"@,
    }
}

/// Short name of a value's variant.
pub fn yaml_value_kind(v: &YamlValue) -> (r: &'static str)
    ensures
        r@ == kind_name(v.kind),
{
    match v.kind {
        YamlKind::Null => "null",
        YamlKind::Bool => "bool",
        YamlKind::Number { .. } => "number",
        YamlKind::String => "string",
        YamlKind::Sequence => "sequence",
        YamlKind::Mapping => "mapping",
        YamlKind::Tagged => "tagged",
    }
}

/// Whether `v` has the declared type `t`.
pub fn value_matches(v: &YamlValue, t: &str) -> (r: bool)
    ensures
        r == value_matches_type(*v, t@),
{
    proof {
        reveal_strlit("string");
        reveal_strlit("bool");
        reveal_strlit("boolean");
        reveal_strlit("integer");
        reveal_strlit("int");
        reveal_strlit("number");
        reveal_strlit("float");
        reveal_strlit("list");
        reveal_strlit("sequence");
        reveal_strlit("array");
        reveal_strlit("map");
        reveal_strlit("mapping");
        reveal_strlit("object");
    }
    if same_text(t, "string") {
        v.kind == YamlKind::String
    } else if same_text(t, "bool") || same_text(t, "boolean") {
        v.kind == YamlKind::Bool
    } else if same_text(t, "integer") || same_text(t, "int") {
        v.kind == (YamlKind::Number { integral: true })
    } else if same_text(t, "number") || same_text(t, "float") {
        match v.kind {
            YamlKind::Number { .. } => true,
            _ => false,
        }
    } else if same_text(t, "list") || same_text(t, "sequence") || same_text(t, "array") {
        v.kind == YamlKind::Sequence
    } else if same_text(t, "map") || same_text(t, "mapping") || same_text(t, "object") {
        v.kind == YamlKind::Mapping
    } else {
        true
    }
}

/// INV-015: a declared field whose value has another type.
pub open spec fn type_fn(m: Seq<MapEntry>, tn: Seq<char>, id: u64, location: Seq<char>) -> spec_fn(int, FieldDef) -> Seq<IssueSpec> {
    |i: int, fd: FieldDef|
        match fd.field_type {
            Some(t) => match map_get(m, fd.name@) {
                Some(v) => if value_matches_type(v, t@) {
                    Seq::empty()
                } else {
                    seq![
                        err(
                            "INV-015"@,
                            tn,
                            id,
                            location + "."@ + fd.name@ + " has type "@ + kind_name(v.kind)
                                + ", expected "@ + t@ + " (declared by profile)"@,
                        ),
                    ]
                },
                None => Seq::empty(),
            },
            None => Seq::empty(),
        }
}

/// Emits one INV-015 error per declared field of `fields` whose value in
/// `m` has another type.
pub fn check_field_types(
    fields: &Vec<FieldDef>,
    m: &Vec<MapEntry>,
    tn: &str,
    id: u64,
    location: &str,
    issues: &mut Vec<ValidationIssue>,
)
    ensures
        issues_view(final(issues)@) == issues_view(old(issues)@) + flat(
            fields@,
            type_fn(m@, tn@, id, location@),
        ),
{
    let ghost base = issues_view(issues@);
    let ghost f = type_fn(m@, tn@, id, location@);
    let mut i: usize = 0;
    while i < fields.len()
        invariant
            i <= fields.len(),
            f == type_fn(m@, tn@, id, location@),
            issues_view(issues@) == base + flat(fields@.take(i as int), f),
        decreases fields.len() - i,
    {
        proof {
            lemma_flat_step(fields@, i as int, f);
        }
        let fd = &fields[i];
        if let Some(t) = &fd.field_type {
            if let Some(v) = map_lookup(m, fd.name.as_str()) {
                if !value_matches(v, t.as_str()) {
                    let mut msg = owned(location);
                    append_str(&mut msg, ".");
                    append_str(&mut msg, fd.name.as_str());
                    append_str(&mut msg, " has type ");
                    append_str(&mut msg, yaml_value_kind(v));
                    append_str(&mut msg, ", expected ");
                    append_str(&mut msg, t.as_str());
                    append_str(&mut msg, " (declared by profile)");
                    push_err(issues, "INV-015", tn, id, msg);
                }
            }
        }
        assert(issues_view(issues@) =~= base + flat(fields@.take(i + 1), f));
        i = i + 1;
    }
    proof {
        lemma_flat_whole(fields@, f);
    }
}

/// The names of a list of declarations.
pub open spec fn def_names(defs: Seq<FieldDef>) -> Seq<Seq<char>> {
    defs.map_values(|d: FieldDef| d.name@)
}

/// `parts` joined with `sep` between them.
pub open spec fn join(parts: Seq<Seq<char>>, sep: Seq<char>) -> Seq<char>
    decreases parts.len(),
{
    if parts.len() == 0 {
        Seq::empty()
    } else if parts.len() == 1 {
        parts[0]
    } else {
        join(parts.drop_last(), sep) + sep + parts.last()
    }
}

/// The names of `defs` joined with `, `.
pub fn join_names(defs: &Vec<FieldDef>) -> (r: String)
    ensures
        r@ == join(def_names(defs@), ", "@),
{
    let mut r = String::new();
    let mut i: usize = 0;
    while i < defs.len()
        invariant
            i <= defs.len(),
            r@ == join(def_names(defs@.take(i as int)), ", "@),
        decreases defs.len() - i,
    {
        let ghost prev = def_names(defs@.take(i as int));
        assert(def_names(defs@.take(i + 1)) =~= prev.push(defs@[i as int].name@));
        assert(prev.push(defs@[i as int].name@).drop_last() =~= prev);
        if i > 0 {
            append_str(&mut r, ", ");
        }
        append_str(&mut r, defs[i].name.as_str());
        proof {
            if i == 0 {
                assert(r@ =~= defs@[0].name@);
            }
        }
        i = i + 1;
    }
    assert(defs@.take(i as int) =~= defs@);
    r
}

/// Whether some declaration in `defs` is named `name`.
pub open spec fn names_hold(defs: Seq<FieldDef>, name: Seq<char>) -> bool {
    exists|i: int| 0 <= i < defs.len() && (#[trigger] defs[i]).name@ == name
}

/// Whether some declaration in `defs` is named `name`.
pub fn has_name(defs: &Vec<FieldDef>, name: &str) -> (r: bool)
    ensures
        r == names_hold(defs@, name@),
{
    let mut i: usize = 0;
    while i < defs.len()
        invariant
            i <= defs.len(),
            forall|j: int| 0 <= j < i ==> (#[trigger] defs@[j]).name@ != name@,
        decreases defs.len() - i,
    {
        if same_text(defs[i].name.as_str(), name) {
            return true;
        }
        i = i + 1;
    }
    false
}

/// INV-012: the node's `intent.kind` is not in a declared allow-list.
pub open spec fn kind_issues(kinds: Seq<FieldDef>, actual: Seq<char>, tn: Seq<char>, id: u64) -> Seq<IssueSpec> {
    if kinds.len() == 0 || names_hold(kinds, actual) {
        Seq::empty()
    } else {
        seq![
            err(
                "INV-012"@,
                tn,
                id,
                "intent.kind '"@ + actual + "' not in profile allow-list ("@ + join(
                    def_names(kinds),
                    ", "@,
                ) + ")"@,
            ),
        ]
    }
}

/// Emits the INV-012 error, if any.
pub fn check_kind_in_allow_list(
    kinds: &Vec<FieldDef>,
    actual: &str,
    tn: &str,
    id: u64,
    issues: &mut Vec<ValidationIssue>,
)
    ensures
        issues_view(final(issues)@) == issues_view(old(issues)@) + kind_issues(kinds@, actual@, tn@, id),
{
    let ghost base = issues_view(issues@);
    if kinds.len() > 0 && !has_name(kinds, actual) {
        let mut msg = owned("intent.kind '");
        append_str(&mut msg, actual);
        append_str(&mut msg, "' not in profile allow-list (");
        let names = join_names(kinds);
        append_str(&mut msg, names.as_str());
        append_str(&mut msg, ")");
        push_err(issues, "INV-012", tn, id, msg);
    }
    assert(issues_view(issues@) =~= base + kind_issues(kinds@, actual@, tn@, id));
}

/// INV-013: the node's `intent.source` is not a string, or not in a
/// declared allow-list.
pub open spec fn source_issues(sources: Seq<FieldDef>, actual: YamlValue, tn: Seq<char>, id: u64) -> Seq<IssueSpec> {
    if sources.len() == 0 {
        Seq::empty()
    } else if actual.kind != YamlKind::String {
        seq![
            err(
                "INV-013"@,
                tn,
                id,
                "intent.source must be a string when profile defines an allow-list"@,
            ),
        ]
    } else if names_hold(sources, actual.text@) {
        Seq::empty()
    } else {
        seq![
            err(
                "INV-013"@,
                tn,
                id,
                "intent.source '"@ + actual.text@ + "' not in profile allow-list ("@ + join(
                    def_names(sources),
                    ", "@,
                ) + ")"@,
            ),
        ]
    }
}

/// Emits the INV-013 error, if any.
pub fn check_source_in_allow_list(
    sources: &Vec<FieldDef>,
    actual: &YamlValue,
    tn: &str,
    id: u64,
    issues: &mut Vec<ValidationIssue>,
)
    ensures
        issues_view(final(issues)@) == issues_view(old(issues)@) + source_issues(sources@, *actual, tn@, id),
{
    let ghost base = issues_view(issues@);
    if sources.len() > 0 {
        if actual.kind != YamlKind::String {
            push_err(
                issues,
                "INV-013",
                tn,
                id,
                owned("intent.source must be a string when profile defines an allow-list"),
            );
        } else if !has_name(sources, actual.text.as_str()) {
            let mut msg = owned("intent.source '");
            append_str(&mut msg, actual.text.as_str());
            append_str(&mut msg, "' not in profile allow-list (");
            let names = join_names(sources);
            append_str(&mut msg, names.as_str());
            append_str(&mut msg, ")");
            push_err(issues, "INV-013", tn, id, msg);
        }
    }
    assert(issues_view(issues@) =~= base + source_issues(sources@, *actual, tn@, id));
}

/// Location of a binding's metadata: `<holder>[idx].bindings[bidx].metadata`.
pub open spec fn binding_loc(holder: Seq<char>, idx: int, bidx: int) -> Seq<char> {
    holder + "["@ + dec(idx as nat) + "].bindings["@ + dec(bidx as nat) + "].metadata"@
}

/// INV-014 and INV-015 errors of one binding's metadata.
pub open spec fn binding_meta_fn(g: FieldGroup, tn: Seq<char>, id: u64, holder: Seq<char>, idx: int) -> spec_fn(int, Binding) -> Seq<IssueSpec> {
    |bidx: int, b: Binding|
        flat(g.fields@, required_fn(b.metadata@, tn, id, binding_loc(holder, idx, bidx), "INV-014"@))
            + flat(g.fields@, type_fn(b.metadata@, tn, id, binding_loc(holder, idx, bidx)))
}

/// INV-014 and INV-015 errors of every binding of one holder.
pub open spec fn holder_meta_fn<H: HoldsBindings>(g: FieldGroup, tn: Seq<char>, id: u64, holder: Seq<char>) -> spec_fn(int, H) -> Seq<IssueSpec> {
    |idx: int, h: H| flat(h.bindings_spec(), binding_meta_fn(g, tn, id, holder, idx))
}

/// `holder[idx].bindings[bidx].metadata`.
fn binding_location(holder: &str, idx: usize, bidx: usize) -> (r: String)
    ensures
        r@ == binding_loc(holder@, idx as int, bidx as int),
{
    let mut r = owned(holder);
    append_str(&mut r, "[");
    append_num(&mut r, idx as u64);
    append_str(&mut r, "].bindings[");
    append_num(&mut r, bidx as u64);
    append_str(&mut r, "].metadata");
    r
}

/// Emits the per-binding metadata errors of every holder in `holders`.
pub fn check_holder_metadata<H: HoldsBindings>(
    holders: &Vec<H>,
    g: &FieldGroup,
    tn: &str,
    id: u64,
    holder: &str,
    issues: &mut Vec<ValidationIssue>,
)
    ensures
        issues_view(final(issues)@) == issues_view(old(issues)@) + flat(
            holders@,
            holder_meta_fn(*g, tn@, id, holder@),
        ),
{
    let ghost base = issues_view(issues@);
    let ghost f = holder_meta_fn::<H>(*g, tn@, id, holder@);
    let mut i: usize = 0;
    while i < holders.len()
        invariant
            i <= holders.len(),
            f == holder_meta_fn::<H>(*g, tn@, id, holder@),
            issues_view(issues@) == base + flat(holders@.take(i as int), f),
        decreases holders.len() - i,
    {
        proof {
            lemma_flat_step(holders@, i as int, f);
        }
        let bs = holders[i].bindings_ref();
        let ghost mid = issues_view(issues@);
        let ghost h = binding_meta_fn(*g, tn@, id, holder@, i as int);
        let mut j: usize = 0;
        while j < bs.len()
            invariant
                j <= bs.len(),
                h == binding_meta_fn(*g, tn@, id, holder@, i as int),
                issues_view(issues@) == mid + flat(bs@.take(j as int), h),
            decreases bs.len() - j,
        {
            proof {
                lemma_flat_step(bs@, j as int, h);
            }
            let loc = binding_location(holder, i, j);
            check_required_fields(&g.fields, &bs[j].metadata, tn, id, loc.as_str(), "INV-014", issues);
            check_field_types(&g.fields, &bs[j].metadata, tn, id, loc.as_str(), issues);
            assert(issues_view(issues@) =~= mid + flat(bs@.take(j + 1), h));
            j = j + 1;
        }
        proof {
            lemma_flat_whole(bs@, h);
        }
        assert(issues_view(issues@) =~= base + flat(holders@.take(i + 1), f));
        i = i + 1;
    }
    proof {
        lemma_flat_whole(holders@, f);
    }
}

/// The rules a profile declares for nodes of kind `nt`.
pub open spec fn section_of(p: Profile, nt: NodeType) -> Option<FieldSection> {
    match p.fields {
        Some(f) => match nt {
            NodeType::Shape => f.shape,
            NodeType::Constraint => f.constraint,
            _ => None,
        },
        None => None,
    }
}

/// Intent errors of one node against an intent group: required fields
/// (INV-010), field types (INV-015), kind (INV-012), source (INV-013).
pub open spec fn intent_part(g: Option<FieldGroup>, tn: Seq<char>, id: u64, intent: Intent) -> Seq<IssueSpec> {
    match g {
        Some(g) => flat(g.fields@, required_fn(intent.extra@, tn, id, "intent"@, "INV-010"@)) + flat(
            g.fields@,
            type_fn(intent.extra@, tn, id, "intent"@),
        ) + kind_issues(g.kinds@, intent.kind@, tn, id) + source_issues(
            g.sources@,
            intent.source,
            tn,
            id,
        ),
        None => Seq::empty(),
    }
}

/// Metadata errors of one node against a metadata group: required
/// fields (INV-010) and field types (INV-015).
pub open spec fn meta_part(g: Option<FieldGroup>, tn: Seq<char>, id: u64, meta: Seq<MapEntry>) -> Seq<IssueSpec> {
    match g {
        Some(g) => flat(g.fields@, required_fn(meta, tn, id, "metadata"@, "INV-010"@)) + flat(
            g.fields@,
            type_fn(meta, tn, id, "metadata"@),
        ),
        None => Seq::empty(),
    }
}

/// Per-binding metadata errors of one node's holders against a group.
pub open spec fn holder_part<H: HoldsBindings>(g: Option<FieldGroup>, tn: Seq<char>, id: u64, holders: Seq<H>, holder: Seq<char>) -> Seq<IssueSpec> {
    match g {
        Some(g) => flat(holders, holder_meta_fn(g, tn, id, holder)),
        None => Seq::empty(),
    }
}

/// Profile-driven errors of one node against the rules `sec`: intent,
/// metadata, then the bindings of realization, evidence and provenance.
pub open spec fn profile_field_issues(
    sec: FieldSection,
    tn: Seq<char>,
    id: u64,
    intent: Intent,
    meta: Seq<MapEntry>,
    reals: Seq<Realization>,
    ev: Seq<Evidence>,
    prov: Seq<Provenance>,
) -> Seq<IssueSpec> {
    intent_part(sec.intent, tn, id, intent) + meta_part(sec.metadata, tn, id, meta) + holder_part(
        sec.realization,
        tn,
        id,
        reals,
        "realization"@,
    ) + holder_part(sec.evidence, tn, id, ev, "evidence"@) + holder_part(
        sec.provenance,
        tn,
        id,
        prov,
        "provenance"@,
    )
}

/// Emits the intent errors of one node.
fn check_intent_part(g: &Option<FieldGroup>, tn: &str, id: u64, intent: &Intent, issues: &mut Vec<ValidationIssue>)
    ensures
        issues_view(final(issues)@) == issues_view(old(issues)@) + intent_part(*g, tn@, id, *intent),
{
    let ghost base = issues_view(issues@);
    if let Some(g) = g {
        check_required_fields(&g.fields, &intent.extra, tn, id, "intent", "INV-010", issues);
        let ghost a = issues_view(issues@);
        check_field_types(&g.fields, &intent.extra, tn, id, "intent", issues);
        let ghost b = issues_view(issues@);
        check_kind_in_allow_list(&g.kinds, intent.kind.as_str(), tn, id, issues);
        let ghost c = issues_view(issues@);
        check_source_in_allow_list(&g.sources, &intent.source, tn, id, issues);
    }
    assert(issues_view(issues@) =~= base + intent_part(*g, tn@, id, *intent));
}

/// Emits the metadata errors of one node.
fn check_meta_part(g: &Option<FieldGroup>, tn: &str, id: u64, meta: &Vec<MapEntry>, issues: &mut Vec<ValidationIssue>)
    ensures
        issues_view(final(issues)@) == issues_view(old(issues)@) + meta_part(*g, tn@, id, meta@),
{
    let ghost base = issues_view(issues@);
    if let Some(g) = g {
        check_required_fields(&g.fields, meta, tn, id, "metadata", "INV-010", issues);
        check_field_types(&g.fields, meta, tn, id, "metadata", issues);
    }
    assert(issues_view(issues@) =~= base + meta_part(*g, tn@, id, meta@));
}

/// Emits the per-binding metadata errors of one node's holders.
fn check_holder_part<H: HoldsBindings>(g: &Option<FieldGroup>, tn: &str, id: u64, holders: &Vec<H>, holder: &str, issues: &mut Vec<ValidationIssue>)
    ensures
        issues_view(final(issues)@) == issues_view(old(issues)@) + holder_part(*g, tn@, id, holders@, holder@),
{
    let ghost base = issues_view(issues@);
    if let Some(g) = g {
        check_holder_metadata(holders, g, tn, id, holder, issues);
    }
    assert(issues_view(issues@) =~= base + holder_part(*g, tn@, id, holders@, holder@));
}

/// The profile-driven errors of the node with key `id`, against the
/// rules of its governing profile when that loads.
pub open spec fn node_profile_fn<N: DagNode>(f: Seq<NodeFile<N>>, pf: Seq<NodeFile<Profile>>, nt: NodeType) -> spec_fn(int, u64) -> Seq<IssueSpec> {
    |i: int, id: u64|
        match loaded(f, id) {
            Some(n) => match n.profile_spec() {
                Some(pid) => match loaded(pf, pid) {
                    Some(p) => match section_of(p, nt) {
                        Some(sec) => profile_field_issues(
                            sec,
                            type_name_of(nt),
                            id,
                            n.intent_spec(),
                            n.metadata_spec(),
                            n.realization_spec(),
                            n.evidence_spec(),
                            n.provenance_spec(),
                        ),
                        None => Seq::empty(),
                    },
                    None => Seq::empty(),
                },
                None => Seq::empty(),
            },
            None => Seq::empty(),
        }
}

/// Emits the profile-driven errors of one node against `sec`.
fn check_node_fields<N: DagNode>(
    n: &N,
    sec: &FieldSection,
    tn: &str,
    id: u64,
    issues: &mut Vec<ValidationIssue>,
)
    ensures
        issues_view(final(issues)@) == issues_view(old(issues)@) + profile_field_issues(
            *sec,
            tn@,
            id,
            n.intent_spec(),
            n.metadata_spec(),
            n.realization_spec(),
            n.evidence_spec(),
            n.provenance_spec(),
        ),
{
    let ghost base = issues_view(issues@);
    check_intent_part(&sec.intent, tn, id, n.intent_ref(), issues);
    let ghost a = issues_view(issues@);
    check_meta_part(&sec.metadata, tn, id, n.metadata_ref(), issues);
    let ghost b = issues_view(issues@);
    check_holder_part(&sec.realization, tn, id, n.realization_ref(), "realization", issues);
    let ghost c = issues_view(issues@);
    check_holder_part(&sec.evidence, tn, id, n.evidence_ref(), "evidence", issues);
    let ghost d = issues_view(issues@);
    check_holder_part(&sec.provenance, tn, id, n.provenance_ref(), "provenance", issues);
    assert(issues_view(issues@) =~= base + profile_field_issues(
        *sec,
        tn@,
        id,
        n.intent_spec(),
        n.metadata_spec(),
        n.realization_spec(),
        n.evidence_spec(),
        n.provenance_spec(),
    ));
}

/// Emits the profile-driven errors of one DAG, node by node in id order.
pub fn validate_profile_fields_for<N: DagNode>(
    files: &Vec<NodeFile<N>>,
    keys: &Vec<u64>,
    pf: &Vec<NodeFile<Profile>>,
    nt: NodeType,
    issues: &mut Vec<ValidationIssue>,
)
    requires
        keys@ == node_keys(files@),
    ensures
        issues_view(final(issues)@) == issues_view(old(issues)@) + flat(
            node_keys(files@),
            node_profile_fn(files@, pf@, nt),
        ),
{
    let tn = nt.name();
    let ghost base = issues_view(issues@);
    let ghost f = node_profile_fn(files@, pf@, nt);
    let mut i: usize = 0;
    while i < keys.len()
        invariant
            i <= keys.len(),
            keys@ == node_keys(files@),
            tn@ == type_name_of(nt),
            f == node_profile_fn(files@, pf@, nt),
            issues_view(issues@) == base + flat(keys@.take(i as int), f),
        decreases keys.len() - i,
    {
        proof {
            lemma_flat_step(keys@, i as int, f);
        }
        let id = keys[i];
        if let Some(n) = get_node(files, id) {
            if let Some(pid) = n.profile_ref() {
                if let Some(p) = get_node(pf, pid) {
                    let sec = match &p.fields {
                        Some(fields) => match nt {
                            NodeType::Shape => &fields.shape,
                            NodeType::Constraint => &fields.constraint,
                            _ => &None,
                        },
                        None => &None,
                    };
                    if let Some(sec) = sec {
                        check_node_fields(n, sec, tn, id, issues);
                    }
                }
            }
        }
        assert(issues_view(issues@) =~= base + flat(keys@.take(i + 1), f));
        i = i + 1;
    }
    proof {
        lemma_flat_whole(keys@, f);
    }
}

/// INV-016: a name that repeats an earlier one in the same list.
pub open spec fn dup_name_fn(defs: Seq<FieldDef>, loc: Seq<char>, group: Seq<char>, pid: u64) -> spec_fn(int, FieldDef) -> Seq<IssueSpec> {
    |i: int, fd: FieldDef|
        if def_names(defs.take(i)).contains(fd.name@) {
            seq![
                err(
                    "INV-016"@,
                    "profile"@,
                    pid,
                    loc + "."@ + group + " contains duplicate name '"@ + fd.name@ + "'"@,
                ),
            ]
        } else {
            Seq::empty()
        }
}

/// Emits one INV-016 error per repeated name in `defs`.
fn check_no_duplicate_names(
    defs: &Vec<FieldDef>,
    loc: &str,
    group: &str,
    pid: u64,
    issues: &mut Vec<ValidationIssue>,
)
    ensures
        issues_view(final(issues)@) == issues_view(old(issues)@) + flat(
            defs@,
            dup_name_fn(defs@, loc@, group@, pid),
        ),
{
    let ghost base = issues_view(issues@);
    let ghost f = dup_name_fn(defs@, loc@, group@, pid);
    let mut i: usize = 0;
    while i < defs.len()
        invariant
            i <= defs.len(),
            f == dup_name_fn(defs@, loc@, group@, pid),
            issues_view(issues@) == base + flat(defs@.take(i as int), f),
        decreases defs.len() - i,
    {
        proof {
            lemma_flat_step(defs@, i as int, f);
        }
        let mut seen = false;
        let mut j: usize = 0;
        while j < i
            invariant
                j <= i,
                i < defs.len(),
                seen == def_names(defs@.take(i as int)).take(j as int).contains(defs@[i as int].name@),
            decreases i - j,
        {
            let ghost names = def_names(defs@.take(i as int));
            assert(names.take(j + 1) =~= names.take(j as int).push(defs@[j as int].name@));
            proof {
                broadcast use vstd::seq_lib::group_seq_properties;
            }
            if same_text(defs[j].name.as_str(), defs[i].name.as_str()) {
                seen = true;
            }
            j = j + 1;
        }
        assert(def_names(defs@.take(i as int)).take(i as int) =~= def_names(defs@.take(i as int)));
        if seen {
            let mut msg = owned(loc);
            append_str(&mut msg, ".");
            append_str(&mut msg, group);
            append_str(&mut msg, " contains duplicate name '");
            append_str(&mut msg, defs[i].name.as_str());
            append_str(&mut msg, "'");
            push_err(issues, "INV-016", "profile", pid, msg);
        }
        assert(issues_view(issues@) =~= base + flat(defs@.take(i + 1), f));
        i = i + 1;
    }
    proof {
        lemma_flat_whole(defs@, f);
    }
}

/// INV-016: the default kind lies outside a declared kind allow-list.
pub open spec fn default_kind_part(sec: FieldSection, loc: Seq<char>, pid: u64) -> Seq<IssueSpec> {
    match sec.default_kind {
        Some(dk) => match sec.intent {
            Some(g) => if g.kinds@.len() > 0 && !names_hold(g.kinds@, dk@) {
                seq![
                    err(
                        "INV-016"@,
                        "profile"@,
                        pid,
                        loc + ".default_kind '"@ + dk@ + "' is not in "@ + loc
                            + ".intent.kinds allow-list"@,
                    ),
                ]
            } else {
                Seq::empty()
            },
            None => Seq::empty(),
        },
        None => Seq::empty(),
    }
}

/// INV-016 repeated names of an intent group: fields, kinds, sources.
pub open spec fn intent_dups(g: Option<FieldGroup>, loc: Seq<char>, pid: u64) -> Seq<IssueSpec> {
    match g {
        Some(g) => flat(g.fields@, dup_name_fn(g.fields@, loc, "intent.fields"@, pid)) + flat(
            g.kinds@,
            dup_name_fn(g.kinds@, loc, "intent.kinds"@, pid),
        ) + flat(g.sources@, dup_name_fn(g.sources@, loc, "intent.sources"@, pid)),
        None => Seq::empty(),
    }
}

/// INV-016 repeated field names of a group.
pub open spec fn group_dups(g: Option<FieldGroup>, loc: Seq<char>, name: Seq<char>, pid: u64) -> Seq<IssueSpec> {
    match g {
        Some(g) => flat(g.fields@, dup_name_fn(g.fields@, loc, name, pid)),
        None => Seq::empty(),
    }
}

/// INV-016 errors of one section of a profile: a default kind outside a
/// declared kind allow-list, then repeated names group by group.
pub open spec fn section_consistency(sec: FieldSection, loc: Seq<char>, pid: u64) -> Seq<IssueSpec> {
    default_kind_part(sec, loc, pid) + intent_dups(sec.intent, loc, pid) + group_dups(
        sec.metadata,
        loc,
        "metadata.fields"@,
        pid,
    ) + group_dups(sec.realization, loc, "realization.fields"@, pid) + group_dups(
        sec.evidence,
        loc,
        "evidence.fields"@,
        pid,
    ) + group_dups(sec.provenance, loc, "provenance.fields"@, pid)
}

/// Emits the default-kind error of one section.
fn check_default_kind(sec: &FieldSection, loc: &str, pid: u64, issues: &mut Vec<ValidationIssue>)
    ensures
        issues_view(final(issues)@) == issues_view(old(issues)@) + default_kind_part(*sec, loc@, pid),
{
    let ghost base = issues_view(issues@);
    if let Some(dk) = &sec.default_kind {
        if let Some(g) = &sec.intent {
            if g.kinds.len() > 0 && !has_name(&g.kinds, dk.as_str()) {
                let mut msg = owned(loc);
                append_str(&mut msg, ".default_kind '");
                append_str(&mut msg, dk.as_str());
                append_str(&mut msg, "' is not in ");
                append_str(&mut msg, loc);
                append_str(&mut msg, ".intent.kinds allow-list");
                push_err(issues, "INV-016", "profile", pid, msg);
            }
        }
    }
    assert(issues_view(issues@) =~= base + default_kind_part(*sec, loc@, pid));
}

/// Emits the repeated-name errors of an intent group.
fn check_intent_dups(g: &Option<FieldGroup>, loc: &str, pid: u64, issues: &mut Vec<ValidationIssue>)
    ensures
        issues_view(final(issues)@) == issues_view(old(issues)@) + intent_dups(*g, loc@, pid),
{
    let ghost base = issues_view(issues@);
    if let Some(g) = g {
        check_no_duplicate_names(&g.fields, loc, "intent.fields", pid, issues);
        check_no_duplicate_names(&g.kinds, loc, "intent.kinds", pid, issues);
        check_no_duplicate_names(&g.sources, loc, "intent.sources", pid, issues);
    }
    assert(issues_view(issues@) =~= base + intent_dups(*g, loc@, pid));
}

/// Emits the repeated-name errors of a group's fields.
fn check_group_dups(g: &Option<FieldGroup>, loc: &str, name: &str, pid: u64, issues: &mut Vec<ValidationIssue>)
    ensures
        issues_view(final(issues)@) == issues_view(old(issues)@) + group_dups(*g, loc@, name@, pid),
{
    let ghost base = issues_view(issues@);
    if let Some(g) = g {
        check_no_duplicate_names(&g.fields, loc, name, pid, issues);
    }
    assert(issues_view(issues@) =~= base + group_dups(*g, loc@, name@, pid));
}

/// Emits the INV-016 errors of one section.
fn check_section_self_consistency(
    sec: &FieldSection,
    loc: &str,
    pid: u64,
    issues: &mut Vec<ValidationIssue>,
)
    ensures
        issues_view(final(issues)@) == issues_view(old(issues)@) + section_consistency(*sec, loc@, pid),
{
    let ghost base = issues_view(issues@);
    check_default_kind(sec, loc, pid, issues);
    check_intent_dups(&sec.intent, loc, pid, issues);
    check_group_dups(&sec.metadata, loc, "metadata.fields", pid, issues);
    check_group_dups(&sec.realization, loc, "realization.fields", pid, issues);
    check_group_dups(&sec.evidence, loc, "evidence.fields", pid, issues);
    check_group_dups(&sec.provenance, loc, "provenance.fields", pid, issues);
    assert(issues_view(issues@) =~= base + section_consistency(*sec, loc@, pid));
}

/// INV-016 errors of one profile: its shape rules, then its constraint
/// rules.
pub open spec fn profile_consistency(p: Profile) -> Seq<IssueSpec> {
    match p.fields {
        Some(f) => (match f.shape {
            Some(sec) => section_consistency(sec, "fields.shape"@, p.id.0),
            None => Seq::empty(),
        }) + (match f.constraint {
            Some(sec) => section_consistency(sec, "fields.constraint"@, p.id.0),
            None => Seq::empty(),
        }),
        None => Seq::empty(),
    }
}

/// The INV-016 errors of the profile with key `pid`.
pub open spec fn consistency_fn(pf: Seq<NodeFile<Profile>>) -> spec_fn(int, u64) -> Seq<IssueSpec> {
    |i: int, pid: u64|
        match loaded(pf, pid) {
            Some(p) => profile_consistency(p),
            None => Seq::empty(),
        }
}

/// Emits the INV-016 errors, profile by profile in id order.
pub fn validate_profiles_self_consistency(
    pf: &Vec<NodeFile<Profile>>,
    pkeys: &Vec<u64>,
    issues: &mut Vec<ValidationIssue>,
)
    requires
        pkeys@ == node_keys(pf@),
    ensures
        issues_view(final(issues)@) == issues_view(old(issues)@) + flat(
            node_keys(pf@),
            consistency_fn(pf@),
        ),
{
    let ghost base = issues_view(issues@);
    let ghost f = consistency_fn(pf@);
    let mut i: usize = 0;
    while i < pkeys.len()
        invariant
            i <= pkeys.len(),
            pkeys@ == node_keys(pf@),
            f == consistency_fn(pf@),
            issues_view(issues@) == base + flat(pkeys@.take(i as int), f),
        decreases pkeys.len() - i,
    {
        proof {
            lemma_flat_step(pkeys@, i as int, f);
        }
        let id = pkeys[i];
        let ghost before = issues_view(issues@);
        if let Some(p) = get_node(pf, id) {
            if let Some(fields) = &p.fields {
                if let Some(sec) = &fields.shape {
                    check_section_self_consistency(sec, "fields.shape", p.id.0, issues);
                }
                if let Some(sec) = &fields.constraint {
                    check_section_self_consistency(sec, "fields.constraint", p.id.0, issues);
                }
            }
            assert(issues_view(issues@) =~= before + profile_consistency(*p));
        }
        assert(issues_view(issues@) =~= base + flat(pkeys@.take(i + 1), f));
        i = i + 1;
    }
    proof {
        lemma_flat_whole(pkeys@, f);
    }
}

} // verus!
