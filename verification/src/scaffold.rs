//! YAML scaffolds for new shapes and constraints: every expected field
//! present, filled with `TODO:` hints taken from the governing profile,
//! or stubbed out as commented blocks.

use vstd::prelude::*;
use crate::ids::ShapeId;
use crate::issues::{append_num, append_str};
use crate::model::{Enforcement, FieldDef, Profile};
use crate::profile_checks::join;
use crate::text::{chars_of, dec, owned, push_char, string_of};
use crate::version::{split_chars, split_on};

verus! {

/// The escaped form of one character inside a double-quoted YAML string.
pub open spec fn escape_char(c: char) -> Seq<char> {
    if c == '\\' {
        seq!['\\', '\\']
    } else if c == '"' {
        seq!['\\', '"']
    } else if c == '\n' {
        seq!['\\', 'n']
    } else {
        seq![c]
    }
}

/// `s` with backslashes, double quotes and newlines escaped.
pub open spec fn escaped(s: Seq<char>) -> Seq<char>
    decreases s.len(),
{
    if s.len() == 0 {
        Seq::empty()
    } else {
        escaped(s.drop_last()) + escape_char(s.last())
    }
}

/// `s` as a double-quoted YAML string.
pub open spec fn quoted_text(s: Seq<char>) -> Seq<char> {
    seq!['"'] + escaped(s) + seq!['"']
}

/// Quotes a value as a double-quoted YAML string, escaping inner
/// quotes, backslashes and newlines.
pub fn yaml_string(s: &str) -> (r: String)
    ensures
        r@ == quoted_text(s@),
{
    let x = chars_of(s);
    let mut out = String::new();
    push_char(&mut out, '"');
    let mut i: usize = 0;
    while i < x.len()
        invariant
            i <= x.len(),
            x@ == s@,
            out@ == seq!['"'] + escaped(s@.take(i as int)),
        decreases x.len() - i,
    {
        let c = x[i];
        assert(s@.take(i + 1).drop_last() =~= s@.take(i as int));
        if c == '\\' {
            push_char(&mut out, '\\');
            push_char(&mut out, '\\');
        } else if c == '"' {
            push_char(&mut out, '\\');
            push_char(&mut out, '"');
        } else if c == '\n' {
            push_char(&mut out, '\\');
            push_char(&mut out, 'n');
        } else {
            push_char(&mut out, c);
        }
        assert(out@ =~= seq!['"'] + escaped(s@.take(i + 1)));
        i = i + 1;
    }
    assert(s@.take(i as int) =~= s@);
    push_char(&mut out, '"');
    out
}

/// A line without the carriage return that ends it, if any.
pub open spec fn strip_cr(l: Seq<char>) -> Seq<char> {
    if l.len() > 0 && l.last() == '\r' {
        l.drop_last()
    } else {
        l
    }
}

/// The lines of `s` as `str::lines` splits them: at `\n` or `\r\n`, with
/// no empty line after a final line ending.
pub open spec fn text_lines(s: Seq<char>) -> Seq<Seq<char>> {
    let p = split_on(s, '\n');
    let n = if p.last().len() == 0 {
        p.len() - 1
    } else {
        p.len() as int
    };
    Seq::new(n as nat, |i: int| if i < p.len() - 1 { strip_cr(p[i]) } else { p[i] })
}

/// `s` as a YAML literal block: `|`, then each line indented by four
/// spaces on a line of its own.
pub open spec fn block_text(s: Seq<char>) -> Seq<char> {
    let ls = text_lines(s);
    if ls.len() == 0 {
        "|"@
    } else {
        "|\n"@ + join(ls.map_values(|l: Seq<char>| "    "@ + l), "\n"@)
    }
}

/// Formats a value as a YAML literal block (`|`), one indented line per
/// line of `s`.
pub fn yaml_block(s: &str) -> (r: String)
    ensures
        r@ == block_text(s@),
{
    let x = chars_of(s);
    let parts = split_chars(&x, '\n');
    let ghost p = split_on(s@, '\n');
    proof {
        crate::version::lemma_split_nonempty(s@, '\n');
    }
    let np = parts.len();
    let last_empty = parts[np - 1].len() == 0;
    let n = if last_empty {
        np - 1
    } else {
        np
    };
    let ghost ls = text_lines(s@);
    let ghost ind = ls.map_values(|l: Seq<char>| "    "@ + l);
    assert(ls.len() == n);
    let mut body = String::new();
    let mut i: usize = 0;
    while i < n
        invariant
            i <= n,
            n <= np,
            np == parts@.len(),
            np == p.len(),
            p == split_on(s@, '\n'),
            forall|j: int| 0 <= j < parts@.len() ==> #[trigger] parts@[j]@ == p[j],
            ls == text_lines(s@),
            ls.len() == n,
            ind == ls.map_values(|l: Seq<char>| "    "@ + l),
            body@ == join(ind.take(i as int), "\n"@),
        decreases n - i,
    {
        let piece = &parts[i];
        let mut len = piece.len();
        if i + 1 < np && len > 0 && piece[len - 1] == '\r' {
            len = len - 1;
        }
        let mut line: Vec<char> = Vec::new();
        let mut k: usize = 0;
        while k < len
            invariant
                k <= len,
                len <= piece@.len(),
                line@ =~= piece@.take(k as int),
            decreases len - k,
        {
            line.push(piece[k]);
            k = k + 1;
        }
        assert(line@ == ls[i as int]) by {
            assert(parts@[i as int]@ == p[i as int]);
            if i + 1 < np && piece@.len() > 0 && piece@[piece@.len() - 1] == '\r' {
                assert(line@ =~= piece@.drop_last());
            } else {
                assert(line@ =~= piece@);
            }
        }
        let ghost prev = ind.take(i as int);
        assert(ind.take(i + 1) =~= prev.push(ind[i as int]));
        assert(prev.push(ind[i as int]).drop_last() =~= prev);
        if i > 0 {
            append_str(&mut body, "\n");
        }
        append_str(&mut body, "    ");
        let ls_str = string_of(&line);
        append_str(&mut body, ls_str.as_str());
        proof {
            if i == 0 {
                assert(body@ =~= ind[0]);
            }
        }
        i = i + 1;
    }
    assert(ind.take(n as int) =~= ind);
    if n == 0 {
        owned("|")
    } else {
        let mut out = owned("|\n");
        append_str(&mut out, body.as_str());
        out
    }
}

/// The placeholder description of a new node.
pub open spec fn todo_description() -> Seq<char> {
    "TODO: full paragraph — what this is, who uses it, what it does, why it exists"@
}

/// The comment line naming the starter kit a scaffold was made under,
/// when one is known.
pub open spec fn template_line(template: Option<Seq<char>>) -> Seq<char> {
    match template {
        Some(t) => "# template: "@ + t + "\n"@,
        None => Seq::empty(),
    }
}

/// The comment block at the top of a scaffold: the command, the
/// governing profile, the starter kit (when known) and how to proceed.
pub open spec fn header_text(node_kind: Seq<char>, pid: u64, pname: Seq<char>, template: Option<Seq<char>>) -> Seq<char> {
    "# Generated by `shapes create "@ + node_kind + "` (profile: "@ + dec(pid as nat) + " — "@
        + pname + ").\n"@ + template_line(template)
        + "# Replace each `TODO:` with real content. Uncomment and fill in the stub\n"@
        + "# sections (parents/children/constraints/realization) you need; delete the\n"@
        + "# ones you don't. Run `shapes validate` when ready.\n\n"@
}

/// The header comment naming the command, governing profile and kit.
fn header_comment(node_kind: &str, profile: &Profile, template: Option<&str>) -> (r: String)
    ensures
        r@ == header_text(node_kind@, profile.id.0, profile.name@, opt_text(template)),
{
    let mut out = owned("# Generated by `shapes create ");
    append_str(&mut out, node_kind);
    append_str(&mut out, "` (profile: ");
    append_num(&mut out, profile.id.0);
    append_str(&mut out, " — ");
    append_str(&mut out, profile.name.as_str());
    append_str(&mut out, ").\n");
    if let Some(k) = template {
        append_str(&mut out, "# template: ");
        append_str(&mut out, k);
        append_str(&mut out, "\n");
    }
    append_str(&mut out, "# Replace each `TODO:` with real content. Uncomment and fill in the stub\n");
    append_str(&mut out, "# sections (parents/children/constraints/realization) you need; delete the\n");
    append_str(&mut out, "# ones you don't. Run `shapes validate` when ready.\n\n");
    out
}

/// One intent field line: required fields get a literal-block `TODO`,
/// optional ones a commented-out quoted `TODO`.
pub open spec fn intent_field_line(f: FieldDef, indent: Seq<char>) -> Seq<char> {
    if f.required {
        indent + f.name@ + ": "@ + block_text("TODO: "@ + f.description@) + "\n"@
    } else {
        indent + "# "@ + f.name@ + ": "@ + quoted_text("TODO: "@ + f.description@) + "\n"@
    }
}

/// The intent field lines for `fields`.
pub open spec fn intent_fields_text(fields: Seq<FieldDef>, indent: Seq<char>) -> Seq<char>
    decreases fields.len(),
{
    if fields.len() == 0 {
        Seq::empty()
    } else {
        intent_fields_text(fields.drop_last(), indent) + intent_field_line(fields.last(), indent)
    }
}

/// Appends the intent field lines for `fields`.
fn write_intent_fields(out: &mut String, fields: &Vec<FieldDef>, indent: &str)
    ensures
        final(out)@ == old(out)@ + intent_fields_text(fields@, indent@),
{
    let ghost base = out@;
    let mut i: usize = 0;
    while i < fields.len()
        invariant
            i <= fields.len(),
            out@ == base + intent_fields_text(fields@.take(i as int), indent@),
        decreases fields.len() - i,
    {
        let f = &fields[i];
        assert(fields@.take(i + 1).drop_last() =~= fields@.take(i as int));
        let mut todo = owned("TODO: ");
        append_str(&mut todo, f.description.as_str());
        append_str(out, indent);
        if f.required {
            append_str(out, f.name.as_str());
            append_str(out, ": ");
            let b = yaml_block(todo.as_str());
            append_str(out, b.as_str());
        } else {
            append_str(out, "# ");
            append_str(out, f.name.as_str());
            append_str(out, ": ");
            let q = yaml_string(todo.as_str());
            append_str(out, q.as_str());
        }
        append_str(out, "\n");
        assert(out@ =~= base + intent_fields_text(fields@.take(i + 1), indent@));
        i = i + 1;
    }
    assert(fields@.take(i as int) =~= fields@);
}

/// One suggested-kind comment line.
pub open spec fn kind_line(k: FieldDef) -> Seq<char> {
    "#   "@ + k.name@ + " — "@ + k.description@ + "\n"@
}

/// The suggested-kind comment lines for `kinds`.
pub open spec fn kind_lines(kinds: Seq<FieldDef>) -> Seq<char>
    decreases kinds.len(),
{
    if kinds.len() == 0 {
        Seq::empty()
    } else {
        kind_lines(kinds.drop_last()) + kind_line(kinds.last())
    }
}

/// The suggested-kinds comment block (nothing when there are no kinds).
pub open spec fn kinds_comment_text(node_kind: Seq<char>, kinds: Seq<FieldDef>) -> Seq<char> {
    if kinds.len() == 0 {
        Seq::empty()
    } else {
        "\n# Suggested "@ + node_kind + " kinds from profile:\n"@ + kind_lines(kinds)
    }
}

/// Appends the suggested-kinds comment block.
fn write_optional_kinds_comment(out: &mut String, node_kind: &str, kinds: &Vec<FieldDef>)
    ensures
        final(out)@ == old(out)@ + kinds_comment_text(node_kind@, kinds@),
{
    if kinds.len() == 0 {
        assert(out@ =~= out@ + kinds_comment_text(node_kind@, kinds@));
        return;
    }
    let ghost base = out@;
    append_str(out, "\n# Suggested ");
    append_str(out, node_kind);
    append_str(out, " kinds from profile:\n");
    let ghost head = out@;
    let mut i: usize = 0;
    while i < kinds.len()
        invariant
            i <= kinds.len(),
            out@ == head + kind_lines(kinds@.take(i as int)),
        decreases kinds.len() - i,
    {
        assert(kinds@.take(i + 1).drop_last() =~= kinds@.take(i as int));
        append_str(out, "#   ");
        append_str(out, kinds[i].name.as_str());
        append_str(out, " — ");
        append_str(out, kinds[i].description.as_str());
        append_str(out, "\n");
        assert(out@ =~= head + kind_lines(kinds@.take(i + 1)));
        i = i + 1;
    }
    assert(kinds@.take(i as int) =~= kinds@);
    assert(out@ =~= base + kinds_comment_text(node_kind@, kinds@));
}

/// The commented `parents:` stub.
pub open spec fn parents_stub_text(node_kind: Seq<char>) -> Seq<char> {
    "\n# Parent "@ + node_kind + "s (this "@ + node_kind + " is a child of):\n"@ + "# parents:\n"@
        + "#   - id: TODO  # parent "@ + node_kind + " ID\n"@ + "#     role: component\n"@
}

/// Appends the commented `parents:` stub.
fn write_parents_stub(out: &mut String, node_kind: &str)
    ensures
        final(out)@ == old(out)@ + parents_stub_text(node_kind@),
{
    let ghost base = out@;
    append_str(out, "\n# Parent ");
    append_str(out, node_kind);
    append_str(out, "s (this ");
    append_str(out, node_kind);
    append_str(out, " is a child of):\n");
    append_str(out, "# parents:\n");
    append_str(out, "#   - id: TODO  # parent ");
    append_str(out, node_kind);
    append_str(out, " ID\n");
    append_str(out, "#     role: component\n");
    assert(out@ =~= base + parents_stub_text(node_kind@));
}

/// The key a child entry uses for its id.
pub open spec fn child_key(node_kind: Seq<char>) -> Seq<char> {
    if node_kind == "shape"@ {
        "shape"@
    } else if node_kind == "constraint"@ {
        "constraint"@
    } else {
        "node"@
    }
}

/// The commented `children:` stub.
pub open spec fn children_stub_text(node_kind: Seq<char>) -> Seq<char> {
    "\n# Child "@ + node_kind + "s (this "@ + node_kind + " contains):\n"@ + "# children:\n"@
        + "#   - "@ + child_key(node_kind) + ": TODO  # child "@ + node_kind + " ID\n"@
        + "#     role: component\n"@
}

/// Appends the commented `children:` stub.
fn write_children_stub(out: &mut String, node_kind: &str)
    ensures
        final(out)@ == old(out)@ + children_stub_text(node_kind@),
{
    let ghost base = out@;
    let key = if crate::profile_checks::same_text(node_kind, "shape") {
        "shape"
    } else if crate::profile_checks::same_text(node_kind, "constraint") {
        "constraint"
    } else {
        "node"
    };
    assert(key@ == child_key(node_kind@));
    append_str(out, "\n# Child ");
    append_str(out, node_kind);
    append_str(out, "s (this ");
    append_str(out, node_kind);
    append_str(out, " contains):\n");
    append_str(out, "# children:\n");
    append_str(out, "#   - ");
    append_str(out, key);
    append_str(out, ": TODO  # child ");
    append_str(out, node_kind);
    append_str(out, " ID\n");
    append_str(out, "#     role: component\n");
    assert(out@ =~= base + children_stub_text(node_kind@));
}

/// The commented `constraints:` stub of a shape.
pub open spec fn constraints_stub_text() -> Seq<char> {
    "\n# Constraints that apply to this shape (by ID):\n# constraints:\n#   - TODO  # constraint ID\n"@
}

/// The commented `realization:` stub.
pub open spec fn realization_stub_text() -> Seq<char> {
    "\n# Where this is realized in the codebase:\n# realization:\n#   - bindings:\n#       - scheme: path\n#         value: TODO  # path/to/file.rs\n#         metadata:\n#           summary: TODO — what this file does for this node\n#     role: primary\n"@
}

/// The commented `evidence:` stub of a constraint.
pub open spec fn evidence_stub_text() -> Seq<char> {
    "\n# Evidence that this constraint holds (tests, reviews, audits):\n# evidence:\n#   - id: TODO  # short identifier, e.g. unit-test-suite\n#     type: test\n#     bindings:\n#       - scheme: path\n#         value: TODO  # tests/path.rs\n#         metadata: {}\n"@
}

/// A profile's intent group for shapes (`for_shape`) or constraints.
pub open spec fn intent_group_of(p: Profile, for_shape: bool) -> Option<crate::model::FieldGroup> {
    match p.fields {
        Some(f) => match (if for_shape {
            f.shape
        } else {
            f.constraint
        }) {
            Some(sec) => sec.intent,
            None => None,
        },
        None => None,
    }
}

/// The profile's intent-field hints for the node kind, or none.
pub open spec fn field_hints(p: Profile, for_shape: bool) -> Seq<FieldDef> {
    match intent_group_of(p, for_shape) {
        Some(g) => g.fields@,
        None => Seq::empty(),
    }
}

/// The profile's kind allow-list for the node kind, or none.
pub open spec fn kind_hints(p: Profile, for_shape: bool) -> Seq<FieldDef> {
    match intent_group_of(p, for_shape) {
        Some(g) => g.kinds@,
        None => Seq::empty(),
    }
}

/// The profile's intent group for the node kind.
fn intent_group(p: &Profile, for_shape: bool) -> (r: Option<&crate::model::FieldGroup>)
    ensures
        match r {
            Some(g) => intent_group_of(*p, for_shape) == Some(*g),
            None => intent_group_of(*p, for_shape) is None,
        },
{
    match &p.fields {
        Some(f) => {
            let sec = if for_shape {
                &f.shape
            } else {
                &f.constraint
            };
            match sec {
                Some(sec) => match &sec.intent {
                    Some(g) => Some(g),
                    None => None,
                },
                None => None,
            }
        },
        None => None,
    }
}

/// Field bag for [`scaffold_shape`].
#[derive(Debug)]
pub struct ShapeScaffold<'a> {
    /// The id allocated for the new shape.
    pub id: ShapeId,
    /// `--name`.
    pub name: &'a str,
    /// Resolved kind.
    pub kind: &'a str,
    /// Optional `--summary`.
    pub summary: Option<&'a str>,
    /// `--source`.
    pub source: &'a str,
    /// Optional `--description`.
    pub description: Option<&'a str>,
    /// The governing profile.
    pub profile: &'a Profile,
    /// The starter kit the scaffold is made under, when known.
    pub template: Option<&'a str>,
}

/// `v`, or `d` when absent.
pub open spec fn or_seq(v: Option<Seq<char>>, d: Seq<char>) -> Seq<char> {
    match v {
        Some(x) => x,
        None => d,
    }
}

/// The text of an optional string argument.
pub open spec fn opt_text(v: Option<&str>) -> Option<Seq<char>> {
    match v {
        Some(x) => Some(x@),
        None => None,
    }
}

/// The scaffold of a new shape.
pub open spec fn shape_yaml(
    id: u64,
    name: Seq<char>,
    kind: Seq<char>,
    summary: Option<Seq<char>>,
    source: Seq<char>,
    description: Option<Seq<char>>,
    profile: Profile,
    template: Option<Seq<char>>,
) -> Seq<char> {
    header_text("shape"@, profile.id.0, profile.name@, template) + "id: "@ + dec(id as nat) + "\n"@ + "name: "@
        + quoted_text(name) + "\n"@ + "description: "@ + block_text(
        or_seq(description, todo_description()),
    ) + "\n"@ + "profile: "@ + dec(profile.id.0 as nat) + "\n"@ + "status: proposed\n"@
        + "intent:\n"@ + "  kind: "@ + quoted_text(kind) + "\n"@ + "  summary: "@ + quoted_text(
        or_seq(summary, "TODO: one-line summary of this shape"@),
    ) + "\n"@ + "  source: "@ + quoted_text(source) + "\n"@ + intent_fields_text(
        field_hints(profile, true),
        "  "@,
    ) + kinds_comment_text("shape"@, kind_hints(profile, true)) + parents_stub_text("shape"@)
        + children_stub_text("shape"@) + constraints_stub_text() + realization_stub_text()
}

/// The scaffold [`scaffold_shape`] writes for `s`.
pub open spec fn shape_scaffold_text(s: ShapeScaffold) -> Seq<char> {
    shape_yaml(
        s.id.0,
        s.name@,
        s.kind@,
        opt_text(s.summary),
        s.source@,
        opt_text(s.description),
        *s.profile,
        opt_text(s.template),
    )
}

/// Appends the intent field lines and suggested kinds of the profile's
/// rules for the node kind.
fn write_profile_hints(out: &mut String, p: &Profile, for_shape: bool, node_kind: &str)
    ensures
        final(out)@ == old(out)@ + intent_fields_text(field_hints(*p, for_shape), "  "@)
            + kinds_comment_text(node_kind@, kind_hints(*p, for_shape)),
{
    let ghost base = out@;
    let empty: Vec<FieldDef> = Vec::new();
    match intent_group(p, for_shape) {
        Some(g) => {
            write_intent_fields(out, &g.fields, "  ");
            write_optional_kinds_comment(out, node_kind, &g.kinds);
        },
        None => {
            write_intent_fields(out, &empty, "  ");
            write_optional_kinds_comment(out, node_kind, &empty);
        },
    }
    assert(out@ =~= base + intent_fields_text(field_hints(*p, for_shape), "  "@)
        + kinds_comment_text(node_kind@, kind_hints(*p, for_shape)));
}

/// Scaffolds a new shape's YAML from the profile's shape rules.
pub fn scaffold_shape(s: &ShapeScaffold) -> (r: String)
    ensures
        r@ == shape_scaffold_text(*s),
{
    let mut out = header_comment("shape", s.profile, s.template);
    append_str(&mut out, "id: ");
    append_num(&mut out, s.id.0);
    append_str(&mut out, "\n");
    append_str(&mut out, "name: ");
    append_str(&mut out, yaml_string(s.name).as_str());
    append_str(&mut out, "\n");
    append_str(&mut out, "description: ");
    let desc = match s.description {
        Some(d) => d,
        None => "TODO: full paragraph — what this is, who uses it, what it does, why it exists",
    };
    append_str(&mut out, yaml_block(desc).as_str());
    append_str(&mut out, "\n");
    append_str(&mut out, "profile: ");
    append_num(&mut out, s.profile.id.0);
    append_str(&mut out, "\n");
    append_str(&mut out, "status: proposed\n");
    append_str(&mut out, "intent:\n");
    append_str(&mut out, "  kind: ");
    append_str(&mut out, yaml_string(s.kind).as_str());
    append_str(&mut out, "\n");
    append_str(&mut out, "  summary: ");
    let summary = match s.summary {
        Some(x) => x,
        None => "TODO: one-line summary of this shape",
    };
    append_str(&mut out, yaml_string(summary).as_str());
    append_str(&mut out, "\n");
    append_str(&mut out, "  source: ");
    append_str(&mut out, yaml_string(s.source).as_str());
    append_str(&mut out, "\n");
    let ghost mid = out@;
    write_profile_hints(&mut out, s.profile, true, "shape");
    write_parents_stub(&mut out, "shape");
    write_children_stub(&mut out, "shape");
    append_str(&mut out, "\n# Constraints that apply to this shape (by ID):\n# constraints:\n#   - TODO  # constraint ID\n");
    append_str(&mut out, "\n# Where this is realized in the codebase:\n# realization:\n#   - bindings:\n#       - scheme: path\n#         value: TODO  # path/to/file.rs\n#         metadata:\n#           summary: TODO — what this file does for this node\n#     role: primary\n");
    assert(out@ =~= shape_scaffold_text(*s));
    out
}

/// Field bag for [`scaffold_constraint`].
#[derive(Debug)]
pub struct ConstraintScaffold<'a> {
    /// The id allocated for the new constraint.
    pub id: u64,
    /// `--name`.
    pub name: &'a str,
    /// Resolved kind.
    pub kind: &'a str,
    /// Optional `--rule`.
    pub rule: Option<&'a str>,
    /// `--enforcement`.
    pub enforcement: Enforcement,
    /// Optional `--summary`.
    pub summary: Option<&'a str>,
    /// `--source`.
    pub source: &'a str,
    /// Optional `--description`.
    pub description: Option<&'a str>,
    /// Optional `--intent-kind` (defaults to the kind).
    pub intent_kind: Option<&'a str>,
    /// The governing profile.
    pub profile: &'a Profile,
    /// The starter kit the scaffold is made under, when known.
    pub template: Option<&'a str>,
}

/// The on-disk name of an enforcement mode.
pub open spec fn enforcement_text(e: Enforcement) -> Seq<char> {
    match e {
        Enforcement::Manual => "manual"@,
        Enforcement::Machine => "machine"@,
    }
}

/// The scaffold of a new constraint.
pub open spec fn constraint_yaml(
    id: u64,
    name: Seq<char>,
    kind: Seq<char>,
    rule: Option<Seq<char>>,
    enforcement: Enforcement,
    summary: Option<Seq<char>>,
    source: Seq<char>,
    description: Option<Seq<char>>,
    intent_kind: Option<Seq<char>>,
    profile: Profile,
    template: Option<Seq<char>>,
) -> Seq<char> {
    header_text("constraint"@, profile.id.0, profile.name@, template) + "id: "@ + dec(id as nat) + "\n"@
        + "name: "@ + quoted_text(name) + "\n"@ + "description: "@ + block_text(
        or_seq(description, todo_description()),
    ) + "\n"@ + "kind: "@ + quoted_text(kind) + "\n"@ + "rule: "@ + block_text(
        or_seq(
            rule,
            "TODO: specific, falsifiable rule — phrased so it can be checked by reading code"@,
        ),
    ) + "\n"@ + "enforcement: "@ + enforcement_text(enforcement) + "\n"@ + "profile: "@ + dec(
        profile.id.0 as nat,
    ) + "\n"@ + "status: proposed\n"@ + "intent:\n"@ + "  kind: "@ + quoted_text(
        or_seq(intent_kind, kind),
    ) + "\n"@ + "  summary: "@ + quoted_text(
        or_seq(summary, "TODO: one-line summary of this constraint"@),
    ) + "\n"@ + "  source: "@ + quoted_text(source) + "\n"@ + intent_fields_text(
        field_hints(profile, false),
        "  "@,
    ) + kinds_comment_text("constraint"@, kind_hints(profile, false)) + parents_stub_text(
        "constraint"@,
    ) + children_stub_text("constraint"@) + realization_stub_text() + evidence_stub_text()
}

/// The scaffold [`scaffold_constraint`] writes for `c`.
pub open spec fn constraint_scaffold_text(c: ConstraintScaffold) -> Seq<char> {
    constraint_yaml(
        c.id,
        c.name@,
        c.kind@,
        opt_text(c.rule),
        c.enforcement,
        opt_text(c.summary),
        c.source@,
        opt_text(c.description),
        opt_text(c.intent_kind),
        *c.profile,
        opt_text(c.template),
    )
}

/// Scaffolds a new constraint's YAML from the profile's constraint rules.
pub fn scaffold_constraint(c: &ConstraintScaffold) -> (r: String)
    ensures
        r@ == constraint_scaffold_text(*c),
{
    let mut out = header_comment("constraint", c.profile, c.template);
    append_str(&mut out, "id: ");
    append_num(&mut out, c.id);
    append_str(&mut out, "\n");
    append_str(&mut out, "name: ");
    append_str(&mut out, yaml_string(c.name).as_str());
    append_str(&mut out, "\n");
    append_str(&mut out, "description: ");
    let desc = match c.description {
        Some(d) => d,
        None => "TODO: full paragraph — what this is, who uses it, what it does, why it exists",
    };
    append_str(&mut out, yaml_block(desc).as_str());
    append_str(&mut out, "\n");
    append_str(&mut out, "kind: ");
    append_str(&mut out, yaml_string(c.kind).as_str());
    append_str(&mut out, "\n");
    append_str(&mut out, "rule: ");
    let rule = match c.rule {
        Some(x) => x,
        None => "TODO: specific, falsifiable rule — phrased so it can be checked by reading code",
    };
    append_str(&mut out, yaml_block(rule).as_str());
    append_str(&mut out, "\n");
    append_str(&mut out, "enforcement: ");
    append_str(
        &mut out,
        match c.enforcement {
            Enforcement::Manual => "manual",
            Enforcement::Machine => "machine",
        },
    );
    append_str(&mut out, "\n");
    append_str(&mut out, "profile: ");
    append_num(&mut out, c.profile.id.0);
    append_str(&mut out, "\n");
    append_str(&mut out, "status: proposed\n");
    append_str(&mut out, "intent:\n");
    append_str(&mut out, "  kind: ");
    let ik = match c.intent_kind {
        Some(x) => x,
        None => c.kind,
    };
    append_str(&mut out, yaml_string(ik).as_str());
    append_str(&mut out, "\n");
    append_str(&mut out, "  summary: ");
    let summary = match c.summary {
        Some(x) => x,
        None => "TODO: one-line summary of this constraint",
    };
    append_str(&mut out, yaml_string(summary).as_str());
    append_str(&mut out, "\n");
    append_str(&mut out, "  source: ");
    append_str(&mut out, yaml_string(c.source).as_str());
    append_str(&mut out, "\n");
    write_profile_hints(&mut out, c.profile, false, "constraint");
    write_parents_stub(&mut out, "constraint");
    write_children_stub(&mut out, "constraint");
    append_str(&mut out, "\n# Where this is realized in the codebase:\n# realization:\n#   - bindings:\n#       - scheme: path\n#         value: TODO  # path/to/file.rs\n#         metadata:\n#           summary: TODO — what this file does for this node\n#     role: primary\n");
    append_str(&mut out, "\n# Evidence that this constraint holds (tests, reviews, audits):\n# evidence:\n#   - id: TODO  # short identifier, e.g. unit-test-suite\n#     type: test\n#     bindings:\n#       - scheme: path\n#         value: TODO  # tests/path.rs\n#         metadata: {}\n");
    assert(out@ =~= constraint_scaffold_text(*c));
    out
}

} // verus!
