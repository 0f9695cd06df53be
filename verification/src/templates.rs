//! Starter kits: built-in field hints, kind allow-lists and default
//! kinds from which `init` seeds a store's first profile.

use vstd::prelude::*;
use crate::ids::{AmendmentId, ProfileId};
use crate::issues::append_str;
use crate::model::{
    AmendmentModel, AmendmentRules, FieldDef, FieldGroup, FieldSection, Intent, MapEntry, Profile,
    ProfileFields, Provenance, Status, StatusDetail, YamlKind, YamlValue,
};
use crate::profile_checks::{def_names, names_hold};
use crate::text::owned;

verus! {

/// An intent-field hint of a kit.
#[derive(Debug, Clone, Copy)]
pub struct FieldHint {
    /// Field name.
    pub name: &'static str,
    /// Description shown to the author.
    pub description: &'static str,
    /// Whether the author must supply the field.
    pub required: bool,
}

/// A kind hint of a kit.
#[derive(Debug, Clone, Copy)]
pub struct KindHint {
    /// Kind name.
    pub name: &'static str,
    /// Description shown to the author.
    pub description: &'static str,
}

/// A starter kit: enough to seed a complete profile for a domain.
#[derive(Debug)]
pub struct StarterKit {
    /// Kit identifier (`software`, ...).
    pub name: &'static str,
    /// One-line description of the domain.
    pub description: &'static str,
    /// Shape intent-field hints.
    pub shape_intent_fields: Vec<FieldHint>,
    /// Allowed shape kinds.
    pub shape_kinds: Vec<KindHint>,
    /// Allowed shape sources (empty: unrestricted).
    pub shape_sources: Vec<FieldHint>,
    /// Constraint intent-field hints.
    pub constraint_intent_fields: Vec<FieldHint>,
    /// Allowed constraint kinds.
    pub constraint_kinds: Vec<KindHint>,
    /// Allowed constraint sources (empty: unrestricted).
    pub constraint_sources: Vec<FieldHint>,
    /// Default shape kind.
    pub default_shape_kind: &'static str,
    /// Default constraint kind.
    pub default_constraint_kind: &'static str,
}

/// The built-in kits.
#[derive(Debug, Clone, Copy, PartialEq, Eq, Structural)]
pub enum KitKind {
    /// Software engineering project.
    Software,
    /// Research project.
    Research,
    /// Editorial or writing project.
    Editorial,
    /// Bare minimum: only a rationale, no kind enforcement.
    Minimal,
}

/// The identifier of each kit.
pub open spec fn kit_name(k: KitKind) -> Seq<char> {
    match k {
        KitKind::Software => "software"@,
        KitKind::Research => "research"@,
        KitKind::Editorial => "editorial"@,
        KitKind::Minimal => "minimal"@,
    }
}

/// The default shape and constraint kinds of each kit.
pub open spec fn kit_defaults(k: KitKind) -> (Seq<char>, Seq<char>) {
    match k {
        KitKind::Software => ("feature"@, "invariant"@),
        KitKind::Research => ("experiment"@, "methodology"@),
        KitKind::Editorial => ("chapter"@, "voice"@),
        KitKind::Minimal => ("shape"@, "constraint"@),
    }
}

/// The content of a starter kit.
pub struct KitSpec {
    /// Identifier.
    pub name: Seq<char>,
    /// One-line description.
    pub description: Seq<char>,
    /// Shape intent fields: name, description, required.
    pub shape_intent_fields: Seq<(Seq<char>, Seq<char>, bool)>,
    /// Shape kinds: name, description.
    pub shape_kinds: Seq<(Seq<char>, Seq<char>)>,
    /// Shape sources: name, description, required.
    pub shape_sources: Seq<(Seq<char>, Seq<char>, bool)>,
    /// Constraint intent fields.
    pub constraint_intent_fields: Seq<(Seq<char>, Seq<char>, bool)>,
    /// Constraint kinds.
    pub constraint_kinds: Seq<(Seq<char>, Seq<char>)>,
    /// Constraint sources.
    pub constraint_sources: Seq<(Seq<char>, Seq<char>, bool)>,
    /// Default shape kind.
    pub default_shape_kind: Seq<char>,
    /// Default constraint kind.
    pub default_constraint_kind: Seq<char>,
}

/// The contents of field hints.
pub open spec fn hints_view(v: Seq<FieldHint>) -> Seq<(Seq<char>, Seq<char>, bool)> {
    v.map_values(|h: FieldHint| (h.name@, h.description@, h.required))
}

/// The contents of kind hints.
pub open spec fn kind_hints_view(v: Seq<KindHint>) -> Seq<(Seq<char>, Seq<char>)> {
    v.map_values(|h: KindHint| (h.name@, h.description@))
}

/// The content of a kit.
pub open spec fn kit_view(k: StarterKit) -> KitSpec {
    KitSpec {
        name: k.name@,
        description: k.description@,
        shape_intent_fields: hints_view(k.shape_intent_fields@),
        shape_kinds: kind_hints_view(k.shape_kinds@),
        shape_sources: hints_view(k.shape_sources@),
        constraint_intent_fields: hints_view(k.constraint_intent_fields@),
        constraint_kinds: kind_hints_view(k.constraint_kinds@),
        constraint_sources: hints_view(k.constraint_sources@),
        default_shape_kind: k.default_shape_kind@,
        default_constraint_kind: k.default_constraint_kind@,
    }
}

/// The content of each built-in kit.
pub open spec fn kit_spec(k: KitKind) -> KitSpec {
    match k {
        KitKind::Software => KitSpec {
            name: "software"@,
            description: "Software engineering project"@,
            shape_intent_fields: seq![
                ("goals"@, "What this shape must achieve — concrete, observable outcomes"@, true),
                ("rationale"@, "Why this approach was chosen over alternatives"@, true),
                ("non_goals"@, "What is explicitly out of scope"@, false),
                ("requirements"@, "Specific functional requirements this shape must meet"@, false),
            ],
            shape_kinds: seq![
                ("system"@, "Top-level system — the project as a whole"@),
                ("service"@, "A long-running service or daemon"@),
                ("feature"@, "A user-facing capability"@),
                ("module"@, "A cohesive code module"@),
                ("interface"@, "An API, contract, or boundary"@),
                ("data-flow"@, "How data moves through the system"@),
                ("pattern"@, "A reusable design pattern"@),
            ],
            shape_sources: seq![
                ("human"@, "Hand-authored by an engineer"@, false),
                ("ai"@, "Authored by an AI agent"@, false),
            ],
            constraint_intent_fields: seq![
                ("rationale"@, "Why this rule exists — the incident or decision that created it"@, true),
                ("impact_if_violated"@, "What breaks if this rule is violated, and how badly"@, false),
                ("exceptions"@, "Known cases where this rule does not apply"@, false),
                ("verification_method"@, "How compliance is checked (test, review, lint, audit)"@, false),
            ],
            constraint_kinds: seq![
                ("invariant"@, "Must always hold — violating it is a bug"@),
                ("requirement"@, "Functional requirement the system must meet"@),
                ("boundary"@, "Hard architectural boundary"@),
                ("guideline"@, "Recommended practice; deviations need justification"@),
                ("limit"@, "A quantitative cap (rate, size, count, latency)"@),
                ("policy"@, "Organizational or compliance rule"@),
            ],
            constraint_sources: seq![
                ("human"@, "Hand-authored by an engineer"@, false),
                ("ai"@, "Authored by an AI agent"@, false),
            ],
            default_shape_kind: "feature"@,
            default_constraint_kind: "invariant"@,
        },
        KitKind::Research => KitSpec {
            name: "research"@,
            description: "Research project — experiments, datasets, findings"@,
            shape_intent_fields: seq![
                ("hypotheses"@, "What you believe is true and want to test"@, true),
                ("success_criteria"@, "Measurable conditions that confirm or refute the hypothesis"@, true),
                ("methodology"@, "How the experiment or analysis is performed"@, true),
                ("variables"@, "Independent, dependent, and controlled variables"@, false),
                ("prior_work"@, "Related research and how this builds on or differs from it"@, false),
            ],
            shape_kinds: seq![
                ("experiment"@, "A single experimental run or protocol"@),
                ("dataset"@, "A corpus of data used as input or evidence"@),
                ("analysis"@, "A processing or statistical pipeline"@),
                ("finding"@, "A confirmed or refuted result"@),
                ("hypothesis"@, "A testable claim"@),
            ],
            shape_sources: Seq::empty(),
            constraint_intent_fields: seq![
                ("rationale"@, "Why this rule exists — methodology, ethics, or reproducibility"@, true),
                ("impact_if_violated"@, "What conclusions become unreliable if this rule is broken"@, false),
            ],
            constraint_kinds: seq![
                ("invariant"@, "Must always hold across runs"@),
                ("methodology"@, "How experiments must be conducted"@),
                ("ethics"@, "Ethical or regulatory requirement"@),
                ("reproducibility"@, "Conditions needed to reproduce results"@),
            ],
            constraint_sources: Seq::empty(),
            default_shape_kind: "experiment"@,
            default_constraint_kind: "methodology"@,
        },
        KitKind::Editorial => KitSpec {
            name: "editorial"@,
            description: "Editorial / writing project — books, articles, narratives"@,
            shape_intent_fields: seq![
                ("themes"@, "Central themes or ideas this piece explores"@, true),
                ("target_audience"@, "Who this is written for"@, true),
                ("tone"@, "Voice and emotional register"@, true),
                ("narrative_arc"@, "How the piece moves from beginning to end"@, false),
            ],
            shape_kinds: seq![
                ("work"@, "A complete book, article, or series"@),
                ("chapter"@, "A chapter or major section"@),
                ("section"@, "A subsection or scene"@),
                ("character"@, "A character or persona"@),
                ("arc"@, "A narrative or thematic arc"@),
                ("theme"@, "A recurring idea"@),
            ],
            shape_sources: Seq::empty(),
            constraint_intent_fields: seq![
                ("rationale"@, "Why this rule exists — voice, continuity, or audience expectations"@, true),
                ("impact_if_violated"@, "What the reader will feel or notice if this is broken"@, false),
            ],
            constraint_kinds: seq![
                ("voice"@, "How the work sounds on the page"@),
                ("continuity"@, "Internal consistency of facts, characters, and timeline"@),
                ("style"@, "Stylistic conventions (formatting, capitalization, terminology)"@),
                ("plot"@, "Structural rules about story shape"@),
            ],
            constraint_sources: Seq::empty(),
            default_shape_kind: "chapter"@,
            default_constraint_kind: "voice"@,
        },
        KitKind::Minimal => KitSpec {
            name: "minimal"@,
            description: "Minimal — only `rationale` is required, no kind hints"@,
            shape_intent_fields: seq![
                ("rationale"@, "Why this shape exists"@, true),
            ],
            shape_kinds: Seq::empty(),
            shape_sources: Seq::empty(),
            constraint_intent_fields: seq![
                ("rationale"@, "Why this rule exists"@, true),
            ],
            constraint_kinds: Seq::empty(),
            constraint_sources: Seq::empty(),
            default_shape_kind: "shape"@,
            default_constraint_kind: "constraint"@,
        },
    }
}

fn fh(name: &'static str, description: &'static str, required: bool) -> (r: FieldHint)
    ensures
        r.name == name && r.description == description && r.required == required,
{
    FieldHint { name, description, required }
}

fn kh(name: &'static str, description: &'static str) -> (r: KindHint)
    ensures
        r.name == name && r.description == description,
{
    KindHint { name, description }
}

fn software_sources() -> (r: Vec<FieldHint>)
    ensures
        hints_view(r@) == seq![
            ("human"@, "Hand-authored by an engineer"@, false),
            ("ai"@, "Authored by an AI agent"@, false),
        ],
        r@.len() == 2,
        r@[0].name@ == "human"@,
        r@[1].name@ == "ai"@,
{
    let r = vec![fh("human", "Hand-authored by an engineer", false), fh("ai", "Authored by an AI agent", false)];
    assert(hints_view(r@) =~= seq![
        ("human"@, "Hand-authored by an engineer"@, false),
        ("ai"@, "Authored by an AI agent"@, false),
    ]);
    r
}

fn software_kit() -> (r: StarterKit)
    ensures
        kit_view(r) == kit_spec(KitKind::Software),
        r.name@ == kit_name(KitKind::Software),
        (r.default_shape_kind@, r.default_constraint_kind@) == kit_defaults(KitKind::Software),
        kit_well_formed(r),
{
    let r = StarterKit {
        name: "software",
        description: "Software engineering project",
        shape_intent_fields: vec![
            fh("goals", "What this shape must achieve — concrete, observable outcomes", true),
            fh("rationale", "Why this approach was chosen over alternatives", true),
            fh("non_goals", "What is explicitly out of scope", false),
            fh("requirements", "Specific functional requirements this shape must meet", false),
        ],
        shape_kinds: vec![
            kh("system", "Top-level system — the project as a whole"),
            kh("service", "A long-running service or daemon"),
            kh("feature", "A user-facing capability"),
            kh("module", "A cohesive code module"),
            kh("interface", "An API, contract, or boundary"),
            kh("data-flow", "How data moves through the system"),
            kh("pattern", "A reusable design pattern"),
        ],
        shape_sources: software_sources(),
        constraint_intent_fields: vec![
            fh("rationale", "Why this rule exists — the incident or decision that created it", true),
            fh("impact_if_violated", "What breaks if this rule is violated, and how badly", false),
            fh("exceptions", "Known cases where this rule does not apply", false),
            fh("verification_method", "How compliance is checked (test, review, lint, audit)", false),
        ],
        constraint_kinds: vec![
            kh("invariant", "Must always hold — violating it is a bug"),
            kh("requirement", "Functional requirement the system must meet"),
            kh("boundary", "Hard architectural boundary"),
            kh("guideline", "Recommended practice; deviations need justification"),
            kh("limit", "A quantitative cap (rate, size, count, latency)"),
            kh("policy", "Organizational or compliance rule"),
        ],
        constraint_sources: software_sources(),
        default_shape_kind: "feature",
        default_constraint_kind: "invariant",
    };
    proof {
        let ks = kit_spec(KitKind::Software);
        assert(hints_view(r.shape_intent_fields@) =~= ks.shape_intent_fields);
        assert(kind_hints_view(r.shape_kinds@) =~= ks.shape_kinds);
        assert(hints_view(r.shape_sources@) =~= ks.shape_sources);
        assert(hints_view(r.constraint_intent_fields@) =~= ks.constraint_intent_fields);
        assert(kind_hints_view(r.constraint_kinds@) =~= ks.constraint_kinds);
        assert(hints_view(r.constraint_sources@) =~= ks.constraint_sources);
    }
    proof {
        reveal_strlit("ai");
        reveal_strlit("boundary");
        reveal_strlit("data-flow");
        reveal_strlit("exceptions");
        reveal_strlit("feature");
        reveal_strlit("goals");
        reveal_strlit("guideline");
        reveal_strlit("human");
        reveal_strlit("impact_if_violated");
        reveal_strlit("interface");
        reveal_strlit("invariant");
        reveal_strlit("limit");
        reveal_strlit("module");
        reveal_strlit("non_goals");
        reveal_strlit("pattern");
        reveal_strlit("policy");
        reveal_strlit("rationale");
        reveal_strlit("requirement");
        reveal_strlit("requirements");
        reveal_strlit("service");
        reveal_strlit("system");
        reveal_strlit("verification_method");
        let n_shape_intent_fields = field_hint_names(r.shape_intent_fields@);
        assert(n_shape_intent_fields =~= seq!["goals"@, "rationale"@, "non_goals"@, "requirements"@]);
        assert(n_shape_intent_fields.no_duplicates()) by {
            assert forall|i: int, j: int| 0 <= i < j < n_shape_intent_fields.len() implies n_shape_intent_fields[i] != n_shape_intent_fields[j] by {
                assert(n_shape_intent_fields[i].len() != n_shape_intent_fields[j].len() || n_shape_intent_fields[i][0] != n_shape_intent_fields[j][0]);
            }
        }
        let n_shape_kinds = kind_hint_names(r.shape_kinds@);
        assert(n_shape_kinds =~= seq!["system"@, "service"@, "feature"@, "module"@, "interface"@, "data-flow"@, "pattern"@]);
        assert(n_shape_kinds.no_duplicates()) by {
            assert forall|i: int, j: int| 0 <= i < j < n_shape_kinds.len() implies n_shape_kinds[i] != n_shape_kinds[j] by {
                assert(n_shape_kinds[i].len() != n_shape_kinds[j].len() || n_shape_kinds[i][0] != n_shape_kinds[j][0]);
            }
        }
        assert(n_shape_kinds[2] == r.default_shape_kind@);
        let n_shape_sources = field_hint_names(r.shape_sources@);
        assert(n_shape_sources =~= seq!["human"@, "ai"@]);
        assert(n_shape_sources.no_duplicates()) by {
            assert forall|i: int, j: int| 0 <= i < j < n_shape_sources.len() implies n_shape_sources[i] != n_shape_sources[j] by {
                assert(n_shape_sources[i].len() != n_shape_sources[j].len() || n_shape_sources[i][0] != n_shape_sources[j][0]);
            }
        }
        let n_constraint_intent_fields = field_hint_names(r.constraint_intent_fields@);
        assert(n_constraint_intent_fields =~= seq!["rationale"@, "impact_if_violated"@, "exceptions"@, "verification_method"@]);
        assert(n_constraint_intent_fields.no_duplicates()) by {
            assert forall|i: int, j: int| 0 <= i < j < n_constraint_intent_fields.len() implies n_constraint_intent_fields[i] != n_constraint_intent_fields[j] by {
                assert(n_constraint_intent_fields[i].len() != n_constraint_intent_fields[j].len() || n_constraint_intent_fields[i][0] != n_constraint_intent_fields[j][0]);
            }
        }
        let n_constraint_kinds = kind_hint_names(r.constraint_kinds@);
        assert(n_constraint_kinds =~= seq!["invariant"@, "requirement"@, "boundary"@, "guideline"@, "limit"@, "policy"@]);
        assert(n_constraint_kinds.no_duplicates()) by {
            assert forall|i: int, j: int| 0 <= i < j < n_constraint_kinds.len() implies n_constraint_kinds[i] != n_constraint_kinds[j] by {
                assert(n_constraint_kinds[i].len() != n_constraint_kinds[j].len() || n_constraint_kinds[i][0] != n_constraint_kinds[j][0]);
            }
        }
        assert(n_constraint_kinds[0] == r.default_constraint_kind@);
        let n_constraint_sources = field_hint_names(r.constraint_sources@);
        assert(n_constraint_sources =~= seq!["human"@, "ai"@]);
        assert(n_constraint_sources.no_duplicates()) by {
            assert forall|i: int, j: int| 0 <= i < j < n_constraint_sources.len() implies n_constraint_sources[i] != n_constraint_sources[j] by {
                assert(n_constraint_sources[i].len() != n_constraint_sources[j].len() || n_constraint_sources[i][0] != n_constraint_sources[j][0]);
            }
        }
    }
    r
}

fn research_kit() -> (r: StarterKit)
    ensures
        kit_view(r) == kit_spec(KitKind::Research),
        r.name@ == kit_name(KitKind::Research),
        (r.default_shape_kind@, r.default_constraint_kind@) == kit_defaults(KitKind::Research),
        kit_well_formed(r),
{
    let r = StarterKit {
        name: "research",
        description: "Research project — experiments, datasets, findings",
        shape_intent_fields: vec![
            fh("hypotheses", "What you believe is true and want to test", true),
            fh("success_criteria", "Measurable conditions that confirm or refute the hypothesis", true),
            fh("methodology", "How the experiment or analysis is performed", true),
            fh("variables", "Independent, dependent, and controlled variables", false),
            fh("prior_work", "Related research and how this builds on or differs from it", false),
        ],
        shape_kinds: vec![
            kh("experiment", "A single experimental run or protocol"),
            kh("dataset", "A corpus of data used as input or evidence"),
            kh("analysis", "A processing or statistical pipeline"),
            kh("finding", "A confirmed or refuted result"),
            kh("hypothesis", "A testable claim"),
        ],
        shape_sources: Vec::new(),
        constraint_intent_fields: vec![
            fh("rationale", "Why this rule exists — methodology, ethics, or reproducibility", true),
            fh("impact_if_violated", "What conclusions become unreliable if this rule is broken", false),
        ],
        constraint_kinds: vec![
            kh("invariant", "Must always hold across runs"),
            kh("methodology", "How experiments must be conducted"),
            kh("ethics", "Ethical or regulatory requirement"),
            kh("reproducibility", "Conditions needed to reproduce results"),
        ],
        constraint_sources: Vec::new(),
        default_shape_kind: "experiment",
        default_constraint_kind: "methodology",
    };
    proof {
        let ks = kit_spec(KitKind::Research);
        assert(hints_view(r.shape_intent_fields@) =~= ks.shape_intent_fields);
        assert(kind_hints_view(r.shape_kinds@) =~= ks.shape_kinds);
        assert(hints_view(r.shape_sources@) =~= ks.shape_sources);
        assert(hints_view(r.constraint_intent_fields@) =~= ks.constraint_intent_fields);
        assert(kind_hints_view(r.constraint_kinds@) =~= ks.constraint_kinds);
        assert(hints_view(r.constraint_sources@) =~= ks.constraint_sources);
    }
    proof {
        reveal_strlit("analysis");
        reveal_strlit("dataset");
        reveal_strlit("ethics");
        reveal_strlit("experiment");
        reveal_strlit("finding");
        reveal_strlit("hypotheses");
        reveal_strlit("hypothesis");
        reveal_strlit("impact_if_violated");
        reveal_strlit("invariant");
        reveal_strlit("methodology");
        reveal_strlit("prior_work");
        reveal_strlit("rationale");
        reveal_strlit("reproducibility");
        reveal_strlit("success_criteria");
        reveal_strlit("variables");
        let n_shape_intent_fields = field_hint_names(r.shape_intent_fields@);
        assert(n_shape_intent_fields =~= seq!["hypotheses"@, "success_criteria"@, "methodology"@, "variables"@, "prior_work"@]);
        assert(n_shape_intent_fields.no_duplicates()) by {
            assert forall|i: int, j: int| 0 <= i < j < n_shape_intent_fields.len() implies n_shape_intent_fields[i] != n_shape_intent_fields[j] by {
                assert(n_shape_intent_fields[i].len() != n_shape_intent_fields[j].len() || n_shape_intent_fields[i][0] != n_shape_intent_fields[j][0]);
            }
        }
        let n_shape_kinds = kind_hint_names(r.shape_kinds@);
        assert(n_shape_kinds =~= seq!["experiment"@, "dataset"@, "analysis"@, "finding"@, "hypothesis"@]);
        assert(n_shape_kinds.no_duplicates()) by {
            assert forall|i: int, j: int| 0 <= i < j < n_shape_kinds.len() implies n_shape_kinds[i] != n_shape_kinds[j] by {
                assert(n_shape_kinds[i].len() != n_shape_kinds[j].len() || n_shape_kinds[i][0] != n_shape_kinds[j][0]);
            }
        }
        assert(n_shape_kinds[0] == r.default_shape_kind@);
        let n_shape_sources = field_hint_names(r.shape_sources@);
        assert(n_shape_sources =~= Seq::<Seq<char>>::empty());
        assert(n_shape_sources.no_duplicates()) by {
            assert forall|i: int, j: int| 0 <= i < j < n_shape_sources.len() implies n_shape_sources[i] != n_shape_sources[j] by {
                assert(n_shape_sources[i].len() != n_shape_sources[j].len() || n_shape_sources[i][0] != n_shape_sources[j][0]);
            }
        }
        let n_constraint_intent_fields = field_hint_names(r.constraint_intent_fields@);
        assert(n_constraint_intent_fields =~= seq!["rationale"@, "impact_if_violated"@]);
        assert(n_constraint_intent_fields.no_duplicates()) by {
            assert forall|i: int, j: int| 0 <= i < j < n_constraint_intent_fields.len() implies n_constraint_intent_fields[i] != n_constraint_intent_fields[j] by {
                assert(n_constraint_intent_fields[i].len() != n_constraint_intent_fields[j].len() || n_constraint_intent_fields[i][0] != n_constraint_intent_fields[j][0]);
            }
        }
        let n_constraint_kinds = kind_hint_names(r.constraint_kinds@);
        assert(n_constraint_kinds =~= seq!["invariant"@, "methodology"@, "ethics"@, "reproducibility"@]);
        assert(n_constraint_kinds.no_duplicates()) by {
            assert forall|i: int, j: int| 0 <= i < j < n_constraint_kinds.len() implies n_constraint_kinds[i] != n_constraint_kinds[j] by {
                assert(n_constraint_kinds[i].len() != n_constraint_kinds[j].len() || n_constraint_kinds[i][0] != n_constraint_kinds[j][0]);
            }
        }
        assert(n_constraint_kinds[1] == r.default_constraint_kind@);
        let n_constraint_sources = field_hint_names(r.constraint_sources@);
        assert(n_constraint_sources =~= Seq::<Seq<char>>::empty());
        assert(n_constraint_sources.no_duplicates()) by {
            assert forall|i: int, j: int| 0 <= i < j < n_constraint_sources.len() implies n_constraint_sources[i] != n_constraint_sources[j] by {
                assert(n_constraint_sources[i].len() != n_constraint_sources[j].len() || n_constraint_sources[i][0] != n_constraint_sources[j][0]);
            }
        }
    }
    r
}

fn editorial_kit() -> (r: StarterKit)
    ensures
        kit_view(r) == kit_spec(KitKind::Editorial),
        r.name@ == kit_name(KitKind::Editorial),
        (r.default_shape_kind@, r.default_constraint_kind@) == kit_defaults(KitKind::Editorial),
        kit_well_formed(r),
{
    let r = StarterKit {
        name: "editorial",
        description: "Editorial / writing project — books, articles, narratives",
        shape_intent_fields: vec![
            fh("themes", "Central themes or ideas this piece explores", true),
            fh("target_audience", "Who this is written for", true),
            fh("tone", "Voice and emotional register", true),
            fh("narrative_arc", "How the piece moves from beginning to end", false),
        ],
        shape_kinds: vec![
            kh("work", "A complete book, article, or series"),
            kh("chapter", "A chapter or major section"),
            kh("section", "A subsection or scene"),
            kh("character", "A character or persona"),
            kh("arc", "A narrative or thematic arc"),
            kh("theme", "A recurring idea"),
        ],
        shape_sources: Vec::new(),
        constraint_intent_fields: vec![
            fh("rationale", "Why this rule exists — voice, continuity, or audience expectations", true),
            fh("impact_if_violated", "What the reader will feel or notice if this is broken", false),
        ],
        constraint_kinds: vec![
            kh("voice", "How the work sounds on the page"),
            kh("continuity", "Internal consistency of facts, characters, and timeline"),
            kh("style", "Stylistic conventions (formatting, capitalization, terminology)"),
            kh("plot", "Structural rules about story shape"),
        ],
        constraint_sources: Vec::new(),
        default_shape_kind: "chapter",
        default_constraint_kind: "voice",
    };
    proof {
        let ks = kit_spec(KitKind::Editorial);
        assert(hints_view(r.shape_intent_fields@) =~= ks.shape_intent_fields);
        assert(kind_hints_view(r.shape_kinds@) =~= ks.shape_kinds);
        assert(hints_view(r.shape_sources@) =~= ks.shape_sources);
        assert(hints_view(r.constraint_intent_fields@) =~= ks.constraint_intent_fields);
        assert(kind_hints_view(r.constraint_kinds@) =~= ks.constraint_kinds);
        assert(hints_view(r.constraint_sources@) =~= ks.constraint_sources);
    }
    proof {
        reveal_strlit("arc");
        reveal_strlit("chapter");
        reveal_strlit("character");
        reveal_strlit("continuity");
        reveal_strlit("impact_if_violated");
        reveal_strlit("narrative_arc");
        reveal_strlit("plot");
        reveal_strlit("rationale");
        reveal_strlit("section");
        reveal_strlit("style");
        reveal_strlit("target_audience");
        reveal_strlit("theme");
        reveal_strlit("themes");
        reveal_strlit("tone");
        reveal_strlit("voice");
        reveal_strlit("work");
        let n_shape_intent_fields = field_hint_names(r.shape_intent_fields@);
        assert(n_shape_intent_fields =~= seq!["themes"@, "target_audience"@, "tone"@, "narrative_arc"@]);
        assert(n_shape_intent_fields.no_duplicates()) by {
            assert forall|i: int, j: int| 0 <= i < j < n_shape_intent_fields.len() implies n_shape_intent_fields[i] != n_shape_intent_fields[j] by {
                assert(n_shape_intent_fields[i].len() != n_shape_intent_fields[j].len() || n_shape_intent_fields[i][0] != n_shape_intent_fields[j][0]);
            }
        }
        let n_shape_kinds = kind_hint_names(r.shape_kinds@);
        assert(n_shape_kinds =~= seq!["work"@, "chapter"@, "section"@, "character"@, "arc"@, "theme"@]);
        assert(n_shape_kinds.no_duplicates()) by {
            assert forall|i: int, j: int| 0 <= i < j < n_shape_kinds.len() implies n_shape_kinds[i] != n_shape_kinds[j] by {
                assert(n_shape_kinds[i].len() != n_shape_kinds[j].len() || n_shape_kinds[i][0] != n_shape_kinds[j][0]);
            }
        }
        assert(n_shape_kinds[1] == r.default_shape_kind@);
        let n_shape_sources = field_hint_names(r.shape_sources@);
        assert(n_shape_sources =~= Seq::<Seq<char>>::empty());
        assert(n_shape_sources.no_duplicates()) by {
            assert forall|i: int, j: int| 0 <= i < j < n_shape_sources.len() implies n_shape_sources[i] != n_shape_sources[j] by {
                assert(n_shape_sources[i].len() != n_shape_sources[j].len() || n_shape_sources[i][0] != n_shape_sources[j][0]);
            }
        }
        let n_constraint_intent_fields = field_hint_names(r.constraint_intent_fields@);
        assert(n_constraint_intent_fields =~= seq!["rationale"@, "impact_if_violated"@]);
        assert(n_constraint_intent_fields.no_duplicates()) by {
            assert forall|i: int, j: int| 0 <= i < j < n_constraint_intent_fields.len() implies n_constraint_intent_fields[i] != n_constraint_intent_fields[j] by {
                assert(n_constraint_intent_fields[i].len() != n_constraint_intent_fields[j].len() || n_constraint_intent_fields[i][0] != n_constraint_intent_fields[j][0]);
            }
        }
        let n_constraint_kinds = kind_hint_names(r.constraint_kinds@);
        assert(n_constraint_kinds =~= seq!["voice"@, "continuity"@, "style"@, "plot"@]);
        assert(n_constraint_kinds.no_duplicates()) by {
            assert forall|i: int, j: int| 0 <= i < j < n_constraint_kinds.len() implies n_constraint_kinds[i] != n_constraint_kinds[j] by {
                assert(n_constraint_kinds[i].len() != n_constraint_kinds[j].len() || n_constraint_kinds[i][0] != n_constraint_kinds[j][0]);
            }
        }
        assert(n_constraint_kinds[0] == r.default_constraint_kind@);
        let n_constraint_sources = field_hint_names(r.constraint_sources@);
        assert(n_constraint_sources =~= Seq::<Seq<char>>::empty());
        assert(n_constraint_sources.no_duplicates()) by {
            assert forall|i: int, j: int| 0 <= i < j < n_constraint_sources.len() implies n_constraint_sources[i] != n_constraint_sources[j] by {
                assert(n_constraint_sources[i].len() != n_constraint_sources[j].len() || n_constraint_sources[i][0] != n_constraint_sources[j][0]);
            }
        }
    }
    r
}

fn minimal_kit() -> (r: StarterKit)
    ensures
        kit_view(r) == kit_spec(KitKind::Minimal),
        r.name@ == kit_name(KitKind::Minimal),
        (r.default_shape_kind@, r.default_constraint_kind@) == kit_defaults(KitKind::Minimal),
        kit_well_formed(r),
{
    let r = StarterKit {
        name: "minimal",
        description: "Minimal — only `rationale` is required, no kind hints",
        shape_intent_fields: vec![fh("rationale", "Why this shape exists", true)],
        shape_kinds: Vec::new(),
        shape_sources: Vec::new(),
        constraint_intent_fields: vec![fh("rationale", "Why this rule exists", true)],
        constraint_kinds: Vec::new(),
        constraint_sources: Vec::new(),
        default_shape_kind: "shape",
        default_constraint_kind: "constraint",
    };
    proof {
        let ks = kit_spec(KitKind::Minimal);
        assert(hints_view(r.shape_intent_fields@) =~= ks.shape_intent_fields);
        assert(kind_hints_view(r.shape_kinds@) =~= ks.shape_kinds);
        assert(hints_view(r.shape_sources@) =~= ks.shape_sources);
        assert(hints_view(r.constraint_intent_fields@) =~= ks.constraint_intent_fields);
        assert(kind_hints_view(r.constraint_kinds@) =~= ks.constraint_kinds);
        assert(hints_view(r.constraint_sources@) =~= ks.constraint_sources);
    }
    proof {
        reveal_strlit("constraint");
        reveal_strlit("rationale");
        reveal_strlit("shape");
        let n_shape_intent_fields = field_hint_names(r.shape_intent_fields@);
        assert(n_shape_intent_fields =~= seq!["rationale"@]);
        assert(n_shape_intent_fields.no_duplicates()) by {
            assert forall|i: int, j: int| 0 <= i < j < n_shape_intent_fields.len() implies n_shape_intent_fields[i] != n_shape_intent_fields[j] by {
                assert(n_shape_intent_fields[i].len() != n_shape_intent_fields[j].len() || n_shape_intent_fields[i][0] != n_shape_intent_fields[j][0]);
            }
        }
        let n_shape_kinds = kind_hint_names(r.shape_kinds@);
        assert(n_shape_kinds =~= Seq::<Seq<char>>::empty());
        assert(n_shape_kinds.no_duplicates()) by {
            assert forall|i: int, j: int| 0 <= i < j < n_shape_kinds.len() implies n_shape_kinds[i] != n_shape_kinds[j] by {
                assert(n_shape_kinds[i].len() != n_shape_kinds[j].len() || n_shape_kinds[i][0] != n_shape_kinds[j][0]);
            }
        }
        let n_shape_sources = field_hint_names(r.shape_sources@);
        assert(n_shape_sources =~= Seq::<Seq<char>>::empty());
        assert(n_shape_sources.no_duplicates()) by {
            assert forall|i: int, j: int| 0 <= i < j < n_shape_sources.len() implies n_shape_sources[i] != n_shape_sources[j] by {
                assert(n_shape_sources[i].len() != n_shape_sources[j].len() || n_shape_sources[i][0] != n_shape_sources[j][0]);
            }
        }
        let n_constraint_intent_fields = field_hint_names(r.constraint_intent_fields@);
        assert(n_constraint_intent_fields =~= seq!["rationale"@]);
        assert(n_constraint_intent_fields.no_duplicates()) by {
            assert forall|i: int, j: int| 0 <= i < j < n_constraint_intent_fields.len() implies n_constraint_intent_fields[i] != n_constraint_intent_fields[j] by {
                assert(n_constraint_intent_fields[i].len() != n_constraint_intent_fields[j].len() || n_constraint_intent_fields[i][0] != n_constraint_intent_fields[j][0]);
            }
        }
        let n_constraint_kinds = kind_hint_names(r.constraint_kinds@);
        assert(n_constraint_kinds =~= Seq::<Seq<char>>::empty());
        assert(n_constraint_kinds.no_duplicates()) by {
            assert forall|i: int, j: int| 0 <= i < j < n_constraint_kinds.len() implies n_constraint_kinds[i] != n_constraint_kinds[j] by {
                assert(n_constraint_kinds[i].len() != n_constraint_kinds[j].len() || n_constraint_kinds[i][0] != n_constraint_kinds[j][0]);
            }
        }
        let n_constraint_sources = field_hint_names(r.constraint_sources@);
        assert(n_constraint_sources =~= Seq::<Seq<char>>::empty());
        assert(n_constraint_sources.no_duplicates()) by {
            assert forall|i: int, j: int| 0 <= i < j < n_constraint_sources.len() implies n_constraint_sources[i] != n_constraint_sources[j] by {
                assert(n_constraint_sources[i].len() != n_constraint_sources[j].len() || n_constraint_sources[i][0] != n_constraint_sources[j][0]);
            }
        }
    }
    r
}

impl KitKind {
    /// The starter kit backing this variant.
    pub fn kit(&self) -> (r: StarterKit)
        ensures
            kit_view(r) == kit_spec(*self),
            r.name@ == kit_name(*self),
            (r.default_shape_kind@, r.default_constraint_kind@) == kit_defaults(*self),
            kit_well_formed(r),
    {
        match self {
            KitKind::Software => software_kit(),
            KitKind::Research => research_kit(),
            KitKind::Editorial => editorial_kit(),
            KitKind::Minimal => minimal_kit(),
        }
    }

    /// The kit's identifier (`software`, `research`, ...).
    pub fn label(&self) -> (r: &'static str)
        ensures
            r@ == kit_name(*self),
    {
        match self {
            KitKind::Software => "software",
            KitKind::Research => "research",
            KitKind::Editorial => "editorial",
            KitKind::Minimal => "minimal",
        }
    }

    /// The kit named `name`, if any.
    pub fn from_label(name: &str) -> (r: Option<KitKind>)
        ensures
            match r {
                Some(k) => kit_name(k) == name@,
                None => forall|k: KitKind| kit_name(k) != name@,
            },
    {
        if crate::profile_checks::same_text(name, "software") {
            Some(KitKind::Software)
        } else if crate::profile_checks::same_text(name, "research") {
            Some(KitKind::Research)
        } else if crate::profile_checks::same_text(name, "editorial") {
            Some(KitKind::Editorial)
        } else if crate::profile_checks::same_text(name, "minimal") {
            Some(KitKind::Minimal)
        } else {
            proof {
                reveal_strlit("software");
                reveal_strlit("research");
                reveal_strlit("editorial");
                reveal_strlit("minimal");
            }
            None
        }
    }
}

/// A declaration copies a field hint.
pub open spec fn field_def_is(d: FieldDef, h: FieldHint) -> bool {
    d.name@ == h.name@ && d.description@ == h.description@ && d.field_type is None && d.required
        == h.required
}

/// A declaration copies a kind hint (never required).
pub open spec fn kind_def_is(d: FieldDef, h: KindHint) -> bool {
    d.name@ == h.name@ && d.description@ == h.description@ && d.field_type is None && !d.required
}

/// Declarations copying field hints one for one.
pub open spec fn defs_from_fields(ds: Seq<FieldDef>, hs: Seq<FieldHint>) -> bool {
    ds.len() == hs.len() && forall|i: int| 0 <= i < ds.len() ==> field_def_is(#[trigger] ds[i], hs[i])
}

/// Declarations copying kind hints one for one.
pub open spec fn defs_from_kinds(ds: Seq<FieldDef>, hs: Seq<KindHint>) -> bool {
    ds.len() == hs.len() && forall|i: int| 0 <= i < ds.len() ==> kind_def_is(#[trigger] ds[i], hs[i])
}

/// The group requiring a `summary` metadata field on every binding.
pub open spec fn is_summary_group(g: FieldGroup) -> bool {
    &&& g.fields@.len() == 1
    &&& g.fields@[0].name@ == "summary"@
    &&& g.fields@[0].description@ == "Brief description of what this binding points to"@
    &&& g.fields@[0].field_type is None
    &&& g.fields@[0].required
    &&& g.kinds@.len() == 0
    &&& g.sources@.len() == 0
}

/// A profile section seeded from a kit's hints for one node kind.
pub open spec fn section_from_kit(
    sec: FieldSection,
    default_kind: &str,
    fields: Seq<FieldHint>,
    kinds: Seq<KindHint>,
    sources: Seq<FieldHint>,
) -> bool {
    &&& sec.default_kind matches Some(d) && d@ == default_kind@
    &&& sec.intent matches Some(g) && defs_from_fields(g.fields@, fields) && defs_from_kinds(
        g.kinds@,
        kinds,
    ) && defs_from_fields(g.sources@, sources)
    &&& sec.status is None
    &&& sec.constraints is None
    &&& sec.realization matches Some(g) && is_summary_group(g)
    &&& sec.evidence matches Some(g) && is_summary_group(g)
    &&& sec.provenance is None
    &&& sec.metadata is None
}

/// Names of field hints.
pub open spec fn field_hint_names(hs: Seq<FieldHint>) -> Seq<Seq<char>> {
    hs.map_values(|h: FieldHint| h.name@)
}

/// Names of kind hints.
pub open spec fn kind_hint_names(hs: Seq<KindHint>) -> Seq<Seq<char>> {
    hs.map_values(|h: KindHint| h.name@)
}

/// A kit whose hint lists name nothing twice and whose default kinds
/// are allowed by its own kind lists.
pub open spec fn kit_well_formed(k: StarterKit) -> bool {
    &&& field_hint_names(k.shape_intent_fields@).no_duplicates()
    &&& kind_hint_names(k.shape_kinds@).no_duplicates()
    &&& field_hint_names(k.shape_sources@).no_duplicates()
    &&& field_hint_names(k.constraint_intent_fields@).no_duplicates()
    &&& kind_hint_names(k.constraint_kinds@).no_duplicates()
    &&& field_hint_names(k.constraint_sources@).no_duplicates()
    &&& (k.shape_kinds@.len() == 0 || kind_hint_names(k.shape_kinds@).contains(k.default_shape_kind@))
    &&& (k.constraint_kinds@.len() == 0 || kind_hint_names(k.constraint_kinds@).contains(
        k.default_constraint_kind@,
    ))
}

/// The declaration copying a field hint.
pub fn field_hint_to_def(h: &FieldHint) -> (d: FieldDef)
    ensures
        field_def_is(d, *h),
{
    FieldDef {
        name: owned(h.name),
        description: owned(h.description),
        field_type: None,
        required: h.required,
    }
}

/// The declaration copying a kind hint.
pub fn kind_hint_to_def(h: &KindHint) -> (d: FieldDef)
    ensures
        kind_def_is(d, *h),
{
    FieldDef { name: owned(h.name), description: owned(h.description), field_type: None, required: false }
}

fn field_defs(hs: &Vec<FieldHint>) -> (r: Vec<FieldDef>)
    ensures
        defs_from_fields(r@, hs@),
{
    let mut r: Vec<FieldDef> = Vec::new();
    let mut i: usize = 0;
    while i < hs.len()
        invariant
            i <= hs.len(),
            r@.len() == i,
            forall|j: int| 0 <= j < i ==> field_def_is(#[trigger] r@[j], hs@[j]),
        decreases hs.len() - i,
    {
        r.push(field_hint_to_def(&hs[i]));
        i = i + 1;
    }
    r
}

fn kind_defs(hs: &Vec<KindHint>) -> (r: Vec<FieldDef>)
    ensures
        defs_from_kinds(r@, hs@),
{
    let mut r: Vec<FieldDef> = Vec::new();
    let mut i: usize = 0;
    while i < hs.len()
        invariant
            i <= hs.len(),
            r@.len() == i,
            forall|j: int| 0 <= j < i ==> kind_def_is(#[trigger] r@[j], hs@[j]),
        decreases hs.len() - i,
    {
        r.push(kind_hint_to_def(&hs[i]));
        i = i + 1;
    }
    r
}

/// The group requiring a `summary` metadata field on every binding.
pub fn binding_summary_group() -> (g: FieldGroup)
    ensures
        is_summary_group(g),
{
    let f = FieldDef {
        name: owned("summary"),
        description: owned("Brief description of what this binding points to"),
        field_type: None,
        required: true,
    };
    let mut fields: Vec<FieldDef> = Vec::new();
    fields.push(f);
    FieldGroup { fields, kinds: Vec::new(), sources: Vec::new() }
}

/// The profile section for one node kind, seeded from the kit's hints.
pub fn node_section(
    default_kind: &'static str,
    fields: &Vec<FieldHint>,
    kinds: &Vec<KindHint>,
    sources: &Vec<FieldHint>,
) -> (sec: FieldSection)
    ensures
        section_from_kit(sec, default_kind, fields@, kinds@, sources@),
{
    FieldSection {
        default_kind: Some(owned(default_kind)),
        intent: Some(FieldGroup { fields: field_defs(fields), kinds: kind_defs(kinds), sources: field_defs(sources) }),
        status: None,
        constraints: None,
        realization: Some(binding_summary_group()),
        evidence: Some(binding_summary_group()),
        provenance: None,
        metadata: None,
    }
}

/// The shape and constraint sections of `p` are seeded from kit `k`.
pub open spec fn seeded_fields(p: Profile, k: StarterKit) -> bool {
    match p.fields {
        Some(f) => match (f.shape, f.constraint) {
            (Some(s), Some(c)) => section_from_kit(
                s,
                k.default_shape_kind,
                k.shape_intent_fields@,
                k.shape_kinds@,
                k.shape_sources@,
            ) && section_from_kit(
                c,
                k.default_constraint_kind,
                k.constraint_intent_fields@,
                k.constraint_kinds@,
                k.constraint_sources@,
            ),
            _ => false,
        },
        None => false,
    }
}

/// The description of a profile seeded from kit `k`.
pub open spec fn seeded_description(k: StarterKit) -> Seq<char> {
    "Starter profile seeded from the "@ + k.name@ + " kit ("@ + k.description@ + "). Edit freely."@
}

/// The intent summary of a profile seeded from kit `k`.
pub open spec fn seeded_summary(k: StarterKit) -> Seq<char> {
    "Domain governance seeded from the "@ + k.name@ + " starter kit"@
}

/// `p` is the profile kit `k` seeds under `id` and `name`: canonical,
/// governed by `merge` amendments, with the kit's description, summary
/// and hints.
pub open spec fn seeded_profile(p: Profile, k: StarterKit, id: ProfileId, name: Seq<char>) -> bool {
    &&& p.id == id
    &&& p.name@ == name
    &&& p.description@ == seeded_description(k)
    &&& p.version is None
    &&& p.status matches Status::Canonical(d) && crate::model::empty_status_detail(d)
    &&& p.intent.kind@ == "governance"@
    &&& p.intent.summary@ == seeded_summary(k)
    &&& p.intent.source.kind == YamlKind::String && p.intent.source.text@ == "system"@
    &&& p.intent.uris@.len() == 0
    &&& p.intent.extra@.len() == 0
    &&& p.provenance@.len() == 0
    &&& p.lifecycle is None
    &&& seeded_fields(p, k)
    &&& p.versioning is None
    &&& p.amendment_rules matches Some(r) && r.application == AmendmentModel::Merge
    &&& p.amendment_log@.len() == 0
    &&& p.metadata@.len() == 0
}

impl StarterKit {
    /// Builds the profile this kit seeds: canonical, `merge` amendments,
    /// and the kit's hints, kinds and defaults in each node section.
    /// A well-formed kit seeds a profile that passes the INV-016
    /// self-consistency checks.
    pub fn build_profile(&self, id: ProfileId, name: &str) -> (p: Profile)
        ensures
            seeded_profile(p, *self, id, name@),
            kit_well_formed(*self) ==> crate::profile_checks::profile_consistency(p) == Seq::<
                crate::issues::IssueSpec,
            >::empty(),
    {
        let mut description = owned("Starter profile seeded from the ");
        append_str(&mut description, self.name);
        append_str(&mut description, " kit (");
        append_str(&mut description, self.description);
        append_str(&mut description, "). Edit freely.");
        let mut summary = owned("Domain governance seeded from the ");
        append_str(&mut summary, self.name);
        append_str(&mut summary, " starter kit");
        let shape = node_section(
            self.default_shape_kind,
            &self.shape_intent_fields,
            &self.shape_kinds,
            &self.shape_sources,
        );
        let constraint = node_section(
            self.default_constraint_kind,
            &self.constraint_intent_fields,
            &self.constraint_kinds,
            &self.constraint_sources,
        );
        let p = Profile {
            id,
            name: owned(name),
            description,
            version: None,
            status: Status::Canonical(StatusDetail::empty()),
            intent: Intent {
                kind: owned("governance"),
                summary,
                source: YamlValue::string("system"),
                uris: Vec::new(),
                extra: Vec::new(),
            },
            provenance: Vec::new(),
            lifecycle: None,
            fields: Some(ProfileFields { shape: Some(shape), constraint: Some(constraint) }),
            versioning: None,
            amendment_rules: Some(AmendmentRules { application: AmendmentModel::Merge }),
            amendment_log: Vec::new(),
            metadata: Vec::new(),
        };
        proof {
            if kit_well_formed(*self) {
                lemma_seeded_section_consistent(
                    p.fields->Some_0.shape->Some_0,
                    self.default_shape_kind,
                    self.shape_intent_fields@,
                    self.shape_kinds@,
                    self.shape_sources@,
                    "fields.shape"@,
                    id.0,
                );
                lemma_seeded_section_consistent(
                    p.fields->Some_0.constraint->Some_0,
                    self.default_constraint_kind,
                    self.constraint_intent_fields@,
                    self.constraint_kinds@,
                    self.constraint_sources@,
                    "fields.constraint"@,
                    id.0,
                );
            }
        }
        p
    }
}

/// A list of declarations with distinct names has no INV-016 repeats.
proof fn lemma_no_repeats(defs: Seq<FieldDef>, loc: Seq<char>, group: Seq<char>, pid: u64)
    requires
        def_names(defs).no_duplicates(),
    ensures
        crate::issues::flat(defs, crate::profile_checks::dup_name_fn(defs, loc, group, pid))
            == Seq::<crate::issues::IssueSpec>::empty(),
{
    let f = crate::profile_checks::dup_name_fn(defs, loc, group, pid);
    assert forall|k: int| 0 <= k <= defs.len() implies crate::issues::flat(defs.take(k), f)
        == Seq::<crate::issues::IssueSpec>::empty() by {
        lemma_no_repeats_prefix(defs, loc, group, pid, k);
    }
    crate::issues::lemma_flat_whole(defs, f);
}

proof fn lemma_no_repeats_prefix(defs: Seq<FieldDef>, loc: Seq<char>, group: Seq<char>, pid: u64, k: int)
    requires
        def_names(defs).no_duplicates(),
        0 <= k <= defs.len(),
    ensures
        crate::issues::flat(defs.take(k), crate::profile_checks::dup_name_fn(defs, loc, group, pid))
            == Seq::<crate::issues::IssueSpec>::empty(),
    decreases k,
{
    let f = crate::profile_checks::dup_name_fn(defs, loc, group, pid);
    if k == 0 {
        assert(defs.take(0) =~= Seq::<FieldDef>::empty());
    } else {
        lemma_no_repeats_prefix(defs, loc, group, pid, k - 1);
        crate::issues::lemma_flat_step(defs, k - 1, f);
        let i = k - 1;
        let names = def_names(defs.take(i));
        if names.contains(defs[i].name@) {
            let j = choose|j: int| 0 <= j < names.len() && names[j] == defs[i].name@;
            assert(def_names(defs)[j] == def_names(defs)[i]);
        }
        assert(f(i, defs[i]) =~= Seq::<crate::issues::IssueSpec>::empty());
    }
}

/// Declaration names follow hint names.
proof fn lemma_field_names(ds: Seq<FieldDef>, hs: Seq<FieldHint>)
    requires
        defs_from_fields(ds, hs),
    ensures
        def_names(ds) == field_hint_names(hs),
{
    assert(def_names(ds) =~= field_hint_names(hs));
}

/// Declaration names follow hint names.
proof fn lemma_kind_names(ds: Seq<FieldDef>, hs: Seq<KindHint>)
    requires
        defs_from_kinds(ds, hs),
    ensures
        def_names(ds) == kind_hint_names(hs),
{
    assert(def_names(ds) =~= kind_hint_names(hs));
}

/// A section seeded from well-formed hints passes INV-016.
proof fn lemma_seeded_section_consistent(
    sec: FieldSection,
    default_kind: &str,
    fields: Seq<FieldHint>,
    kinds: Seq<KindHint>,
    sources: Seq<FieldHint>,
    loc: Seq<char>,
    pid: u64,
)
    requires
        section_from_kit(sec, default_kind, fields, kinds, sources),
        field_hint_names(fields).no_duplicates(),
        kind_hint_names(kinds).no_duplicates(),
        field_hint_names(sources).no_duplicates(),
        kinds.len() == 0 || kind_hint_names(kinds).contains(default_kind@),
    ensures
        crate::profile_checks::section_consistency(sec, loc, pid) == Seq::<crate::issues::IssueSpec>::empty(),
{
    let g = sec.intent->Some_0;
    lemma_field_names(g.fields@, fields);
    lemma_kind_names(g.kinds@, kinds);
    lemma_field_names(g.sources@, sources);
    lemma_no_repeats(g.fields@, loc, "intent.fields"@, pid);
    lemma_no_repeats(g.kinds@, loc, "intent.kinds"@, pid);
    lemma_no_repeats(g.sources@, loc, "intent.sources"@, pid);
    let rg = sec.realization->Some_0;
    let eg = sec.evidence->Some_0;
    assert(def_names(rg.fields@).no_duplicates()) by {
        assert(def_names(rg.fields@).len() == 1);
    }
    assert(def_names(eg.fields@).no_duplicates()) by {
        assert(def_names(eg.fields@).len() == 1);
    }
    lemma_no_repeats(rg.fields@, loc, "realization.fields"@, pid);
    lemma_no_repeats(eg.fields@, loc, "evidence.fields"@, pid);
    if kinds.len() > 0 {
        let j = choose|j: int| 0 <= j < kind_hint_names(kinds).len() && kind_hint_names(kinds)[j] == default_kind@;
        assert(g.kinds@[j].name@ == default_kind@);
        assert(names_hold(g.kinds@, default_kind@));
    }
    assert(crate::profile_checks::default_kind_part(sec, loc, pid) =~= Seq::<crate::issues::IssueSpec>::empty());
    assert(crate::profile_checks::section_consistency(sec, loc, pid) =~= Seq::<crate::issues::IssueSpec>::empty());
}

} // verus!
