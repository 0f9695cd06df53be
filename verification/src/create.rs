//! `create`: id allocation, the governing profile, kind defaults and
//! allow-lists, and the nodes or scaffolds a create writes; `archive`
//! and `unarchive` of amendments.

use vstd::prelude::*;
use crate::error::{CliError, CreateError};
use crate::ids::{AmendmentId, ConstraintId, NodeType, ProfileId, ShapeId, type_name_of};
use crate::issues::{append_num, append_str};
use crate::model::{
    Amendment, AmendmentTargets, Archived, Enforcement, FieldDef, InitiatedBy, InitiatedType, Intent,
    Profile, Status, StatusDetail, VersionImpact, YamlKind, YamlValue,
};
use crate::profile_checks::{def_names, has_name, join, join_names, names_hold, same_text};
use crate::scaffold::{
    ConstraintScaffold, ShapeScaffold, constraint_yaml, scaffold_constraint, scaffold_shape,
    shape_yaml,
};
use crate::store::{LoadError, NodeFile, Store, file_ids, first_with, load_error_is, loaded, load_from};
use crate::templates::KitKind;
use crate::text::{dec, owned};

verus! {

/// A profile's rules for the node kind named `nt` (`shape` or
/// `constraint`; none for any other name).
pub open spec fn section_for(p: Profile, nt: Seq<char>) -> Option<crate::model::FieldSection> {
    match p.fields {
        Some(f) => if nt == "shape"@ {
            f.shape
        } else if nt == "constraint"@ {
            f.constraint
        } else {
            None
        },
        None => None,
    }
}

/// The kinds a profile allows for the node kind named `nt` (empty:
/// unrestricted).
pub open spec fn allowed_kinds(p: Profile, nt: Seq<char>) -> Seq<FieldDef> {
    match section_for(p, nt) {
        Some(s) => match s.intent {
            Some(g) => g.kinds@,
            None => Seq::empty(),
        },
        None => Seq::empty(),
    }
}

/// Whether a profile accepts `kind` for the node kind named `nt`.
pub open spec fn kind_allowed(p: Profile, nt: Seq<char>, kind: Seq<char>) -> bool {
    allowed_kinds(p, nt).len() == 0 || names_hold(allowed_kinds(p, nt), kind)
}

/// The kind allow-list of a profile applies to shapes and constraints
/// alike: when the profile's section for the node kind has intent rules
/// `g`, a kind is accepted exactly when `g` lists no kinds or one of
/// them bears its name.
pub proof fn law_kind_allow_list(p: Profile, for_shape: bool, g: crate::model::FieldGroup, kind: Seq<char>)
    requires
        p.fields matches Some(f) && (if for_shape { f.shape } else { f.constraint }) matches Some(sec)
            && sec.intent == Some(g),
    ensures
        kind_allowed(p, if for_shape { "shape"@ } else { "constraint"@ }, kind) <==> (g.kinds@.len() == 0
            || exists|i: int| 0 <= i < g.kinds@.len() && #[trigger] g.kinds@[i].name@ == kind),
{
    reveal_strlit("shape");
    reveal_strlit("constraint");
    assert("constraint"@ != "shape"@) by {
        assert("constraint"@.len() != "shape"@.len());
    }
    let nt = if for_shape { "shape"@ } else { "constraint"@ };
    assert(allowed_kinds(p, nt) == g.kinds@);
}

/// A profile without intent rules for the node kind accepts any kind.
pub proof fn law_no_allow_list_accepts_any_kind(p: Profile, for_shape: bool, kind: Seq<char>)
    requires
        match p.fields {
            None => true,
            Some(f) => match (if for_shape { f.shape } else { f.constraint }) {
                None => true,
                Some(sec) => sec.intent is None,
            },
        },
    ensures
        kind_allowed(p, if for_shape { "shape"@ } else { "constraint"@ }, kind),
{
    reveal_strlit("shape");
    reveal_strlit("constraint");
    assert("constraint"@ != "shape"@) by {
        assert("constraint"@.len() != "shape"@.len());
    }
}

/// A constraint created from flags with a kind that its governing
/// profile's constraint allow-list does not hold is refused with
/// `InvalidKind`, naming the kind and the profile.
pub proof fn law_constraint_kind_outside_allow_list_is_refused(
    st: Store,
    args: CreateConstraintArgs,
    active_profile: ProfileId,
    r: Result<Created, CliError>,
)
    requires
        constraint_created(st, args, active_profile, r),
        loaded(st.profiles@, create_profile_id(args.profile, active_profile)) matches Some(p) && args.kind matches Some(
            k,
        ) && p.fields matches Some(f) && f.constraint matches Some(sec) && sec.intent matches Some(g)
            && g.kinds@.len() > 0 && forall|i: int| 0 <= i < g.kinds@.len() ==> #[trigger] g.kinds@[i].name@ != k@,
    ensures
        r matches Err(CliError::Create(CreateError::InvalidKind { kind, profile_id, .. })) && kind@
            == args.kind->Some_0@ && profile_id == loaded(st.profiles@, create_profile_id(args.profile, active_profile))->Some_0.id.0,
{
    let p = loaded(st.profiles@, create_profile_id(args.profile, active_profile))->Some_0;
    law_kind_allow_list(p, false, p.fields->Some_0.constraint->Some_0.intent->Some_0, args.kind->Some_0@);
}

/// A shape created from flags with a kind that its governing profile's
/// shape allow-list does not hold is refused with `InvalidKind`, naming
/// the kind and the profile.
pub proof fn law_shape_kind_outside_allow_list_is_refused(
    st: Store,
    args: CreateShapeArgs,
    active_profile: ProfileId,
    r: Result<Created, CliError>,
)
    requires
        shape_created(st, args, active_profile, r),
        loaded(st.profiles@, create_profile_id(args.profile, active_profile)) matches Some(p) && args.kind matches Some(
            k,
        ) && p.fields matches Some(f) && f.shape matches Some(sec) && sec.intent matches Some(g)
            && g.kinds@.len() > 0 && forall|i: int| 0 <= i < g.kinds@.len() ==> #[trigger] g.kinds@[i].name@ != k@,
    ensures
        r matches Err(CliError::Create(CreateError::InvalidKind { kind, profile_id, .. })) && kind@
            == args.kind->Some_0@ && profile_id == loaded(st.profiles@, create_profile_id(args.profile, active_profile))->Some_0.id.0,
{
    let p = loaded(st.profiles@, create_profile_id(args.profile, active_profile))->Some_0;
    law_kind_allow_list(p, true, p.fields->Some_0.shape->Some_0.intent->Some_0, args.kind->Some_0@);
}

/// Checks `kind` against the profile's allow-list for the node kind
/// named `node_type_str`; profiles without a list accept any kind.
pub fn validate_kind_against_profile(profile: &Profile, node_type_str: &str, kind: &str) -> (r: Result<(), CreateError>)
    ensures
        match r {
            Ok(()) => kind_allowed(*profile, node_type_str@, kind@),
            Err(CreateError::InvalidKind { kind: k, profile_id, allowed }) => {
                &&& !kind_allowed(*profile, node_type_str@, kind@)
                &&& k@ == kind@
                &&& profile_id == profile.id.0
                &&& allowed@ == join(def_names(allowed_kinds(*profile, node_type_str@)), ", "@)
            },
        },
{
    proof {
        reveal_strlit("shape");
        reveal_strlit("constraint");
    }
    let fields = match &profile.fields {
        Some(f) => f,
        None => return Ok(()),
    };
    let section = if same_text(node_type_str, "shape") {
        match &fields.shape {
            Some(s) => s,
            None => return Ok(()),
        }
    } else if same_text(node_type_str, "constraint") {
        match &fields.constraint {
            Some(s) => s,
            None => return Ok(()),
        }
    } else {
        return Ok(());
    };
    if let Some(group) = &section.intent {
        if group.kinds.len() > 0 && !has_name(&group.kinds, kind) {
            return Err(
                CreateError::InvalidKind {
                    kind: owned(kind),
                    profile_id: profile.id.0,
                    allowed: join_names(&group.kinds),
                },
            );
        }
    }
    Ok(())
}

/// The default kind a profile declares for shapes (`for_shape`) or
/// constraints.
pub open spec fn default_kind_of(p: Profile, for_shape: bool) -> Option<Seq<char>> {
    match p.fields {
        Some(f) => match (if for_shape {
            f.shape
        } else {
            f.constraint
        }) {
            Some(s) => match s.default_kind {
                Some(d) => Some(d@),
                None => None,
            },
            None => None,
        },
        None => None,
    }
}

fn default_kind(profile: &Profile, for_shape: bool) -> (r: Option<&str>)
    ensures
        match r {
            Some(k) => default_kind_of(*profile, for_shape) == Some(k@),
            None => default_kind_of(*profile, for_shape) is None,
        },
{
    match &profile.fields {
        Some(f) => {
            let sec = if for_shape {
                &f.shape
            } else {
                &f.constraint
            };
            match sec {
                Some(s) => match &s.default_kind {
                    Some(d) => Some(d.as_str()),
                    None => None,
                },
                None => None,
            }
        },
        None => None,
    }
}

/// The shape kind a profile defaults to, if it declares one.
pub fn shape_default_kind(profile: &Profile) -> (r: Option<&str>)
    ensures
        match r {
            Some(k) => default_kind_of(*profile, true) == Some(k@),
            None => default_kind_of(*profile, true) is None,
        },
{
    default_kind(profile, true)
}

/// The constraint kind a profile defaults to, if it declares one.
pub fn constraint_default_kind(profile: &Profile) -> (r: Option<&str>)
    ensures
        match r {
            Some(k) => default_kind_of(*profile, false) == Some(k@),
            None => default_kind_of(*profile, false) is None,
        },
{
    default_kind(profile, false)
}

/// The largest of `ids`, or 0.
pub open spec fn max_id(ids: Seq<u64>) -> u64
    decreases ids.len(),
{
    if ids.len() == 0 {
        0
    } else {
        let m = max_id(ids.drop_last());
        if ids.last() > m {
            ids.last()
        } else {
            m
        }
    }
}

proof fn lemma_max_id(ids: Seq<u64>)
    ensures
        forall|i: int| 0 <= i < ids.len() ==> ids[i] <= max_id(ids),
        ids.len() == 0 || ids.contains(max_id(ids)),
    decreases ids.len(),
{
    if ids.len() > 0 {
        lemma_max_id(ids.drop_last());
        assert forall|i: int| 0 <= i < ids.len() implies ids[i] <= max_id(ids) by {
            if i < ids.len() - 1 {
                assert(ids[i] == ids.drop_last()[i]);
            }
        }
        if ids.drop_last().len() > 0 && max_id(ids) == max_id(ids.drop_last()) {
            let k = choose|k: int| 0 <= k < ids.drop_last().len() && ids.drop_last()[k] == max_id(ids);
            assert(ids[k] == max_id(ids));
        }
        if max_id(ids) == ids.last() {
            assert(ids[ids.len() - 1] == max_id(ids));
        }
        if ids.drop_last().len() == 0 {
            assert(ids[0] == ids.last());
        }
    }
}

/// The next free id among `files`: one more than the largest id held.
pub fn next_id<T>(files: &Vec<NodeFile<T>>) -> (r: u64)
    requires
        forall|i: int| 0 <= i < files@.len() ==> files@[i].id < u64::MAX,
    ensures
        r == max_id(file_ids(files@)) + 1,
        forall|i: int| 0 <= i < files@.len() ==> files@[i].id < r,
{
    let ghost ids = file_ids(files@);
    let mut m: u64 = 0;
    let mut i: usize = 0;
    while i < files.len()
        invariant
            i <= files.len(),
            ids == file_ids(files@),
            m == max_id(ids.take(i as int)),
            m < u64::MAX,
            forall|j: int| 0 <= j < files@.len() ==> files@[j].id < u64::MAX,
        decreases files.len() - i,
    {
        assert(ids.take(i + 1).drop_last() =~= ids.take(i as int));
        assert(ids.take(i + 1).last() == files@[i as int].id);
        if files[i].id > m {
            m = files[i].id;
        }
        i = i + 1;
    }
    assert(ids.take(i as int) =~= ids);
    proof {
        lemma_max_id(ids);
        assert forall|j: int| 0 <= j < files@.len() implies files@[j].id < m + 1 by {
            assert(ids[j] == files@[j].id);
        }
    }
    m + 1
}

/// The message of a load failure.
pub open spec fn load_error_text(e: LoadError) -> Seq<char> {
    match e {
        LoadError::NotFound { node_type, id } => type_name_of(node_type) + " "@ + dec(id as nat)
            + " not found"@,
        LoadError::Invalid { message, .. } => message@,
    }
}

/// The message of a failed lookup of `id` among `f`.
pub open spec fn load_failure_text<T>(f: Seq<NodeFile<T>>, nt: NodeType, id: u64) -> Seq<char> {
    let i = first_with(f, id);
    if i < 0 {
        type_name_of(nt) + " "@ + dec(id as nat) + " not found"@
    } else {
        match f[i].node {
            Err(m) => m@,
            Ok(_) => Seq::empty(),
        }
    }
}

impl LoadError {
    /// The error message.
    pub fn message(&self) -> (r: String)
        ensures
            r@ == load_error_text(*self),
    {
        match self {
            LoadError::NotFound { node_type, id } => {
                let mut m = owned(node_type.name());
                append_str(&mut m, " ");
                append_num(&mut m, *id);
                append_str(&mut m, " not found");
                m
            },
            LoadError::Invalid { message, .. } => message.clone(),
        }
    }
}

/// The message when the governing profile `pid` does not load.
pub open spec fn profile_failure_text(f: Seq<NodeFile<Profile>>, pid: u64) -> Seq<char> {
    "failed to load active profile "@ + dec(pid as nat) + " referenced by .shapes/meta.yaml: "@
        + load_failure_text(f, NodeType::Profile, pid)
}

/// The profile governing a create: the override when given, else the
/// store's active profile.
pub fn resolve_active_profile<'a>(st: &'a Store, override_id: Option<u64>, active_profile: ProfileId) -> (r: Result<&'a Profile, CliError>)
    ensures
        ({
            let pid = match override_id {
                Some(x) => x,
                None => active_profile.0,
            };
            match r {
                Ok(p) => loaded(st.profiles@, pid) == Some(*p),
                Err(e) => {
                    &&& loaded(st.profiles@, pid) is None
                    &&& e matches CliError::Other(m) && m@ == profile_failure_text(st.profiles@, pid)
                },
            }
        }),
{
    let pid = match override_id {
        Some(x) => x,
        None => active_profile.0,
    };
    match load_from(&st.profiles, NodeType::Profile, pid) {
        Ok(p) => Ok(p),
        Err(le) => {
            let mut m = owned("failed to load active profile ");
            append_num(&mut m, pid);
            append_str(&mut m, " referenced by .shapes/meta.yaml: ");
            append_str(&mut m, le.message().as_str());
            Err(CliError::Other(m))
        },
    }
}

/// Arguments of `create shape` given as flags.
#[derive(Debug)]
pub struct CreateShapeArgs {
    /// `--name`.
    pub name: Option<String>,
    /// `--kind`.
    pub kind: Option<String>,
    /// `--summary`.
    pub summary: Option<String>,
    /// `--source`.
    pub source: String,
    /// `--profile` override.
    pub profile: Option<u64>,
    /// `--description`.
    pub description: Option<String>,
    /// `--kit`: the starter kit the scaffold is labelled with for this
    /// call (the profile owns every hint).
    pub kit: Option<KitKind>,
    /// The starter kit recorded in `meta.yaml`, used when `kit` is absent.
    pub store_kit: Option<KitKind>,
    /// `--from` path, or `-` for standard input.
    pub from: Option<String>,
}

/// A node created from flags: its id, name and scaffold text.
#[derive(Debug)]
pub struct Created {
    /// Allocated id.
    pub id: u64,
    /// Name (used for the file name).
    pub name: String,
    /// YAML text to write.
    pub yaml: String,
}

/// The text of an optional argument.
pub open spec fn opt_view(v: Option<String>) -> Option<Seq<char>> {
    match v {
        Some(x) => Some(x@),
        None => None,
    }
}

/// The id of the profile a create consults.
pub open spec fn create_profile_id(override_id: Option<u64>, active_profile: ProfileId) -> u64 {
    match override_id {
        Some(x) => x,
        None => active_profile.0,
    }
}

/// The message when a profile has no default kind for the node kind.
pub open spec fn no_default_text(pid: u64, node_kind: Seq<char>) -> Seq<char> {
    "active profile "@ + dec(pid as nat) + " declares no default "@ + node_kind
        + " kind — pass --kind or edit the profile"@
}

/// Resolves the kind of a create: the given kind, else the profile's
/// default for the node kind.
fn resolve_kind(given: &Option<String>, profile: &Profile, for_shape: bool) -> (r: Result<String, CliError>)
    ensures
        match r {
            Ok(k) => k@ == match opt_view(*given) {
                Some(g) => g,
                None => default_kind_of(*profile, for_shape)->Some_0,
            } && (given is Some || default_kind_of(*profile, for_shape) is Some),
            Err(e) => {
                &&& given is None
                &&& default_kind_of(*profile, for_shape) is None
                &&& e matches CliError::Other(m) && m@ == no_default_text(profile.id.0, if for_shape {
                    "shape"@
                } else {
                    "constraint"@
                })
            },
        },
{
    match given {
        Some(k) => Ok(k.clone()),
        None => match default_kind(profile, for_shape) {
            Some(d) => Ok(owned(d)),
            None => {
                let mut m = owned("active profile ");
                append_num(&mut m, profile.id.0);
                append_str(&mut m, " declares no default ");
                append_str(&mut m, if for_shape { "shape" } else { "constraint" });
                append_str(&mut m, " kind — pass --kind or edit the profile");
                Err(CliError::Other(m))
            },
        },
    }
}

/// `Some(s)` as a string slice.
fn opt_str(v: &Option<String>) -> (r: Option<&str>)
    ensures
        crate::scaffold::opt_text(r) == opt_view(*v),
{
    match v {
        Some(s) => Some(s.as_str()),
        None => None,
    }
}

/// The name of the kit a scaffold is labelled with: the one given for
/// the call, else the store's.
pub open spec fn template_of(kit: Option<KitKind>, store_kit: Option<KitKind>) -> Option<Seq<char>> {
    match kit {
        Some(k) => Some(crate::templates::kit_name(k)),
        None => match store_kit {
            Some(k) => Some(crate::templates::kit_name(k)),
            None => None,
        },
    }
}

/// The kit label of a scaffold (see [`template_of`]).
fn scaffold_template(kit: Option<KitKind>, store_kit: Option<KitKind>) -> (r: Option<&'static str>)
    ensures
        crate::scaffold::opt_text(r) == template_of(kit, store_kit),
{
    match kit {
        Some(k) => Some(k.label()),
        None => match store_kit {
            Some(k) => Some(k.label()),
            None => None,
        },
    }
}

/// What `create` of a shape from flags gives: the error when the
/// governing profile does not load, has no default kind to fall back
/// on, or refuses the kind; else the next id and the scaffold.
pub open spec fn shape_created(st: Store, args: CreateShapeArgs, active_profile: ProfileId, r: Result<Created, CliError>) -> bool {
    let pid = create_profile_id(args.profile, active_profile);
    match loaded(st.profiles@, pid) {
        None => r matches Err(CliError::Other(m)) && m@ == profile_failure_text(st.profiles@, pid),
        Some(p) => if args.kind is None && default_kind_of(p, true) is None {
            r matches Err(CliError::Other(m)) && m@ == no_default_text(p.id.0, "shape"@)
        } else {
            let kind = match opt_view(args.kind) {
                Some(g) => g,
                None => default_kind_of(p, true)->Some_0,
            };
            if !kind_allowed(p, "shape"@, kind) {
                r matches Err(CliError::Create(CreateError::InvalidKind { kind: k, profile_id, allowed }))
                    && k@ == kind && profile_id == p.id.0 && allowed@ == join(
                    def_names(allowed_kinds(p, "shape"@)),
                    ", "@,
                )
            } else {
                r matches Ok(c) && c.id == max_id(file_ids(st.shapes@)) + 1 && c.name@
                    == args.name->Some_0@ && c.yaml@ == shape_yaml(
                    c.id,
                    args.name->Some_0@,
                    kind,
                    opt_view(args.summary),
                    args.source@,
                    opt_view(args.description),
                    p,
                    template_of(args.kit, args.store_kit),
                )
            }
        },
    }
}

/// Creates a shape from flags: allocates the next id, resolves the
/// governing profile and kind, checks the kind against the profile, and
/// scaffolds the YAML.
pub fn create_shape(st: &Store, args: &CreateShapeArgs, active_profile: ProfileId) -> (r: Result<Created, CliError>)
    requires
        args.name is Some,
        forall|i: int| 0 <= i < st.shapes@.len() ==> st.shapes@[i].id < u64::MAX,
    ensures
        shape_created(*st, *args, active_profile, r),
{
    let id = next_id(&st.shapes);
    let name = match &args.name {
        Some(n) => n,
        None => {
            assert(false);
            return Err(CliError::Other(String::new()));
        },
    };
    let profile = match resolve_active_profile(st, args.profile, active_profile) {
        Ok(p) => p,
        Err(e) => return Err(e),
    };
    let kind = match resolve_kind(&args.kind, profile, true) {
        Ok(k) => k,
        Err(e) => return Err(e),
    };
    if let Err(e) = validate_kind_against_profile(profile, "shape", kind.as_str()) {
        return Err(CliError::Create(e));
    }
    let yaml = scaffold_shape(
        &ShapeScaffold {
            id: ShapeId(id),
            name: name.as_str(),
            kind: kind.as_str(),
            summary: opt_str(&args.summary),
            source: args.source.as_str(),
            description: opt_str(&args.description),
            profile,
            template: scaffold_template(args.kit, args.store_kit),
        },
    );
    Ok(Created { id, name: name.clone(), yaml })
}

/// Arguments of `create constraint` given as flags.
#[derive(Debug)]
pub struct CreateConstraintArgs {
    /// `--name`.
    pub name: Option<String>,
    /// `--kind`.
    pub kind: Option<String>,
    /// `--rule`.
    pub rule: Option<String>,
    /// `--enforcement`.
    pub enforcement: Enforcement,
    /// `--summary`.
    pub summary: Option<String>,
    /// `--source`.
    pub source: String,
    /// `--intent-kind` (defaults to the kind).
    pub intent_kind: Option<String>,
    /// `--profile` override.
    pub profile: Option<u64>,
    /// `--description`.
    pub description: Option<String>,
    /// `--kit`: the starter kit the scaffold is labelled with for this
    /// call (the profile owns every hint).
    pub kit: Option<KitKind>,
    /// The starter kit recorded in `meta.yaml`, used when `kit` is absent.
    pub store_kit: Option<KitKind>,
    /// `--from` path, or `-` for standard input.
    pub from: Option<String>,
}

/// What `create` of a constraint from flags gives, as
/// [`shape_created`] does for shapes.
pub open spec fn constraint_created(st: Store, args: CreateConstraintArgs, active_profile: ProfileId, r: Result<Created, CliError>) -> bool {
    let pid = create_profile_id(args.profile, active_profile);
    match loaded(st.profiles@, pid) {
        None => r matches Err(CliError::Other(m)) && m@ == profile_failure_text(st.profiles@, pid),
        Some(p) => if args.kind is None && default_kind_of(p, false) is None {
            r matches Err(CliError::Other(m)) && m@ == no_default_text(p.id.0, "constraint"@)
        } else {
            let kind = match opt_view(args.kind) {
                Some(g) => g,
                None => default_kind_of(p, false)->Some_0,
            };
            if !kind_allowed(p, "constraint"@, kind) {
                r matches Err(CliError::Create(CreateError::InvalidKind { kind: k, profile_id, allowed }))
                    && k@ == kind && profile_id == p.id.0 && allowed@ == join(
                    def_names(allowed_kinds(p, "constraint"@)),
                    ", "@,
                )
            } else {
                r matches Ok(c) && c.id == max_id(file_ids(st.constraints@)) + 1 && c.name@
                    == args.name->Some_0@ && c.yaml@ == constraint_yaml(
                    c.id,
                    args.name->Some_0@,
                    kind,
                    opt_view(args.rule),
                    args.enforcement,
                    opt_view(args.summary),
                    args.source@,
                    opt_view(args.description),
                    opt_view(args.intent_kind),
                    p,
                    template_of(args.kit, args.store_kit),
                )
            }
        },
    }
}

/// Creates a constraint from flags, as [`create_shape`] does a shape.
pub fn create_constraint(st: &Store, args: &CreateConstraintArgs, active_profile: ProfileId) -> (r: Result<Created, CliError>)
    requires
        args.name is Some,
        forall|i: int| 0 <= i < st.constraints@.len() ==> st.constraints@[i].id < u64::MAX,
    ensures
        constraint_created(*st, *args, active_profile, r),
{
    let id = next_id(&st.constraints);
    let name = match &args.name {
        Some(n) => n,
        None => {
            assert(false);
            return Err(CliError::Other(String::new()));
        },
    };
    let profile = match resolve_active_profile(st, args.profile, active_profile) {
        Ok(p) => p,
        Err(e) => return Err(e),
    };
    let kind = match resolve_kind(&args.kind, profile, false) {
        Ok(k) => k,
        Err(e) => return Err(e),
    };
    if let Err(e) = validate_kind_against_profile(profile, "constraint", kind.as_str()) {
        return Err(CliError::Create(e));
    }
    let yaml = scaffold_constraint(
        &ConstraintScaffold {
            id,
            name: name.as_str(),
            kind: kind.as_str(),
            rule: opt_str(&args.rule),
            enforcement: args.enforcement,
            summary: opt_str(&args.summary),
            source: args.source.as_str(),
            description: opt_str(&args.description),
            intent_kind: opt_str(&args.intent_kind),
            profile,
            template: scaffold_template(args.kit, args.store_kit),
        },
    );
    Ok(Created { id, name: name.clone(), yaml })
}

/// Arguments of `create amendment` given as flags.
#[derive(Debug)]
pub struct CreateAmendmentArgs {
    /// `--name`.
    pub name: Option<String>,
    /// `--target-shape` ids.
    pub target_shapes: Vec<ShapeId>,
    /// `--target-constraint` ids.
    pub target_constraints: Vec<ConstraintId>,
    /// `--target-profile` ids.
    pub target_profiles: Vec<ProfileId>,
    /// `--summary`.
    pub summary: Option<String>,
    /// `--source`.
    pub source: String,
    /// `--version-impact`.
    pub version_impact: Option<VersionImpact>,
    /// `--description`.
    pub description: Option<String>,
    /// `--from` path, or `-` for standard input.
    pub from: Option<String>,
}

/// The amendment `create` records from flags under id `id`.
pub open spec fn amendment_created(id: AmendmentId, args: CreateAmendmentArgs, a: Amendment) -> bool {
    &&& a.id == id
    &&& a.name@ == args.name->Some_0@
    &&& a.description@ == match opt_view(args.description) {
            Some(d) => d,
            None => args.name->Some_0@,
        }
    &&& a.targets.shape_ids@ == args.target_shapes@
    &&& a.targets.constraint_ids@ == args.target_constraints@
    &&& a.targets.profile_ids@ == args.target_profiles@
    &&& a.status matches Status::Proposed(d) && crate::model::empty_status_detail(d)
    &&& a.version_impact == args.version_impact
    &&& a.intent.kind@ == "amendment"@
    &&& a.intent.summary@ == match opt_view(args.summary) {
            Some(x) => x,
            None => args.name->Some_0@,
        }
    &&& a.intent.source.kind == YamlKind::String && a.intent.source.text@ == args.source@
    &&& a.intent.uris@.len() == 0
    &&& a.intent.extra@.len() == 0
    &&& a.constraints@.len() == 0
    &&& a.realization@.len() == 0
    &&& a.evidence@.len() == 0
    &&& a.provenance@.len() == 0
    &&& a.initiated_by.initiated_type == InitiatedType::Human
    &&& a.initiated_by.identity is None
    &&& a.initiated_by.provenance is None
    &&& a.archived is No
    &&& a.metadata@.len() == 0
}

/// Builds the amendment `create amendment` records from flags: proposed,
/// initiated by a human, not archived, with the name standing in for a
/// missing description and summary.
pub fn create_amendment(id: AmendmentId, args: CreateAmendmentArgs) -> (a: Amendment)
    requires
        args.name is Some,
    ensures
        amendment_created(id, args, a),
{
    let name = match args.name {
        Some(n) => n,
        None => {
            assert(false);
            String::new()
        },
    };
    let description = match args.description {
        Some(d) => d,
        None => name.clone(),
    };
    let summary = match args.summary {
        Some(x) => x,
        None => name.clone(),
    };
    Amendment {
        id,
        name,
        description,
        targets: AmendmentTargets {
            shape_ids: args.target_shapes,
            constraint_ids: args.target_constraints,
            profile_ids: args.target_profiles,
        },
        status: Status::Proposed(StatusDetail::empty()),
        version_impact: args.version_impact,
        intent: Intent {
            kind: owned("amendment"),
            summary,
            source: YamlValue::string(args.source.as_str()),
            uris: Vec::new(),
            extra: Vec::new(),
        },
        constraints: Vec::new(),
        realization: Vec::new(),
        evidence: Vec::new(),
        provenance: Vec::new(),
        initiated_by: InitiatedBy { initiated_type: InitiatedType::Human, identity: None, provenance: None },
        archived: Archived::No,
        metadata: Vec::new(),
    }
}

/// Arguments of `create profile` given as flags.
#[derive(Debug)]
pub struct CreateProfileArgs {
    /// `--name`.
    pub name: Option<String>,
    /// `--kit` (the software kit when absent).
    pub kit: Option<KitKind>,
    /// `--from` path, or `-` for standard input.
    pub from: Option<String>,
}

/// The kit a `create profile` seeds from: the given one, else software.
pub open spec fn chosen_kit(k: Option<KitKind>) -> KitKind {
    match k {
        Some(x) => x,
        None => KitKind::Software,
    }
}

/// The profile `create` records from flags: the chosen kit's seeded
/// profile under the next id.
pub open spec fn profile_created(st: Store, args: CreateProfileArgs, p: Profile) -> bool {
    &&& p.id.0 == max_id(file_ids(st.profiles@)) + 1
    &&& p.name@ == args.name->Some_0@
    &&& exists|k: crate::templates::StarterKit|
        crate::templates::kit_view(k) == crate::templates::kit_spec(chosen_kit(args.kit))
            && #[trigger] crate::templates::seeded_profile(p, k, p.id, args.name->Some_0@)
    &&& default_kind_of(p, true) == Some(crate::templates::kit_defaults(chosen_kit(args.kit)).0)
    &&& default_kind_of(p, false) == Some(crate::templates::kit_defaults(chosen_kit(args.kit)).1)
    &&& crate::profile_checks::profile_consistency(p) == Seq::<crate::issues::IssueSpec>::empty()
}

/// Builds the profile `create profile` records from flags: the chosen
/// kit's seeded profile under the next id and the given name.
pub fn create_profile(st: &Store, args: &CreateProfileArgs) -> (p: Profile)
    requires
        args.name is Some,
        forall|i: int| 0 <= i < st.profiles@.len() ==> st.profiles@[i].id < u64::MAX,
    ensures
        profile_created(*st, *args, p),
{
    let id = next_id(&st.profiles);
    let kit = match args.kit {
        Some(k) => k,
        None => KitKind::Software,
    };
    let name = match &args.name {
        Some(n) => n.as_str(),
        None => {
            assert(false);
            ""
        },
    };
    let k = kit.kit();
    k.build_profile(ProfileId(id), name)
}

/// A `create` request, by node kind.
#[derive(Debug)]
pub enum CreateCommand {
    /// `create shape`.
    Shape(CreateShapeArgs),
    /// `create constraint`.
    Constraint(CreateConstraintArgs),
    /// `create amendment`.
    Amendment(CreateAmendmentArgs),
    /// `create profile`.
    Profile(CreateProfileArgs),
}

/// What a `create` asks to be written.
#[derive(Debug)]
pub enum CreateOutcome {
    /// Read the node from `path` (`-`: standard input), give it `id`, and
    /// save it.
    FromFile {
        /// Kind of the node.
        node_type: NodeType,
        /// The id it gets.
        id: u64,
        /// Where to read it.
        path: String,
    },
    /// Write a scaffold.
    Scaffold {
        /// Kind of the node.
        node_type: NodeType,
        /// Id, name and text.
        created: Created,
    },
    /// Save the amendment.
    Amendment(Amendment),
    /// Save the profile.
    Profile(Profile),
}

/// The `--from` path of a request, if any.
pub open spec fn from_of(cmd: CreateCommand) -> Option<String> {
    match cmd {
        CreateCommand::Shape(a) => a.from,
        CreateCommand::Constraint(a) => a.from,
        CreateCommand::Amendment(a) => a.from,
        CreateCommand::Profile(a) => a.from,
    }
}

/// Whether a request names its node (needed when it reads no file).
pub open spec fn names_node(cmd: CreateCommand) -> bool {
    match cmd {
        CreateCommand::Shape(a) => a.name is Some,
        CreateCommand::Constraint(a) => a.name is Some,
        CreateCommand::Amendment(a) => a.name is Some,
        CreateCommand::Profile(a) => a.name is Some,
    }
}

/// The kind of node a request creates.
pub open spec fn command_type(cmd: CreateCommand) -> NodeType {
    match cmd {
        CreateCommand::Shape(_) => NodeType::Shape,
        CreateCommand::Constraint(_) => NodeType::Constraint,
        CreateCommand::Amendment(_) => NodeType::Amendment,
        CreateCommand::Profile(_) => NodeType::Profile,
    }
}

/// The ids already taken by nodes of kind `nt`.
pub open spec fn taken_ids(st: Store, nt: NodeType) -> Seq<u64> {
    match nt {
        NodeType::Shape => file_ids(st.shapes@),
        NodeType::Constraint => file_ids(st.constraints@),
        NodeType::Amendment => file_ids(st.amendments@),
        NodeType::Profile => file_ids(st.profiles@),
    }
}

/// Ids below the maximum in the id list are ids below it in the files.
proof fn lemma_taken_below_max<T>(f: Seq<NodeFile<T>>)
    requires
        forall|i: int| 0 <= i < file_ids(f).len() ==> file_ids(f)[i] < u64::MAX,
    ensures
        forall|i: int| 0 <= i < f.len() ==> f[i].id < u64::MAX,
{
    assert forall|i: int| 0 <= i < f.len() implies f[i].id < u64::MAX by {
        assert(file_ids(f)[i] == f[i].id);
    }
}

/// Dispatches a `create` request: with `--from`, the file to read and
/// the id the node gets; otherwise the node or scaffold built from the
/// flags, as the per-kind creates give it.
pub fn create(st: &Store, cmd: CreateCommand, active_profile: ProfileId) -> (r: Result<CreateOutcome, CliError>)
    requires
        from_of(cmd) is None ==> names_node(cmd),
        forall|i: int| 0 <= i < taken_ids(*st, command_type(cmd)).len() ==> taken_ids(*st, command_type(cmd))[i] < u64::MAX,
    ensures
        match from_of(cmd) {
            Some(path) => r matches Ok(CreateOutcome::FromFile { node_type, id, path: p }) && node_type
                == command_type(cmd) && id == max_id(taken_ids(*st, command_type(cmd))) + 1 && p@ == path@,
            None => match cmd {
                CreateCommand::Shape(a) => match r {
                    Ok(CreateOutcome::Scaffold { node_type: NodeType::Shape, created }) => shape_created(
                        *st,
                        a,
                        active_profile,
                        Ok(created),
                    ),
                    Err(e) => shape_created(*st, a, active_profile, Err(e)),
                    _ => false,
                },
                CreateCommand::Constraint(a) => match r {
                    Ok(CreateOutcome::Scaffold { node_type: NodeType::Constraint, created }) => constraint_created(
                        *st,
                        a,
                        active_profile,
                        Ok(created),
                    ),
                    Err(e) => constraint_created(*st, a, active_profile, Err(e)),
                    _ => false,
                },
                CreateCommand::Amendment(a) => r matches Ok(CreateOutcome::Amendment(x)) && amendment_created(
                    AmendmentId((max_id(file_ids(st.amendments@)) + 1) as u64),
                    a,
                    x,
                ),
                CreateCommand::Profile(a) => r matches Ok(CreateOutcome::Profile(x)) && profile_created(*st, a, x),
            },
        },
{
    proof {
        let nt = command_type(cmd);
        let t = taken_ids(*st, nt);
        assert(forall|i: int| 0 <= i < t.len() ==> t[i] < u64::MAX);
        match nt {
            NodeType::Shape => lemma_taken_below_max(st.shapes@),
            NodeType::Constraint => lemma_taken_below_max(st.constraints@),
            NodeType::Amendment => lemma_taken_below_max(st.amendments@),
            NodeType::Profile => lemma_taken_below_max(st.profiles@),
        }
    }
    match cmd {
        CreateCommand::Shape(a) => match a.from {
            Some(path) => Ok(CreateOutcome::FromFile { node_type: NodeType::Shape, id: next_id(&st.shapes), path }),
            None => match create_shape(st, &a, active_profile) {
                Ok(created) => Ok(CreateOutcome::Scaffold { node_type: NodeType::Shape, created }),
                Err(e) => Err(e),
            },
        },
        CreateCommand::Constraint(a) => match a.from {
            Some(path) => Ok(
                CreateOutcome::FromFile { node_type: NodeType::Constraint, id: next_id(&st.constraints), path },
            ),
            None => match create_constraint(st, &a, active_profile) {
                Ok(created) => Ok(CreateOutcome::Scaffold { node_type: NodeType::Constraint, created }),
                Err(e) => Err(e),
            },
        },
        CreateCommand::Amendment(a) => {
            let id = next_id(&st.amendments);
            match a.from {
                Some(path) => Ok(CreateOutcome::FromFile { node_type: NodeType::Amendment, id, path }),
                None => Ok(CreateOutcome::Amendment(create_amendment(AmendmentId(id), a))),
            }
        },
        CreateCommand::Profile(a) => match a.from {
            Some(path) => Ok(
                CreateOutcome::FromFile { node_type: NodeType::Profile, id: next_id(&st.profiles), path },
            ),
            None => Ok(CreateOutcome::Profile(create_profile(st, &a))),
        },
    }
}

/// The amendment with its `archived` flag set (with the reason, when
/// given); every other field is kept. An amendment that is already
/// archived comes back as it was.
pub fn archive(a: Amendment, reason: Option<String>) -> (r: Amendment)
    ensures
        a.archived is Yes ==> r == a,
        a.archived is No ==> r == (Amendment {
            archived: match reason {
                Some(x) => Archived::Yes(Some(x)),
                None => Archived::Yes(None),
            },
            ..a
        }),
{
    if let Archived::Yes(_) = &a.archived {
        return a;
    }
    let mut r = a;
    r.archived = match reason {
        Some(x) => Archived::Yes(Some(x)),
        None => Archived::Yes(None),
    };
    r
}

/// The amendment with its `archived` flag cleared; every other field is
/// kept.
pub fn unarchive(a: Amendment) -> (r: Amendment)
    ensures
        r == (Amendment { archived: Archived::No, ..a }),
{
    let mut r = a;
    r.archived = Archived::No;
    r
}

/// Unarchiving what `archive` made of an amendment that was not
/// archived gives the amendment back.
pub proof fn law_unarchive_undoes_archive(a: Amendment, reason: Option<String>)
    requires
        a.archived is No,
    ensures
        (Amendment {
            archived: Archived::No,
            ..Amendment {
                archived: match reason {
                    Some(x) => Archived::Yes(Some(x)),
                    None => Archived::Yes(None),
                },
                ..a
            }
        }) == a,
{
}

/// A profile seeded from a well-formed kit accepts the kit's own
/// default kinds, so a create that falls back to the default never
/// fails the kind check.
pub proof fn law_seeded_defaults_allowed(k: crate::templates::StarterKit, p: Profile)
    requires
        crate::templates::kit_well_formed(k),
        crate::templates::seeded_fields(p, k),
    ensures
        kind_allowed(p, "shape"@, k.default_shape_kind@),
        kind_allowed(p, "constraint"@, k.default_constraint_kind@),
{
    reveal_strlit("shape");
    reveal_strlit("constraint");
    let f = p.fields->Some_0;
    let gs = f.shape->Some_0.intent->Some_0;
    let gc = f.constraint->Some_0.intent->Some_0;
    assert(def_names(gs.kinds@) =~= crate::templates::kind_hint_names(k.shape_kinds@));
    assert(def_names(gc.kinds@) =~= crate::templates::kind_hint_names(k.constraint_kinds@));
    assert(allowed_kinds(p, "shape"@) == gs.kinds@);
    assert("constraint"@.len() != "shape"@.len());
    assert(allowed_kinds(p, "constraint"@) == gc.kinds@);
    if k.shape_kinds@.len() > 0 {
        let j = choose|j: int| 0 <= j < def_names(gs.kinds@).len() && def_names(gs.kinds@)[j] == k.default_shape_kind@;
        assert(gs.kinds@[j].name@ == k.default_shape_kind@);
    }
    if k.constraint_kinds@.len() > 0 {
        let j = choose|j: int| 0 <= j < def_names(gc.kinds@).len() && def_names(gc.kinds@)[j] == k.default_constraint_kind@;
        assert(gc.kinds@[j].name@ == k.default_constraint_kind@);
    }
}

} // verus!
