//! Schema metadata: the type registry used for introspection, the
//! subscription root built at startup, and field dispatch.

use vstd::prelude::*;
use crate::args::{ArgSpec, arg_spec_wf, check_type};
use crate::error::{ErrorKind, GqlError, Pos};
use crate::response::CacheControl;

verus! {

broadcast use vstd::std_specs::vec::group_vec_axioms, vstd::seq::group_seq_axioms;

/// Metadata of one subscription field.
#[derive(Debug)]
pub struct FieldMeta {
    pub name: String,
    pub description: Option<String>,
    pub deprecation: Option<String>,
    pub args: Vec<ArgSpec>,
    pub ty_name: String,
    pub cache_control: CacheControl,
}

/// Argument names are unique within a field and every default value has
/// the shape of its declared type.
pub open spec fn field_meta_wf(f: FieldMeta) -> bool {
    &&& (forall|i: int, j: int|
        0 <= i < j < f.args@.len() ==> #[trigger] f.args@[i].name@ != #[trigger] f.args@[j].name@)
    &&& (forall|i: int| 0 <= i < f.args@.len() ==> arg_spec_wf(#[trigger] f.args@[i]))
}

/// Whether a field of this name is declared.
pub open spec fn has_field(fields: Seq<FieldMeta>, name: Seq<char>) -> bool {
    exists|i: int| 0 <= i < fields.len() && (#[trigger] fields[i]).name@ == name
}

/// The subscription root type: its GraphQL type name and its fields, in
/// declaration order. Built once at startup, read-only afterwards.
pub struct SubscriptionRoot {
    pub object_name: String,
    pub fields: Vec<FieldMeta>,
}

/// Field names are unique within the root and each field is well-formed.
pub open spec fn root_wf(r: SubscriptionRoot) -> bool {
    &&& (forall|i: int, j: int|
        0 <= i < j < r.fields@.len() ==> #[trigger] r.fields@[i].name@ != #[trigger] r.fields@[
            j
        ].name@)
    &&& (forall|i: int| 0 <= i < r.fields@.len() ==> field_meta_wf(#[trigger] r.fields@[i]))
}

/// Why a field declaration is rejected at build time.
#[derive(PartialEq, Eq, Structural, Clone, Copy, Debug)]
pub enum SchemaError {
    /// Subscription fields support only a guard checked before stream
    /// creation; a per-item guard is rejected here rather than masked.
    PostGuardUnsupported,
    DuplicateField,
    DuplicateArgument,
    DefaultHasWrongType,
}

/// Whether all argument names in a declaration are pairwise distinct.
fn args_unique(args: &Vec<ArgSpec>) -> (b: bool)
    ensures
        b == (forall|i: int, j: int|
            0 <= i < j < args@.len() ==> #[trigger] args@[i].name@ != #[trigger] args@[j].name@),
{
    let mut i: usize = 0;
    while i < args.len()
        invariant
            i <= args@.len(),
            forall|p: int, q: int|
                0 <= p < q < args@.len() && p < i ==> #[trigger] args@[p].name@ != #[trigger] args@[
                    q
                ].name@,
        decreases args@.len() - i,
    {
        let mut j: usize = i + 1;
        while j < args.len()
            invariant
                i < j <= args@.len(),
                forall|q: int| i < q < j ==> args@[i as int].name@ != #[trigger] args@[q].name@,
                forall|p: int, q: int|
                    0 <= p < q < args@.len() && p < i ==> #[trigger] args@[p].name@
                        != #[trigger] args@[q].name@,
            decreases args@.len() - j,
        {
            if args[i].name == args[j].name {
                return false;
            }
            j = j + 1;
        }
        i = i + 1;
    }
    true
}

/// Whether every declared default has the shape of its argument's type.
fn defaults_wf(args: &Vec<ArgSpec>) -> (b: bool)
    ensures
        b == (forall|i: int| 0 <= i < args@.len() ==> arg_spec_wf(#[trigger] args@[i])),
{
    let mut i: usize = 0;
    while i < args.len()
        invariant
            i <= args@.len(),
            forall|k: int| 0 <= k < i ==> arg_spec_wf(#[trigger] args@[k]),
        decreases args@.len() - i,
    {
        let ok = match &args[i].default {
            Some(d) => check_type(d, &args[i].ty),
            None => true,
        };
        if !ok {
            return false;
        }
        i = i + 1;
    }
    true
}

/// Whether a field of this name is already declared.
fn find_field(fields: &Vec<FieldMeta>, name: &String) -> (r: Option<usize>)
    ensures
        r matches Some(i) ==> i < fields@.len() && fields@[i as int].name@ == name@ && (forall|
            j: int,
        |
            0 <= j < i ==> (#[trigger] fields@[j]).name@ != name@),
        r is None ==> !has_field(fields@, name@),
{
    let mut i: usize = 0;
    while i < fields.len()
        invariant
            i <= fields@.len(),
            forall|j: int| 0 <= j < i ==> (#[trigger] fields@[j]).name@ != name@,
        decreases fields@.len() - i,
    {
        if fields[i].name == *name {
            return Some(i);
        }
        i = i + 1;
    }
    None
}

impl SubscriptionRoot {
    /// An empty root with the given type name.
    pub fn create(object_name: String) -> (r: SubscriptionRoot)
        ensures
            r.object_name == object_name,
            r.fields@.len() == 0,
            root_wf(r),
    {
        SubscriptionRoot { object_name, fields: Vec::new() }
    }

    /// Declares one field. A per-item ("post") guard is a schema-definition
    /// error; so are a duplicate field name, duplicate argument names, and
    /// a default value of the wrong shape. On success the field is appended
    /// in declaration order.
    pub fn add_field(&mut self, meta: FieldMeta, has_post_guard: bool) -> (r: Result<
        (),
        SchemaError,
    >)
        requires
            root_wf(*old(self)),
        ensures
            root_wf(*final(self)),
            final(self).object_name == old(self).object_name,
            r is Err ==> *final(self) == *old(self),
            has_post_guard ==> r == Result::<(), SchemaError>::Err(
                SchemaError::PostGuardUnsupported,
            ),
            r is Ok ==> final(self).fields@ == old(self).fields@.push(meta),
            r is Ok ==> !has_post_guard && !has_field(old(self).fields@, meta.name@)
                && field_meta_wf(meta),
            !has_post_guard && has_field(old(self).fields@, meta.name@) ==> r == Result::<
                (),
                SchemaError,
            >::Err(SchemaError::DuplicateField),
            !has_post_guard && !has_field(old(self).fields@, meta.name@) && field_meta_wf(meta)
                ==> r is Ok,
            !has_post_guard && !has_field(old(self).fields@, meta.name@) && !(forall|i: int, j: int|
                0 <= i < j < meta.args@.len() ==> #[trigger] meta.args@[i].name@
                    != #[trigger] meta.args@[j].name@) ==> r == Result::<(), SchemaError>::Err(
                SchemaError::DuplicateArgument,
            ),
            !has_post_guard && !has_field(old(self).fields@, meta.name@) && (forall|i: int, j: int|
                0 <= i < j < meta.args@.len() ==> #[trigger] meta.args@[i].name@
                    != #[trigger] meta.args@[j].name@) && !(forall|i: int|
                0 <= i < meta.args@.len() ==> arg_spec_wf(#[trigger] meta.args@[i])) ==> r
                == Result::<(), SchemaError>::Err(SchemaError::DefaultHasWrongType),
    {
        if has_post_guard {
            return Result::Err(SchemaError::PostGuardUnsupported);
        }
        if find_field(&self.fields, &meta.name).is_some() {
            return Result::Err(SchemaError::DuplicateField);
        }
        if !args_unique(&meta.args) {
            return Result::Err(SchemaError::DuplicateArgument);
        }
        if !defaults_wf(&meta.args) {
            return Result::Err(SchemaError::DefaultHasWrongType);
        }
        proof {
            assert forall|i: int, j: int|
                0 <= i < j < self.fields@.push(meta).len() implies #[trigger] self.fields@.push(
                meta,
            )[i].name@ != #[trigger] self.fields@.push(meta)[j].name@ by {
                if j == self.fields@.len() {
                    assert(!has_field(self.fields@, meta.name@));
                    assert(self.fields@[i].name@ != meta.name@);
                }
            }
        }
        self.fields.push(meta);
        Result::Ok(())
    }
}

/// The outcome of routing a subscription selection to a field.
pub enum DispatchOutcome {
    /// The index of the matching field.
    Found(usize),
    /// No field of the requested name: the single error to deliver.
    NotFound(GqlError),
}

/// Routes a subscription selection to the field whose name equals the
/// requested one, compared case-sensitively as literal strings. A miss
/// yields a `FieldNotFound` error naming the requested field and the
/// subscription type, positioned at the operation's location, with an
/// empty path.
pub fn dispatch_field(root: &SubscriptionRoot, requested: &String, pos: Pos) -> (d:
    DispatchOutcome)
    ensures
        d matches DispatchOutcome::Found(i) ==> i < root.fields@.len() && root.fields@[
            i as int
        ].name@ == requested@,
        d matches DispatchOutcome::NotFound(e) ==> {
            &&& !has_field(root.fields@, requested@)
            &&& (e.kind matches ErrorKind::FieldNotFound { field_name, object } && field_name@
                == requested@ && object@ == root.object_name@)
            &&& e.pos == pos
            &&& e.path@.len() == 0
        },
        (d is Found) == has_field(root.fields@, requested@),
{
    match find_field(&root.fields, requested) {
        Some(i) => DispatchOutcome::Found(i),
        None => DispatchOutcome::NotFound(
            GqlError {
                kind: ErrorKind::FieldNotFound {
                    field_name: requested.clone(),
                    object: root.object_name.clone(),
                },
                pos,
                path: Vec::new(),
            },
        ),
    }
}

/// The single-item result stream of a dispatch miss: the error, then
/// completion. Returned eagerly, before any field stream is constructed.
pub fn not_found_stream(e: GqlError) -> (out: Vec<crate::subscription::OutItem>)
    ensures
        out@.len() == 1,
        out@[0] == crate::subscription::OutItem::Failure(e),
{
    let mut out: Vec<crate::subscription::OutItem> = Vec::new();
    out.push(crate::subscription::OutItem::Failure(e));
    out
}

/// One introspection record.
#[derive(Debug)]
pub struct TypeEntry {
    pub name: String,
    pub description: Option<String>,
    pub fields: Vec<FieldMeta>,
}

/// Whether a type of this name is recorded.
pub open spec fn has_type(entries: Seq<TypeEntry>, name: Seq<char>) -> bool {
    exists|i: int| 0 <= i < entries.len() && (#[trigger] entries[i]).name@ == name
}

/// What registering an entry does to the recorded sequence: the first
/// registration of a name wins, later ones leave the registry unchanged.
pub open spec fn register_model(entries: Seq<TypeEntry>, e: TypeEntry) -> Seq<TypeEntry> {
    if has_type(entries, e.name@) {
        entries
    } else {
        entries.push(e)
    }
}

/// The introspection registry, populated during the single synchronous
/// schema build pass and read-only afterwards. It has no effect on
/// execution semantics.
pub struct TypeRegistry {
    pub entries: Vec<TypeEntry>,
}

impl TypeRegistry {
    /// An empty registry.
    pub fn create() -> (r: TypeRegistry)
        ensures
            r.entries@.len() == 0,
    {
        TypeRegistry { entries: Vec::new() }
    }

    /// Records a type's metadata; idempotent per type name: the first
    /// registration wins and later calls leave the record unchanged.
    pub fn register(&mut self, name: String, description: Option<String>, fields: Vec<FieldMeta>)
        ensures
            final(self).entries@ == register_model(
                old(self).entries@,
                (TypeEntry { name, description, fields }),
            ),
    {
        let mut i: usize = 0;
        while i < self.entries.len()
            invariant
                i <= self.entries@.len(),
                forall|j: int| 0 <= j < i ==> (#[trigger] self.entries@[j]).name@ != name@,
            decreases self.entries@.len() - i,
        {
            if self.entries[i].name == name {
                return ;
            }
            i = i + 1;
        }
        self.entries.push(TypeEntry { name, description, fields });
    }
}

/// Registering a name twice is the same as registering it once: the
/// second registration of the same name never changes the registry.
pub proof fn lemma_register_idempotent(entries: Seq<TypeEntry>, e1: TypeEntry, e2: TypeEntry)
    requires
        e1.name@ == e2.name@,
    ensures
        register_model(register_model(entries, e1), e2) == register_model(entries, e1),
{
    let after = register_model(entries, e1);
    if has_type(entries, e1.name@) {
        assert(has_type(after, e2.name@));
    } else {
        assert(after[after.len() - 1].name@ == e2.name@);
        assert(has_type(after, e2.name@));
    }
}

} // verus!
