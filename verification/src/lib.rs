//! Core of a binding to a foreign scripting runtime: a tagged value model, an
//! argument marshaler with a deduplicating string cache, an entity/on-function
//! ordinal index resolved from a manifest, and an arity-limited dispatch
//! planner. The process-wide foreign runtime itself (initialization, reload,
//! module tables, raw calls) is driven by an embedding layer outside this
//! crate; this crate decides what every call must do and proves it.

pub mod grug_value;
pub mod mod_api_type;

use vstd::prelude::*;

pub use crate::grug_value::Arguments;
pub use crate::grug_value::GrugValue;
use crate::mod_api_type::ModAPI;

verus! {

/// The address one marshaled argument slot carries, in the crate's memory
/// model. The embedding layer turns each case into a real pointer: a
/// `StringBuf` into the address of the cached null-terminated buffer with
/// that index, a `ValueSlot` into the address of the primitive's own storage
/// at that argument position, and a `Custom` into the caller's address,
/// unchanged.
#[derive(Clone, Copy, Debug, PartialEq, Eq)]
pub enum RawAddr {
    /// Index into the argument list's string cache; the same content always
    /// yields the same index while the list is alive.
    StringBuf(usize),
    /// Position of the primitive value whose own storage backs this slot.
    ValueSlot(usize),
    /// The caller-supplied address of a custom value's referent.
    Custom(usize),
}

/// The ABI-visible wrapper record for one argument: it holds exactly the raw
/// address of that argument's backing storage.
#[derive(Clone, Copy, Debug, PartialEq, Eq)]
pub struct OpaqueGrugType {
    pub raw: RawAddr,
}

/// Errors reported to the caller. All variants are recoverable; an activation
/// that meets one stops and hands it back.
#[derive(Debug, PartialEq, Eq)]
pub enum GrugError {
    /// The foreign runtime failed to initialize.
    Init { error: String },
    /// The manifest file could not be read.
    ReadModAPI { path: String, error: String },
    /// The manifest file could not be parsed.
    Deserialize { path: String, error: String },
    /// The named function is not an on-function of the entity.
    NotAnOnFunction { function_name: String },
    /// The named entity is not declared in the manifest.
    NotAnEntity { entity_name: String },
    /// A script file failed to load during a reload.
    FileLoading { name: String, path: String },
    /// The reload failed for a reason other than a single file.
    Regenerating { error: String },
    /// The requested ordinal lies beyond the unit's on-function slots.
    UndefinedFunction,
}

/// The views of a sequence of names.
pub open spec fn names_view(names: Seq<String>) -> Seq<Seq<char>> {
    names.map_values(|f: String| f@)
}

/// The entity names of an index, in declared order.
pub open spec fn entity_names(index: Seq<(Seq<char>, Seq<Seq<char>>)>) -> Seq<Seq<char>> {
    index.map_values(|p: (Seq<char>, Seq<Seq<char>>)| p.0)
}

/// `x` occurs in `names` first at position `i`.
pub open spec fn found_at(names: Seq<Seq<char>>, x: Seq<char>, i: int) -> bool {
    &&& 0 <= i < names.len()
    &&& names[i] == x
    &&& forall|k: int| 0 <= k < i ==> names[k] != x
}

/// `x` occurs nowhere in `names`.
pub open spec fn absent(names: Seq<Seq<char>>, x: Seq<char>) -> bool {
    forall|k: int| 0 <= k < names.len() ==> names[k] != x
}

/// What resolution decides, exactly: the ordinal of the first on-function
/// named `func` of the first entity named `entity`; `NotAnEntity` exactly
/// when no entity bears the name; `NotAnOnFunction` exactly when the entity
/// exists but declares no on-function with the name. The two failures are
/// never conflated.
pub open spec fn resolve_post(
    index: Seq<(Seq<char>, Seq<Seq<char>>)>,
    entity: Seq<char>,
    func: Seq<char>,
    r: Result<usize, GrugError>,
) -> bool {
    match r {
        Result::Ok(ord) => exists|e: int|
            #[trigger] found_at(entity_names(index), entity, e) && found_at(
                index[e].1,
                func,
                ord as int,
            ),
        Result::Err(err) => match err {
            GrugError::NotAnEntity { entity_name } => entity_name@ == entity && absent(
                entity_names(index),
                entity,
            ),
            GrugError::NotAnOnFunction { function_name } => function_name@ == func
                && exists|e: int|
                #[trigger] found_at(entity_names(index), entity, e) && absent(index[e].1, func),
            _ => false,
        },
    }
}

/// The engine's index over a loaded manifest: for each entity, its
/// on-function names in ordinal order. Built once from the manifest and
/// read-only afterwards.
pub struct Grug {
    /// The manifest as loaded, kept for callers' inspection.
    pub mod_api: ModAPI,
    /// Each entity's name with its on-function names in ordinal order; the
    /// entities keep the manifest's declared order.
    pub entities: Vec<(String, Vec<String>)>,
}

impl Grug {
    /// The index as a mathematical value.
    pub open spec fn index_view(&self) -> Seq<(Seq<char>, Seq<Seq<char>>)> {
        self.entities@.map_values(|e: (String, Vec<String>)| (e.0@, names_view(e.1@)))
    }

    /// Build the index from a parsed manifest: each entity's on-function
    /// names in declared order, so that a name's position among its entity's
    /// declarations is the ordinal of the compiled slot it addresses.
    pub fn new(mod_api: ModAPI) -> (r: Self)
        ensures
            r.mod_api == mod_api,
            r.index_view() == mod_api.declared_index(),
    {
        let mut entities: Vec<(String, Vec<String>)> = Vec::new();
        let n = mod_api.entities.len();
        let mut i: usize = 0;
        while i < n
            invariant
                i <= n,
                n == mod_api.entities@.len(),
                entities@.len() == i,
                forall|a: int|
                    0 <= a < i ==> (#[trigger] entities@[a]).0@ == mod_api.entities@[a].0@
                        && names_view(entities@[a].1@) == mod_api.entities@[a].1.on_function_names(),
            decreases n - i,
        {
            let entry = &mod_api.entities[i];
            let mut names: Vec<String> = Vec::new();
            let m = entry.1.on_functions.len();
            let mut j: usize = 0;
            while j < m
                invariant
                    j <= m,
                    m == entry.1.on_functions@.len(),
                    names@.len() == j,
                    forall|b: int| 0 <= b < j ==> (#[trigger] names@[b])@ == entry.1.on_functions@[b].0@,
                decreases m - j,
            {
                names.push(entry.1.on_functions[j].0.clone());
                j += 1;
            }
            proof {
                assert(names_view(names@) =~= entry.1.on_function_names());
            }
            entities.push((entry.0.clone(), names));
            i += 1;
        }
        let r = Grug { mod_api, entities };
        proof {
            assert(r.index_view() =~~= r.mod_api.declared_index());
        }
        r
    }

    /// How many on-functions the named entity declares: the extent of the
    /// slot table the foreign compiler lays out for each unit of that entity
    /// type. `None` when the manifest declares no such entity.
    pub fn on_function_count(&self, entity_name: &String) -> (r: Option<usize>)
        ensures
            match r {
                Option::Some(c) => exists|e: int|
                    #[trigger] found_at(entity_names(self.index_view()), entity_name@, e)
                        && self.index_view()[e].1.len() == c,
                Option::None => absent(entity_names(self.index_view()), entity_name@),
            },
    {
        let n = self.entities.len();
        let mut e: usize = 0;
        while e < n
            invariant
                e <= n,
                n == self.entities@.len(),
                forall|k: int| 0 <= k < e ==> entity_names(self.index_view())[k] != entity_name@,
            decreases n - e,
        {
            proof {
                assert(entity_names(self.index_view())[e as int] == self.entities@[e as int].0@);
            }
            if self.entities[e].0 == *entity_name {
                proof {
                    assert(found_at(entity_names(self.index_view()), entity_name@, e as int));
                    assert(self.index_view()[e as int].1 == names_view(self.entities@[e as int].1@));
                }
                return Option::Some(self.entities[e].1.len());
            }
            e += 1;
        }
        Option::None
    }

    /// Resolve `(entity, on-function)` to the ordinal of the compiled slot to
    /// call: the position of the on-function among the entity's declarations.
    /// The two failure kinds stay distinct: an unknown entity is reported as
    /// `NotAnEntity`, a known entity without the function as
    /// `NotAnOnFunction`.
    pub fn resolve(&self, entity_name: &String, on_function_name: &String) -> (r: Result<
        usize,
        GrugError,
    >)
        ensures
            resolve_post(self.index_view(), entity_name@, on_function_name@, r),
    {
        let n = self.entities.len();
        let mut e: usize = 0;
        while e < n
            invariant
                e <= n,
                n == self.entities@.len(),
                forall|k: int| 0 <= k < e ==> entity_names(self.index_view())[k] != entity_name@,
            decreases n - e,
        {
            proof {
                assert(entity_names(self.index_view())[e as int] == self.entities@[e as int].0@);
            }
            if self.entities[e].0 == *entity_name {
                let fns = &self.entities[e].1;
                let m = fns.len();
                let mut o: usize = 0;
                while o < m
                    invariant
                        o <= m,
                        m == fns@.len(),
                        fns@ == self.entities@[e as int].1@,
                        e < self.entities@.len(),
                        self.entities@[e as int].0@ == entity_name@,
                        forall|k: int|
                            0 <= k < e ==> entity_names(self.index_view())[k] != entity_name@,
                        forall|k: int| 0 <= k < o ==> names_view(fns@)[k] != on_function_name@,
                    decreases m - o,
                {
                    proof {
                        assert(names_view(fns@)[o as int] == fns@[o as int]@);
                    }
                    if fns[o] == *on_function_name {
                        proof {
                            assert(found_at(entity_names(self.index_view()), entity_name@, e as int));
                            assert(self.index_view()[e as int].1 == names_view(fns@));
                            assert(found_at(self.index_view()[e as int].1, on_function_name@, o as int));
                        }
                        return Result::Ok(o);
                    }
                    o += 1;
                }
                proof {
                    assert(found_at(entity_names(self.index_view()), entity_name@, e as int));
                    assert(self.index_view()[e as int].1 == names_view(fns@));
                    assert(absent(self.index_view()[e as int].1, on_function_name@));
                }
                return Result::Err(GrugError::NotAnOnFunction {
                    function_name: on_function_name.clone(),
                });
            }
            e += 1;
        }
        proof {
            assert(absent(entity_names(self.index_view()), entity_name@));
        }
        Result::Err(GrugError::NotAnEntity { entity_name: entity_name.clone() })
    }
}

/// Law: for every (entity, on-function) pair a well-formed manifest declares,
/// resolution yields exactly the zero-based position of that on-function
/// among the entity's declared on-functions — the ordinal the foreign
/// compiler assigns to the same slot.
pub proof fn lemma_resolve_ordinal(
    g: Grug,
    e: int,
    ord: usize,
    entity: Seq<char>,
    func: Seq<char>,
    r: Result<usize, GrugError>,
)
    requires
        g.index_view() == g.mod_api.declared_index(),
        g.mod_api.wf(),
        0 <= e < g.mod_api.entities@.len(),
        g.mod_api.entities@[e].0@ == entity,
        ord < g.mod_api.entities@[e].1.on_functions@.len(),
        g.mod_api.entities@[e].1.on_functions@[ord as int].0@ == func,
        resolve_post(g.index_view(), entity, func, r),
    ensures
        r == Result::<usize, GrugError>::Ok(ord),
{
    let index = g.index_view();
    let api = g.mod_api;
    assert forall|i: int| 0 <= i < api.entities@.len() implies #[trigger] entity_names(index)[i]
        == api.entities@[i].0@ by {
        assert(index[i] == api.declared_index()[i]);
    }
    assert forall|i: int, j: int|
        0 <= i < api.entities@.len() && 0 <= j < api.entities@[i].1.on_functions@.len() implies
        #[trigger] index[i].1[j] == api.entities@[i].1.on_functions@[j].0@ by {
        assert(index[i] == api.declared_index()[i]);
        assert(index[i].1 == api.entities@[i].1.on_function_names());
    }
    match r {
        Result::Ok(o) => {
            let ep = choose|ep: int|
                #[trigger] found_at(entity_names(index), entity, ep) && found_at(
                    index[ep].1,
                    func,
                    o as int,
                );
            assert(entity_names(index)[ep] == entity);
            assert(ep == e);
            assert(index[e].1[o as int] == func);
            assert(index[e].1[ord as int] == func);
            assert(o == ord);
        },
        Result::Err(err) => {
            match err {
                GrugError::NotAnEntity { .. } => {
                    assert(entity_names(index)[e] == entity);
                    assert(false);
                },
                GrugError::NotAnOnFunction { .. } => {
                    let ep = choose|ep: int|
                        #[trigger] found_at(entity_names(index), entity, ep) && absent(
                            index[ep].1,
                            func,
                        );
                    assert(entity_names(index)[ep] == entity);
                    assert(ep == e);
                    assert(index[e].1[ord as int] == func);
                    assert(false);
                },
                _ => {
                    assert(false);
                },
            }
        },
    }
}

/// Law: resolving an entity name the manifest does not declare yields
/// `NotAnEntity`, carrying that name; it is never mistaken for a missing
/// on-function.
pub proof fn lemma_resolve_unknown_entity(
    g: Grug,
    entity: Seq<char>,
    func: Seq<char>,
    r: Result<usize, GrugError>,
)
    requires
        g.index_view() == g.mod_api.declared_index(),
        forall|i: int|
            0 <= i < g.mod_api.entities@.len() ==> (#[trigger] g.mod_api.entities@[i]).0@ != entity,
        resolve_post(g.index_view(), entity, func, r),
    ensures
        r matches Result::Err(err) && err matches GrugError::NotAnEntity { entity_name }
            && entity_name@ == entity,
{
    let index = g.index_view();
    let api = g.mod_api;
    assert forall|i: int| 0 <= i < api.entities@.len() implies #[trigger] entity_names(index)[i]
        == api.entities@[i].0@ by {
        assert(index[i] == api.declared_index()[i]);
    }
    match r {
        Result::Ok(o) => {
            let ep = choose|ep: int|
                #[trigger] found_at(entity_names(index), entity, ep) && found_at(
                    index[ep].1,
                    func,
                    o as int,
                );
            assert(entity_names(index)[ep] == entity);
            assert(false);
        },
        Result::Err(err) => {
            match err {
                GrugError::NotAnEntity { .. } => {},
                GrugError::NotAnOnFunction { .. } => {
                    let ep = choose|ep: int|
                        #[trigger] found_at(entity_names(index), entity, ep) && absent(
                            index[ep].1,
                            func,
                        );
                    assert(entity_names(index)[ep] == entity);
                    assert(false);
                },
                _ => {
                    assert(false);
                },
            }
        },
    }
}

/// Law: resolving a declared entity with an on-function name it does not
/// declare yields `NotAnOnFunction`, carrying that name; it is never
/// mistaken for an unknown entity.
pub proof fn lemma_resolve_unknown_function(
    g: Grug,
    e: int,
    entity: Seq<char>,
    func: Seq<char>,
    r: Result<usize, GrugError>,
)
    requires
        g.index_view() == g.mod_api.declared_index(),
        g.mod_api.wf(),
        0 <= e < g.mod_api.entities@.len(),
        g.mod_api.entities@[e].0@ == entity,
        forall|j: int|
            0 <= j < g.mod_api.entities@[e].1.on_functions@.len() ==> (
            #[trigger] g.mod_api.entities@[e].1.on_functions@[j]).0@ != func,
        resolve_post(g.index_view(), entity, func, r),
    ensures
        r matches Result::Err(err) && err matches GrugError::NotAnOnFunction { function_name }
            && function_name@ == func,
{
    let index = g.index_view();
    let api = g.mod_api;
    assert forall|i: int| 0 <= i < api.entities@.len() implies #[trigger] entity_names(index)[i]
        == api.entities@[i].0@ by {
        assert(index[i] == api.declared_index()[i]);
    }
    assert forall|i: int, j: int|
        0 <= i < api.entities@.len() && 0 <= j < api.entities@[i].1.on_functions@.len() implies
        #[trigger] index[i].1[j] == api.entities@[i].1.on_functions@[j].0@ by {
        assert(index[i] == api.declared_index()[i]);
        assert(index[i].1 == api.entities@[i].1.on_function_names());
    }
    match r {
        Result::Ok(o) => {
            let ep = choose|ep: int|
                #[trigger] found_at(entity_names(index), entity, ep) && found_at(
                    index[ep].1,
                    func,
                    o as int,
                );
            assert(entity_names(index)[ep] == entity);
            assert(ep == e);
            assert(index[e].1.len() == api.entities@[e].1.on_functions@.len());
            assert(index[e].1[o as int] == func);
            assert(false);
        },
        Result::Err(err) => {
            match err {
                GrugError::NotAnEntity { .. } => {
                    assert(entity_names(index)[e] == entity);
                    assert(false);
                },
                GrugError::NotAnOnFunction { .. } => {},
                _ => {
                    assert(false);
                },
            }
        },
    }
}

/// The highest number of declared arguments an on-function call supports.
/// Higher arities are a capability gap handled at build time, not a
/// recoverable runtime fault: the embedding layer aborts on them.
pub const MAX_ARITY: usize = 2;

/// One loaded compiled unit, as this crate sees it: its entity-type name, the
/// extent of its on-function slot table, the size of its global-state block,
/// and the token by which the embedding layer finds the underlying unit
/// again. Values of this type are snapshots: they must be taken fresh from
/// the foreign runtime after every reload and never kept across one.
#[derive(Debug, PartialEq, Eq)]
pub struct GrugFile {
    /// The entity-type name this unit belongs to.
    pub entity_type: String,
    /// How many on-function slots the unit's table holds.
    pub on_fn_count: usize,
    /// Size in bytes of the unit's global-state block.
    pub globals_size: usize,
    /// The embedding layer's token for the underlying unit.
    pub handle: usize,
}

impl Clone for GrugFile {
    fn clone(&self) -> (r: Self)
        ensures
            r == *self,
    {
        GrugFile {
            entity_type: self.entity_type.clone(),
            on_fn_count: self.on_fn_count,
            globals_size: self.globals_size,
            handle: self.handle,
        }
    }
}

/// What one foreign call must do: invoke this slot of this unit with a fresh
/// global-state block of this size as the implicit first parameter, followed
/// by the marshaled argument wrappers in positional order.
///
/// The block is allocated, zeroed and initializer-populated afresh for every
/// invocation and freed when it returns — it is not kept per unit across
/// activations, so state a script stores there does not persist between
/// activations. Embedders wanting persistent per-unit state must allocate
/// the block once per unit themselves and reuse it.
#[derive(Debug, PartialEq, Eq)]
pub struct Invocation {
    /// The embedding layer's token for the unit to invoke.
    pub handle: usize,
    /// The ordinal of the slot to invoke.
    pub slot: usize,
    /// The size of the zero-initialized, unit-initializer-populated scratch
    /// block to allocate for the call and free after it returns.
    pub globals_size: usize,
    /// The argument wrappers, one per declared argument, in order.
    pub args: Vec<OpaqueGrugType>,
}

impl GrugFile {
    /// Construct a snapshot of one loaded unit.
    pub fn new(entity_type: String, on_fn_count: usize, globals_size: usize, handle: usize) -> (r:
        Self)
        ensures
            r.entity_type == entity_type,
            r.on_fn_count == on_fn_count,
            r.globals_size == globals_size,
            r.handle == handle,
    {
        GrugFile { entity_type, on_fn_count, globals_size, handle }
    }

    /// Decide the invocation of the slot with ordinal `index`: the ordinal is
    /// valid only if the slot table holds at least `index + 1` slots;
    /// otherwise the call is refused as `UndefinedFunction` before anything
    /// beyond the table's end could be dereferenced.
    pub fn run_on_function(&self, index: usize, arguments: Vec<OpaqueGrugType>) -> (r: Result<
        Invocation,
        GrugError,
    >)
        requires
            arguments@.len() <= MAX_ARITY,
        ensures
            index < self.on_fn_count ==> (r matches Result::Ok(inv) && inv.handle == self.handle
                && inv.slot == index && inv.globals_size == self.globals_size && inv.args
                == arguments),
            index >= self.on_fn_count ==> (r matches Result::Err(e) && e
                == (GrugError::UndefinedFunction)),
    {
        if index < self.on_fn_count {
            Result::Ok(
                Invocation {
                    handle: self.handle,
                    slot: index,
                    globals_size: self.globals_size,
                    args: arguments,
                },
            )
        } else {
            Result::Err(GrugError::UndefinedFunction)
        }
    }
}

/// The units of `files` whose entity-type name is `name`, in discovery order.
pub open spec fn files_of_entity(files: Seq<GrugFile>, name: Seq<char>) -> Seq<GrugFile> {
    files.filter(|f: GrugFile| f.entity_type@ == name)
}

impl Grug {
    /// All currently loaded units of the given entity type, in discovery
    /// order. Nothing is cached: the table is handed in fresh by the
    /// embedding layer at each call, so the result reflects every reload
    /// made since the previous activation.
    pub fn get_files_by_entity_type(&self, files: &Vec<GrugFile>, name: &String) -> (r: Vec<
        GrugFile,
    >)
        ensures
            r@ == files_of_entity(files@, name@),
    {
        let n = files.len();
        let mut r: Vec<GrugFile> = Vec::new();
        let mut i: usize = 0;
        proof {
            reveal(Seq::filter);
            assert(files@.take(0) =~= Seq::<GrugFile>::empty());
        }
        while i < n
            invariant
                i <= n,
                n == files@.len(),
                r@ == files_of_entity(files@.take(i as int), name@),
            decreases n - i,
        {
            let ghost pre = files@.take(i as int);
            if files[i].entity_type == *name {
                r.push(files[i].clone());
            }
            proof {
                reveal(Seq::filter);
                assert(files@.take(i + 1).drop_last() =~= pre);
                assert(files@.take(i + 1).last() == files@[i as int]);
            }
            i += 1;
        }
        proof {
            assert(files@.take(n as int) =~= files@);
        }
        r
    }
}

/// `inv` is the correct planned invocation of `file`'s slot `ord` with the
/// arguments as marshaled against `args`'s values and string cache.
pub open spec fn planned_invocation(
    file: GrugFile,
    ord: usize,
    args: Arguments,
    inv: Invocation,
) -> bool {
    &&& inv.handle == file.handle
    &&& inv.slot == ord
    &&& inv.globals_size == file.globals_size
    &&& crate::grug_value::marshaled(args.values@, args.cache(), inv.args@)
}

/// The decided course of one activation: the invocations to perform, in
/// enumeration order, and the error that stops the activation after them, if
/// any. The embedding layer performs the invocations first and only then
/// reports the failure, matching an engine that invokes units one at a time
/// and stops at the first fault.
#[derive(Debug, PartialEq, Eq)]
pub struct Activation {
    /// The invocations to perform, in enumeration order.
    pub invocations: Vec<Invocation>,
    /// The error that ends the activation after the invocations, if any.
    pub failure: Option<GrugError>,
}

/// What an activation decides, exactly, given the index, the names, the
/// argument list after marshaling, and the snapshot of loaded units:
/// resolution failures carry no invocations; a resolved ordinal plans one
/// invocation per matching unit, in order, stopping with `UndefinedFunction`
/// at the first unit whose slot table is too short for the ordinal.
pub open spec fn activation_post(
    index: Seq<(Seq<char>, Seq<Seq<char>>)>,
    entity: Seq<char>,
    func: Seq<char>,
    args: Arguments,
    files: Seq<GrugFile>,
    r: Activation,
) -> bool {
    let matching = files_of_entity(files, entity);
    match r.failure {
        Option::None => r.invocations@.len() == matching.len() && exists|ord: usize|
            #[trigger] resolve_post(index, entity, func, Result::Ok(ord)) && forall|k: int|
                0 <= k < matching.len() ==> ord < (#[trigger] matching[k]).on_fn_count
                    && planned_invocation(matching[k], ord, args, r.invocations@[k]),
        Option::Some(err) => match err {
            GrugError::UndefinedFunction => exists|ord: usize|
                #[trigger] resolve_post(index, entity, func, Result::Ok(ord))
                    && r.invocations@.len() < matching.len() && matching[r.invocations@.len() as int].on_fn_count
                    <= ord && forall|k: int|
                    0 <= k < r.invocations@.len() ==> ord < (#[trigger] matching[k]).on_fn_count
                        && planned_invocation(matching[k], ord, args, r.invocations@[k]),
            _ => r.invocations@.len() == 0 && resolve_post(
                index,
                entity,
                func,
                Result::Err(err),
            ),
        },
    }
}

impl Grug {
    /// Activate an on-function on every loaded unit of an entity type: resolve
    /// the ordinal, enumerate the matching units in order, marshal the
    /// arguments afresh for each unit, and plan one invocation per unit.
    ///
    /// `files` must be a fresh snapshot of the foreign runtime's module/file
    /// tables, taken after the embedding layer's reload check, and the
    /// returned invocations must be performed before the next reload.
    /// When resolution fails, nothing is enumerated or marshaled and the
    /// argument list is left untouched.
    pub fn activate_on_function(
        &self,
        entity_name: &String,
        on_function_name: &String,
        arguments: &mut Arguments,
        files: &Vec<GrugFile>,
    ) -> (r: Activation)
        requires
            old(arguments).wf(),
            crate::grug_value::marshalable(old(arguments).values@),
            old(arguments).values@.len() <= MAX_ARITY,
        ensures
            final(arguments).wf(),
            final(arguments).values == old(arguments).values,
            old(arguments).cache().is_prefix_of(final(arguments).cache()),
            forall|j: int|
                old(arguments).cache().len() <= j < final(arguments).cache().len()
                    ==> crate::grug_value::cache_entry_from_values(
                    old(arguments).values@,
                    #[trigger] final(arguments).cache()[j],
                ),
            activation_post(
                self.index_view(),
                entity_name@,
                on_function_name@,
                *final(arguments),
                files@,
                r,
            ),
            (r.failure matches Option::Some(e) && !(e is UndefinedFunction)) ==> *final(arguments)
                == *old(arguments),
    {
        let ord = match self.resolve(entity_name, on_function_name) {
            Result::Ok(o) => o,
            Result::Err(err) => {
                return Activation { invocations: Vec::new(), failure: Option::Some(err) };
            },
        };
        let matching = self.get_files_by_entity_type(files, entity_name);
        let n = matching.len();
        let mut invocations: Vec<Invocation> = Vec::new();
        let mut k: usize = 0;
        while k < n
            invariant
                k <= n,
                n == matching@.len(),
                matching@ == files_of_entity(files@, entity_name@),
                resolve_post(self.index_view(), entity_name@, on_function_name@, Result::Ok(ord)),
                arguments.wf(),
                crate::grug_value::marshalable(arguments.values@),
                arguments.values == old(arguments).values,
                arguments.values@.len() <= MAX_ARITY,
                old(arguments).cache().is_prefix_of(arguments.cache()),
                forall|j: int|
                    old(arguments).cache().len() <= j < arguments.cache().len()
                        ==> crate::grug_value::cache_entry_from_values(
                        old(arguments).values@,
                        #[trigger] arguments.cache()[j],
                    ),
                invocations@.len() == k,
                forall|m: int|
                    0 <= m < k ==> ord < (#[trigger] matching@[m]).on_fn_count
                        && planned_invocation(matching@[m], ord, *arguments, invocations@[m]),
            decreases n - k,
        {
            let ghost pre_args = *arguments;
            let handles = arguments.into_raw();
            proof {
                assert forall|j: int|
                    old(arguments).cache().len() <= j < arguments.cache().len() implies
                    crate::grug_value::cache_entry_from_values(
                        old(arguments).values@,
                        #[trigger] arguments.cache()[j],
                    ) by {
                    if j < pre_args.cache().len() {
                        assert(arguments.cache()[j] == pre_args.cache()[j]);
                        assert(crate::grug_value::cache_entry_from_values(
                            old(arguments).values@,
                            pre_args.cache()[j],
                        ));
                    } else {
                        assert(crate::grug_value::cache_entry_from_values(
                            pre_args.values@,
                            arguments.cache()[j],
                        ));
                        assert(pre_args.values@ == old(arguments).values@);
                    }
                }
                assert forall|m: int|
                    0 <= m < k implies ord < (#[trigger] matching@[m]).on_fn_count
                    && planned_invocation(matching@[m], ord, *arguments, invocations@[m]) by {
                    assert(planned_invocation(matching@[m], ord, pre_args, invocations@[m]));
                    crate::grug_value::lemma_marshaled_slots_monotone(
                        pre_args.values@,
                        pre_args.cache(),
                        arguments.cache(),
                        invocations@[m].args@,
                        invocations@[m].args@,
                        invocations@[m].args@.len() as int,
                    );
                    assert(crate::grug_value::marshaled(
                        pre_args.values@,
                        arguments.cache(),
                        invocations@[m].args@,
                    ));
                    assert(pre_args.values@ == arguments.values@);
                }
            }
            match matching[k].run_on_function(ord, handles) {
                Result::Ok(inv) => {
                    invocations.push(inv);
                },
                Result::Err(e) => {
                    return Activation { invocations, failure: Option::Some(e) };
                },
            }
            k += 1;
        }
        Activation { invocations, failure: Option::None }
    }
}

/// Classify the outcome the foreign runtime reports for its "reload changed
/// mods" call: success; a single script file that failed to load, reported
/// with its name and path; or a general regeneration failure, reported with
/// its message.
pub fn regenerate_outcome(failed: bool, error_in_grug_file: bool, msg: String, path: String) -> (r:
    Result<(), GrugError>)
    ensures
        !failed ==> (r matches Result::Ok(_)),
        failed && error_in_grug_file ==> (r matches Result::Err(e) && e == (GrugError::FileLoading {
            name: msg,
            path,
        })),
        failed && !error_in_grug_file ==> (r matches Result::Err(e) && e
            == (GrugError::Regenerating { error: msg })),
{
    if failed {
        if error_in_grug_file {
            Result::Err(GrugError::FileLoading { name: msg, path })
        } else {
            Result::Err(GrugError::Regenerating { error: msg })
        }
    } else {
        Result::Ok(())
    }
}

} // verus!
