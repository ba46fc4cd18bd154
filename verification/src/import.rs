//! Importing a scene: from the scene graph that an asset reader produced to
//! a model of drawable meshes.
//!
//! The importer does no device work and no arithmetic on coordinates. It
//! walks the scene and, mesh by mesh, asks the host for what it needs: a
//! texture loaded from a path, or the pose that a chain of transforms
//! amounts to. The host answers each request with an event. A texture that
//! fails to load costs a warning and nothing else.

use vstd::prelude::*;
use vstd::string::*;
use crate::log::LogLevel;
use crate::material::mismatch_warnings;
use crate::mesh::{mesh_views, texture_views, Mesh, MeshView, Model, ModelView, Pose, Texture, TextureView};
use crate::paths::{joined, parent_dir, parent_of};
use crate::scalar::Mat4;
use crate::scene::{SceneGraph, SceneMaterial, SceneMesh, TextureSlot};
use crate::texture::{
    cached, disposition, distinct_paths, lemma_insert_keeps_distinct,
    lemma_settled, request_view, settle, settled, DispositionView, LoadRequest, RequestView,
    TextureCache,
};
use crate::traverse::{
    built_mesh, copy_chain, flatten, lemma_refs_resolve, node_refs, process_mesh, ref_views,
    refs_below, MeshRef, MeshRefView,
};
use crate::warning::{warning_views, ImportWarning, WarningView};

verus! {

/// How the report of a texture that failed to load begins; the host's
/// reason follows.
pub const LOAD_FAILURE_PREFIX: &'static str = "Error loading texture: ";

pub const MISSING_ROOT_MESSAGE: &'static str = "Scene has no root node";

pub const INCOMPLETE_MESSAGE: &'static str = "Scene is incomplete";

pub const NO_PARENT_MESSAGE: &'static str = "Model path has no parent directory";

/// Why an import produced no model.
#[derive(Debug)]
pub enum FatalImportError {
    /// The asset could not be read or parsed; the reader's reason.
    Unreadable(String),
    MissingRoot,
    IncompleteScene,
    NoParentDirectory,
}

/// A fatal error as contracts see it.
pub enum FatalErrorView {
    Unreadable(Seq<char>),
    MissingRoot,
    IncompleteScene,
    NoParentDirectory,
}

impl View for FatalImportError {
    type V = FatalErrorView;

    open spec fn view(&self) -> FatalErrorView {
        match self {
            FatalImportError::Unreadable(reason) => FatalErrorView::Unreadable(reason@),
            FatalImportError::MissingRoot => FatalErrorView::MissingRoot,
            FatalImportError::IncompleteScene => FatalErrorView::IncompleteScene,
            FatalImportError::NoParentDirectory => FatalErrorView::NoParentDirectory,
        }
    }
}

impl FatalImportError {
    /// The text of the error.
    pub open spec fn message_spec(&self) -> Seq<char> {
        match self {
            FatalImportError::Unreadable(reason) => reason@,
            FatalImportError::MissingRoot => MISSING_ROOT_MESSAGE@,
            FatalImportError::IncompleteScene => INCOMPLETE_MESSAGE@,
            FatalImportError::NoParentDirectory => NO_PARENT_MESSAGE@,
        }
    }

    /// The text of the error.
    pub fn message(&self) -> (text: String)
        ensures
            text@ == self.message_spec(),
    {
        match self {
            FatalImportError::Unreadable(reason) => reason.clone(),
            FatalImportError::MissingRoot => String::from_str(MISSING_ROOT_MESSAGE),
            FatalImportError::IncompleteScene => String::from_str(INCOMPLETE_MESSAGE),
            FatalImportError::NoParentDirectory => String::from_str(NO_PARENT_MESSAGE),
        }
    }
}

/// What the importer asks of the host.
#[derive(Debug)]
pub enum ImportAction {
    /// Load the texture at this path onto the device.
    LoadTexture(LoadRequest),
    /// Multiply the transforms of the chain, the first leftmost, and split
    /// the product into a pose.
    ResolvePose(Vec<Mat4>),
    /// Nothing: the model is complete.
    Finished,
}

/// An action as contracts see it.
pub enum ActionView {
    LoadTexture(RequestView),
    ResolvePose(Seq<Mat4>),
    Finished,
}

impl View for ImportAction {
    type V = ActionView;

    open spec fn view(&self) -> ActionView {
        match self {
            ImportAction::LoadTexture(r) => ActionView::LoadTexture(r@),
            ImportAction::ResolvePose(chain) => ActionView::ResolvePose(chain@),
            ImportAction::Finished => ActionView::Finished,
        }
    }
}

/// What the host answers.
#[derive(Debug)]
pub enum ImportEvent {
    /// The texture is on the device under this handle.
    TextureLoaded(u32),
    /// The texture could not be loaded; the host's reason.
    TextureFailed(String),
    /// The pose that the chain amounts to.
    PoseResolved(Pose),
}

/// An event as contracts see it.
pub enum EventView {
    TextureLoaded(u32),
    TextureFailed(Seq<char>),
    PoseResolved(Pose),
}

impl View for ImportEvent {
    type V = EventView;

    open spec fn view(&self) -> EventView {
        match self {
            ImportEvent::TextureLoaded(id) => EventView::TextureLoaded(*id),
            ImportEvent::TextureFailed(reason) => EventView::TextureFailed(reason@),
            ImportEvent::PoseResolved(pose) => EventView::PoseResolved(*pose),
        }
    }
}

/// What is being imported. Nothing of it changes while the import runs.
pub struct Job {
    pub scene: SceneGraph,
    /// The directory of the asset file.
    pub dir: Seq<char>,
    /// The id of the first mesh.
    pub first_id: u64,
}

/// How far an import has come.
pub struct Progress {
    /// The place in the plan of the mesh being built.
    pub mesh: nat,
    /// The place among its material's slots that the walk rests at.
    pub slot: nat,
    /// The texture that the host is asked for, if any.
    pub request: Option<RequestView>,
    /// The textures gathered for the mesh being built.
    pub textures: Seq<TextureView>,
    /// The textures loaded so far.
    pub cache: Seq<TextureView>,
    /// The meshes built so far.
    pub meshes: Seq<MeshView>,
    /// What there is to report so far.
    pub warnings: Seq<WarningView>,
}

/// The mesh references of the scene in the order of the walk: the order in
/// which the meshes of the model are built.
pub open spec fn plan_of(scene: SceneGraph) -> Seq<MeshRefView> {
    match scene.root {
        Some(root) => node_refs(root, Seq::empty()),
        None => Seq::empty(),
    }
}

/// The mesh of the scene that a reference names.
pub open spec fn mesh_of(scene: SceneGraph, r: MeshRefView) -> SceneMesh {
    scene.meshes@[r.mesh as int]
}

/// The material of the mesh that a reference names.
pub open spec fn material_of(scene: SceneGraph, r: MeshRefView) -> SceneMaterial {
    scene.materials@[mesh_of(scene, r).material_index as int]
}

/// The texture slots of the mesh at place `m` of the plan.
pub open spec fn slots_at(job: Job, m: int) -> Seq<TextureSlot> {
    material_of(job.scene, plan_of(job.scene)[m]).textures@
}

/// The id of the mesh at place `i` of the plan: ids count up from the first
/// and wrap around at the end of their range.
pub open spec fn id_at(first_id: u64, i: nat) -> u64 {
    ((first_id + i) % 0x1_0000_0000_0000_0000) as u64
}

/// The report of a texture that failed to load.
pub open spec fn load_failure(reason: Seq<char>) -> WarningView {
    WarningView { severity: LogLevel::Error, message: LOAD_FAILURE_PREFIX@ + reason }
}

/// The state on turning to the mesh at place `m`: the walk over its slots
/// has gone as far as it can without the host.
pub open spec fn entering(
    job: Job,
    m: nat,
    cache: Seq<TextureView>,
    meshes: Seq<MeshView>,
    warnings: Seq<WarningView>,
) -> Progress {
    if m < plan_of(job.scene).len() {
        let s = settled(slots_at(job, m as int), 0, job.dir, cache, Seq::empty());
        Progress {
            mesh: m,
            slot: s.slot,
            request: s.request,
            textures: s.textures,
            cache,
            meshes,
            warnings,
        }
    } else {
        Progress {
            mesh: m,
            slot: 0,
            request: None,
            textures: Seq::empty(),
            cache,
            meshes,
            warnings,
        }
    }
}

/// The state in which an import begins.
pub open spec fn initial(job: Job) -> Progress {
    entering(job, 0, Seq::empty(), Seq::empty(), Seq::empty())
}

/// What the importer asks for in a state.
pub open spec fn pending_of(job: Job, p: Progress) -> ActionView {
    if p.mesh >= plan_of(job.scene).len() {
        ActionView::Finished
    } else {
        match p.request {
            Some(r) => ActionView::LoadTexture(r),
            None => ActionView::ResolvePose(plan_of(job.scene)[p.mesh as int].chain),
        }
    }
}

/// The state after the host loaded the requested texture: the texture is
/// cached and given to the mesh, and the walk over the slots goes on.
pub open spec fn after_loaded(job: Job, p: Progress, id: u32) -> Progress {
    let r = p.request->0;
    let t = TextureView { id, kind: r.kind, path: r.path };
    let cache = p.cache.push(t);
    let s = settled(slots_at(job, p.mesh as int), p.slot + 1, job.dir, cache, p.textures.push(t));
    Progress { slot: s.slot, request: s.request, textures: s.textures, cache, ..p }
}

/// The state after the host failed to load the requested texture: the
/// failure is reported, the mesh goes without the texture, and the walk over
/// the slots goes on.
pub open spec fn after_failed(job: Job, p: Progress, reason: Seq<char>) -> Progress {
    let s = settled(slots_at(job, p.mesh as int), p.slot + 1, job.dir, p.cache, p.textures);
    Progress {
        slot: s.slot,
        request: s.request,
        textures: s.textures,
        warnings: p.warnings.push(load_failure(reason)),
        ..p
    }
}

/// The mesh that is built at place `m` of the plan from the textures
/// gathered for it and its pose.
pub open spec fn mesh_at(job: Job, m: nat, textures: Seq<TextureView>, pose: Pose) -> MeshView {
    let r = plan_of(job.scene)[m as int];
    built_mesh(
        mesh_of(job.scene, r),
        material_of(job.scene, r),
        id_at(job.first_id, m),
        textures,
        pose,
    )
}

/// The state after the host resolved the pose: the mesh is built, what its
/// material's property bag gives to report is reported, and the importer
/// turns to the next mesh.
pub open spec fn after_pose(job: Job, p: Progress, pose: Pose) -> Progress {
    let r = plan_of(job.scene)[p.mesh as int];
    entering(
        job,
        p.mesh + 1,
        p.cache,
        p.meshes.push(mesh_at(job, p.mesh, p.textures, pose)),
        p.warnings + mismatch_warnings(material_of(job.scene, r).properties@),
    )
}

/// The event answers what the importer asked for.
pub open spec fn answers(action: ActionView, event: EventView) -> bool {
    match (action, event) {
        (ActionView::LoadTexture(_), EventView::TextureLoaded(_)) => true,
        (ActionView::LoadTexture(_), EventView::TextureFailed(_)) => true,
        (ActionView::ResolvePose(_), EventView::PoseResolved(_)) => true,
        _ => false,
    }
}

/// The state after an event. An event that does not answer what the
/// importer asked for changes nothing.
pub open spec fn stepped(job: Job, p: Progress, event: EventView) -> Progress {
    if answers(pending_of(job, p), event) {
        match event {
            EventView::TextureLoaded(id) => after_loaded(job, p, id),
            EventView::TextureFailed(reason) => after_failed(job, p, reason),
            EventView::PoseResolved(pose) => after_pose(job, p, pose),
        }
    } else {
        p
    }
}

/// The mesh at place `i` was built from the mesh that the plan names there.
pub open spec fn built_in_place(job: Job, entity: MeshView, i: nat) -> bool {
    entity == mesh_at(job, i, entity.textures, entity.pose)
}

/// Every texture of the sequence is an entry of the cache.
pub open spec fn all_cached(textures: Seq<TextureView>, cache: Seq<TextureView>) -> bool {
    forall|k: int| 0 <= k < textures.len() ==> cache.contains(#[trigger] textures[k])
}

/// What holds of every state that an import passes through.
pub open spec fn valid(job: Job, p: Progress) -> bool {
    let plan = plan_of(job.scene);
    &&& job.scene.well_formed()
    &&& job.scene.root is Some
    &&& distinct_paths(p.cache)
    &&& p.mesh <= plan.len()
    &&& p.meshes.len() == p.mesh
    &&& forall|i: int| 0 <= i < p.meshes.len() ==> built_in_place(job, #[trigger] p.meshes[i], i as nat)
    &&& forall|i: int| 0 <= i < p.meshes.len() ==> all_cached((#[trigger] p.meshes[i]).textures, p.cache)
    &&& all_cached(p.textures, p.cache)
    &&& if p.mesh < plan.len() {
        let slots = slots_at(job, p.mesh as int);
        &&& p.slot <= slots.len()
        &&& match p.request {
            Some(r) => p.slot < slots.len() && disposition(slots[p.slot as int], job.dir, p.cache)
                == DispositionView::Load(r),
            None => p.slot == slots.len(),
        }
    } else {
        p.slot == 0 && p.request is None && p.textures.len() == 0
    }
}

/// The answers that the host still owes from place `m` of the plan on, at
/// most: one per texture slot and one pose per mesh.
pub open spec fn work_from(job: Job, m: nat) -> nat
    decreases plan_of(job.scene).len() - m,
{
    if m >= plan_of(job.scene).len() {
        0
    } else {
        slots_at(job, m as int).len() + 1 + work_from(job, m + 1)
    }
}

/// The answers that the host still owes in a state, at most.
pub open spec fn remaining(job: Job, p: Progress) -> nat {
    if p.mesh >= plan_of(job.scene).len() {
        0
    } else {
        (work_from(job, p.mesh) - p.slot) as nat
    }
}

/// The walk over the slots gathers textures from the cache only.
pub proof fn lemma_settled_cached(
    slots: Seq<TextureSlot>,
    from: nat,
    dir: Seq<char>,
    cache: Seq<TextureView>,
    got: Seq<TextureView>,
)
    requires
        all_cached(got, cache),
    ensures
        all_cached(settled(slots, from, dir, cache, got).textures, cache),
    decreases slots.len() - from,
{
    if from < slots.len() {
        match disposition(slots[from as int], dir, cache) {
            DispositionView::Skip => {
                lemma_settled_cached(slots, from + 1, dir, cache, got);
            },
            DispositionView::Reuse(t) => {
                crate::texture::lemma_cached(cache, joined(dir, slots[from as int].filename@));
                let next = got.push(t);
                assert forall|k: int| 0 <= k < next.len() implies cache.contains(
                    #[trigger] next[k],
                ) by {
                    if k < got.len() {
                        assert(next[k] == got[k]);
                    }
                }
                lemma_settled_cached(slots, from + 1, dir, cache, next);
            },
            DispositionView::Load(r) => {},
        }
    }
}

/// What is cached stays cached when the cache grows.
pub proof fn lemma_all_cached_after_push(
    textures: Seq<TextureView>,
    cache: Seq<TextureView>,
    t: TextureView,
)
    requires
        all_cached(textures, cache),
    ensures
        all_cached(textures, cache.push(t)),
        all_cached(textures.push(t), cache.push(t)),
{
    let grown = cache.push(t);
    assert forall|k: int| 0 <= k < textures.len() implies grown.contains(
        #[trigger] textures[k],
    ) by {
        let i = choose|i: int| 0 <= i < cache.len() && cache[i] == textures[k];
        assert(grown[i] == textures[k]);
    }
    assert(grown[cache.len() as int] == t);
    assert forall|k: int| 0 <= k < textures.push(t).len() implies grown.contains(
        #[trigger] textures.push(t)[k],
    ) by {
        if k < textures.len() {
            assert(textures.push(t)[k] == textures[k]);
        }
    }
}

/// Turning to a mesh leaves the importer in a state that meets `valid`.
pub proof fn lemma_entering_valid(
    job: Job,
    m: nat,
    cache: Seq<TextureView>,
    meshes: Seq<MeshView>,
    warnings: Seq<WarningView>,
)
    requires
        job.scene.well_formed(),
        job.scene.root is Some,
        distinct_paths(cache),
        m <= plan_of(job.scene).len(),
        meshes.len() == m,
        forall|i: int| 0 <= i < meshes.len() ==> built_in_place(job, #[trigger] meshes[i], i as nat),
        forall|i: int| 0 <= i < meshes.len() ==> all_cached((#[trigger] meshes[i]).textures, cache),
    ensures
        valid(job, entering(job, m, cache, meshes, warnings)),
{
    if m < plan_of(job.scene).len() {
        lemma_settled(slots_at(job, m as int), 0, job.dir, cache, Seq::empty());
        lemma_settled_cached(slots_at(job, m as int), 0, job.dir, cache, Seq::empty());
    }
}

/// An import of a well-formed scene with a root begins in a state that meets
/// `valid`.
pub proof fn lemma_initial_valid(job: Job)
    requires
        job.scene.well_formed(),
        job.scene.root is Some,
    ensures
        valid(job, initial(job)),
{
    lemma_entering_valid(job, 0, Seq::empty(), Seq::empty(), Seq::empty());
}

/// The importer never asks for a texture whose path is in the cache.
pub proof fn lemma_request_is_fresh(job: Job, p: Progress)
    requires
        valid(job, p),
        p.request is Some,
    ensures
        cached(p.cache, p.request->0.path) is None,
{
}

/// Whatever the host answers, the state after the event meets `valid`:
/// in particular no path is ever cached twice.
pub proof fn lemma_step_keeps_valid(job: Job, p: Progress, event: EventView)
    requires
        valid(job, p),
    ensures
        valid(job, stepped(job, p, event)),
{
    if answers(pending_of(job, p), event) {
        let slots = slots_at(job, p.mesh as int);
        match event {
            EventView::TextureLoaded(id) => {
                let r = p.request->0;
                let t = TextureView { id, kind: r.kind, path: r.path };
                let cache = p.cache.push(t);
                lemma_insert_keeps_distinct(p.cache, t);
                lemma_all_cached_after_push(p.textures, p.cache, t);
                lemma_settled(slots, p.slot + 1, job.dir, cache, p.textures.push(t));
                lemma_settled_cached(slots, p.slot + 1, job.dir, cache, p.textures.push(t));
                assert forall|i: int| 0 <= i < p.meshes.len() implies all_cached(
                    (#[trigger] p.meshes[i]).textures,
                    cache,
                ) by {
                    lemma_all_cached_after_push(p.meshes[i].textures, p.cache, t);
                }
            },
            EventView::TextureFailed(reason) => {
                lemma_settled(slots, p.slot + 1, job.dir, p.cache, p.textures);
                lemma_settled_cached(slots, p.slot + 1, job.dir, p.cache, p.textures);
            },
            EventView::PoseResolved(pose) => {
                let r = plan_of(job.scene)[p.mesh as int];
                let entity = mesh_at(job, p.mesh, p.textures, pose);
                let meshes = p.meshes.push(entity);
                assert forall|i: int| 0 <= i < meshes.len() implies built_in_place(
                    job,
                    #[trigger] meshes[i],
                    i as nat,
                ) by {
                    if i < p.meshes.len() {
                        assert(meshes[i] == p.meshes[i]);
                    }
                }
                assert forall|i: int| 0 <= i < meshes.len() implies all_cached(
                    (#[trigger] meshes[i]).textures,
                    p.cache,
                ) by {
                    if i < p.meshes.len() {
                        assert(meshes[i] == p.meshes[i]);
                    }
                }
                lemma_entering_valid(
                    job,
                    p.mesh + 1,
                    p.cache,
                    meshes,
                    p.warnings + mismatch_warnings(material_of(job.scene, r).properties@),
                );
            },
        }
    }
}

/// Every event that answers what the importer asked for brings the import
/// closer to its end: whatever fails to load, the import completes.
pub proof fn lemma_step_makes_progress(job: Job, p: Progress, event: EventView)
    requires
        valid(job, p),
        answers(pending_of(job, p), event),
    ensures
        remaining(job, stepped(job, p, event)) < remaining(job, p),
{
    let slots = slots_at(job, p.mesh as int);
    match event {
        EventView::TextureLoaded(id) => {
            let r = p.request->0;
            let t = TextureView { id, kind: r.kind, path: r.path };
            lemma_settled(slots, p.slot + 1, job.dir, p.cache.push(t), p.textures.push(t));
        },
        EventView::TextureFailed(reason) => {
            lemma_settled(slots, p.slot + 1, job.dir, p.cache, p.textures);
        },
        EventView::PoseResolved(pose) => {
            if p.mesh + 1 < plan_of(job.scene).len() {
                lemma_settled(
                    slots_at(job, p.mesh + 1 as int),
                    0,
                    job.dir,
                    p.cache,
                    Seq::empty(),
                );
            }
        },
    }
}

/// A texture that fails to load costs exactly one report of an error. The
/// mesh keeps the textures gathered for it, no mesh built before changes,
/// and nothing is cached.
pub proof fn lemma_failure_costs_one_warning(job: Job, p: Progress, reason: Seq<char>)
    requires
        valid(job, p),
        p.request is Some,
    ensures
        stepped(job, p, EventView::TextureFailed(reason)).warnings == p.warnings.push(
            load_failure(reason),
        ),
        load_failure(reason).severity == LogLevel::Error,
        stepped(job, p, EventView::TextureFailed(reason)).cache == p.cache,
        stepped(job, p, EventView::TextureFailed(reason)).meshes == p.meshes,
        stepped(job, p, EventView::TextureFailed(reason)).mesh == p.mesh,
        stepped(job, p, EventView::TextureFailed(reason)).textures.subrange(
            0,
            p.textures.len() as int,
        ) == p.textures,
{
    lemma_settled(slots_at(job, p.mesh as int), p.slot + 1, job.dir, p.cache, p.textures);
}

/// Two textures of the meshes built so far that come from the same path are
/// one and the same texture: a path is loaded once.
pub proof fn lemma_same_path_same_texture(job: Job, p: Progress, i: int, a: int, j: int, b: int)
    requires
        valid(job, p),
        0 <= i < p.meshes.len(),
        0 <= a < p.meshes[i].textures.len(),
        0 <= j < p.meshes.len(),
        0 <= b < p.meshes[j].textures.len(),
        p.meshes[i].textures[a].path == p.meshes[j].textures[b].path,
    ensures
        p.meshes[i].textures[a] == p.meshes[j].textures[b],
{
    let x = p.meshes[i].textures[a];
    let y = p.meshes[j].textures[b];
    assert(all_cached(p.meshes[i].textures, p.cache));
    assert(all_cached(p.meshes[j].textures, p.cache));
    let m = choose|m: int| 0 <= m < p.cache.len() && p.cache[m] == x;
    let n = choose|n: int| 0 <= n < p.cache.len() && p.cache[n] == y;
    if m < n {
        assert(p.cache[m].path != p.cache[n].path);
    } else if n < m {
        assert(p.cache[n].path != p.cache[m].path);
    }
}

/// Meshes at different places of a plan get different ids.
pub proof fn lemma_ids_distinct(first_id: u64, i: nat, j: nat)
    requires
        i < j < 0x1_0000_0000_0000_0000,
    ensures
        id_at(first_id, i) != id_at(first_id, j),
{
}

/// No two of the meshes built so far have the same id.
pub proof fn lemma_built_ids_distinct(job: Job, p: Progress, i: int, j: int)
    requires
        valid(job, p),
        0 <= i < j < p.meshes.len(),
        p.meshes.len() <= 0x1_0000_0000_0000_0000,
    ensures
        p.meshes[i].id != p.meshes[j].id,
{
    assert(built_in_place(job, p.meshes[i], i as nat));
    assert(built_in_place(job, p.meshes[j], j as nat));
    lemma_ids_distinct(job.first_id, i as nat, j as nat);
}

/// The meshes of a finished import are those of the plan, one for one and
/// in the plan's order.
pub proof fn lemma_finished_in_plan_order(job: Job, p: Progress, i: int)
    requires
        valid(job, p),
        pending_of(job, p) == ActionView::Finished,
        0 <= i < plan_of(job.scene).len(),
    ensures
        p.meshes.len() == plan_of(job.scene).len(),
        p.meshes[i] == mesh_at(job, i as nat, p.meshes[i].textures, p.meshes[i].pose),
{
    assert(built_in_place(job, p.meshes[i], i as nat));
}

/// The state after a sequence of events, taken one after the other from
/// the state `p` on.
pub open spec fn after_events(job: Job, p: Progress, events: Seq<EventView>) -> Progress
    decreases events.len(),
{
    if events.len() == 0 {
        p
    } else {
        stepped(job, after_events(job, p, events.drop_last()), events.last())
    }
}

/// Every state that an import of a well-formed scene with a root can reach
/// meets `valid`, whatever the host answers and in whatever order.
pub proof fn lemma_reachable_valid(job: Job, events: Seq<EventView>)
    requires
        job.scene.well_formed(),
        job.scene.root is Some,
    ensures
        valid(job, after_events(job, initial(job), events)),
    decreases events.len(),
{
    if events.len() == 0 {
        lemma_initial_valid(job);
    } else {
        lemma_reachable_valid(job, events.drop_last());
        lemma_step_keeps_valid(
            job,
            after_events(job, initial(job), events.drop_last()),
            events.last(),
        );
    }
}

/// The number of reports of an error among `warnings`.
pub open spec fn error_count(warnings: Seq<WarningView>) -> nat
    decreases warnings.len(),
{
    if warnings.len() == 0 {
        0
    } else {
        error_count(warnings.drop_last()) + if warnings.last().severity == LogLevel::Error {
            1nat
        } else {
            0nat
        }
    }
}

/// The number of events among `events` by which the host reported that a
/// texture the importer had asked for could not be loaded.
pub open spec fn failed_loads(job: Job, p: Progress, events: Seq<EventView>) -> nat
    decreases events.len(),
{
    if events.len() == 0 {
        0
    } else {
        let before = after_events(job, p, events.drop_last());
        failed_loads(job, p, events.drop_last()) + if events.last() is TextureFailed && pending_of(
            job,
            before,
        ) is LoadTexture {
            1nat
        } else {
            0nat
        }
    }
}

/// The errors among two sequences of warnings laid end to end are those of
/// the one and those of the other.
pub proof fn lemma_error_count_joined(a: Seq<WarningView>, b: Seq<WarningView>)
    ensures
        error_count(a + b) == error_count(a) + error_count(b),
    decreases b.len(),
{
    if b.len() == 0 {
        assert(a + b =~= a);
    } else {
        lemma_error_count_joined(a, b.drop_last());
        assert((a + b).drop_last() =~= a + b.drop_last());
        assert((a + b).last() == b.last());
    }
}

/// What a property bag gives to report is never an error.
pub proof fn lemma_mismatches_are_no_errors(props: Seq<crate::scene::MaterialProperty>)
    ensures
        error_count(mismatch_warnings(props)) == 0,
    decreases props.len(),
{
    if props.len() > 0 {
        lemma_mismatches_are_no_errors(props.drop_last());
        let before = mismatch_warnings(props.drop_last());
        if crate::material::mismatched(props.last()) {
            let w = crate::material::mismatch_warning(props.last().key@);
            assert(before.push(w).drop_last() =~= before);
        }
    }
}

/// An import reports exactly as many errors as textures failed to load.
pub proof fn lemma_errors_are_failed_loads(job: Job, p: Progress, events: Seq<EventView>)
    ensures
        error_count(after_events(job, p, events).warnings) == error_count(p.warnings)
            + failed_loads(job, p, events),
    decreases events.len(),
{
    if events.len() > 0 {
        lemma_errors_are_failed_loads(job, p, events.drop_last());
        let before = after_events(job, p, events.drop_last());
        let event = events.last();
        if answers(pending_of(job, before), event) {
            match event {
                EventView::TextureLoaded(id) => {},
                EventView::TextureFailed(reason) => {
                    assert(before.warnings.push(load_failure(reason)).drop_last()
                        =~= before.warnings);
                },
                EventView::PoseResolved(pose) => {
                    let r = plan_of(job.scene)[before.mesh as int];
                    let notes = mismatch_warnings(material_of(job.scene, r).properties@);
                    lemma_mismatches_are_no_errors(material_of(job.scene, r).properties@);
                    lemma_error_count_joined(before.warnings, notes);
                },
            }
        }
    }
}

/// Why an import cannot begin, if it cannot: the asset was not read, the
/// scene has no root, the reader marked it incomplete, or the asset's path
/// has no directory; the first of these that holds.
pub open spec fn start_error(loaded: Result<SceneGraph, String>, dir: Option<Seq<char>>) -> Option<
    FatalErrorView,
> {
    match loaded {
        Err(reason) => Some(FatalErrorView::Unreadable(reason@)),
        Ok(scene) => if scene.root is None {
            Some(FatalErrorView::MissingRoot)
        } else if scene.incomplete() {
            Some(FatalErrorView::IncompleteScene)
        } else if dir is None {
            Some(FatalErrorView::NoParentDirectory)
        } else {
            None
        },
    }
}

/// An import under way.
pub struct Importer {
    scene: SceneGraph,
    dir: String,
    first_id: u64,
    plan: Vec<MeshRef>,
    mesh: usize,
    slot: usize,
    request: Option<LoadRequest>,
    textures: Vec<Texture>,
    cache: TextureCache,
    meshes: Vec<Mesh>,
    warnings: Vec<ImportWarning>,
}

impl View for Importer {
    type V = Progress;

    closed spec fn view(&self) -> Progress {
        Progress {
            mesh: self.mesh as nat,
            slot: self.slot as nat,
            request: request_view(self.request),
            textures: texture_views(self.textures@),
            cache: self.cache@,
            meshes: mesh_views(self.meshes@),
            warnings: warning_views(self.warnings@),
        }
    }
}

/// The mesh and the material that place `m` of the plan names.
fn parts_at<'a>(scene: &'a SceneGraph, plan: &Vec<MeshRef>, m: usize) -> (out: (
    &'a SceneMesh,
    &'a SceneMaterial,
))
    requires
        scene.well_formed(),
        scene.root is Some,
        ref_views(plan@) == plan_of(*scene),
        m < plan@.len(),
    ensures
        *out.0 == mesh_of(*scene, plan_of(*scene)[m as int]),
        *out.1 == material_of(*scene, plan_of(*scene)[m as int]),
        out.0.consistent(),
{
    proof {
        lemma_refs_resolve(scene.root->0, Seq::empty(), scene.meshes@.len());
        assert(ref_views(plan@)[m as int] == plan@[m as int]@);
    }
    let mesh = &scene.meshes[plan[m].mesh as usize];
    let material = &scene.materials[mesh.material_index as usize];
    (mesh, material)
}

/// Walks the slots of the mesh at place `m` as far as the cache carries.
fn arrive(scene: &SceneGraph, plan: &Vec<MeshRef>, m: usize, dir: &str, cache: &TextureCache) -> (out: (
    usize,
    Option<LoadRequest>,
    Vec<Texture>,
))
    requires
        scene.well_formed(),
        scene.root is Some,
        ref_views(plan@) == plan_of(*scene),
        m <= plan@.len(),
    ensures
        forall|job: Job, meshes: Seq<MeshView>, warnings: Seq<WarningView>|
            job.scene == *scene && job.dir == dir@ ==> #[trigger] entering(
                job,
                m as nat,
                cache@,
                meshes,
                warnings,
            ) == (Progress {
                mesh: m as nat,
                slot: out.0 as nat,
                request: request_view(out.1),
                textures: texture_views(out.2@),
                cache: cache@,
                meshes,
                warnings,
            }),
{
    let mut textures: Vec<Texture> = Vec::new();
    assert(texture_views(textures@) =~= Seq::<TextureView>::empty());
    if m < plan.len() {
        let (_, material) = parts_at(scene, plan, m);
        let (slot, request) = settle(&material.textures, 0, dir, cache, &mut textures);
        (slot, request, textures)
    } else {
        (0, None, textures)
    }
}

impl Importer {
    /// What is being imported.
    pub closed spec fn job(&self) -> Job {
        Job { scene: self.scene, dir: self.dir@, first_id: self.first_id }
    }

    /// The importer is in a state that an import passes through.
    pub closed spec fn wf(&self) -> bool {
        &&& ref_views(self.plan@) == plan_of(self.scene)
        &&& valid(self.job(), self@)
    }

    /// The state of a well-formed importer meets `valid`.
    pub proof fn lemma_wf_valid(&self)
        requires
            self.wf(),
        ensures
            valid(self.job(), self@),
    {
    }

    /// Begins the import of the scene that was read from the asset at
    /// `path`, or of nothing where reading failed. The first mesh gets the
    /// id `first_id`.
    pub fn begin(loaded: Result<SceneGraph, String>, path: &str, first_id: u64) -> (r: Result<
        Importer,
        FatalImportError,
    >)
        requires
            loaded matches Ok(scene) ==> scene.well_formed(),
        ensures
            match r {
                Ok(imp) => {
                    &&& start_error(loaded, parent_of(path@)) is None
                    &&& imp.wf()
                    &&& imp.job() == (Job {
                        scene: loaded->Ok_0,
                        dir: parent_of(path@)->0,
                        first_id,
                    })
                    &&& imp@ == initial(imp.job())
                },
                Err(e) => start_error(loaded, parent_of(path@)) == Some(e@),
            },
    {
        Self::start(loaded, parent_dir(path), first_id)
    }

    /// Begins the import of the scene that was read from an asset in the
    /// directory `dir`, or of nothing where reading failed or the asset has
    /// no directory.
    pub fn start(loaded: Result<SceneGraph, String>, dir: Option<String>, first_id: u64) -> (r:
        Result<Importer, FatalImportError>)
        requires
            loaded matches Ok(scene) ==> scene.well_formed(),
        ensures
            match r {
                Ok(imp) => {
                    &&& start_error(loaded, crate::paths::text_of(dir)) is None
                    &&& imp.wf()
                    &&& imp.job() == (Job { scene: loaded->Ok_0, dir: dir->0@, first_id })
                    &&& imp@ == initial(imp.job())
                },
                Err(e) => start_error(loaded, crate::paths::text_of(dir)) == Some(e@),
            },
    {
        let scene = match loaded {
            Ok(scene) => scene,
            Err(reason) => {
                return Err(FatalImportError::Unreadable(reason));
            },
        };
        let plan = match &scene.root {
            Some(root) => flatten(root),
            None => {
                return Err(FatalImportError::MissingRoot);
            },
        };
        if scene.is_incomplete() {
            return Err(FatalImportError::IncompleteScene);
        }
        let dir = match dir {
            Some(dir) => dir,
            None => {
                return Err(FatalImportError::NoParentDirectory);
            },
        };
        let cache = TextureCache::new();
        let (slot, request, textures) = arrive(&scene, &plan, 0, dir.as_str(), &cache);
        let imp = Importer {
            scene,
            dir,
            first_id,
            plan,
            mesh: 0,
            slot,
            request,
            textures,
            cache,
            meshes: Vec::new(),
            warnings: Vec::new(),
        };
        proof {
            assert(mesh_views(imp.meshes@) =~= Seq::<MeshView>::empty());
            assert(warning_views(imp.warnings@) =~= Seq::<WarningView>::empty());
            lemma_initial_valid(imp.job());
        }
        Ok(imp)
    }

    /// What the importer asks of the host next.
    pub fn pending(&self) -> (action: ImportAction)
        requires
            self.wf(),
        ensures
            action@ == pending_of(self.job(), self@),
    {
        if self.mesh >= self.plan.len() {
            ImportAction::Finished
        } else {
            match &self.request {
                Some(r) => ImportAction::LoadTexture(r.clone()),
                None => {
                    assert(ref_views(self.plan@)[self.mesh as int] == self.plan@[self.mesh as int]@);
                    ImportAction::ResolvePose(copy_chain(&self.plan[self.mesh].chain))
                },
            }
        }
    }

    /// Takes the host's answer. An event that does not answer what the
    /// importer asked for is ignored. Returns what the importer asks next.
    pub fn step(&mut self, event: ImportEvent) -> (action: ImportAction)
        requires
            old(self).wf(),
        ensures
            final(self).wf(),
            final(self).job() == old(self).job(),
            final(self)@ == stepped(old(self).job(), old(self)@, event@),
            action@ == pending_of(final(self).job(), final(self)@),
    {
        let asked = self.pending();
        match (asked, event) {
            (ImportAction::LoadTexture(_), ImportEvent::TextureLoaded(id)) => {
                self.texture_loaded(id);
            },
            (ImportAction::LoadTexture(_), ImportEvent::TextureFailed(reason)) => {
                self.texture_failed(reason.as_str());
            },
            (ImportAction::ResolvePose(_), ImportEvent::PoseResolved(pose)) => {
                self.pose_resolved(pose);
            },
            _ => {},
        }
        self.pending()
    }

    /// The requested texture is on the device under the handle `id`.
    fn texture_loaded(&mut self, id: u32)
        requires
            old(self).wf(),
            pending_of(old(self).job(), old(self)@) is LoadTexture,
        ensures
            final(self).wf(),
            final(self).job() == old(self).job(),
            final(self)@ == after_loaded(old(self).job(), old(self)@, id),
    {
        proof {
            lemma_step_keeps_valid(self.job(), self@, EventView::TextureLoaded(id));
            lemma_request_is_fresh(self.job(), self@);
            assert(self@.slot < slots_at(self.job(), self@.mesh as int).len());
        }
        let request = self.request.take();
        match request {
            Some(r) => {
                let ghost before = texture_views(self.textures@);
                let texture = Texture::new(id, r.kind, r.path);
                let copy = texture.clone();
                let _ = self.cache.insert(texture);
                self.textures.push(copy);
                assert(texture_views(self.textures@) =~= before.push(copy@));
                let (_, material) = parts_at(&self.scene, &self.plan, self.mesh);
                assert(self.slot < material.textures.len());
                let (slot, request) = settle(
                    &material.textures,
                    self.slot + 1,
                    self.dir.as_str(),
                    &self.cache,
                    &mut self.textures,
                );
                self.slot = slot;
                self.request = request;
            },
            None => {},
        }
    }

    /// The requested texture could not be loaded, for the reason given.
    fn texture_failed(&mut self, reason: &str)
        requires
            old(self).wf(),
            pending_of(old(self).job(), old(self)@) is LoadTexture,
        ensures
            final(self).wf(),
            final(self).job() == old(self).job(),
            final(self)@ == after_failed(old(self).job(), old(self)@, reason@),
    {
        proof {
            lemma_step_keeps_valid(self.job(), self@, EventView::TextureFailed(reason@));
            assert(self@.slot < slots_at(self.job(), self@.mesh as int).len());
        }
        let ghost before = warning_views(self.warnings@);
        let warning = ImportWarning::new(LogLevel::Error, LOAD_FAILURE_PREFIX, reason);
        self.warnings.push(warning);
        assert(warning_views(self.warnings@) =~= before.push(load_failure(reason@)));
        let (_, material) = parts_at(&self.scene, &self.plan, self.mesh);
        assert(self.slot < material.textures.len());
        let (slot, request) = settle(
            &material.textures,
            self.slot + 1,
            self.dir.as_str(),
            &self.cache,
            &mut self.textures,
        );
        self.slot = slot;
        self.request = request;
    }

    /// The chain of the mesh being built amounts to `pose`.
    fn pose_resolved(&mut self, pose: Pose)
        requires
            old(self).wf(),
            pending_of(old(self).job(), old(self)@) is ResolvePose,
        ensures
            final(self).wf(),
            final(self).job() == old(self).job(),
            final(self)@ == after_pose(old(self).job(), old(self)@, pose),
    {
        proof {
            lemma_step_keeps_valid(self.job(), self@, EventView::PoseResolved(pose));
            assert(self@.mesh < plan_of(self.job().scene).len());
            assert(ref_views(self.plan@).len() == self.plan@.len());
        }
        let ghost meshes_before = mesh_views(self.meshes@);
        let ghost warnings_before = warning_views(self.warnings@);
        let mut textures: Vec<Texture> = Vec::new();
        std::mem::swap(&mut self.textures, &mut textures);
        let id = self.first_id.wrapping_add(self.mesh as u64);
        assert(id == id_at(self.first_id, self.mesh as nat));
        let (mesh, material) = parts_at(&self.scene, &self.plan, self.mesh);
        let (entity, mut notes) = process_mesh(mesh, material, id, textures, pose);
        let ghost notes_view = warning_views(notes@);
        self.meshes.push(entity);
        self.warnings.append(&mut notes);
        proof {
            assert(mesh_views(self.meshes@) =~= meshes_before.push(entity@));
            assert(warning_views(self.warnings@) =~= warnings_before + notes_view);
        }
        assert(self.mesh < self.plan.len());
        self.mesh = self.mesh + 1;
        let (slot, request, textures) = arrive(
            &self.scene,
            &self.plan,
            self.mesh,
            self.dir.as_str(),
            &self.cache,
        );
        self.slot = slot;
        self.request = request;
        self.textures = textures;
    }

    /// The model and what there is to report, once the import is finished;
    /// the importer itself as long as it is not.
    pub fn finish(self) -> (r: Result<(Model, Vec<ImportWarning>), Importer>)
        requires
            self.wf(),
        ensures
            match r {
                Ok(out) => {
                    &&& pending_of(self.job(), self@) == ActionView::Finished
                    &&& out.0@ == (ModelView {
                        name: self.job().scene.root->0.name@,
                        meshes: self@.meshes,
                    })
                    &&& warning_views(out.1@) == self@.warnings
                },
                Err(same) => pending_of(self.job(), self@) != ActionView::Finished && same == self,
            },
    {
        if self.mesh < self.plan.len() {
            return Err(self);
        }
        let name = match &self.scene.root {
            Some(root) => root.name.clone(),
            None => String::new(),
        };
        Ok((Model { name, meshes: self.meshes }, self.warnings))
    }
}

} // verus!
