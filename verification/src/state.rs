//! What the viewer shows: the imported models, the picked mesh, the switches
//! of the view, and the log.

use vstd::prelude::*;
use vstd::string::*;
use crate::import::FatalImportError;
use crate::log::{entry_of, entry_views, EntryView, Log, LogLevel};
use crate::mesh::{Mesh, Model};
use crate::pick::{first_hit, missed_before, pick, Triangle};
use crate::warning::{ImportWarning, WarningView, warning_views};

verus! {

pub const IMPORT_FAILURE_PREFIX: &'static str = "Error loading model \"";

pub const IMPORT_FAILURE_INFIX: &'static str = "\": ";

pub const REMOVAL_PREFIX: &'static str = "Removing object ";

/// The state of the viewer.
pub struct State {
    pub camera_coords_shown: bool,
    pub is_cursor_captured: bool,
    pub draw_grid: bool,
    pub wireframe: bool,
    pub first_frame_drawn: bool,
    /// The imported models, in the order of their import.
    pub objects: Vec<Model>,
    /// The id of the picked mesh.
    pub selected: Option<u64>,
    /// The id that the first mesh of the next import gets.
    pub next_id: u64,
    pub log: Log,
}

/// The message logged for an import of the asset at `path` that failed for
/// the reason `reason`.
pub open spec fn import_failure_text(path: Seq<char>, reason: Seq<char>) -> Seq<char> {
    IMPORT_FAILURE_PREFIX@ + path + IMPORT_FAILURE_INFIX@ + reason
}

/// The log entries that a sequence of warnings becomes: one each, in order.
pub open spec fn warning_entries(warnings: Seq<WarningView>) -> Seq<EntryView> {
    warnings.map_values(|w: WarningView| entry_of(w.severity, w.message))
}

impl Default for State {
    fn default() -> (state: Self)
        ensures
            !state.camera_coords_shown,
            !state.is_cursor_captured,
            state.draw_grid,
            !state.wireframe,
            !state.first_frame_drawn,
            state.objects@.len() == 0,
            state.selected is None,
            state.next_id == 0,
            state.log.history@.len() == 0,
            state.log.history_index == 0,
    {
        State {
            camera_coords_shown: false,
            is_cursor_captured: false,
            draw_grid: true,
            wireframe: false,
            first_frame_drawn: false,
            objects: Vec::new(),
            selected: None,
            next_id: 0,
            log: Log::default(),
        }
    }
}

impl State {
    /// The switches of the view stand as in `other`.
    pub open spec fn same_switches(&self, other: &State) -> bool {
        &&& self.camera_coords_shown == other.camera_coords_shown
        &&& self.is_cursor_captured == other.is_cursor_captured
        &&& self.draw_grid == other.draw_grid
        &&& self.wireframe == other.wireframe
        &&& self.first_frame_drawn == other.first_frame_drawn
    }

    /// Takes in what an import of the asset at `path` came to. A model is
    /// added to the scene and each of its warnings logged; a failure is
    /// logged as one error and leaves the scene as it was.
    pub fn record_import(
        &mut self,
        path: &str,
        outcome: Result<(Model, Vec<ImportWarning>), FatalImportError>,
    )
        ensures
            match outcome {
                Ok(out) => {
                    &&& final(self).objects@ == old(self).objects@.push(out.0)
                    &&& entry_views(final(self).log.history@) == entry_views(old(self).log.history@)
                        + warning_entries(warning_views(out.1@))
                    &&& final(self).next_id == old(self).next_id.wrapping_add(
                        out.0.meshes@.len() as u64,
                    )
                },
                Err(e) => {
                    &&& final(self).objects == old(self).objects
                    &&& entry_views(final(self).log.history@) == entry_views(
                        old(self).log.history@,
                    ).push(
                        entry_of(LogLevel::Error, import_failure_text(path@, e.message_spec())),
                    )
                    &&& final(self).next_id == old(self).next_id
                },
            },
            final(self).selected == old(self).selected,
            final(self).log.history_index == old(self).log.history_index,
            final(self).same_switches(old(self)),
    {
        match outcome {
            Ok((model, warnings)) => {
                let ghost start = entry_views(self.log.history@);
                let ghost notes = warning_views(warnings@);
                let mut i: usize = 0;
                assert(entry_views(self.log.history@) =~= start + warning_entries(notes.take(0)));
                while i < warnings.len()
                    invariant
                        i <= warnings@.len(),
                        notes == warning_views(warnings@),
                        entry_views(self.log.history@) == start + warning_entries(
                            notes.take(i as int),
                        ),
                        self.log.history_index == old(self).log.history_index,
                        self.objects == old(self).objects,
                        self.selected == old(self).selected,
                        self.next_id == old(self).next_id,
                        self.same_switches(old(self)),
                    decreases warnings@.len() - i,
                {
                    let w = &warnings[i];
                    self.log.log(w.message.as_str(), w.severity);
                    proof {
                        assert(notes[i as int] == warnings@[i as int]@);
                        assert(warning_entries(notes.take(i + 1)) =~= warning_entries(
                            notes.take(i as int),
                        ).push(entry_of(w.severity, w.message@)));
                        assert(entry_views(self.log.history@) =~= start + warning_entries(
                            notes.take(i + 1),
                        ));
                    }
                    i = i + 1;
                }
                assert(notes.take(i as int) =~= notes);
                self.next_id = self.next_id.wrapping_add(model.meshes.len() as u64);
                self.objects.push(model);
            },
            Err(e) => {
                let mut text = String::from_str(IMPORT_FAILURE_PREFIX);
                text.append(path);
                text.append(IMPORT_FAILURE_INFIX);
                let reason = e.message();
                text.append(reason.as_str());
                self.log.log(text.as_str(), LogLevel::Error);
            },
        }
    }

    /// Removes the model at place `index` from the scene and logs that.
    pub fn remove_object(&mut self, index: usize)
        requires
            index < old(self).objects@.len(),
        ensures
            final(self).objects@ == old(self).objects@.remove(index as int),
            entry_views(final(self).log.history@) == entry_views(old(self).log.history@).push(
                entry_of(LogLevel::Info, REMOVAL_PREFIX@ + old(self).objects@[index as int].name@),
            ),
            final(self).selected == old(self).selected,
            final(self).next_id == old(self).next_id,
            final(self).log.history_index == old(self).log.history_index,
            final(self).same_switches(old(self)),
    {
        let mut text = String::from_str(REMOVAL_PREFIX);
        text.append(self.objects[index].name.as_str());
        self.log.log(text.as_str(), LogLevel::Info);
        let _ = self.objects.remove(index);
    }

    /// Picks among the meshes of the scene by the test `hit` and makes the
    /// result the selection: the mesh of the first triangle that the test
    /// accepts, or none.
    pub fn pick<F: Fn(&Mesh, &Triangle) -> bool>(&mut self, hit: F)
        requires
            forall|mesh: &Mesh, t: &Triangle| call_requires(hit, (mesh, t)),
        ensures
            match final(self).selected {
                Some(id) => first_hit(hit, old(self).objects@, id),
                None => missed_before(hit, old(self).objects@, old(self).objects@.len() as int, 0, 0),
            },
            final(self).objects == old(self).objects,
            final(self).next_id == old(self).next_id,
            final(self).log == old(self).log,
            final(self).same_switches(old(self)),
    {
        self.selected = pick(&self.objects, hit);
    }
}

} // verus!
