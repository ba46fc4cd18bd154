use rust_gl::import::FatalImportError;
use rust_gl::log::LogLevel;
use rust_gl::mesh::{Material, Mesh, Model, Pose};
use rust_gl::scalar::{Scalar, Vec3};
use rust_gl::state::State;
use rust_gl::warning::ImportWarning;

fn zero() -> Vec3 {
    Vec3 { x: Scalar::zero(), y: Scalar::zero(), z: Scalar::zero() }
}

fn mesh(id: u64) -> Mesh {
    let material = Material::new("m".to_string(), zero(), zero(), zero(), Scalar::zero());
    let pose = Pose { position: zero(), rotation: zero(), scale: zero() };
    Mesh::new(id, "mesh", vec![], vec![], vec![], material, pose)
}

fn model(name: &str, ids: &[u64]) -> Model {
    Model { name: name.to_string(), meshes: ids.iter().map(|id| mesh(*id)).collect() }
}

#[test]
fn the_state_begins_empty_with_the_grid_shown() {
    let state = State::default();
    assert!(!state.camera_coords_shown);
    assert!(!state.is_cursor_captured);
    assert!(state.draw_grid);
    assert!(!state.wireframe);
    assert!(!state.first_frame_drawn);
    assert!(state.objects.is_empty());
    assert_eq!(state.selected, None);
    assert_eq!(state.next_id, 0);
    assert!(state.log.history.is_empty());
    assert_eq!(state.log.history_index, 0);
}

#[test]
fn a_failed_import_is_logged_once_and_adds_no_model() {
    let mut state = State::default();
    state.record_import("models/broken.fbx", Err(FatalImportError::IncompleteScene));
    assert!(state.objects.is_empty());
    assert_eq!(state.next_id, 0);
    assert_eq!(state.log.history.len(), 1);
    assert_eq!(state.log.history[0].level, LogLevel::Error);
    assert_eq!(
        state.log.history[0].message,
        "[ERROR]: Error loading model \"models/broken.fbx\": Scene is incomplete"
    );
    state.record_import("x.obj", Err(FatalImportError::Unreadable("bad magic".to_string())));
    assert!(state.objects.is_empty());
    assert_eq!(state.log.history.len(), 2);
    assert_eq!(state.log.history[1].message, "[ERROR]: Error loading model \"x.obj\": bad magic");
}

#[test]
fn an_import_with_warnings_still_adds_its_model() {
    let mut state = State::default();
    state.selected = Some(9);
    let warnings = vec![
        ImportWarning::new(LogLevel::Error, "Error loading texture: ", "a.png"),
        ImportWarning::new(LogLevel::Warning, "Property should not be this type: ", "?mat.name"),
    ];
    state.record_import("m/a.obj", Ok((model("lamp", &[0, 1, 2]), warnings)));
    assert_eq!(state.objects.len(), 1);
    assert_eq!(state.objects[0].name, "lamp");
    assert_eq!(state.next_id, 3);
    assert_eq!(state.selected, Some(9));
    let entries: Vec<(LogLevel, &str)> =
        state.log.history.iter().map(|e| (e.level, e.message.as_str())).collect();
    assert_eq!(
        entries,
        vec![
            (LogLevel::Error, "[ERROR]: Error loading texture: a.png"),
            (LogLevel::Warning, "[WARNING]: Property should not be this type: ?mat.name"),
        ]
    );
    state.record_import("m/b.obj", Ok((model("chair", &[3]), vec![])));
    assert_eq!(state.objects.len(), 2);
    assert_eq!(state.objects[1].name, "chair");
    assert_eq!(state.next_id, 4);
    assert_eq!(state.log.history.len(), 2);
}

#[test]
fn removing_an_object_is_logged() {
    let mut state = State::default();
    state.record_import("a", Ok((model("first", &[0]), vec![])));
    state.record_import("b", Ok((model("second", &[1]), vec![])));
    state.record_import("c", Ok((model("third", &[2]), vec![])));
    state.remove_object(1);
    let names: Vec<&str> = state.objects.iter().map(|m| m.name.as_str()).collect();
    assert_eq!(names, vec!["first", "third"]);
    assert_eq!(state.log.history.len(), 1);
    assert_eq!(state.log.history[0].level, LogLevel::Info);
    assert_eq!(state.log.history[0].message, "[INFO]: Removing object second");
    assert_eq!(state.next_id, 3);
}
