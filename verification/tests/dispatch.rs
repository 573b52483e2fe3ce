use grug_rs::regenerate_outcome;
use grug_rs::GrugError;
use grug_rs::GrugFile;
use grug_rs::OpaqueGrugType;
use grug_rs::RawAddr;

#[test]
fn dispatch_within_bounds_plans_the_slot() {
    let file = GrugFile::new(String::from("World"), 2, 32, 5);
    let args = vec![OpaqueGrugType { raw: RawAddr::ValueSlot(0) }];
    let inv = file.run_on_function(1, args.clone()).unwrap();
    assert_eq!(inv.handle, 5);
    assert_eq!(inv.slot, 1);
    assert_eq!(inv.globals_size, 32);
    assert_eq!(inv.args, args);
}

#[test]
fn dispatch_at_declared_count_is_undefined() {
    let file = GrugFile::new(String::from("World"), 2, 32, 5);
    let r = file.run_on_function(2, vec![]);
    assert_eq!(r, Err(GrugError::UndefinedFunction));
}

#[test]
fn dispatch_beyond_declared_count_is_undefined() {
    let file = GrugFile::new(String::from("World"), 2, 32, 5);
    let r = file.run_on_function(100, vec![]);
    assert_eq!(r, Err(GrugError::UndefinedFunction));
}

#[test]
fn dispatch_on_empty_slot_table_is_undefined() {
    let file = GrugFile::new(String::from("World"), 0, 0, 0);
    let r = file.run_on_function(0, vec![]);
    assert_eq!(r, Err(GrugError::UndefinedFunction));
}

#[test]
fn file_snapshot_keeps_fields() {
    let file = GrugFile::new(String::from("Tile"), 3, 64, 9);
    assert_eq!(file.entity_type, "Tile");
    assert_eq!(file.on_fn_count, 3);
    assert_eq!(file.globals_size, 64);
    assert_eq!(file.handle, 9);
    assert_eq!(file.clone(), file);
}

#[test]
fn regenerate_success() {
    assert_eq!(regenerate_outcome(false, false, String::new(), String::new()), Ok(()));
    // The flag only matters when the reload failed.
    assert_eq!(regenerate_outcome(false, true, String::new(), String::new()), Ok(()));
}

#[test]
fn regenerate_file_loading_failure() {
    let r = regenerate_outcome(
        true,
        true,
        String::from("syntax error"),
        String::from("mods/bad-World.grug"),
    );
    assert_eq!(
        r,
        Err(GrugError::FileLoading {
            name: String::from("syntax error"),
            path: String::from("mods/bad-World.grug"),
        })
    );
}

#[test]
fn regenerate_general_failure() {
    let r = regenerate_outcome(true, false, String::from("out of memory"), String::new());
    assert_eq!(r, Err(GrugError::Regenerating { error: String::from("out of memory") }));
}
