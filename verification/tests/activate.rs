use grug_rs::mod_api_type::Entity;
use grug_rs::mod_api_type::ModAPI;
use grug_rs::mod_api_type::OnFunction;
use grug_rs::Activation;
use grug_rs::Arguments;
use grug_rs::Grug;
use grug_rs::GrugError;
use grug_rs::GrugFile;
use grug_rs::GrugValue;
use grug_rs::RawAddr;

fn world_manifest() -> ModAPI {
    ModAPI {
        entities: vec![(
            String::from("World"),
            Entity {
                description: String::from("The world entity"),
                on_functions: vec![
                    (
                        String::from("on_update"),
                        OnFunction { description: String::from("Called every tick") },
                    ),
                    (
                        String::from("on_argument_test"),
                        OnFunction { description: String::from("Takes one string") },
                    ),
                ],
            },
        )],
        game_functions: vec![],
    }
}

fn world_file(handle: usize) -> GrugFile {
    GrugFile::new(String::from("World"), 2, 16, handle)
}

#[test]
fn activate_zero_arguments_invokes_slot_zero() {
    let grug = Grug::new(world_manifest());
    let files = vec![world_file(0)];
    let mut args = Arguments::empty();
    let activation =
        grug.activate_on_function(&String::from("World"), &String::from("on_update"), &mut args, &files);
    assert_eq!(activation.failure, None);
    assert_eq!(activation.invocations.len(), 1);
    let inv = &activation.invocations[0];
    assert_eq!(inv.handle, 0);
    assert_eq!(inv.slot, 0);
    assert_eq!(inv.globals_size, 16);
    // Only the global-state pointer: no argument wrappers.
    assert!(inv.args.is_empty());
}

#[test]
fn activate_one_string_argument_invokes_slot_one() {
    let grug = Grug::new(world_manifest());
    let files = vec![world_file(0)];
    let mut args = Arguments::new(vec![GrugValue::String(String::from("hello, world"))]);
    let activation = grug.activate_on_function(
        &String::from("World"),
        &String::from("on_argument_test"),
        &mut args,
        &files,
    );
    assert_eq!(activation.failure, None);
    assert_eq!(activation.invocations.len(), 1);
    let inv = &activation.invocations[0];
    assert_eq!(inv.slot, 1);
    assert_eq!(inv.args.len(), 1);
    // The single argument points at the cached buffer whose content is
    // exactly the string that was passed.
    assert_eq!(inv.args[0].raw, RawAddr::StringBuf(0));
    assert_eq!(args.stored_c_strings, vec![String::from("hello, world")]);
}

#[test]
fn activate_unknown_entity_touches_nothing() {
    let grug = Grug::new(world_manifest());
    let files = vec![world_file(0)];
    let mut args = Arguments::new(vec![GrugValue::I32(1)]);
    let activation =
        grug.activate_on_function(&String::from("Nope"), &String::from("on_update"), &mut args, &files);
    assert_eq!(
        activation.failure,
        Some(GrugError::NotAnEntity { entity_name: String::from("Nope") })
    );
    assert!(activation.invocations.is_empty());
    // The argument list was never marshaled: no cache entry was created.
    assert_eq!(args.values, vec![GrugValue::I32(1)]);
    assert!(args.stored_c_strings.is_empty());
}

#[test]
fn activate_unknown_function_is_distinct() {
    let grug = Grug::new(world_manifest());
    let files = vec![world_file(0)];
    let mut args = Arguments::empty();
    let activation =
        grug.activate_on_function(&String::from("World"), &String::from("on_nope"), &mut args, &files);
    assert_eq!(
        activation.failure,
        Some(GrugError::NotAnOnFunction { function_name: String::from("on_nope") })
    );
    assert!(activation.invocations.is_empty());
}

#[test]
fn activate_invokes_every_matching_unit_in_order() {
    let grug = Grug::new(world_manifest());
    let files = vec![
        world_file(10),
        GrugFile::new(String::from("Other"), 5, 8, 11),
        world_file(12),
    ];
    let mut args = Arguments::empty();
    let activation =
        grug.activate_on_function(&String::from("World"), &String::from("on_update"), &mut args, &files);
    assert_eq!(activation.failure, None);
    let handles: Vec<usize> = activation.invocations.iter().map(|i| i.handle).collect();
    assert_eq!(handles, vec![10, 12]);
}

#[test]
fn activate_stops_at_unit_with_too_few_slots() {
    let grug = Grug::new(world_manifest());
    let files = vec![
        world_file(0),
        GrugFile::new(String::from("World"), 1, 16, 1), // declares only slot 0
        world_file(2),
    ];
    let mut args = Arguments::empty();
    let activation = grug.activate_on_function(
        &String::from("World"),
        &String::from("on_argument_test"), // ordinal 1
        &mut args,
        &files,
    );
    assert_eq!(activation.failure, Some(GrugError::UndefinedFunction));
    // The first unit was planned before the failure; the third never was.
    assert_eq!(activation.invocations.len(), 1);
    assert_eq!(activation.invocations[0].handle, 0);
}

#[test]
fn repeated_activation_re_enumerates_fresh() {
    let grug = Grug::new(world_manifest());
    let mut files = vec![world_file(0)];
    let mut args = Arguments::empty();
    let entity = String::from("World");
    let func = String::from("on_update");
    // A reload that changed nothing: the same table gives the same plan.
    let first = grug.activate_on_function(&entity, &func, &mut args, &files);
    let second = grug.activate_on_function(&entity, &func, &mut args, &files);
    assert_eq!(first, second);
    // A reload that loaded one more unit is seen at once: nothing was cached.
    files.push(world_file(7));
    let third = grug.activate_on_function(&entity, &func, &mut args, &files);
    assert_eq!(third.invocations.len(), 2);
    assert_eq!(third.invocations[1].handle, 7);
}

#[test]
fn activation_plans_are_comparable() {
    let a = Activation { invocations: vec![], failure: None };
    let b = Activation { invocations: vec![], failure: Some(GrugError::UndefinedFunction) };
    assert_ne!(a, b);
}
