use grug_rs::mod_api_type::Entity;
use grug_rs::mod_api_type::ModAPI;
use grug_rs::mod_api_type::OnFunction;
use grug_rs::Grug;
use grug_rs::GrugError;

fn world_manifest() -> ModAPI {
    ModAPI {
        entities: vec![(
            String::from("World"),
            Entity {
                description: String::from("The world entity"),
                on_functions: vec![
                    (
                        String::from("on_update"),
                        OnFunction { description: String::from("Called every tick") },
                    ),
                    (
                        String::from("on_argument_test"),
                        OnFunction { description: String::from("Takes one string") },
                    ),
                ],
            },
        )],
        game_functions: vec![],
    }
}

#[test]
fn resolve_returns_declared_ordinals() {
    let grug = Grug::new(world_manifest());
    assert_eq!(
        grug.resolve(&String::from("World"), &String::from("on_update")),
        Ok(0)
    );
    assert_eq!(
        grug.resolve(&String::from("World"), &String::from("on_argument_test")),
        Ok(1)
    );
}

#[test]
fn resolve_ordinals_follow_declared_order() {
    let mut api = world_manifest();
    api.entities[0].1.on_functions.reverse();
    let grug = Grug::new(api);
    assert_eq!(
        grug.resolve(&String::from("World"), &String::from("on_argument_test")),
        Ok(0)
    );
    assert_eq!(
        grug.resolve(&String::from("World"), &String::from("on_update")),
        Ok(1)
    );
}

#[test]
fn resolve_unknown_entity() {
    let grug = Grug::new(world_manifest());
    assert_eq!(
        grug.resolve(&String::from("Nope"), &String::from("on_update")),
        Err(GrugError::NotAnEntity { entity_name: String::from("Nope") })
    );
}

#[test]
fn resolve_unknown_function_is_not_unknown_entity() {
    let grug = Grug::new(world_manifest());
    assert_eq!(
        grug.resolve(&String::from("World"), &String::from("on_missing")),
        Err(GrugError::NotAnOnFunction { function_name: String::from("on_missing") })
    );
}

#[test]
fn on_function_count_matches_declaration() {
    let grug = Grug::new(world_manifest());
    assert_eq!(grug.on_function_count(&String::from("World")), Some(2));
    assert_eq!(grug.on_function_count(&String::from("Nope")), None);
}

#[test]
fn index_keeps_manifest_for_inspection() {
    let grug = Grug::new(world_manifest());
    assert_eq!(grug.mod_api.entities.len(), 1);
    assert_eq!(grug.mod_api.entities[0].0, "World");
    assert_eq!(grug.entities.len(), 1);
    assert_eq!(grug.entities[0].1, vec![
        String::from("on_update"),
        String::from("on_argument_test"),
    ]);
}
