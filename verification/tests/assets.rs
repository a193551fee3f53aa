use deeper_physics::{
    Asset, AssetKind, AssetManager, Extensions, ModelFile, ModelLoad, PathSettings, PlannedLoad,
};

fn manager() -> AssetManager<String> {
    AssetManager::new(
        PathSettings {
            extensions_settings_path: "settings/extensions.settings".to_string(),
            models_path: "assets/models".to_string(),
            display_settings_path: "settings/display.settings".to_string(),
        },
        Extensions { models: vec!["obj".to_string(), "glb".to_string(), "gltf".to_string()] },
    )
}

#[test]
fn new_manager_is_empty() {
    let manager = manager();
    assert!(manager.models.is_empty());
    assert_eq!(manager.asset_count(), 0);
    assert_eq!(manager.asset(0), None);
    assert_eq!(manager.models_path(), "assets/models");
    assert_eq!(manager.display_settings_path(), "settings/display.settings");
    assert_eq!(manager.get_model_index("cube.obj"), None);
}

#[test]
fn model_extensions_are_known() {
    let manager = manager();
    assert!(manager.is_model_extension("obj"));
    assert!(manager.is_model_extension("glb"));
    assert!(manager.is_model_extension("gltf"));
    assert!(!manager.is_model_extension("png"));
    assert!(!manager.is_model_extension(""));
    assert!(!manager.is_model_extension("OBJ"));
}

#[test]
fn allocated_models_get_consecutive_places() {
    let mut manager = manager();
    assert_eq!(manager.allocate_graphics_model_from_vertex_lists("floor".to_string()), 0);
    assert_eq!(manager.allocate_graphics_model_from_vertex_lists("wall".to_string()), 1);
    assert_eq!(manager.models, vec!["floor".to_string(), "wall".to_string()]);
    assert_eq!(manager.asset_count(), 0);
}

#[test]
fn registered_model_is_found_by_its_file_name() {
    let mut manager = manager();
    manager.register_asset("assets/models/cube.obj", "cube.obj", 10, AssetKind::Model(3));
    manager.register_asset("settings/display.settings", "display.settings", 11, AssetKind::Settings);
    assert_eq!(manager.get_model_index("cube.obj"), Some(3));
    assert_eq!(manager.get_model_index("display.settings"), None);
    assert_eq!(manager.get_model_index("assets/models/cube.obj"), None);
    assert_eq!(manager.asset_count(), 2);
    assert_eq!(
        manager.asset(0),
        Some(&Asset {
            file_name: "cube.obj".to_string(),
            path: "assets/models/cube.obj".to_string(),
            loaded_at_time: 10,
            asset_kind: AssetKind::Model(3),
        })
    );
    assert_eq!(manager.asset(2), None);
}

#[test]
fn registering_a_path_again_replaces_the_asset() {
    let mut manager = manager();
    manager.register_asset("a/cube.obj", "cube.obj", 10, AssetKind::Model(0));
    manager.register_asset("b/ball.obj", "ball.obj", 11, AssetKind::Model(1));
    manager.register_asset("a/cube.obj", "cube.obj", 12, AssetKind::Model(5));
    assert_eq!(manager.asset_count(), 2);
    assert_eq!(manager.get_model_index("cube.obj"), Some(5));
    assert_eq!(manager.asset(0).unwrap().loaded_at_time, 12);
    assert_eq!(manager.asset(1).unwrap().path, "b/ball.obj");
}

#[test]
fn first_registered_of_two_files_with_one_name_counts() {
    let mut manager = manager();
    manager.register_asset("a/cube.obj", "cube.obj", 10, AssetKind::Model(0));
    manager.register_asset("b/cube.obj", "cube.obj", 11, AssetKind::Model(1));
    assert_eq!(manager.get_model_index("cube.obj"), Some(0));
    manager.register_asset("a/cube.obj", "cube.obj", 12, AssetKind::Settings);
    assert_eq!(manager.get_model_index("cube.obj"), None);
}

#[test]
fn unknown_file_is_loaded_as_a_new_model() {
    let mut manager = manager();
    assert_eq!(manager.plan_model_load("a/cube.obj", 5), ModelLoad::New);
    let index = manager.load_model("a/cube.obj", "cube.obj", ModelLoad::New, "cube".to_string(), 7);
    assert_eq!(index, 0);
    assert_eq!(manager.models, vec!["cube".to_string()]);
    assert_eq!(manager.get_model_index("cube.obj"), Some(0));
    assert_eq!(manager.asset(0).unwrap().loaded_at_time, 7);
    assert_eq!(manager.plan_model_load("a/cube.obj", 7), ModelLoad::Current);
    assert_eq!(manager.plan_model_load("a/cube.obj", 5), ModelLoad::Current);
}

#[test]
fn modified_file_is_loaded_again_into_its_place() {
    let mut manager = manager();
    manager.load_model("a/cube.obj", "cube.obj", ModelLoad::New, "cube".to_string(), 7);
    manager.load_model("a/ball.obj", "ball.obj", ModelLoad::New, "ball".to_string(), 8);
    let plan = manager.plan_model_load("a/cube.obj", 9);
    assert_eq!(plan, ModelLoad::Reload(0));
    let index = manager.load_model("a/cube.obj", "cube.obj", plan, "cube v2".to_string(), 10);
    assert_eq!(index, 0);
    assert_eq!(manager.models, vec!["cube v2".to_string(), "ball".to_string()]);
    assert_eq!(manager.asset_count(), 2);
    assert_eq!(manager.asset(0).unwrap().loaded_at_time, 10);
    assert_eq!(manager.get_model_index("ball.obj"), Some(1));
    assert_eq!(manager.plan_model_load("a/cube.obj", 10), ModelLoad::Current);
    assert_eq!(manager.plan_model_load("a/cube.obj", 11), ModelLoad::Reload(0));
}

#[test]
fn settings_file_is_never_loaded_as_a_model() {
    let mut manager = manager();
    manager.register_asset("settings/display.settings", "display.settings", 1, AssetKind::Settings);
    assert_eq!(manager.plan_model_load("settings/display.settings", 100), ModelLoad::Current);
}

#[test]
fn reload_of_a_place_that_is_not_there_appends() {
    let mut manager = manager();
    manager.register_asset("a/cube.obj", "cube.obj", 1, AssetKind::Model(4));
    assert_eq!(manager.plan_model_load("a/cube.obj", 2), ModelLoad::Current);
    let index =
        manager.load_model("a/cube.obj", "cube.obj", ModelLoad::Reload(4), "cube".to_string(), 3);
    assert_eq!(index, 0);
    assert_eq!(manager.models, vec!["cube".to_string()]);
    assert_eq!(manager.get_model_index("cube.obj"), Some(0));
}

fn found(path: &str, file_name: &str, extension: &str, modified: u64) -> ModelFile {
    ModelFile {
        path: path.to_string(),
        file_name: file_name.to_string(),
        extension: extension.to_string(),
        modified,
    }
}

#[test]
fn found_models_are_planned_in_the_order_they_were_found() {
    let mut manager = manager();
    manager.load_model("m/old.obj", "old.obj", ModelLoad::New, "old".to_string(), 10);
    manager.load_model("m/kept.glb", "kept.glb", ModelLoad::New, "kept".to_string(), 10);
    manager.register_asset("m/display.obj", "display.obj", 10, AssetKind::Settings);
    let files = vec![
        found("m/readme.txt", "readme.txt", "txt", 50),
        found("m/new.gltf", "new.gltf", "gltf", 5),
        found("m/kept.glb", "kept.glb", "glb", 10),
        found("m/old.obj", "old.obj", "obj", 11),
        found("m/display.obj", "display.obj", "obj", 99),
        found("m/sub/new.obj", "new.obj", "obj", 1),
    ];
    assert_eq!(
        manager.load_models(&files),
        vec![
            PlannedLoad { file: 1, load: ModelLoad::New },
            PlannedLoad { file: 3, load: ModelLoad::Reload(0) },
            PlannedLoad { file: 5, load: ModelLoad::New },
        ]
    );
}

#[test]
fn nothing_is_planned_where_nothing_is_found() {
    let manager = manager();
    assert_eq!(manager.load_models(&Vec::new()), Vec::new());
    assert_eq!(manager.load_models(&vec![found("m/a.png", "a.png", "png", 1)]), Vec::new());
}

#[test]
fn planned_loads_leave_nothing_to_plan_once_done() {
    let mut manager = manager();
    let files = vec![found("m/a.obj", "a.obj", "obj", 3), found("m/b.obj", "b.obj", "obj", 4)];
    let plans = manager.load_models(&files);
    assert_eq!(plans.len(), 2);
    for plan in plans {
        let file = &files[plan.file];
        manager.load_model(&file.path, &file.file_name, plan.load, file.file_name.clone(), 9);
    }
    assert_eq!(manager.models, vec!["a.obj".to_string(), "b.obj".to_string()]);
    assert_eq!(manager.get_model_index("b.obj"), Some(1));
    assert_eq!(manager.load_models(&files), Vec::new());
}
