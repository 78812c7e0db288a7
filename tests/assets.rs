use bifrost_ecs::asset::{file_stem, Asset};
use bifrost_ecs::asset_loader_errors::AssetLoaderError;
use bifrost_ecs::pipeline_executor::PipelineExecutor;

#[test]
fn stem_is_last_segment_before_first_dot() {
    assert_eq!(file_stem("assets/textures/ball.png"), "ball");
    assert_eq!(file_stem("paddle.tar.gz"), "paddle");
    assert_eq!(file_stem("dir/noext"), "noext");
    assert_eq!(file_stem("dir.d/file"), "file");
    assert_eq!(file_stem("dir/"), "");
    assert_eq!(file_stem(""), "");
    assert_eq!(file_stem("a/.hidden"), "");
}

#[test]
fn load_files_under_stem_and_get_by_name() {
    let mut store: Asset<u32> = Asset::new();
    assert_eq!(store.load("assets/ball.png", 7), Ok(()));
    assert!(store.is_loaded("ball"));
    assert!(!store.is_loaded("assets/ball.png"));
    assert_eq!(store.get("ball"), Ok(&7));
    assert_eq!(
        store.get("paddle"),
        Err(AssetLoaderError::NotLoaded("paddle".to_string()))
    );
    assert_eq!(
        store.load("other/ball.jpg", 8),
        Err(AssetLoaderError::AlreadyLoaded("other/ball.jpg".to_string()))
    );
    assert_eq!(store.get("ball"), Ok(&7));
}

#[test]
fn load_of_a_stored_name_is_already_loaded() {
    let mut store: Asset<u32> = Asset::new();
    store.load("ball", 1).unwrap();
    assert_eq!(
        store.load("ball", 2),
        Err(AssetLoaderError::AlreadyLoaded("ball".to_string()))
    );
    assert_eq!(store.get("ball"), Ok(&1));
}

#[test]
fn reloading_a_path_is_already_loaded() {
    let mut store: Asset<u32> = Asset::new();
    assert_eq!(store.load("a.b", 1), Ok(()));
    assert_eq!(
        store.load("a.b", 2),
        Err(AssetLoaderError::AlreadyLoaded("a.b".to_string()))
    );
    assert_eq!(store.get("a"), Ok(&1));
    assert_eq!(store.remove("a"), Ok(()));
    assert_eq!(store.load("a.b", 3), Ok(()));
    assert_eq!(store.get("a"), Ok(&3));
}

#[test]
fn remove_asset() {
    let mut store: Asset<u32> = Asset::new();
    store.load("x/a.png", 1).unwrap();
    store.load("x/b.png", 2).unwrap();
    assert_eq!(store.remove("a"), Ok(()));
    assert!(!store.is_loaded("a"));
    assert_eq!(store.get("b"), Ok(&2));
    assert_eq!(
        store.remove("a"),
        Err(AssetLoaderError::NotFounded("a".to_string()))
    );
}

#[test]
fn pipeline_scenes_by_key() {
    let mut p: PipelineExecutor<&str> = PipelineExecutor::new();
    p.add_scene(1, "menu");
    p.add_scene(2, "game");
    assert_eq!(p.get_scene(1), Some(&"menu"));
    assert_eq!(p.get_scene(3), None);
    p.add_scene(1, "menu2");
    assert_eq!(p.remove_scene(1), Some("menu2"));
    assert_eq!(p.get_scene(1), None);
    assert_eq!(p.remove_scene(1), None);
    assert_eq!(p.get_scene(2), Some(&"game"));
}
