use rbph::db::asset::{
    get_readable_file_by_object_key, list_by_scope, list_readable_files_by_object_key, AssetScope,
    OwnedFile, RbAssetReadableFile,
};
use rbph::db::frontend::draft::{
    copy_contents, delete_binding, ensure_draft, set_feature_activation, upsert_binding,
    DraftChoice,
};
use rbph::db::frontend::revision::{
    next_revision, publish, resolve, resolve_features, FrontendBinding,
    FrontendFeatureActivation, PackageRef, Page, RevisionContents,
};
use rbph::db::frontend::{
    renderer_cache_key, renderer_cache_pattern, FrontendFeature, ThemeFeatures, ThemeSyncMessage,
    ThemeUiFeature, PUZZLE_PAGE, ROUND_PAGE,
};

#[test]
fn renderer_cache_is_scoped_by_revision_surface_and_resource() {
    let published_round = renderer_cache_key(7, "round-page", Some(11), None, None);
    assert!(published_round.contains(":game:7:revision:published:"));
    assert_ne!(
        published_round,
        renderer_cache_key(7, "round-page", Some(12), None, None),
    );
    assert_ne!(
        published_round,
        renderer_cache_key(7, "puzzle-page", Some(11), Some(21), None),
    );
    assert_ne!(
        published_round,
        renderer_cache_key(7, "round-page", Some(11), None, Some(31)),
    );
}

#[test]
fn renderer_names_are_written_out() {
    assert_eq!(ROUND_PAGE, "round-page");
    assert_eq!(
        renderer_cache_key(7, PUZZLE_PAGE, Some(11), Some(21), Some(31)),
        "frontend:renderer:v2:game:7:revision:31:surface:puzzle-page:round:11:puzzle:21"
    );
    assert_eq!(
        renderer_cache_pattern(7, None),
        "frontend:renderer:v2:game:7:revision:published:*"
    );
}

#[test]
fn features_and_messages_read_back_from_their_codes() {
    for code in -2..5i16 {
        match FrontendFeature::from_code(code) {
            Some(feature) => assert_eq!(i16::from(feature), code),
            None => assert!(code < 0 || code > 2),
        }
    }
    let mut known = 0;
    for code in -10..500i16 {
        if let Some(message) = ThemeSyncMessage::from_code(code) {
            assert_eq!(message.code(), code);
            known += 1;
        }
    }
    assert_eq!(known, 14);
    assert_eq!(ThemeSyncMessage::PuzzleBackendEvent.code(), 303);
    assert_eq!(ThemeSyncMessage::Unknown.code(), -1);
}

#[test]
fn themes_tell_what_they_replace() {
    let mut features = ThemeFeatures::default();
    assert!(features.is_empty());
    features.ui = Some(ThemeUiFeature { icons: vec![], source: None });
    assert!(!features.is_empty());
    assert!(features.contains(FrontendFeature::Ui));
    assert!(!features.contains(FrontendFeature::Icons));
}

fn package(id: i32, name: &str, delete_pending: bool) -> PackageRef {
    PackageRef { id, game_id: 1, name: name.to_string(), delete_pending }
}

fn binding(scope_kind: &str, scope_id: i32, package_id: Option<i32>) -> FrontendBinding {
    FrontendBinding {
        revision_id: 5,
        surface: "round-page".to_string(),
        scope_kind: scope_kind.to_string(),
        scope_id,
        package_id,
        renderer_id: None,
    }
}

fn activation(package_id: i32, feature: FrontendFeature) -> FrontendFeatureActivation {
    FrontendFeatureActivation { revision_id: 5, package_id, feature }
}

#[test]
fn publishing_moves_to_the_packages_that_replaced_others() {
    let packages = vec![package(1, "a", true), package(2, "a", false), package(3, "b", true)];
    let bindings = vec![
        binding("game", 0, Some(1)),
        binding("round", 4, Some(3)),
        binding("puzzle", 6, None),
        binding("puzzle", 7, Some(2)),
    ];
    let on = vec![
        activation(1, FrontendFeature::Locale),
        activation(1, FrontendFeature::Ui),
        activation(2, FrontendFeature::Ui),
        activation(3, FrontendFeature::Icons),
    ];
    let published = publish(&packages, bindings, &on);
    assert_eq!(published.bindings.len(), 3);
    assert_eq!(published.bindings[0].package_id, Some(2));
    assert_eq!(published.bindings[1].package_id, None);
    assert_eq!(published.bindings[2].package_id, Some(2));
    assert_eq!(
        published.activations,
        vec![activation(2, FrontendFeature::Locale), activation(2, FrontendFeature::Ui)]
    );
    let again = publish(&packages, published.bindings, &published.activations);
    assert_eq!(again.bindings.len(), 3);
    assert_eq!(again.activations, published.activations);
}

#[test]
fn the_narrowest_binding_draws_a_page() {
    let packages = vec![package(1, "a", true), package(2, "a", false), package(3, "b", true)];
    let bindings = vec![
        binding("game", 0, Some(2)),
        binding("round", 4, Some(1)),
        binding("puzzle", 6, Some(3)),
    ];
    let page = |round: i32, puzzle: i32| Page {
        surface: "round-page",
        round_id: Some(round),
        puzzle_id: Some(puzzle),
    };
    let drawn = resolve(&packages, false, &bindings, &page(4, 6)).unwrap();
    assert_eq!((drawn.index, drawn.package_id), (2, Some(3)));
    let drawn = resolve(&packages, true, &bindings, &page(4, 6)).unwrap();
    assert_eq!((drawn.index, drawn.package_id), (1, Some(2)));
    let drawn = resolve(&packages, true, &bindings, &page(9, 6)).unwrap();
    assert_eq!((drawn.index, drawn.package_id), (0, Some(2)));
    let other = Page { surface: "puzzle-page", round_id: None, puzzle_id: None };
    assert!(resolve(&packages, false, &bindings, &other).is_none());
}

#[test]
fn features_are_listed_once_by_package() {
    let packages = vec![package(1, "a", true), package(2, "a", false), package(3, "b", true)];
    let on = vec![
        activation(3, FrontendFeature::Icons),
        activation(2, FrontendFeature::Ui),
        activation(1, FrontendFeature::Ui),
        activation(1, FrontendFeature::Locale),
    ];
    assert_eq!(
        resolve_features(&packages, true, &on),
        vec![(2, FrontendFeature::Locale), (2, FrontendFeature::Ui)]
    );
    assert_eq!(
        resolve_features(&packages, false, &on),
        vec![
            (1, FrontendFeature::Locale),
            (1, FrontendFeature::Ui),
            (2, FrontendFeature::Ui),
            (3, FrontendFeature::Icons)
        ]
    );
}

#[test]
fn revisions_are_numbered_until_numbers_run_out() {
    assert_eq!(next_revision(None).unwrap(), 1);
    assert_eq!(next_revision(Some(8)).unwrap(), 9);
    assert!(next_revision(Some(i64::MAX)).is_err());
}

#[test]
fn files_belong_to_one_scope() {
    assert_eq!(list_by_scope(Some(1), Some(2)), AssetScope::Puzzle(1));
    assert_eq!(list_by_scope(None, Some(2)), AssetScope::Round(2));
    assert_eq!(list_by_scope(None, None), AssetScope::Game);
}

fn owned(game_id: i32, puzzle_id: Option<i32>, round_id: Option<i32>, key: &str) -> OwnedFile {
    let relative_path = format!("{game_id}-{puzzle_id:?}-{round_id:?}");
    let file = RbAssetReadableFile {
        group_id: 1,
        object_key: key.to_string(),
        original_name: "n".to_string(),
        relative_path,
        mime_type: "m".to_string(),
        size: 1,
        sha256: "s".to_string(),
    };
    OwnedFile { game_id, puzzle_id, round_id, file }
}

#[test]
fn puzzles_read_their_own_files_and_those_of_the_game() {
    let files = || {
        vec![
            owned(2, Some(3), None, "k"),
            owned(2, Some(4), None, "k"),
            owned(2, None, None, "k"),
            owned(2, None, Some(5), "k"),
            owned(2, Some(3), Some(5), "k"),
            owned(9, None, None, "k"),
            owned(2, Some(3), None, "other"),
        ]
    };
    let read = list_readable_files_by_object_key(files(), 2, 3, "k");
    let paths: Vec<&str> = read.iter().map(|file| file.relative_path.as_str()).collect();
    assert_eq!(paths, ["2-Some(3)-None", "2-None-None"]);
    let found = get_readable_file_by_object_key(files(), 2, 3, "k", "2-None-None").unwrap();
    assert_eq!(found.relative_path, "2-None-None");
    assert!(get_readable_file_by_object_key(files(), 2, 3, "k", "2-Some(4)-None").is_none());
    assert!(get_readable_file_by_object_key(files(), 2, 3, "other", "2-None-None").is_none());
}

fn drawn(surface: &str, scope_id: i32, package_id: i32) -> FrontendBinding {
    FrontendBinding {
        revision_id: 1,
        surface: surface.to_string(),
        scope_kind: "round".to_string(),
        scope_id,
        package_id: Some(package_id),
        renderer_id: None,
    }
}

#[test]
fn drafts_are_changed_place_by_place() {
    let bindings = upsert_binding(vec![drawn(ROUND_PAGE, 1, 10)], drawn(ROUND_PAGE, 2, 11));
    assert_eq!(bindings.len(), 2);
    let bindings = upsert_binding(bindings, drawn(ROUND_PAGE, 1, 12));
    assert_eq!(bindings.len(), 2);
    assert_eq!(bindings[0].package_id, Some(12));
    let (bindings, found) = delete_binding(bindings, ROUND_PAGE, "round", 1);
    assert!(found);
    assert_eq!(bindings.len(), 1);
    let (bindings, found) = delete_binding(bindings, ROUND_PAGE, "game", 2);
    assert!(!found);
    let on = set_feature_activation(vec![], 1, 10, FrontendFeature::Ui, true);
    assert_eq!(on.len(), 1);
    let on = set_feature_activation(on, 1, 10, FrontendFeature::Ui, true);
    assert_eq!(on.len(), 1);
    let copy = copy_contents(RevisionContents { bindings, activations: on }, 9);
    assert_eq!((copy.bindings[0].revision_id, copy.bindings[0].scope_id), (9, 2));
    assert_eq!(copy.activations[0].revision_id, 9);
    let off = set_feature_activation(copy.activations, 9, 10, FrontendFeature::Ui, false);
    assert!(off.is_empty());
    assert_eq!(ensure_draft(Some(4), Some(7)).unwrap(), DraftChoice::Existing(4));
    assert_eq!(ensure_draft(None, Some(7)).unwrap(), DraftChoice::New(8));
    assert_eq!(ensure_draft(None, None).unwrap(), DraftChoice::New(1));
    assert!(ensure_draft(None, Some(i64::MAX)).is_err());
}
