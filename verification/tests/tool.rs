use rsget::archive::{archive_name, included_paths, is_excluded, object_key_for, restore_archive_name};
use rsget::config::resolve_config;
use rsget::engine::Engine;
use rsget::engine::ProcessInfo;
use rsget::errors::TransferError;
use rsget::input::MyHelper;
use rsget::project::Project;
use rsget::target::{TransferTarget, User};

#[test]
fn validate_project_spots_a_descriptor() {
    let with = vec![
        "C:\\Dev\\Game\\Content".to_string(),
        "C:\\Dev\\Game\\Game.uproject".to_string(),
    ];
    let without = vec![
        "C:\\Dev\\Game\\Content".to_string(),
        "C:\\Dev\\Game\\readme.md".to_string(),
    ];
    assert!(Project::validate_project(&with));
    assert!(!Project::validate_project(&without));
    assert!(!Project::validate_project(&Vec::new()));
}

#[test]
fn project_name_is_the_descriptor_stem() {
    let paths = vec![
        "C:\\Dev\\Game\\Content".to_string(),
        "C:\\Dev\\Game\\Game.uproject".to_string(),
        "C:\\Dev\\Game\\Other.uproject".to_string(),
    ];
    assert_eq!(Project::get_project_name(&paths), "Game");
    let unix = vec!["/home/dev/Proj/Proj.uproject".to_string()];
    assert_eq!(Project::get_project_name(&unix), "Proj");
}

#[test]
fn add_project_skips_duplicates() {
    let mut projects: Vec<Project> = Vec::new();
    assert!(Project::add_project(&mut projects, "Game", "C:\\Dev\\Game"));
    assert_eq!(projects.len(), 1);
    assert_eq!(projects[0].name, "Game");
    assert_eq!(projects[0].path, "C:\\Dev\\Game");
    assert_eq!(projects[0].last_open_time, "none");
    // the same pair again is refused
    assert!(!Project::add_project(&mut projects, "Game", "C:\\Dev\\Game"));
    assert_eq!(projects.len(), 1);
    // the same name elsewhere is a different project
    assert!(Project::add_project(&mut projects, "Game", "D:\\Game"));
    assert_eq!(projects.len(), 2);
}

#[test]
fn engine_versions_come_from_marked_entries() {
    let entries = vec![
        "C:\\Program Files\\Epic Games\\UE_5.5".to_string(),
        "C:\\Program Files\\Epic Games\\Launcher".to_string(),
        "C:\\Program Files\\Epic Games\\ue_4.27".to_string(),
    ];
    assert_eq!(Engine::get_engine_versions(&entries), vec!["5.5", "4.27"]);
    assert!(Engine::get_engine_versions(&Vec::new()).is_empty());
}

#[test]
fn recent_projects_are_read_from_the_editor_section() {
    let text = "[/Script/UnrealEd.Something]\n\
                RecentlyOpenedProjectFiles=(ProjectName=\"C:/Elsewhere/No.uproject\", LastOpenTime=1)\n\
                [/Script/UnrealEd.EditorSettings]\n\
                RecentlyOpenedProjectFiles=(ProjectName=\"C:\\Dev\\Game\\Game.uproject\", LastOpenTime=2024.01.02-03.04.05)\n\
                RecentlyOpenedProjectFiles=(ProjectName=\"C:\\Dev\\Two\\Two.uproject\")\n\
                OtherKey=ignored\n";
    let projects = Engine::get_engine_projects(text);
    assert_eq!(projects.len(), 2);
    assert_eq!(projects[0].name, "Game");
    assert_eq!(projects[0].path, "C:\\Dev\\Game");
    assert_eq!(projects[0].last_open_time, "2024.01.02-03.04.05");
    assert_eq!(projects[1].name, "Two");
    assert_eq!(projects[1].path, "C:\\Dev\\Two");
    assert_eq!(projects[1].last_open_time, "");
}

#[test]
fn recent_projects_of_empty_or_foreign_text_are_none() {
    assert!(Engine::get_engine_projects("").is_empty());
    let foreign = "[/Script/Other.Section]\nRecentlyOpenedProjectFiles=(ProjectName=\"C:/A/A.uproject\")\n";
    assert!(Engine::get_engine_projects(foreign).is_empty());
}

#[test]
fn editor_process_is_found_by_name() {
    let procs = vec![
        ProcessInfo {
            pid: 11,
            name: "explorer.exe".to_string(),
        },
        ProcessInfo {
            pid: 42,
            name: "UnrealEditor.exe".to_string(),
        },
        ProcessInfo {
            pid: 77,
            name: "UnrealEditor.exe".to_string(),
        },
    ];
    assert_eq!(Engine::find_ue_process(&procs), Some(42));
    assert_eq!(Engine::find_ue_process(&Vec::new()), None);
}

#[test]
fn monitor_notifies_exactly_on_change() {
    assert_eq!(Engine::monitor_step(false, true), (true, true));
    assert_eq!(Engine::monitor_step(true, false), (true, false));
    assert_eq!(Engine::monitor_step(true, true), (false, true));
    assert_eq!(Engine::monitor_step(false, false), (false, false));
}

#[test]
fn completion_matches_the_last_word_prefix() {
    let helper = MyHelper::new(vec![
        "push".to_string(),
        "pull".to_string(),
        "path".to_string(),
        "exit".to_string(),
    ]);
    let (start, words) = helper.complete("pu", 2);
    assert_eq!(start, 0);
    assert_eq!(words, vec!["push", "pull"]);

    let (start, words) = helper.complete("set pa", 6);
    assert_eq!(start, 4);
    assert_eq!(words, vec!["path"]);

    // an empty word matches every candidate
    let (start, words) = helper.complete("", 0);
    assert_eq!(start, 0);
    assert_eq!(words.len(), 4);

    let (_, words) = helper.complete("zz", 2);
    assert!(words.is_empty());
}

#[test]
fn archive_exclusions_match_the_backup_rules() {
    assert!(is_excluded("Game\\Intermediate\\Build\\x.obj"));
    assert!(is_excluded("Game\\DerivedDataCache\\a"));
    assert!(is_excluded("Game\\Binaries\\Win64\\Game.dll"));
    assert!(is_excluded("Game\\.git\\HEAD"));
    assert!(is_excluded("Game\\Saved\\x.pdb"));
    assert!(is_excluded("Game\\Saved\\x.bak"));
    assert!(is_excluded("Game\\Saved\\x.tmp"));
    assert!(!is_excluded("Game\\Content\\Map.umap"));
    assert!(!is_excluded("Game\\Game.uproject"));

    let paths = vec![
        "Game\\Game.uproject".to_string(),
        "Game\\Binaries\\Game.dll".to_string(),
        "Game\\Content\\Map.umap".to_string(),
    ];
    assert_eq!(
        included_paths(&paths),
        vec!["Game\\Game.uproject", "Game\\Content\\Map.umap"]
    );
}

#[test]
fn backup_names_follow_the_project() {
    assert_eq!(archive_name("Game"), "UE5_Backup_Game.7z");
    assert_eq!(restore_archive_name("Game"), "UE5_Restore_Game.7z");
    assert_eq!(object_key_for("Game"), "backups/Game.7z");
}

#[test]
fn config_requires_all_four_values() {
    let ok = resolve_config(
        Some("ak".to_string()),
        Some("sk".to_string()),
        Some("https://storage.example".to_string()),
        Some("ru-central1".to_string()),
    );
    let cfg = ok.unwrap();
    assert_eq!(cfg.access_key, "ak");
    assert_eq!(cfg.secret_key, "sk");
    assert_eq!(cfg.endpoint, "https://storage.example");
    assert_eq!(cfg.region, "ru-central1");

    let missing_first = resolve_config(None, Some("sk".to_string()), None, None);
    assert_eq!(
        missing_first.unwrap_err(),
        TransferError::ConfigError {
            variable: "YANDEX_ACCESS_KEY_ID".to_string()
        }
    );

    let missing_secret = resolve_config(Some("ak".to_string()), None, None, None);
    assert_eq!(
        missing_secret.unwrap_err(),
        TransferError::ConfigError {
            variable: "YANDEX_SECRET_ACCESS_KEY_ID".to_string()
        }
    );

    let missing_endpoint =
        resolve_config(Some("ak".to_string()), Some("sk".to_string()), None, None);
    assert_eq!(
        missing_endpoint.unwrap_err(),
        TransferError::ConfigError {
            variable: "AWS_ENDPOINT".to_string()
        }
    );

    let missing_region = resolve_config(
        Some("ak".to_string()),
        Some("sk".to_string()),
        Some("e".to_string()),
        None,
    );
    assert_eq!(
        missing_region.unwrap_err(),
        TransferError::ConfigError {
            variable: "AWS_REGION".to_string()
        }
    );
}

#[test]
fn transfer_target_and_user_carry_their_fields() {
    let t = TransferTarget::new(
        "bucket".to_string(),
        "backups/Game.7z".to_string(),
        "backup_temp\\UE5_Backup_Game.7z".to_string(),
    );
    assert_eq!(t.bucket_name, "bucket");
    assert_eq!(t.object_key, "backups/Game.7z");
    assert_eq!(t.local_path, "backup_temp\\UE5_Backup_Game.7z");

    let u = User::new("dev".to_string());
    assert_eq!(u.user_name(), "dev");
}

#[test]
fn recent_project_without_directory_has_empty_path() {
    let text = "[/Script/UnrealEd.EditorSettings]\n\
                RecentlyOpenedProjectFiles=(ProjectName=\"Bare.uproject\", LastOpenTime=7)\n";
    let projects = Engine::get_engine_projects(text);
    assert_eq!(projects.len(), 1);
    assert_eq!(projects[0].name, "Bare");
    assert_eq!(projects[0].path, "");
    assert_eq!(projects[0].last_open_time, "7");
}

#[test]
fn recent_entry_with_empty_descriptor_is_skipped() {
    let text = "[/Script/UnrealEd.EditorSettings]\n\
                RecentlyOpenedProjectFiles=(ProjectName=\"\", LastOpenTime=7)\n\
                RecentlyOpenedProjectFiles=(ProjectName=\"C:/Dir/Ok.uproject\")\n";
    let projects = Engine::get_engine_projects(text);
    assert_eq!(projects.len(), 1);
    assert_eq!(projects[0].name, "Ok");
    assert_eq!(projects[0].path, "C:/Dir");
}
