use toaster_plugins::errors::PluginError;
use toaster_plugins::handle::LoadedModule;
use toaster_plugins::manager::GroupLoadOutcome;
use toaster_plugins::manager::PluginManager;

use toaster_plugins::descriptor::CommandGroupDescriptor;

fn mapping() -> libloading::Library {
    libloading::Library::from(libloading::os::unix::Library::this())
}

fn descriptor(name: &str, commands: &[&str]) -> CommandGroupDescriptor {
    CommandGroupDescriptor {
        name: name.to_string(),
        prefixes: Vec::new(),
        default_command: None,
        required_role: None,
        commands: commands.iter().map(|c| c.to_string()).collect(),
    }
}

fn module(names: &[&str]) -> LoadedModule {
    LoadedModule {
        mapping: mapping(),
        groups: names.iter().map(|n| descriptor(n, &["run"])).collect(),
    }
}

fn manager() -> PluginManager {
    PluginManager::new("/lib/libmod.so".to_string(), "/tmp/stage".to_string())
}

#[test]
fn load_then_list_includes_group() {
    let mut m = manager();
    let name = "general".to_string();
    assert!(m.begin_load(&name).is_ok());
    assert!(m.load_group(&name, module(&["general", "yolol"])).is_ok());
    let listed = m.list_groups();
    assert!(listed.contains(&name));
}

#[test]
fn second_load_reports_already_loaded() {
    let mut m = manager();
    let name = "general".to_string();
    m.load_group(&name, module(&["general"])).unwrap();
    let again = m.load_group(&name, module(&["general"]));
    assert!(matches!(again, Err(PluginError::AlreadyLoaded)));
    let staged = m.begin_load(&name);
    assert!(matches!(staged, Err(PluginError::AlreadyLoaded)));
}

#[test]
fn unload_then_list_excludes_group() {
    let mut m = manager();
    let name = "general".to_string();
    m.load_group(&name, module(&["general"])).unwrap();
    assert!(m.unload_group(&name).is_ok());
    let listed = m.list_groups();
    assert!(!listed.contains(&name));
}

#[test]
fn second_unload_reports_not_loaded() {
    let mut m = manager();
    let name = "general".to_string();
    m.load_group(&name, module(&["general"])).unwrap();
    m.unload_group(&name).unwrap();
    let again = m.unload_group(&name);
    assert!(matches!(again, Err(PluginError::NotLoaded)));
}

#[test]
fn unload_quarantines_instead_of_destroying() {
    let mut m = manager();
    let name = "general".to_string();
    m.load_group(&name, module(&["general"])).unwrap();
    // A dispatch call may have captured the descriptor before the unload.
    let captured = m.unload_group(&name).unwrap();
    assert_eq!(m.quarantine_len(), 1);
    // The captured data is intact even though the group is delisted and no
    // flush has happened yet.
    assert_eq!(captured.name, "general");
    assert_eq!(captured.commands, vec!["run".to_string()]);
    assert!(!m.list_groups().contains(&name));
}

#[test]
fn flush_is_idempotent() {
    let mut m = manager();
    let name = "general".to_string();
    m.load_group(&name, module(&["general"])).unwrap();
    m.unload_group(&name).unwrap();
    assert_eq!(m.quarantine_len(), 1);
    m.flush_unload_buffer();
    assert_eq!(m.quarantine_len(), 0);
    let listed_after_first = m.list_groups();
    m.flush_unload_buffer();
    assert_eq!(m.quarantine_len(), 0);
    assert_eq!(m.list_groups(), listed_after_first);
}

#[test]
fn staged_paths_distinct_across_consecutive_loads() {
    let mut m = manager();
    let name = "general".to_string();
    let mut paths: Vec<String> = Vec::new();
    for _ in 0..5 {
        let p = m.begin_load(&name).unwrap();
        m.load_group(&name, module(&["general"])).unwrap();
        paths.push(p);
        m.unload_group(&name).unwrap();
    }
    for i in 0..paths.len() {
        for j in 0..paths.len() {
            if i != j {
                assert_ne!(paths[i], paths[j]);
            }
        }
    }
}

#[test]
fn staged_path_has_expected_form() {
    let mut m = manager();
    let first = m.begin_load(&"general".to_string()).unwrap();
    assert_eq!(first, "/tmp/stage/lib_general.plugin.1");
    // The counter advances even though the first load was never committed.
    let second = m.begin_load(&"yolol".to_string()).unwrap();
    assert_eq!(second, "/tmp/stage/lib_yolol.plugin.2");
}

#[test]
fn load_all_groups_loads_every_exported_group() {
    let mut m = manager();
    let outcomes = vec![
        GroupLoadOutcome { name: "general".to_string(), module: Ok(module(&["general", "yolol"])) },
        GroupLoadOutcome { name: "yolol".to_string(), module: Ok(module(&["general", "yolol"])) },
    ];
    let report = m.load_all_groups(outcomes);
    assert_eq!(report.loaded, vec!["general".to_string(), "yolol".to_string()]);
    assert!(report.failed.is_empty());
    let mut listed = m.list_groups();
    listed.sort();
    assert_eq!(listed, vec!["general".to_string(), "yolol".to_string()]);
}

#[test]
fn load_all_groups_continues_past_failures() {
    let mut m = manager();
    let outcomes = vec![
        GroupLoadOutcome { name: "missing".to_string(), module: Ok(module(&["general"])) },
        GroupLoadOutcome { name: "broken".to_string(), module: Err(PluginError::CopyFailed) },
        GroupLoadOutcome { name: "general".to_string(), module: Ok(module(&["general"])) },
    ];
    let report = m.load_all_groups(outcomes);
    assert_eq!(report.loaded, vec!["general".to_string()]);
    assert_eq!(report.failed, vec!["missing".to_string(), "broken".to_string()]);
    assert_eq!(m.list_groups(), vec!["general".to_string()]);
}

#[test]
fn load_of_unexported_group_reports_group_not_found() {
    let mut m = manager();
    let r = m.load_group(&"missing".to_string(), module(&["general", "yolol"]));
    assert!(matches!(r, Err(PluginError::GroupNotFound)));
    assert!(m.list_groups().is_empty());
}

#[test]
fn open_failure_outcome_reports_failed_group() {
    let mut m = manager();
    let outcomes = vec![GroupLoadOutcome {
        name: "general".to_string(),
        module: Err(PluginError::OpenFailed),
    }];
    let report = m.load_all_groups(outcomes);
    assert!(report.loaded.is_empty());
    assert_eq!(report.failed, vec!["general".to_string()]);
}

#[test]
fn paths_can_be_repointed() {
    let mut m = manager();
    m.set_lib_path("/elsewhere/libmod.so".to_string());
    m.set_temp_dir("/tmp/other".to_string());
    let p = m.begin_load(&"general".to_string()).unwrap();
    assert_eq!(p, "/tmp/other/lib_general.plugin.1");
}

#[test]
fn default_manager_is_empty() {
    let m = PluginManager::default();
    assert!(m.list_groups().is_empty());
    assert_eq!(m.quarantine_len(), 0);
}
