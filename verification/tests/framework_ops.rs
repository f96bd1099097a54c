use toaster_plugins::descriptor::CommandGroupDescriptor;
use toaster_plugins::errors::PluginError;
use toaster_plugins::framework::ToasterFramework;
use toaster_plugins::handle::LoadedModule;
use toaster_plugins::manager::GroupLoadOutcome;
use toaster_plugins::manager::PluginManager;

fn mapping() -> libloading::Library {
    libloading::Library::from(libloading::os::unix::Library::this())
}

fn group(name: &str, prefixes: &[&str], default_command: Option<&str>, commands: &[&str])
    -> CommandGroupDescriptor {
    CommandGroupDescriptor {
        name: name.to_string(),
        prefixes: prefixes.iter().map(|p| p.to_string()).collect(),
        default_command: default_command.map(|d| d.to_string()),
        required_role: None,
        commands: commands.iter().map(|c| c.to_string()).collect(),
    }
}

fn full_module() -> LoadedModule {
    LoadedModule {
        mapping: mapping(),
        groups: vec![
            group("general", &[], None, &["restart", "test", "ping", "hello", "help"]),
            group(
                "plugins",
                &["plugin", "plugins"],
                Some("list"),
                &["add", "remove", "list", "reload", "flush"],
            ),
            group("yolol", &[], None, &["yolol"]),
        ],
    }
}

fn framework() -> ToasterFramework {
    let manager = PluginManager::new("/lib/libmod.so".to_string(), "/tmp/stage".to_string());
    ToasterFramework::new(manager, "t>".to_string())
}

#[test]
fn added_group_becomes_dispatchable() {
    let mut fw = framework();
    fw.add_group(&"general".to_string(), full_module()).unwrap();
    let hit = fw.dispatch(&vec!["ping".to_string()]).unwrap();
    assert_eq!(hit.group.name, "general");
    assert_eq!(hit.command, "ping");
    assert_eq!(fw.get_group_list(), vec!["general".to_string()]);
}

#[test]
fn removed_group_stops_dispatching() {
    let mut fw = framework();
    fw.add_group(&"general".to_string(), full_module()).unwrap();
    fw.add_group(&"yolol".to_string(), full_module()).unwrap();
    fw.remove_group(&"general".to_string()).unwrap();
    assert!(fw.dispatch(&vec!["ping".to_string()]).is_none());
    let hit = fw.dispatch(&vec!["yolol".to_string()]).unwrap();
    assert_eq!(hit.group.name, "yolol");
}

#[test]
fn captured_descriptor_survives_removal() {
    let mut fw = framework();
    fw.add_group(&"general".to_string(), full_module()).unwrap();
    // A dispatch call captures the descriptor, then the group is unloaded
    // before the handler finishes; no flush has happened.
    let hit = fw.dispatch(&vec!["hello".to_string()]).unwrap();
    fw.remove_group(&"general".to_string()).unwrap();
    assert_eq!(hit.group.name, "general");
    assert_eq!(hit.command, "hello");
    assert!(hit.group.commands.contains(&"hello".to_string()));
}

#[test]
fn add_all_groups_registers_every_group() {
    let mut fw = framework();
    let outcomes = vec![
        GroupLoadOutcome { name: "general".to_string(), module: Ok(full_module()) },
        GroupLoadOutcome { name: "yolol".to_string(), module: Ok(full_module()) },
    ];
    let report = fw.add_all_groups(outcomes);
    assert_eq!(report.loaded, vec!["general".to_string(), "yolol".to_string()]);
    assert!(report.failed.is_empty());
    let mut listed = fw.get_group_list();
    listed.sort();
    assert_eq!(listed, vec!["general".to_string(), "yolol".to_string()]);
    // The rebuilt table dispatches for both groups.
    assert!(fw.dispatch(&vec!["ping".to_string()]).is_some());
    assert!(fw.dispatch(&vec!["yolol".to_string()]).is_some());
}

#[test]
fn reload_with_failing_build_leaves_group_unloaded() {
    let mut fw = framework();
    fw.add_group(&"yolol".to_string(), full_module()).unwrap();
    // Reload: remove (quarantining the old handle), then the build fails.
    fw.remove_group(&"yolol".to_string()).unwrap();
    let r = fw.finish_reload(&"yolol".to_string(), Err(PluginError::BuildFailed));
    assert!(matches!(r, Err(PluginError::BuildFailed)));
    // The group is not restored to its pre-reload state.
    assert!(!fw.get_group_list().contains(&"yolol".to_string()));
    assert!(fw.dispatch(&vec!["yolol".to_string()]).is_none());
}

#[test]
fn reload_with_successful_build_restores_group() {
    let mut fw = framework();
    fw.add_group(&"yolol".to_string(), full_module()).unwrap();
    fw.remove_group(&"yolol".to_string()).unwrap();
    fw.finish_reload(&"yolol".to_string(), Ok(full_module())).unwrap();
    assert!(fw.get_group_list().contains(&"yolol".to_string()));
}

#[test]
fn begin_add_group_stages_under_framework() {
    let mut fw = framework();
    let p = fw.begin_add_group(&"general".to_string()).unwrap();
    assert_eq!(p, "/tmp/stage/lib_general.plugin.1");
    fw.add_group(&"general".to_string(), full_module()).unwrap();
    let r = fw.begin_add_group(&"general".to_string());
    assert!(matches!(r, Err(PluginError::AlreadyLoaded)));
}

#[test]
fn flush_lib_buffer_empties_quarantine_only() {
    let mut fw = framework();
    fw.add_group(&"general".to_string(), full_module()).unwrap();
    fw.add_group(&"yolol".to_string(), full_module()).unwrap();
    fw.remove_group(&"yolol".to_string()).unwrap();
    fw.flush_lib_buffer();
    // The remaining group is untouched by the flush.
    assert_eq!(fw.get_group_list(), vec!["general".to_string()]);
    assert!(fw.dispatch(&vec!["ping".to_string()]).is_some());
}

#[test]
fn prefix_can_be_changed() {
    let mut fw = framework();
    assert_eq!(fw.prefix(), "t>");
    fw.set_prefix("o>".to_string());
    assert_eq!(fw.prefix(), "o>");
    assert!(fw.get_group_list().is_empty());
}

#[test]
fn add_group_errors_leave_framework_unchanged() {
    let mut fw = framework();
    fw.add_group(&"general".to_string(), full_module()).unwrap();
    let before = fw.get_group_list();
    let r = fw.add_group(&"general".to_string(), full_module());
    assert!(matches!(r, Err(PluginError::AlreadyLoaded)));
    let r2 = fw.add_group(&"missing".to_string(), full_module());
    assert!(matches!(r2, Err(PluginError::GroupNotFound)));
    assert_eq!(fw.get_group_list(), before);
}
