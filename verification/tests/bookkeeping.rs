//! Module and version bookkeeping over the configuration record, and the
//! storage-key derivation.

use versions::Module;
use versions::ModulePtr;
use versions::ModulesConfig;
use versions::Repository;
use versions::RepositoryPtr;
use versions::Version;
use versions::VersionsCli;
use versions::VersionsError;
use versions::cli::ModuleCommand;
use versions::cli::VersionCommand;
use versions::commands;
use versions::commands::ModulePlan;
use versions::commands::VersionPlan;
use versions::config::append_metadata_to_config;
use versions::config::current_module_name;
use versions::config::update_module_in_config;
use versions::get_file_name;
use versions::get_version_object_file_path;
use versions::handlers::add_module_with_default_config;
use versions::handlers::is_module_defined;
use versions::locator::get_working_tree_path;
use versions::locator::object_key;
use versions::repository::create_default;
use versions::repository::from_path;

fn repo() -> Repository {
    from_path(b"/repo".to_vec())
}

fn empty_config() -> ModulesConfig {
    ModulesConfig { modules: Vec::new(), current_module: None }
}

fn config_with(module: Module) -> ModulesConfig {
    ModulesConfig { modules: vec![module], current_module: None }
}

#[test]
fn create_default_uses_the_last_path_component_as_the_directory() {
    let m = create_default(&repo(), &b"web".to_vec(), &b"/home/user/web-src".to_vec());
    assert_eq!(m.name, b"web".to_vec());
    assert_eq!(m.directory, b"web-src".to_vec());
    assert_eq!(m.versions.len(), 1);
    assert_eq!(m.versions[0].name, b"main".to_vec());
    assert_eq!(m.versions[0].module.module_dir, b"web-src".to_vec());
    let current = m.current_version.expect("the first version is selected");
    assert_eq!(current.name, b"main".to_vec());
}

#[test]
fn object_key_is_deterministic_and_distinct_across_versions() {
    let v = Version {
        name: b"main".to_vec(),
        module: ModulePtr {
            repository_path: b"/repo".to_vec(),
            module_name: b"mod".to_vec(),
            module_dir: b"work".to_vec(),
        },
    };
    let p1 = get_version_object_file_path(&v);
    let p2 = get_version_object_file_path(&v);
    assert_eq!(p1, p2);
    let expected =
        b"/repo/.versions/objects/a5242ba26584cdf128ac9f420179e3aaf0688ea69c1b6022fc78f1b86cba7d29";
    assert_eq!(p1, expected.to_vec());
    let other = Version { name: b"extra".to_vec(), module: v.module.clone() };
    let p3 = get_version_object_file_path(&other);
    assert_ne!(p1, p3);
    assert_eq!(
        p3,
        b"/repo/.versions/objects/76d2f648efa8b46ecf64bfc4b58268f9212ff0879ae78d4003353913142e2499"
            .to_vec()
    );
}

#[test]
fn object_key_is_the_hex_digest_of_the_identity_text() {
    let key = object_key(&b"work".to_vec(), &b"main".to_vec());
    assert_eq!(
        key,
        b"a5242ba26584cdf128ac9f420179e3aaf0688ea69c1b6022fc78f1b86cba7d29".to_vec()
    );
    assert_eq!(key, object_key(&b"work".to_vec(), &b"main".to_vec()));
    assert_ne!(key, object_key(&b"work".to_vec(), &b"other".to_vec()));
    assert_ne!(key, object_key(&b"other".to_vec(), &b"main".to_vec()));
}

#[test]
fn the_identity_text_joins_directory_and_name() {
    let v = Version {
        name: b"main".to_vec(),
        module: ModulePtr {
            repository_path: b"/repo".to_vec(),
            module_name: b"mod".to_vec(),
            module_dir: b"work".to_vec(),
        },
    };
    assert_eq!(get_file_name(&v), b"work#main".to_vec());
    assert_eq!(get_working_tree_path(&v), b"/repo/work".to_vec());
}

#[test]
fn adding_a_module_appends_and_selects_it_when_nothing_was_selected() {
    let r = repo();
    let (config, module) = r
        .add_module(&empty_config(), &b"web".to_vec(), &b"/repo/web".to_vec(), true)
        .expect("adding a fresh module succeeds");
    assert_eq!(config.modules.len(), 1);
    assert_eq!(module.name, b"web".to_vec());
    assert_eq!(current_module_name(&config), b"web".to_vec());
    let again = r.add_module(&config, &b"web".to_vec(), &b"/repo/web".to_vec(), true);
    assert!(matches!(again, Err(VersionsError::ModuleAlreadyExists(n)) if n == b"web".to_vec()));
    let nodir = r.add_module(&config, &b"x".to_vec(), &b"/repo/x".to_vec(), false);
    assert!(matches!(nodir, Err(VersionsError::NotADirectory)));
}

#[test]
fn get_module_finds_by_name_or_fails() {
    let r = repo();
    let m = create_default(&r, &b"web".to_vec(), &b"/repo/web".to_vec());
    let config = config_with(m);
    let found = r.get_module(&config, &b"web".to_vec()).expect("the module exists");
    assert_eq!(found.name, b"web".to_vec());
    let missing = r.get_module(&config, &b"gone".to_vec());
    assert!(matches!(missing, Err(VersionsError::ModuleDoesNotExists(n)) if n == b"gone".to_vec()));
}

#[test]
fn removing_a_module_drops_and_deselects_it() {
    let r = repo();
    let (config, module) = r
        .add_module(&empty_config(), &b"web".to_vec(), &b"/repo/web".to_vec(), true)
        .expect("adding succeeds");
    let after = r.remove_module(&config, &module, true).expect("removing succeeds");
    assert_eq!(after.modules.len(), 0);
    assert!(after.current_module.is_none());
    let missing = r.remove_module(&after, &module, true);
    assert!(matches!(missing, Err(VersionsError::ModuleDoesNotExists(_))));
}

#[test]
fn selecting_a_module_makes_it_current() {
    let r = repo();
    let m = create_default(&r, &b"web".to_vec(), &b"/repo/web".to_vec());
    let config = config_with(m);
    let target = r.get_module(&config, &b"web".to_vec()).unwrap();
    let (config, selected) = r.select_module(&config, &target);
    assert_eq!(selected.name, b"web".to_vec());
    assert_eq!(current_module_name(&config), b"web".to_vec());
    let current = r.force_current_module(&config).expect("a module is selected");
    assert_eq!(current.name, b"web".to_vec());
}

#[test]
fn force_current_module_fails_when_nothing_is_selected() {
    let r = repo();
    assert!(matches!(
        r.force_current_module(&empty_config()),
        Err(VersionsError::NoCurrentModule)
    ));
    assert!(r.current_module(&empty_config()).is_none());
}

#[test]
fn versions_are_added_removed_and_switched_by_name() {
    let r = repo();
    let m = create_default(&r, &b"web".to_vec(), &b"/repo/web".to_vec());
    let (m, v) = m.add_version(&b"feature".to_vec()).expect("a fresh name is accepted");
    assert_eq!(v.name, b"feature".to_vec());
    assert_eq!(m.versions.len(), 2);
    let dup = m.add_version(&b"feature".to_vec());
    assert!(matches!(dup, Err(VersionsError::VersionAlreadyExists(n)) if n == b"feature".to_vec()));

    let (m, switched) = m.switch_version(&b"feature".to_vec()).expect("the version exists");
    assert_eq!(switched.name, b"feature".to_vec());
    assert_eq!(m.current_version.as_ref().unwrap().name, b"feature".to_vec());
    let missing = m.switch_version(&b"gone".to_vec());
    assert!(matches!(missing, Err(VersionsError::VersionDoesNotExists(n)) if n == b"gone".to_vec()));

    let (m, removed) = m.remove_version(&b"feature".to_vec()).expect("the version exists");
    assert_eq!(removed.name, b"feature".to_vec());
    assert_eq!(m.versions.len(), 1);
    let missing = m.remove_version(&b"feature".to_vec());
    assert!(matches!(missing, Err(VersionsError::VersionDoesNotExists(_))));
}

#[test]
fn current_version_fails_without_a_selection() {
    let r = repo();
    let mut m = create_default(&r, &b"web".to_vec(), &b"/repo/web".to_vec());
    m.current_version = None;
    let err = m.current_version().unwrap_err();
    assert!(matches!(err, VersionsError::NoCurrentVersionInModule(n) if n == b"web".to_vec()));
}

#[test]
fn list_versions_and_workspaces_collect_in_order() {
    let r = repo();
    let m1 = create_default(&r, &b"a".to_vec(), &b"/repo/a".to_vec());
    let mut m2 = create_default(&r, &b"b".to_vec(), &b"/repo/b".to_vec());
    m2.current_version = None;
    let listed = m1.list_versions();
    assert_eq!(listed.len(), 1);
    assert_eq!(listed[0].name, b"main".to_vec());
    let config = ModulesConfig { modules: vec![m1, m2], current_module: None };
    let to_save = r.save_workspace(&config);
    assert_eq!(to_save.len(), 1);
    assert_eq!(to_save[0].module.module_name, b"a".to_vec());
    let to_load = r.load_workspace(&config);
    assert_eq!(to_load.len(), 1);
}

#[test]
fn update_module_in_config_replaces_by_name() {
    let r = repo();
    let m = create_default(&r, &b"web".to_vec(), &b"/repo/web".to_vec());
    let config = config_with(m);
    let mut changed = r.get_module(&config, &b"web".to_vec()).unwrap();
    changed.current_version = None;
    let config = update_module_in_config(&config, &changed);
    assert_eq!(config.modules.len(), 1);
    assert!(config.modules[0].current_version.is_none());
}

#[test]
fn append_metadata_rebinds_identity_records() {
    let r = repo();
    let stale = Module {
        repository_ptr: RepositoryPtr { repository_path: b"/elsewhere".to_vec() },
        name: b"web".to_vec(),
        directory: b"web".to_vec(),
        versions: vec![Version {
            name: b"main".to_vec(),
            module: ModulePtr {
                repository_path: b"/elsewhere".to_vec(),
                module_name: b"old".to_vec(),
                module_dir: b"old".to_vec(),
            },
        }],
        current_version: Some(Version {
            name: b"main".to_vec(),
            module: ModulePtr {
                repository_path: b"/elsewhere".to_vec(),
                module_name: b"old".to_vec(),
                module_dir: b"old".to_vec(),
            },
        }),
    };
    let config = ModulesConfig { modules: vec![stale.clone()], current_module: Some(stale) };
    let fixed = append_metadata_to_config(&r, &config);
    let m = &fixed.modules[0];
    assert_eq!(m.repository_ptr.repository_path, b"/repo".to_vec());
    assert_eq!(m.versions[0].module.repository_path, b"/repo".to_vec());
    assert_eq!(m.versions[0].module.module_name, b"web".to_vec());
    assert_eq!(m.versions[0].module.module_dir, b"web".to_vec());
    let cur = fixed.current_module.expect("the selection is re-resolved");
    assert_eq!(cur.versions[0].module.repository_path, b"/repo".to_vec());
}

#[test]
fn is_module_defined_checks_the_record_list() {
    let r = repo();
    let m = create_default(&r, &b"web".to_vec(), &b"/repo/web".to_vec());
    let config = config_with(m);
    assert!(is_module_defined(&config, &b"web".to_vec()));
    assert!(!is_module_defined(&config, &b"gone".to_vec()));
}

#[test]
fn the_handler_adds_a_module_without_changing_the_selection() {
    let r = repo();
    let (config, module) = add_module_with_default_config(
        &r,
        &empty_config(),
        &b"/repo/web".to_vec(),
        &b"web".to_vec(),
    )
    .expect("a fresh name is accepted");
    assert_eq!(module.name, b"web".to_vec());
    assert_eq!(config.modules.len(), 1);
    assert!(config.current_module.is_none());
    let dup = add_module_with_default_config(&r, &config, &b"/repo/web".to_vec(), &b"web".to_vec());
    assert!(matches!(dup, Err(VersionsError::ModuleAlreadyExists(_))));
}

#[test]
fn the_handler_drops_a_module_record_by_name() {
    let r = repo();
    let m = create_default(&r, &b"web".to_vec(), &b"/repo/web".to_vec());
    let config = config_with(m.clone());
    let after = versions::handlers::remove_module(&config, &m).expect("the module is defined");
    assert_eq!(after.modules.len(), 0);
    let missing = versions::handlers::remove_module(&after, &m);
    assert!(matches!(missing, Err(VersionsError::ModuleDoesNotExists(_))));
}

#[test]
fn the_module_planner_plans_each_command() {
    let r = repo();
    let cli = VersionsCli::new();
    let plan = cli
        .module(
            &r,
            &empty_config(),
            &ModuleCommand::Add { name: b"web".to_vec(), path: Some(b"/repo/web".to_vec()) },
            true,
        )
        .expect("adding plans");
    let config = match plan {
        ModulePlan::Added(c, m) => {
            assert_eq!(m.name, b"web".to_vec());
            c
        },
        other => panic!("expected an addition plan, got another: {}", plan_kind_m(&other)),
    };
    let plan = cli
        .module(&r, &config, &ModuleCommand::Current, true)
        .expect("querying the selection plans");
    match plan {
        ModulePlan::CurrentName(n) => assert_eq!(n, b"web".to_vec()),
        other => panic!("expected the selection's name, got {}", plan_kind_m(&other)),
    }
    let plan = cli
        .module(&r, &config, &ModuleCommand::Remove { name: b"web".to_vec() }, true)
        .expect("removing plans");
    match plan {
        ModulePlan::Removed(c, m) => {
            assert_eq!(m.name, b"web".to_vec());
            assert_eq!(c.modules.len(), 0);
        },
        other => panic!("expected a removal plan, got {}", plan_kind_m(&other)),
    }
    let missing = cli.module(&r, &empty_config(), &ModuleCommand::Remove { name: b"x".to_vec() }, true);
    assert!(matches!(missing, Err(VersionsError::ModuleDoesNotExists(_))));
}

fn plan_kind_m(p: &ModulePlan) -> &'static str {
    match p {
        ModulePlan::Added(..) => "added",
        ModulePlan::Removed(..) => "removed",
        ModulePlan::Selected(..) => "selected",
        ModulePlan::Deselected(..) => "deselected",
        ModulePlan::Listing(..) => "listing",
        ModulePlan::CurrentName(..) => "current name",
    }
}

#[test]
fn the_version_planner_resolves_the_selected_module() {
    let r = repo();
    let cli = VersionsCli::new();
    let m = create_default(&r, &b"web".to_vec(), &b"/repo/web".to_vec());
    let config = ModulesConfig { modules: vec![m.clone()], current_module: Some(m) };
    let plan = cli
        .version(&config, &None, &VersionCommand::Add { name: b"feature".to_vec() })
        .expect("adding a version plans");
    match plan {
        VersionPlan::Added(c, v) => {
            assert_eq!(v.name, b"feature".to_vec());
            assert_eq!(c.modules[0].versions.len(), 2);
        },
        _ => panic!("expected an addition plan"),
    }
    let plan = cli
        .version(&config, &Some(b"web".to_vec()), &VersionCommand::Save)
        .expect("saving plans");
    match plan {
        VersionPlan::SaveOf(v) => assert_eq!(v.name, b"main".to_vec()),
        _ => panic!("expected a save plan"),
    }
    let missing = cli.version(&config, &Some(b"gone".to_vec()), &VersionCommand::Save);
    assert!(matches!(missing, Err(VersionsError::ModuleDoesNotExists(_))));
    let no_selection = cli.version(&empty_config_with_none(), &None, &VersionCommand::Save);
    assert!(matches!(no_selection, Err(VersionsError::ModuleDoesNotExists(_))));
}

fn empty_config_with_none() -> ModulesConfig {
    ModulesConfig { modules: Vec::new(), current_module: None }
}

#[test]
fn the_query_handle_reports_the_selected_module() {
    let r = repo();
    let m = create_default(&r, &b"web".to_vec(), &b"/repo/web".to_vec());
    let q = commands();
    assert!(q.current_module(&empty_config_with_none()).is_none());
    let config = ModulesConfig { modules: vec![m.clone()], current_module: Some(m) };
    assert_eq!(q.current_module(&config), Some(b"web".to_vec()));
}
