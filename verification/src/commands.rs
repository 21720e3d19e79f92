//! The command-facing layer: from a parsed command to a plan.
//!
//! The surrounding layer owns the terminal and the filesystem: it resolves
//! the current directory, reads the configuration file before a command and
//! writes the returned one after it, walks trees, and moves stored objects.
//! Here each command is turned into a plan: the new configuration where the
//! command changes one, and which version to save, load, diff or delete.
//! The surrounding layer executes the plan in that order and renders the
//! outcome.

use crate::bytes::copy_bytes;
use crate::cli::ModuleCommand;
use crate::cli::VersionCommand;
use crate::config::ModulesConfig;
use crate::config::current_module_name;
use crate::config::find_module_spec;
use crate::config::update_module_in_config;
use crate::errors::VersionsError;
use crate::module::Module;
use crate::module::find_version_spec;
use crate::module::module_views;
use crate::version::version_views;
use crate::repository::Repository;
use crate::version::Version;
use crate::version::copy_version;
use vstd::prelude::*;

verus! {

/// The handle command-line queries go through.
pub struct VersionsCliCommand {}

/// A query handle.
pub fn commands() -> (r: VersionsCliCommand)
    ensures
        r == (VersionsCliCommand {  }),
{
    VersionsCliCommand {}
}

impl VersionsCliCommand {
    /// The name of the selected module, when one is selected.
    pub fn current_module(&self, config: &ModulesConfig) -> (r: Option<Vec<u8>>)
        ensures
            match config@.current_module {
                Some(m) => r matches Some(n) && n@ == m.name,
                None => r is None,
            },
    {
        match &config.current_module {
            Some(m) => Some(copy_bytes(&m.name)),
            None => None,
        }
    }
}

/// What executing a module command comes to: the configuration to persist,
/// when the command changes it, and the work left to the surrounding layer.
pub enum ModulePlan {
    /// Persist the configuration; then save the new module's first version.
    Added(ModulesConfig, Module),
    /// Delete the stored objects of the module's versions; then persist.
    Removed(ModulesConfig, Module),
    /// Persist the configuration.
    Selected(ModulesConfig, Module),
    /// Persist the configuration.
    Deselected(ModulesConfig),
    /// Render the modules.
    Listing(Vec<Module>),
    /// Render the selected module's name, empty when none is selected.
    CurrentName(Vec<u8>),
}

/// What executing a version command comes to.
pub enum VersionPlan {
    /// Persist the configuration; then save the new version.
    Added(ModulesConfig, Version),
    /// Delete the removed version's stored object; then persist.
    Removed(ModulesConfig, Version),
    /// Save the outgoing current version's tree, persist, then load the
    /// switched-to version's tree.
    Switched(ModulesConfig, Option<Version>, Version),
    /// Persist the configuration.
    Deselected(ModulesConfig),
    /// Render the versions beside the current version's name.
    Listing(Vec<Version>, Option<Vec<u8>>),
    /// Render the current version's name.
    CurrentName(Vec<u8>),
    /// Diff the version's stored snapshot against its working tree.
    StatusOf(Version),
    /// Capture and store the version's working tree.
    SaveOf(Version),
    /// Materialize the version's stored snapshot over its working tree.
    LoadOf(Version),
}

/// The handle command-line operations go through.
pub struct VersionsCli {}

impl VersionsCli {
    /// An operation handle.
    pub fn new() -> (r: VersionsCli)
        ensures
            r == (VersionsCli {  }),
    {
        VersionsCli {}
    }

    /// Plans a module command against the configuration.  Fails exactly as
    /// the underlying operation does: adding an existing name, or removing
    /// or selecting a missing one.
    pub fn module(
        &self,
        repository: &Repository,
        config: &ModulesConfig,
        module_command: &ModuleCommand,
        path_is_dir: bool,
    ) -> (r: Result<ModulePlan, VersionsError>)
        ensures
            match *module_command {
                ModuleCommand::Add { ref name, ref path } => module_add_plan_ok(
                    repository@,
                    config@,
                    name@,
                    path_is_dir,
                    r,
                ),
                ModuleCommand::Remove { ref name } => match find_module_spec(
                    config@.modules,
                    name@,
                ) {
                    None => r matches Err(e) && (e
                        matches VersionsError::ModuleDoesNotExists(n) && n@ == name@),
                    Some(m) => module_remove_plan_ok(config@, m, path_is_dir, r),
                },
                ModuleCommand::Select { ref name } => match find_module_spec(
                    config@.modules,
                    name@,
                ) {
                    None => r matches Err(e) && (e
                        matches VersionsError::ModuleDoesNotExists(n) && n@ == name@),
                    Some(m) => r matches Ok(p) && (p matches ModulePlan::Selected(c, sm) && c@.modules
                        == config@.modules && c@.current_module == Some(m) && sm@ == m),
                },
                ModuleCommand::Deselect => r matches Ok(p) && (p matches ModulePlan::Deselected(c)
                    && c@.modules == config@.modules && c@.current_module is None),
                ModuleCommand::List => r matches Ok(p) && (p matches ModulePlan::Listing(ms)
                    && module_views(ms@) == config@.modules),
                ModuleCommand::Current => r matches Ok(p) && (p
                    matches ModulePlan::CurrentName(n) && n@ == match config@.current_module {
                    Some(m) => m.name,
                    None => Seq::<u8>::empty(),
                }),
            },
    {
        match module_command {
            ModuleCommand::Add { name, path } => {
                let dir_path = match path {
                    Some(p) => copy_bytes(p),
                    None => copy_bytes(name),
                };
                let (new_config, new_module) = match repository.add_module(
                    config,
                    name,
                    &dir_path,
                    path_is_dir,
                ) {
                    Ok(p) => p,
                    Err(e) => {
                        return Err(e);
                    },
                };
                Ok(ModulePlan::Added(new_config, new_module))
            },
            ModuleCommand::Remove { name } => {
                proof {
                    crate::config::lemma_find_module_defined(config@.modules, name@);
                    crate::config::lemma_find_module_name(config@.modules, name@);
                }
                let module = match crate::config::find_module(config, name) {
                    Some(m) => m,
                    None => {
                        return Err(VersionsError::ModuleDoesNotExists(copy_bytes(name)));
                    },
                };
                let new_config = match repository.remove_module(config, &module, path_is_dir) {
                    Ok(c) => c,
                    Err(e) => {
                        return Err(e);
                    },
                };
                Ok(ModulePlan::Removed(new_config, module))
            },
            ModuleCommand::Select { name } => {
                let module = match crate::config::find_module(config, name) {
                    Some(m) => m,
                    None => {
                        return Err(VersionsError::ModuleDoesNotExists(copy_bytes(name)));
                    },
                };
                let (new_config, selected) = repository.select_module(config, &module);
                Ok(ModulePlan::Selected(new_config, selected))
            },
            ModuleCommand::Deselect => {
                let modules = repository.list_modules(config);
                Ok(ModulePlan::Deselected(ModulesConfig { modules, current_module: None }))
            },
            ModuleCommand::List => Ok(ModulePlan::Listing(repository.list_modules(config))),
            ModuleCommand::Current => Ok(ModulePlan::CurrentName(current_module_name(config))),
        }
    }

    /// Plans a version command against the configuration, on the named
    /// module or on the selected one.  Fails exactly as the underlying
    /// operation does: a missing module, a duplicate or missing version
    /// name, or no current version where one is needed.
    pub fn version(
        &self,
        config: &ModulesConfig,
        module_name: &Option<Vec<u8>>,
        version_command: &VersionCommand,
    ) -> (r: Result<VersionPlan, VersionsError>)
        ensures
            match find_module_spec(config@.modules, resolved_name(config@, module_name)) {
                None => r matches Err(e) && (e matches VersionsError::ModuleDoesNotExists(n)
                    && n@ == resolved_name(config@, module_name)),
                Some(m) => version_plan_ok(config@, m, *version_command, r),
            },
    {
        let name = match module_name {
            Some(n) => copy_bytes(n),
            None => current_module_name(config),
        };
        let module = match crate::config::find_module(config, &name) {
            Some(m) => m,
            None => {
                return Err(VersionsError::ModuleDoesNotExists(name));
            },
        };
        match version_command {
            VersionCommand::Add { name } => {
                let (new_module, new_version) = match module.add_version(name) {
                    Ok(p) => p,
                    Err(e) => {
                        return Err(e);
                    },
                };
                let new_config = update_module_in_config(config, &new_module);
                Ok(VersionPlan::Added(new_config, new_version))
            },
            VersionCommand::Remove { name } => {
                let (new_module, removed) = match module.remove_version(name) {
                    Ok(p) => p,
                    Err(e) => {
                        return Err(e);
                    },
                };
                let new_config = update_module_in_config(config, &new_module);
                Ok(VersionPlan::Removed(new_config, removed))
            },
            VersionCommand::Select { name } => {
                let (new_module, target) = match module.switch_version(name) {
                    Ok(p) => p,
                    Err(e) => {
                        return Err(e);
                    },
                };
                let outgoing = match &module.current_version {
                    Some(v) => Some(copy_version(v)),
                    None => None,
                };
                let new_config = update_module_in_config(config, &new_module);
                Ok(VersionPlan::Switched(new_config, outgoing, target))
            },
            VersionCommand::Deselect => {
                let cleared = Module {
                    repository_ptr: crate::meta::copy_repository_ptr(&module.repository_ptr),
                    name: copy_bytes(&module.name),
                    directory: copy_bytes(&module.directory),
                    versions: crate::module::copy_versions(&module.versions),
                    current_version: None,
                };
                let new_config = update_module_in_config(config, &cleared);
                Ok(VersionPlan::Deselected(new_config))
            },
            VersionCommand::List => {
                let versions = module.list_versions();
                let current = match &module.current_version {
                    Some(v) => Some(copy_bytes(&v.name)),
                    None => None,
                };
                Ok(VersionPlan::Listing(versions, current))
            },
            VersionCommand::Current => {
                let current = match module.current_version() {
                    Ok(v) => v,
                    Err(e) => {
                        return Err(e);
                    },
                };
                Ok(VersionPlan::CurrentName(current.name))
            },
            VersionCommand::Status => {
                let current = match module.current_version() {
                    Ok(v) => v,
                    Err(e) => {
                        return Err(e);
                    },
                };
                Ok(VersionPlan::StatusOf(current))
            },
            VersionCommand::Save => {
                let current = match module.current_version() {
                    Ok(v) => v,
                    Err(e) => {
                        return Err(e);
                    },
                };
                Ok(VersionPlan::SaveOf(current))
            },
            VersionCommand::Load => {
                let current = match module.current_version() {
                    Ok(v) => v,
                    Err(e) => {
                        return Err(e);
                    },
                };
                Ok(VersionPlan::LoadOf(current))
            },
        }
    }
}

/// The module name a version command works on: the given one, or the name
/// of the selected module, or the empty name.
pub open spec fn resolved_name(config: crate::config::ModulesConfigModel, module_name: &Option<
    Vec<u8>,
>) -> Seq<u8> {
    match *module_name {
        Some(ref n) => n@,
        None => match config.current_module {
            Some(m) => m.name,
            None => Seq::<u8>::empty(),
        },
    }
}

/// What a successful module addition plans: the new record appended and
/// selected if nothing was, and the record handed back for its first save.
pub open spec fn module_add_plan_ok(
    repository: crate::repository::RepositoryModel,
    config: crate::config::ModulesConfigModel,
    name: Seq<u8>,
    path_is_dir: bool,
    r: Result<ModulePlan, VersionsError>,
) -> bool {
    &&& (!path_is_dir ==> (r matches Err(e) && e == VersionsError::NotADirectory))
    &&& (path_is_dir && crate::config::module_defined_spec(config.modules, name) ==> (
    r matches Err(e) && (e matches VersionsError::ModuleAlreadyExists(n) && n@ == name)))
    &&& (path_is_dir && !crate::config::module_defined_spec(config.modules, name) ==> (
    r matches Ok(p) && (p matches ModulePlan::Added(c, m) && m@.name == name
        && m@.repository_ptr.repository_path == repository.root_path && c@.modules
        == config.modules.push(m@))))
}

/// What a successful module removal plans: the record dropped, and
/// deselected when it was selected.
pub open spec fn module_remove_plan_ok(
    config: crate::config::ModulesConfigModel,
    m: crate::module::ModuleModel,
    path_is_dir: bool,
    r: Result<ModulePlan, VersionsError>,
) -> bool {
    &&& (!path_is_dir ==> (r matches Err(e) && e == VersionsError::NotADirectory))
    &&& (path_is_dir ==> (r matches Ok(p) && (p matches ModulePlan::Removed(c, rm) && rm@ == m
        && c@.modules == crate::config::modules_without(config.modules, m.name))))
}

/// What each version command plans, given the module it works on.
pub open spec fn version_plan_ok(
    config: crate::config::ModulesConfigModel,
    m: crate::module::ModuleModel,
    cmd: VersionCommand,
    r: Result<VersionPlan, VersionsError>,
) -> bool {
    match cmd {
        VersionCommand::Add { ref name } => {
            &&& (crate::module::version_defined_spec(m.versions, name@) ==> (r matches Err(e) && (
            e matches VersionsError::VersionAlreadyExists(n) && n@ == name@)))
            &&& (!crate::module::version_defined_spec(m.versions, name@) ==> (r matches Ok(p) && (
            p matches VersionPlan::Added(c, v) && v@.name == name@ && v@.module.module_name
                == m.name && c@.current_module == config.current_module)))
        },
        VersionCommand::Remove { ref name } => match find_version_spec(m.versions, name@) {
            None => r matches Err(e) && (e matches VersionsError::VersionDoesNotExists(n) && n@
                == name@),
            Some(v) => r matches Ok(p) && (p matches VersionPlan::Removed(c, rv) && rv@ == v
                && c@.current_module == config.current_module),
        },
        VersionCommand::Select { ref name } => match find_version_spec(m.versions, name@) {
            None => r matches Err(e) && (e matches VersionsError::VersionDoesNotExists(n) && n@
                == name@),
            Some(v) => r matches Ok(p) && (p matches VersionPlan::Switched(c, outgoing, target)
                && target@ == v && match m.current_version {
                Some(cur) => outgoing matches Some(o) && o@ == cur,
                None => outgoing is None,
            }),
        },
        VersionCommand::Deselect => r matches Ok(p) && (p matches VersionPlan::Deselected(c)
            && c@.current_module == config.current_module),
        VersionCommand::List => r matches Ok(p) && (p matches VersionPlan::Listing(vs, cur)
            && version_views(vs@) == m.versions && match m.current_version {
            Some(v) => cur matches Some(n) && n@ == v.name,
            None => cur is None,
        }),
        VersionCommand::Current => match m.current_version {
            Some(v) => r matches Ok(p) && (p matches VersionPlan::CurrentName(n) && n@ == v.name),
            None => r matches Err(e) && (e matches VersionsError::NoCurrentVersionInModule(n)
                && n@ == m.name),
        },
        VersionCommand::Status => match m.current_version {
            Some(v) => r matches Ok(p) && (p matches VersionPlan::StatusOf(rv) && rv@ == v),
            None => r matches Err(e) && (e matches VersionsError::NoCurrentVersionInModule(n)
                && n@ == m.name),
        },
        VersionCommand::Save => match m.current_version {
            Some(v) => r matches Ok(p) && (p matches VersionPlan::SaveOf(rv) && rv@ == v),
            None => r matches Err(e) && (e matches VersionsError::NoCurrentVersionInModule(n)
                && n@ == m.name),
        },
        VersionCommand::Load => match m.current_version {
            Some(v) => r matches Ok(p) && (p matches VersionPlan::LoadOf(rv) && rv@ == v),
            None => r matches Err(e) && (e matches VersionsError::NoCurrentVersionInModule(n)
                && n@ == m.name),
        },
    }
}

} // verus!
