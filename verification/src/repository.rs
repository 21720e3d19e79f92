//! A repository: the root under which modules and stored objects live.
//!
//! Every operation that consults or changes the set of modules works on the
//! configuration record as a value; the surrounding layer reads the record
//! before the call and persists the returned one after it.

use crate::bytes::copy_bytes;
use crate::bytes::last_component;
use crate::bytes::last_component_spec;
use crate::config::ModulesConfig;
use crate::config::find_module_spec;
use crate::config::is_module_defined;
use crate::config::module_defined_spec;
use crate::config::modules_without;
use crate::config::remove_modules_by_name;
use crate::errors::VersionsError;
use crate::locator::PATH_SEP;
use crate::meta::ModulePtr;
use crate::meta::RepositoryPtr;
use crate::module::Module;
use crate::module::copy_module;
use crate::module::module_views;
use crate::version::Version;
use crate::version::VersionModel;
use crate::version::copy_version;
use crate::version::version_views;
use vstd::prelude::*;

verus! {

/// A repository, identified by its root path.
#[derive(Clone, Debug)]
pub struct Repository {
    pub root_path: Vec<u8>,
}

/// The mathematical value of a [`Repository`].
pub struct RepositoryModel {
    pub root_path: Seq<u8>,
}

impl View for Repository {
    type V = RepositoryModel;

    open spec fn view(&self) -> RepositoryModel {
        RepositoryModel { root_path: self.root_path@ }
    }
}

/// A repository record for the given root path.
pub fn from_path(path: Vec<u8>) -> (r: Repository)
    ensures
        r@.root_path == path@,
{
    Repository { root_path: path }
}

/// Copies a repository record.
pub fn copy_repository(r: &Repository) -> (c: Repository)
    ensures
        c@ == r@,
{
    Repository { root_path: copy_bytes(&r.root_path) }
}

/// The name a module's first version gets when the module is created.
pub open spec fn default_version_name() -> Seq<u8> {
    seq![109u8, 97u8, 105u8, 110u8]
}

/// Writes the default version name.
pub fn default_version_name_vec() -> (r: Vec<u8>)
    ensures
        r@ == default_version_name(),
{
    let mut r: Vec<u8> = Vec::new();
    r.push(109);
    r.push(97);
    r.push(105);
    r.push(110);
    proof {
        assert(r@ =~= default_version_name());
    }
    r
}

/// A fresh module record for the given name and directory path: its working
/// directory is the last path component, and it starts with one default
/// version, already selected.
pub fn create_default(repository: &Repository, name: &Vec<u8>, dir_path: &Vec<u8>) -> (r: Module)
    ensures
        r@.name == name@,
        r@.directory == last_component_spec(dir_path@, PATH_SEP),
        r@.repository_ptr.repository_path == repository@.root_path,
        r@.versions.len() == 1,
        r@.versions[0].name == default_version_name(),
        r@.versions[0].module.repository_path == repository@.root_path,
        r@.versions[0].module.module_name == name@,
        r@.versions[0].module.module_dir == last_component_spec(dir_path@, PATH_SEP),
        r@.current_version == Some(r@.versions[0]),
{
    let directory = last_component(dir_path, PATH_SEP);
    let version = Version {
        name: default_version_name_vec(),
        module: ModulePtr {
            repository_path: copy_bytes(&repository.root_path),
            module_name: copy_bytes(name),
            module_dir: copy_bytes(&directory),
        },
    };
    let mut versions: Vec<Version> = Vec::new();
    versions.push(copy_version(&version));
    proof {
        assert(version_views(versions@) =~= seq![version@]);
    }
    Module {
        repository_ptr: RepositoryPtr::create(repository),
        name: copy_bytes(name),
        directory,
        versions,
        current_version: Some(version),
    }
}

impl Repository {
    /// The module of the given name; fails exactly when none exists.
    pub fn get_module(&self, config: &ModulesConfig, module_name: &Vec<u8>) -> (r: Result<
        Module,
        VersionsError,
    >)
        ensures
            match find_module_spec(config@.modules, module_name@) {
                Some(m) => r matches Ok(rm) && rm@ == m,
                None => r matches Err(e) && (e matches VersionsError::ModuleDoesNotExists(n)
                    && n@ == module_name@),
            },
    {
        match crate::config::find_module(config, module_name) {
            Some(m) => Ok(m),
            None => Err(VersionsError::ModuleDoesNotExists(copy_bytes(module_name))),
        }
    }

    /// Adds a module of the given name over the given directory.  Fails
    /// exactly when the path is not a directory or a module of the name
    /// already exists.  Yields the new configuration — with the module
    /// appended and selected if nothing was selected — and the new module,
    /// whose first version's object the caller then writes by saving it.
    pub fn add_module(
        &self,
        config: &ModulesConfig,
        name: &Vec<u8>,
        path: &Vec<u8>,
        path_is_dir: bool,
    ) -> (r: Result<(ModulesConfig, Module), VersionsError>)
        ensures
            !path_is_dir ==> (r matches Err(e) && e == VersionsError::NotADirectory),
            path_is_dir && module_defined_spec(config@.modules, name@) ==> (r matches Err(e) && (
            e matches VersionsError::ModuleAlreadyExists(n) && n@ == name@)),
            path_is_dir && !module_defined_spec(config@.modules, name@) ==> (r matches Ok(p) && {
                &&& p.1@.name == name@
                &&& p.1@.directory == last_component_spec(path@, PATH_SEP)
                &&& p.1@.repository_ptr.repository_path == self@.root_path
                &&& p.1@.current_version matches Some(v) && v.name == default_version_name()
                &&& p.0@.modules == config@.modules.push(p.1@)
                &&& p.0@.current_module == match config@.current_module {
                    Some(c) => Some(c),
                    None => Some(p.1@),
                }
            }),
    {
        if !path_is_dir {
            return Err(VersionsError::NotADirectory);
        }
        if is_module_defined(config, name) {
            return Err(VersionsError::ModuleAlreadyExists(copy_bytes(name)));
        }
        let new_module = create_default(self, name, path);
        let mut modules: Vec<Module> = Vec::new();
        let mut i: usize = 0;
        while i < config.modules.len()
            invariant
                0 <= i <= config.modules.len(),
                module_views(modules@) == config@.modules.take(i as int),
            decreases config.modules.len() - i,
        {
            let ghost prev = module_views(modules@);
            proof {
                assert(config@.modules[i as int] == config.modules@[i as int]@);
            }
            modules.push(copy_module(&config.modules[i]));
            proof {
                assert(module_views(modules@) =~= prev.push(config@.modules[i as int]));
                assert(config@.modules.take(i as int).push(config@.modules[i as int])
                    =~= config@.modules.take(i as int + 1));
            }
            i += 1;
        }
        proof {
            assert(config@.modules.take(config@.modules.len() as int) =~= config@.modules);
        }
        let ghost before_push = module_views(modules@);
        modules.push(copy_module(&new_module));
        proof {
            assert(module_views(modules@) =~= before_push.push(new_module@));
        }
        let current_module = match &config.current_module {
            Some(c) => Some(copy_module(c)),
            None => Some(copy_module(&new_module)),
        };
        Ok((ModulesConfig { modules, current_module }, new_module))
    }

    /// Selects the given module; always succeeds and yields the new
    /// configuration together with the module.
    pub fn select_module(&self, config: &ModulesConfig, module: &Module) -> (r: (
        ModulesConfig,
        Module,
    ))
        ensures
            r.0@.modules == config@.modules,
            r.0@.current_module == Some(module@),
            r.1@ == module@,
    {
        let mut modules: Vec<Module> = Vec::new();
        let mut i: usize = 0;
        while i < config.modules.len()
            invariant
                0 <= i <= config.modules.len(),
                module_views(modules@) == config@.modules.take(i as int),
            decreases config.modules.len() - i,
        {
            let ghost prev = module_views(modules@);
            proof {
                assert(config@.modules[i as int] == config.modules@[i as int]@);
            }
            modules.push(copy_module(&config.modules[i]));
            proof {
                assert(module_views(modules@) =~= prev.push(config@.modules[i as int]));
                assert(config@.modules.take(i as int).push(config@.modules[i as int])
                    =~= config@.modules.take(i as int + 1));
            }
            i += 1;
        }
        proof {
            assert(config@.modules.take(config@.modules.len() as int) =~= config@.modules);
        }
        (
            ModulesConfig { modules, current_module: Some(copy_module(module)) },
            copy_module(module),
        )
    }

    /// Removes the given module.  Fails exactly when its directory is
    /// missing or no module of its name is defined.  Yields the new
    /// configuration — the module dropped, and deselected if it was
    /// selected; the caller deletes the stored objects of the module's
    /// versions, which the module record lists.
    pub fn remove_module(
        &self,
        config: &ModulesConfig,
        module: &Module,
        module_dir_is_dir: bool,
    ) -> (r: Result<ModulesConfig, VersionsError>)
        ensures
            !module_dir_is_dir ==> (r matches Err(e) && e == VersionsError::NotADirectory),
            module_dir_is_dir && !module_defined_spec(config@.modules, module@.name) ==> (
            r matches Err(e) && (e matches VersionsError::ModuleDoesNotExists(n) && n@
                == module@.name)),
            module_dir_is_dir && module_defined_spec(config@.modules, module@.name) ==> (
            r matches Ok(c) && {
                &&& c@.modules == modules_without(config@.modules, module@.name)
                &&& c@.current_module == match config@.current_module {
                    Some(cur) => if cur.name == module@.name {
                        None::<crate::module::ModuleModel>
                    } else {
                        Some(cur)
                    },
                    None => None::<crate::module::ModuleModel>,
                }
            }),
    {
        if !module_dir_is_dir {
            return Err(VersionsError::NotADirectory);
        }
        if !is_module_defined(config, &module.name) {
            return Err(VersionsError::ModuleDoesNotExists(copy_bytes(&module.name)));
        }
        let modules = remove_modules_by_name(&config.modules, &module.name);
        let current_module = match &config.current_module {
            Some(cur) => {
                if crate::bytes::bytes_eq(&cur.name, &module.name) {
                    None
                } else {
                    Some(copy_module(cur))
                }
            },
            None => None,
        };
        Ok(ModulesConfig { modules, current_module })
    }

    /// The selected module, when any is.
    pub fn current_module(&self, config: &ModulesConfig) -> (r: Option<Module>)
        ensures
            match config@.current_module {
                Some(m) => r matches Some(rm) && rm@ == m,
                None => r is None,
            },
    {
        match &config.current_module {
            Some(m) => Some(copy_module(m)),
            None => None,
        }
    }

    /// The selected module; fails exactly when none is selected.
    pub fn force_current_module(&self, config: &ModulesConfig) -> (r: Result<
        Module,
        VersionsError,
    >)
        ensures
            match config@.current_module {
                Some(m) => r matches Ok(rm) && rm@ == m,
                None => r matches Err(e) && e == VersionsError::NoCurrentModule,
            },
    {
        match &config.current_module {
            Some(m) => Ok(copy_module(m)),
            None => Err(VersionsError::NoCurrentModule),
        }
    }

    /// All modules of the repository.
    pub fn list_modules(&self, config: &ModulesConfig) -> (r: Vec<Module>)
        ensures
            module_views(r@) == config@.modules,
    {
        let mut modules: Vec<Module> = Vec::new();
        let mut i: usize = 0;
        while i < config.modules.len()
            invariant
                0 <= i <= config.modules.len(),
                module_views(modules@) == config@.modules.take(i as int),
            decreases config.modules.len() - i,
        {
            let ghost prev = module_views(modules@);
            proof {
                assert(config@.modules[i as int] == config.modules@[i as int]@);
            }
            modules.push(copy_module(&config.modules[i]));
            proof {
                assert(module_views(modules@) =~= prev.push(config@.modules[i as int]));
                assert(config@.modules.take(i as int).push(config@.modules[i as int])
                    =~= config@.modules.take(i as int + 1));
            }
            i += 1;
        }
        proof {
            assert(config@.modules.take(config@.modules.len() as int) =~= config@.modules);
        }
        modules
    }

    /// The current version of every module that has one, in module order:
    /// the versions a whole-workspace save stores, one object each.
    pub fn save_workspace(&self, config: &ModulesConfig) -> (r: Vec<Version>)
        ensures
            version_views(r@) == workspace_versions(config@.modules),
    {
        collect_current_versions(config)
    }

    /// The current version of every module that has one, in module order:
    /// the versions a whole-workspace load restores, one working tree each.
    pub fn load_workspace(&self, config: &ModulesConfig) -> (r: Vec<Version>)
        ensures
            version_views(r@) == workspace_versions(config@.modules),
    {
        collect_current_versions(config)
    }
}

/// The current versions of the modules, in order, skipping modules with no
/// current version.
pub open spec fn workspace_versions(ms: Seq<crate::module::ModuleModel>) -> Seq<VersionModel>
    decreases ms.len(),
{
    if ms.len() == 0 {
        Seq::empty()
    } else {
        workspace_versions(ms.drop_last()) + (match ms.last().current_version {
            Some(v) => seq![v],
            None => Seq::<VersionModel>::empty(),
        })
    }
}

/// One collection step.
proof fn lemma_workspace_versions_take_step(ms: Seq<crate::module::ModuleModel>, i: int)
    requires
        0 <= i < ms.len(),
    ensures
        workspace_versions(ms.take(i + 1)) == workspace_versions(ms.take(i)) + (
        match ms[i].current_version {
            Some(v) => seq![v],
            None => Seq::<VersionModel>::empty(),
        }),
{
    let t1 = ms.take(i + 1);
    assert(t1.drop_last() =~= ms.take(i));
    assert(t1.last() == ms[i]);
}

/// Collects the current version of every module that has one.
fn collect_current_versions(config: &ModulesConfig) -> (r: Vec<Version>)
    ensures
        version_views(r@) == workspace_versions(config@.modules),
{
    let mut r: Vec<Version> = Vec::new();
    let mut i: usize = 0;
    while i < config.modules.len()
        invariant
            0 <= i <= config.modules.len(),
            version_views(r@) == workspace_versions(config@.modules.take(i as int)),
        decreases config.modules.len() - i,
    {
        let ghost prev = version_views(r@);
        proof {
            assert(config@.modules[i as int] == config.modules@[i as int]@);
            lemma_workspace_versions_take_step(config@.modules, i as int);
        }
        match &config.modules[i].current_version {
            Some(v) => {
                r.push(copy_version(v));
                proof {
                    assert(version_views(r@) =~= prev.push(v@));
                    assert(prev.push(v@) =~= prev + seq![v@]);
                }
            },
            None => {
                proof {
                    assert(prev + Seq::<VersionModel>::empty() =~= prev);
                }
            },
        }
        i += 1;
    }
    proof {
        assert(config@.modules.take(config@.modules.len() as int) =~= config@.modules);
    }
    r
}

} // verus!
