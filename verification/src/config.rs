//! The modules configuration: the record of all modules and the selected
//! one.
//!
//! The surrounding layer keeps this record in one file, read and rewritten
//! wholesale on every mutation; here it is a value, and every transformation
//! of it is a pure function from the old record to the new.

use crate::bytes::bytes_eq;
use crate::bytes::copy_bytes;
use crate::module::Module;
use crate::module::ModuleModel;
use crate::module::copy_module;
use crate::module::module_views;
use crate::repository::Repository;
use crate::version::Version;
use crate::version::VersionModel;
use vstd::prelude::*;

verus! {

/// The full configuration of a repository: its modules, and the currently
/// selected one, when any is.
pub struct ModulesConfig {
    pub modules: Vec<Module>,
    pub current_module: Option<Module>,
}

/// The mathematical value of a [`ModulesConfig`].
pub struct ModulesConfigModel {
    pub modules: Seq<ModuleModel>,
    pub current_module: Option<ModuleModel>,
}

impl View for ModulesConfig {
    type V = ModulesConfigModel;

    open spec fn view(&self) -> ModulesConfigModel {
        ModulesConfigModel {
            modules: module_views(self.modules@),
            current_module: match self.current_module {
                Some(ref m) => Some(m@),
                None => None,
            },
        }
    }
}

/// The per-checkout local state: the name of the module selected on this
/// machine, when any is.
pub struct LocalConfig {
    pub current_module: Option<Vec<u8>>,
}

/// A module of this name occurs in the list.
pub open spec fn module_defined_spec(ms: Seq<ModuleModel>, name: Seq<u8>) -> bool {
    exists|i: int| 0 <= i < ms.len() && (#[trigger] ms[i]).name == name
}

/// The first module of the list with the given name.
pub open spec fn find_module_spec(ms: Seq<ModuleModel>, name: Seq<u8>) -> Option<ModuleModel>
    decreases ms.len(),
{
    if ms.len() == 0 {
        None
    } else if ms.first().name == name {
        Some(ms.first())
    } else {
        find_module_spec(ms.drop_first(), name)
    }
}

/// The list without every module of the given name, order kept.
pub open spec fn modules_without(ms: Seq<ModuleModel>, name: Seq<u8>) -> Seq<ModuleModel>
    decreases ms.len(),
{
    if ms.len() == 0 {
        Seq::empty()
    } else if ms.last().name == name {
        modules_without(ms.drop_last(), name)
    } else {
        modules_without(ms.drop_last(), name).push(ms.last())
    }
}

/// A first match characterizes `find_module_spec`.
proof fn lemma_find_module_first(ms: Seq<ModuleModel>, name: Seq<u8>, i: int)
    requires
        0 <= i < ms.len(),
        ms[i].name == name,
        forall|k: int| 0 <= k < i ==> ms[k].name != name,
    ensures
        find_module_spec(ms, name) == Some(ms[i]),
    decreases i,
{
    if i == 0 {
    } else {
        assert(forall|k: int| 0 <= k < i - 1 ==> ms.drop_first()[k] == ms[k + 1]);
        assert(ms.drop_first()[i - 1] == ms[i]);
        lemma_find_module_first(ms.drop_first(), name, i - 1);
    }
}

/// No match characterizes `find_module_spec`.
proof fn lemma_find_module_none(ms: Seq<ModuleModel>, name: Seq<u8>)
    requires
        forall|k: int| 0 <= k < ms.len() ==> (#[trigger] ms[k]).name != name,
    ensures
        find_module_spec(ms, name) is None,
    decreases ms.len(),
{
    if ms.len() > 0 {
        assert(forall|k: int| 0 <= k < ms.drop_first().len() ==> ms.drop_first()[k] == ms[k + 1]);
        lemma_find_module_none(ms.drop_first(), name);
    }
}

/// A module of the name is found exactly when one is defined.
pub proof fn lemma_find_module_defined(ms: Seq<ModuleModel>, name: Seq<u8>)
    ensures
        (find_module_spec(ms, name) is Some) == module_defined_spec(ms, name),
    decreases ms.len(),
{
    if ms.len() == 0 {
    } else if ms.first().name == name {
        assert(ms[0].name == name);
    } else {
        lemma_find_module_defined(ms.drop_first(), name);
        assert(forall|k: int| 0 <= k < ms.drop_first().len() ==> ms.drop_first()[k] == ms[k + 1]);
        if module_defined_spec(ms, name) {
            let i = choose|i: int| 0 <= i < ms.len() && ms[i].name == name;
            assert(i > 0);
            assert(ms.drop_first()[i - 1].name == name);
            assert(module_defined_spec(ms.drop_first(), name));
        }
        if module_defined_spec(ms.drop_first(), name) {
            let i = choose|i: int| 0 <= i < ms.drop_first().len() && ms.drop_first()[i].name == name;
            assert(ms[i + 1].name == name);
        }
    }
}

/// A found module bears the name it was found by.
pub proof fn lemma_find_module_name(ms: Seq<ModuleModel>, name: Seq<u8>)
    ensures
        find_module_spec(ms, name) matches Some(m) ==> m.name == name,
    decreases ms.len(),
{
    if ms.len() > 0 && ms.first().name != name {
        lemma_find_module_name(ms.drop_first(), name);
    }
}

/// Reports whether a module of this name exists in the configuration.
pub fn is_module_defined(config: &ModulesConfig, name: &Vec<u8>) -> (r: bool)
    ensures
        r == module_defined_spec(config@.modules, name@),
{
    let mut i: usize = 0;
    while i < config.modules.len()
        invariant
            0 <= i <= config.modules.len(),
            forall|k: int| 0 <= k < i ==> (#[trigger] config@.modules[k]).name != name@,
        decreases config.modules.len() - i,
    {
        proof {
            assert(config@.modules[i as int] == config.modules@[i as int]@);
        }
        if bytes_eq(&config.modules[i].name, name) {
            return true;
        }
        i += 1;
    }
    false
}

/// Finds the first module of this name, as `find_module_spec` names it.
pub fn find_module(config: &ModulesConfig, name: &Vec<u8>) -> (r: Option<Module>)
    ensures
        match r {
            Some(m) => find_module_spec(config@.modules, name@) == Some(m@),
            None => find_module_spec(config@.modules, name@) is None,
        },
{
    let mut i: usize = 0;
    while i < config.modules.len()
        invariant
            0 <= i <= config.modules.len(),
            forall|k: int| 0 <= k < i ==> (#[trigger] config@.modules[k]).name != name@,
        decreases config.modules.len() - i,
    {
        proof {
            assert(config@.modules[i as int] == config.modules@[i as int]@);
        }
        if bytes_eq(&config.modules[i].name, name) {
            proof {
                lemma_find_module_first(config@.modules, name@, i as int);
            }
            return Some(copy_module(&config.modules[i]));
        }
        i += 1;
    }
    proof {
        lemma_find_module_none(config@.modules, name@);
    }
    None
}

/// One step of removal by name.
proof fn lemma_modules_without_take_step(ms: Seq<ModuleModel>, name: Seq<u8>, i: int)
    requires
        0 <= i < ms.len(),
    ensures
        modules_without(ms.take(i + 1), name) == if ms[i].name == name {
            modules_without(ms.take(i), name)
        } else {
            modules_without(ms.take(i), name).push(ms[i])
        },
{
    let t1 = ms.take(i + 1);
    assert(t1.len() == i + 1);
    assert(t1.drop_last() =~= ms.take(i));
    assert(t1.last() == ms[i]);
}

/// Removes every module of the given name from the list, keeping order.
pub fn remove_modules_by_name(modules: &Vec<Module>, name: &Vec<u8>) -> (r: Vec<Module>)
    ensures
        module_views(r@) == modules_without(module_views(modules@), name@),
{
    let mut r: Vec<Module> = Vec::new();
    let mut i: usize = 0;
    while i < modules.len()
        invariant
            0 <= i <= modules.len(),
            module_views(r@) == modules_without(module_views(modules@).take(i as int), name@),
        decreases modules.len() - i,
    {
        let ghost prev = module_views(r@);
        proof {
            assert(module_views(modules@)[i as int] == modules@[i as int]@);
            assert(module_views(modules@).take(i as int) =~= module_views(modules@.take(i as int)));
            lemma_modules_without_take_step(module_views(modules@), name@, i as int);
        }
        if !bytes_eq(&modules[i].name, name) {
            r.push(copy_module(&modules[i]));
            proof {
                assert(module_views(r@) =~= prev.push(modules@[i as int]@));
            }
        }
        i += 1;
    }
    proof {
        assert(module_views(modules@).take(module_views(modules@).len() as int) =~= module_views(
            modules@,
        ));
    }
    r
}

/// The identity fields of a version rebound to its owning module.
pub open spec fn rebind_version(
    root: Seq<u8>,
    module_name: Seq<u8>,
    module_dir: Seq<u8>,
    v: VersionModel,
) -> VersionModel {
    VersionModel {
        name: v.name,
        module: crate::meta::ModulePtrModel {
            repository_path: root,
            module_name: module_name,
            module_dir: module_dir,
        },
    }
}

/// The versions of a module rebound to its identity.
pub open spec fn rebind_versions(
    root: Seq<u8>,
    module_name: Seq<u8>,
    module_dir: Seq<u8>,
    vs: Seq<VersionModel>,
) -> Seq<VersionModel>
    decreases vs.len(),
{
    if vs.len() == 0 {
        Seq::empty()
    } else {
        rebind_versions(root, module_name, module_dir, vs.drop_last()).push(
            rebind_version(root, module_name, module_dir, vs.last()),
        )
    }
}

/// A module with every identity record rebuilt from the repository root and
/// its own name and directory.
pub open spec fn rebind_module(root: Seq<u8>, m: ModuleModel) -> ModuleModel {
    ModuleModel {
        repository_ptr: crate::meta::RepositoryPtrModel { repository_path: root },
        name: m.name,
        directory: m.directory,
        versions: rebind_versions(root, m.name, m.directory, m.versions),
        current_version: match m.current_version {
            Some(v) => Some(rebind_version(root, m.name, m.directory, v)),
            None => None,
        },
    }
}

/// Every module rebound to the repository root.
pub open spec fn rebind_modules(root: Seq<u8>, ms: Seq<ModuleModel>) -> Seq<ModuleModel>
    decreases ms.len(),
{
    if ms.len() == 0 {
        Seq::empty()
    } else {
        rebind_modules(root, ms.drop_last()).push(rebind_module(root, ms.last()))
    }
}

/// One rebind step.
proof fn lemma_rebind_versions_take_step(
    root: Seq<u8>,
    module_name: Seq<u8>,
    module_dir: Seq<u8>,
    vs: Seq<VersionModel>,
    i: int,
)
    requires
        0 <= i < vs.len(),
    ensures
        rebind_versions(root, module_name, module_dir, vs.take(i + 1)) == rebind_versions(
            root,
            module_name,
            module_dir,
            vs.take(i),
        ).push(rebind_version(root, module_name, module_dir, vs[i])),
{
    let t1 = vs.take(i + 1);
    assert(t1.drop_last() =~= vs.take(i));
    assert(t1.last() == vs[i]);
}

/// One rebind step over modules.
proof fn lemma_rebind_modules_take_step(root: Seq<u8>, ms: Seq<ModuleModel>, i: int)
    requires
        0 <= i < ms.len(),
    ensures
        rebind_modules(root, ms.take(i + 1)) == rebind_modules(root, ms.take(i)).push(
            rebind_module(root, ms[i]),
        ),
{
    let t1 = ms.take(i + 1);
    assert(t1.drop_last() =~= ms.take(i));
    assert(t1.last() == ms[i]);
}

/// Rebinds the versions of one module.
fn rebind_versions_exec(
    root: &Vec<u8>,
    module_name: &Vec<u8>,
    module_dir: &Vec<u8>,
    vs: &Vec<Version>,
) -> (r: Vec<Version>)
    ensures
        crate::version::version_views(r@) == rebind_versions(
            root@,
            module_name@,
            module_dir@,
            crate::version::version_views(vs@),
        ),
{
    let mut r: Vec<Version> = Vec::new();
    let mut i: usize = 0;
    while i < vs.len()
        invariant
            0 <= i <= vs.len(),
            crate::version::version_views(r@) == rebind_versions(
                root@,
                module_name@,
                module_dir@,
                crate::version::version_views(vs@).take(i as int),
            ),
        decreases vs.len() - i,
    {
        let ghost prev = crate::version::version_views(r@);
        proof {
            assert(crate::version::version_views(vs@)[i as int] == vs@[i as int]@);
            lemma_rebind_versions_take_step(
                root@,
                module_name@,
                module_dir@,
                crate::version::version_views(vs@),
                i as int,
            );
        }
        let v = Version {
            name: copy_bytes(&vs[i].name),
            module: crate::meta::ModulePtr {
                repository_path: copy_bytes(root),
                module_name: copy_bytes(module_name),
                module_dir: copy_bytes(module_dir),
            },
        };
        proof {
            assert(v@ == rebind_version(root@, module_name@, module_dir@, vs@[i as int]@));
        }
        r.push(v);
        proof {
            assert(crate::version::version_views(r@) =~= prev.push(
                rebind_version(root@, module_name@, module_dir@, vs@[i as int]@),
            ));
        }
        i += 1;
    }
    proof {
        assert(crate::version::version_views(vs@).take(vs@.len() as int)
            =~= crate::version::version_views(vs@));
    }
    r
}

/// Rebinds one module to the repository root.
fn rebind_module_exec(root: &Vec<u8>, m: &Module) -> (r: Module)
    ensures
        r@ == rebind_module(root@, m@),
{
    let current_version = match &m.current_version {
        Some(v) => Some(
            Version {
                name: copy_bytes(&v.name),
                module: crate::meta::ModulePtr {
                    repository_path: copy_bytes(root),
                    module_name: copy_bytes(&m.name),
                    module_dir: copy_bytes(&m.directory),
                },
            },
        ),
        None => None,
    };
    Module {
        repository_ptr: crate::meta::RepositoryPtr { repository_path: copy_bytes(root) },
        name: copy_bytes(&m.name),
        directory: copy_bytes(&m.directory),
        versions: rebind_versions_exec(root, &m.name, &m.directory, &m.versions),
        current_version,
    }
}

/// Rebuilds a configuration as read from disk: every identity record is
/// derived afresh from the repository root and the module's own fields, and
/// the selected module is re-resolved by name among the rebuilt modules.
pub fn append_metadata_to_config(repository: &Repository, config: &ModulesConfig) -> (r:
    ModulesConfig)
    ensures
        r@.modules == rebind_modules(repository@.root_path, config@.modules),
        r@.current_module == match config@.current_module {
            Some(c) => find_module_spec(
                rebind_modules(repository@.root_path, config@.modules),
                c.name,
            ),
            None => None::<ModuleModel>,
        },
{
    let root = &repository.root_path;
    let mut modules: Vec<Module> = Vec::new();
    let mut i: usize = 0;
    while i < config.modules.len()
        invariant
            0 <= i <= config.modules.len(),
            module_views(modules@) == rebind_modules(
                root@,
                config@.modules.take(i as int),
            ),
            root@ == repository@.root_path,
        decreases config.modules.len() - i,
    {
        let ghost prev = module_views(modules@);
        proof {
            assert(config@.modules[i as int] == config.modules@[i as int]@);
            lemma_rebind_modules_take_step(root@, config@.modules, i as int);
        }
        let m = rebind_module_exec(root, &config.modules[i]);
        modules.push(m);
        proof {
            assert(module_views(modules@) =~= prev.push(
                rebind_module(root@, config@.modules[i as int]),
            ));
        }
        i += 1;
    }
    proof {
        assert(config@.modules.take(config@.modules.len() as int) =~= config@.modules);
    }
    let rebound = ModulesConfig { modules, current_module: None };
    let current_module = match &config.current_module {
        Some(c) => find_module(&rebound, &c.name),
        None => None,
    };
    ModulesConfig { modules: rebound.modules, current_module }
}

/// Replaces a module in the configuration: every module of its name is
/// dropped and the given record is appended; the selection is untouched.
pub fn update_module_in_config(config: &ModulesConfig, module: &Module) -> (r: ModulesConfig)
    ensures
        r@.modules == modules_without(config@.modules, module@.name).push(module@),
        r@.current_module == config@.current_module,
{
    let mut modules = remove_modules_by_name(&config.modules, &module.name);
    modules.push(copy_module(module));
    let current_module = match &config.current_module {
        Some(c) => Some(copy_module(c)),
        None => None,
    };
    proof {
        assert(module_views(modules@) =~= modules_without(config@.modules, module@.name).push(
            module@,
        ));
    }
    ModulesConfig { modules, current_module }
}

/// The name of the selected module, empty when none is selected.
pub fn current_module_name(config: &ModulesConfig) -> (r: Vec<u8>)
    ensures
        r@ == match config@.current_module {
            Some(m) => m.name,
            None => Seq::<u8>::empty(),
        },
{
    match &config.current_module {
        Some(m) => copy_bytes(&m.name),
        None => {
            let r: Vec<u8> = Vec::new();
            proof {
                assert(r@ =~= Seq::<u8>::empty());
            }
            r
        },
    }
}

} // verus!
