//! Module bookkeeping over the configuration record.
//!
//! These mirror the repository methods but leave selection and directory
//! checks to the caller: they only add or drop the module record itself.

use crate::bytes::copy_bytes;
use crate::config::ModulesConfig;
use crate::config::module_defined_spec;
use crate::config::modules_without;
use crate::config::remove_modules_by_name;
use crate::errors::VersionsError;
use crate::module::Module;
use crate::module::copy_module;
use crate::module::module_views;
use crate::repository::Repository;
use crate::repository::create_default;
use crate::repository::default_version_name;
use vstd::prelude::*;

verus! {

/// Reports whether a module of this name exists in the configuration.
pub fn is_module_defined(config: &ModulesConfig, name: &Vec<u8>) -> (r: bool)
    ensures
        r == module_defined_spec(config@.modules, name@),
{
    crate::config::is_module_defined(config, name)
}

/// Adds a fresh module record of the given name over the given directory
/// path.  Fails exactly when a module of the name already exists; otherwise
/// yields the configuration with the new record appended, and the record.
pub fn add_module_with_default_config(
    repository: &Repository,
    config: &ModulesConfig,
    dir_path: &Vec<u8>,
    name: &Vec<u8>,
) -> (r: Result<(ModulesConfig, Module), VersionsError>)
    ensures
        module_defined_spec(config@.modules, name@) <==> r is Err,
        r matches Err(e) ==> (e matches VersionsError::ModuleAlreadyExists(n) && n@ == name@),
        r matches Ok(p) ==> {
            &&& p.1@.name == name@
            &&& p.1@.repository_ptr.repository_path == repository@.root_path
            &&& p.1@.current_version matches Some(v) && v.name == default_version_name()
            &&& p.0@.modules == config@.modules.push(p.1@)
            &&& p.0@.current_module == config@.current_module
        },
{
    if is_module_defined(config, name) {
        return Err(VersionsError::ModuleAlreadyExists(copy_bytes(name)));
    }
    let new_module = create_default(repository, name, dir_path);
    let mut modules: Vec<Module> = Vec::new();
    let mut i: usize = 0;
    while i < config.modules.len()
        invariant
            0 <= i <= config.modules.len(),
            module_views(modules@) == config@.modules.take(i as int),
        decreases config.modules.len() - i,
    {
        let ghost prev = module_views(modules@);
        proof {
            assert(config@.modules[i as int] == config.modules@[i as int]@);
        }
        modules.push(copy_module(&config.modules[i]));
        proof {
            assert(module_views(modules@) =~= prev.push(config@.modules[i as int]));
            assert(config@.modules.take(i as int).push(config@.modules[i as int])
                =~= config@.modules.take(i as int + 1));
        }
        i += 1;
    }
    proof {
        assert(config@.modules.take(config@.modules.len() as int) =~= config@.modules);
    }
    let ghost before_push = module_views(modules@);
    modules.push(copy_module(&new_module));
    proof {
        assert(module_views(modules@) =~= before_push.push(new_module@));
    }
    let current_module = match &config.current_module {
        Some(c) => Some(copy_module(c)),
        None => None,
    };
    Ok((ModulesConfig { modules, current_module }, new_module))
}

/// Drops the module record of the given name.  Fails exactly when no module
/// of the name is defined; otherwise yields the configuration without it.
pub fn remove_module(config: &ModulesConfig, module: &Module) -> (r: Result<
    ModulesConfig,
    VersionsError,
>)
    ensures
        module_defined_spec(config@.modules, module@.name) <==> r is Ok,
        r matches Err(e) ==> (e matches VersionsError::ModuleDoesNotExists(n) && n@
            == module@.name),
        r matches Ok(c) ==> {
            &&& c@.modules == modules_without(config@.modules, module@.name)
            &&& c@.current_module == config@.current_module
        },
{
    if !is_module_defined(config, &module.name) {
        return Err(VersionsError::ModuleDoesNotExists(copy_bytes(&module.name)));
    }
    let modules = remove_modules_by_name(&config.modules, &module.name);
    let current_module = match &config.current_module {
        Some(c) => Some(copy_module(c)),
        None => None,
    };
    Ok(ModulesConfig { modules, current_module })
}

} // verus!
