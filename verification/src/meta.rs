//! Flat identity records.
//!
//! A version needs to know its owning module's identity — repository root,
//! module name, module working-directory name — to compute its working-tree
//! path and its storage key.  Rather than a live back-pointer, each version
//! carries a copyable identity record, resolved fresh on each operation.

use crate::bytes::copy_bytes;
use vstd::prelude::*;

verus! {

/// The identity of a repository: its root path.
#[derive(Clone, Debug)]
pub struct RepositoryPtr {
    pub repository_path: Vec<u8>,
}

/// The mathematical value of a [`RepositoryPtr`].
pub struct RepositoryPtrModel {
    pub repository_path: Seq<u8>,
}

impl View for RepositoryPtr {
    type V = RepositoryPtrModel;

    open spec fn view(&self) -> RepositoryPtrModel {
        RepositoryPtrModel { repository_path: self.repository_path@ }
    }
}

/// The identity of a module: the repository root it lives in, its name, and
/// the name of its working directory under the root.
#[derive(Clone, Debug)]
pub struct ModulePtr {
    pub repository_path: Vec<u8>,
    pub module_name: Vec<u8>,
    pub module_dir: Vec<u8>,
}

/// The mathematical value of a [`ModulePtr`].
pub struct ModulePtrModel {
    pub repository_path: Seq<u8>,
    pub module_name: Seq<u8>,
    pub module_dir: Seq<u8>,
}

impl View for ModulePtr {
    type V = ModulePtrModel;

    open spec fn view(&self) -> ModulePtrModel {
        ModulePtrModel {
            repository_path: self.repository_path@,
            module_name: self.module_name@,
            module_dir: self.module_dir@,
        }
    }
}

/// Copies a repository identity record.
pub fn copy_repository_ptr(p: &RepositoryPtr) -> (r: RepositoryPtr)
    ensures
        r@ == p@,
{
    RepositoryPtr { repository_path: copy_bytes(&p.repository_path) }
}

/// Copies a module identity record.
pub fn copy_module_ptr(p: &ModulePtr) -> (r: ModulePtr)
    ensures
        r@ == p@,
{
    ModulePtr {
        repository_path: copy_bytes(&p.repository_path),
        module_name: copy_bytes(&p.module_name),
        module_dir: copy_bytes(&p.module_dir),
    }
}

impl RepositoryPtr {
    /// The identity record of a repository.
    pub fn create(repository: &crate::repository::Repository) -> (r: RepositoryPtr)
        ensures
            r@.repository_path == repository@.root_path,
    {
        RepositoryPtr { repository_path: copy_bytes(&repository.root_path) }
    }
}

impl ModulePtr {
    /// The identity record of a module.
    pub fn create(module: &crate::module::Module) -> (r: ModulePtr)
        ensures
            r@.repository_path == module@.repository_ptr.repository_path,
            r@.module_name == module@.name,
            r@.module_dir == module@.directory,
    {
        ModulePtr {
            repository_path: copy_bytes(&module.repository_ptr.repository_path),
            module_name: copy_bytes(&module.name),
            module_dir: copy_bytes(&module.directory),
        }
    }
}

} // verus!
