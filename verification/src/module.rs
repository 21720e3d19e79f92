//! A module: a named grouping of one working directory and its versions.

use crate::bytes::bytes_eq;
use crate::bytes::copy_bytes;
use crate::errors::VersionsError;
use crate::meta::ModulePtr;
use crate::meta::RepositoryPtr;
use crate::meta::RepositoryPtrModel;
use crate::meta::copy_repository_ptr;
use crate::version::Version;
use crate::version::VersionModel;
use crate::version::copy_version;
use crate::version::version_views;
use vstd::prelude::*;

verus! {

/// A named module of a repository: its working-directory name, its
/// versions, and the version currently checked out, when one is.
#[derive(Clone, Debug)]
pub struct Module {
    pub repository_ptr: RepositoryPtr,
    pub name: Vec<u8>,
    pub directory: Vec<u8>,
    pub versions: Vec<Version>,
    pub current_version: Option<Version>,
}

/// The mathematical value of a [`Module`].
pub struct ModuleModel {
    pub repository_ptr: RepositoryPtrModel,
    pub name: Seq<u8>,
    pub directory: Seq<u8>,
    pub versions: Seq<VersionModel>,
    pub current_version: Option<VersionModel>,
}

impl View for Module {
    type V = ModuleModel;

    open spec fn view(&self) -> ModuleModel {
        ModuleModel {
            repository_ptr: self.repository_ptr@,
            name: self.name@,
            directory: self.directory@,
            versions: version_views(self.versions@),
            current_version: match self.current_version {
                Some(ref v) => Some(v@),
                None => None,
            },
        }
    }
}

/// The sequence of module models of a sequence of modules.
pub open spec fn module_views(s: Seq<Module>) -> Seq<ModuleModel> {
    s.map_values(|m: Module| m@)
}

/// Copies a list of versions.
pub fn copy_versions(vs: &Vec<Version>) -> (r: Vec<Version>)
    ensures
        version_views(r@) == version_views(vs@),
{
    let mut r: Vec<Version> = Vec::new();
    let mut i: usize = 0;
    while i < vs.len()
        invariant
            0 <= i <= vs.len(),
            version_views(r@) == version_views(vs@.take(i as int)),
        decreases vs.len() - i,
    {
        r.push(copy_version(&vs[i]));
        proof {
            assert(version_views(r@) =~= version_views(vs@.take(i as int)).push(vs@[i as int]@));
            assert(version_views(vs@.take(i as int + 1)) =~= version_views(
                vs@.take(i as int),
            ).push(vs@[i as int]@));
        }
        i += 1;
    }
    proof {
        assert(vs@.take(vs@.len() as int) =~= vs@);
    }
    r
}

/// Copies a module record.
pub fn copy_module(m: &Module) -> (r: Module)
    ensures
        r@ == m@,
{
    let current_version = match &m.current_version {
        Some(v) => Some(copy_version(v)),
        None => None,
    };
    Module {
        repository_ptr: copy_repository_ptr(&m.repository_ptr),
        name: copy_bytes(&m.name),
        directory: copy_bytes(&m.directory),
        versions: copy_versions(&m.versions),
        current_version,
    }
}

/// A version of this name occurs in the list.
pub open spec fn version_defined_spec(vs: Seq<VersionModel>, name: Seq<u8>) -> bool {
    exists|i: int| 0 <= i < vs.len() && (#[trigger] vs[i]).name == name
}

/// The first version of the list with the given name.
pub open spec fn find_version_spec(vs: Seq<VersionModel>, name: Seq<u8>) -> Option<VersionModel>
    decreases vs.len(),
{
    if vs.len() == 0 {
        None
    } else if vs.first().name == name {
        Some(vs.first())
    } else {
        find_version_spec(vs.drop_first(), name)
    }
}

/// The list without every version of the given name, order kept.
pub open spec fn versions_without(vs: Seq<VersionModel>, name: Seq<u8>) -> Seq<VersionModel>
    decreases vs.len(),
{
    if vs.len() == 0 {
        Seq::empty()
    } else if vs.last().name == name {
        versions_without(vs.drop_last(), name)
    } else {
        versions_without(vs.drop_last(), name).push(vs.last())
    }
}

/// A first match characterizes `find_version_spec`.
proof fn lemma_find_version_first(vs: Seq<VersionModel>, name: Seq<u8>, i: int)
    requires
        0 <= i < vs.len(),
        vs[i].name == name,
        forall|k: int| 0 <= k < i ==> vs[k].name != name,
    ensures
        find_version_spec(vs, name) == Some(vs[i]),
    decreases i,
{
    if i == 0 {
    } else {
        assert(forall|k: int| 0 <= k < i - 1 ==> vs.drop_first()[k] == vs[k + 1]);
        assert(vs.drop_first()[i - 1] == vs[i]);
        lemma_find_version_first(vs.drop_first(), name, i - 1);
    }
}

/// No match characterizes `find_version_spec`.
proof fn lemma_find_version_none(vs: Seq<VersionModel>, name: Seq<u8>)
    requires
        forall|k: int| 0 <= k < vs.len() ==> (#[trigger] vs[k]).name != name,
    ensures
        find_version_spec(vs, name) is None,
    decreases vs.len(),
{
    if vs.len() > 0 {
        assert(forall|k: int| 0 <= k < vs.drop_first().len() ==> vs.drop_first()[k] == vs[k + 1]);
        lemma_find_version_none(vs.drop_first(), name);
    }
}

/// Finds the first version of this name in a module's list.
fn find_version(versions: &Vec<Version>, name: &Vec<u8>) -> (r: Option<Version>)
    ensures
        match r {
            Some(v) => find_version_spec(version_views(versions@), name@) == Some(v@),
            None => find_version_spec(version_views(versions@), name@) is None,
        },
{
    let mut i: usize = 0;
    while i < versions.len()
        invariant
            0 <= i <= versions.len(),
            forall|k: int|
                0 <= k < i ==> (#[trigger] version_views(versions@)[k]).name != name@,
        decreases versions.len() - i,
    {
        proof {
            assert(version_views(versions@)[i as int] == versions@[i as int]@);
        }
        if bytes_eq(&versions[i].name, name) {
            proof {
                lemma_find_version_first(version_views(versions@), name@, i as int);
            }
            return Some(copy_version(&versions[i]));
        }
        i += 1;
    }
    proof {
        lemma_find_version_none(version_views(versions@), name@);
    }
    None
}

/// One step of removal by name.
proof fn lemma_versions_without_take_step(vs: Seq<VersionModel>, name: Seq<u8>, i: int)
    requires
        0 <= i < vs.len(),
    ensures
        versions_without(vs.take(i + 1), name) == if vs[i].name == name {
            versions_without(vs.take(i), name)
        } else {
            versions_without(vs.take(i), name).push(vs[i])
        },
{
    let t1 = vs.take(i + 1);
    assert(t1.len() == i + 1);
    assert(t1.drop_last() =~= vs.take(i));
    assert(t1.last() == vs[i]);
}

/// Removes every version of the given name from the list, keeping order.
fn remove_versions_by_name(versions: &Vec<Version>, name: &Vec<u8>) -> (r: Vec<Version>)
    ensures
        version_views(r@) == versions_without(version_views(versions@), name@),
{
    let mut r: Vec<Version> = Vec::new();
    let mut i: usize = 0;
    while i < versions.len()
        invariant
            0 <= i <= versions.len(),
            version_views(r@) == versions_without(
                version_views(versions@).take(i as int),
                name@,
            ),
        decreases versions.len() - i,
    {
        let ghost prev = version_views(r@);
        proof {
            assert(version_views(versions@)[i as int] == versions@[i as int]@);
            lemma_versions_without_take_step(version_views(versions@), name@, i as int);
        }
        if !bytes_eq(&versions[i].name, name) {
            r.push(copy_version(&versions[i]));
            proof {
                assert(version_views(r@) =~= prev.push(versions@[i as int]@));
            }
        }
        i += 1;
    }
    proof {
        assert(version_views(versions@).take(version_views(versions@).len() as int)
            =~= version_views(versions@));
    }
    r
}

impl Module {
    /// The module's versions.
    pub fn list_versions(&self) -> (r: Vec<Version>)
        ensures
            version_views(r@) == self@.versions,
    {
        copy_versions(&self.versions)
    }

    /// The currently checked-out version; fails when none is selected.
    pub fn current_version(&self) -> (r: Result<Version, VersionsError>)
        ensures
            match self@.current_version {
                Some(v) => r matches Ok(rv) && rv@ == v,
                None => r matches Err(e) && (e matches VersionsError::NoCurrentVersionInModule(n)
                    && n@ == self@.name),
            },
    {
        match &self.current_version {
            Some(v) => Ok(copy_version(v)),
            None => Err(VersionsError::NoCurrentVersionInModule(copy_bytes(&self.name))),
        }
    }

    /// Adds a version of the given name: fails exactly when one already
    /// exists; otherwise yields the module with the new version appended,
    /// and the new version itself, whose stored object the caller then
    /// writes by saving it.
    pub fn add_version(&self, name: &Vec<u8>) -> (r: Result<(Module, Version), VersionsError>)
        ensures
            version_defined_spec(self@.versions, name@) <==> r is Err,
            r matches Err(e) ==> (e matches VersionsError::VersionAlreadyExists(n) && n@
                == name@),
            r matches Ok(p) ==> {
                &&& p.1@.name == name@
                &&& p.1@.module.repository_path == self@.repository_ptr.repository_path
                &&& p.1@.module.module_name == self@.name
                &&& p.1@.module.module_dir == self@.directory
                &&& p.0@.versions == self@.versions.push(p.1@)
                &&& p.0@.name == self@.name
                &&& p.0@.directory == self@.directory
                &&& p.0@.repository_ptr == self@.repository_ptr
                &&& p.0@.current_version == self@.current_version
            },
    {
        let mut exists_already = false;
        let mut i: usize = 0;
        while i < self.versions.len()
            invariant
                0 <= i <= self.versions.len(),
                exists_already == exists|k: int|
                    0 <= k < i && (#[trigger] version_views(self.versions@)[k]).name == name@,
            decreases self.versions.len() - i,
        {
            proof {
                assert(version_views(self.versions@)[i as int] == self.versions@[i as int]@);
            }
            if bytes_eq(&self.versions[i].name, name) {
                exists_already = true;
            }
            i += 1;
        }
        if exists_already {
            return Err(VersionsError::VersionAlreadyExists(copy_bytes(name)));
        }
        let new_version = Version { name: copy_bytes(name), module: ModulePtr::create(self) };
        let mut versions = copy_versions(&self.versions);
        let ghost prev = version_views(versions@);
        versions.push(copy_version(&new_version));
        proof {
            assert(version_views(versions@) =~= prev.push(new_version@));
        }
        let current_version = match &self.current_version {
            Some(v) => Some(copy_version(v)),
            None => None,
        };
        let module = Module {
            repository_ptr: copy_repository_ptr(&self.repository_ptr),
            name: copy_bytes(&self.name),
            directory: copy_bytes(&self.directory),
            versions,
            current_version,
        };
        Ok((module, new_version))
    }

    /// Removes the version of the given name: fails exactly when none
    /// exists; otherwise yields the module without it, and the removed
    /// version, whose stored object the caller then deletes.
    pub fn remove_version(&self, name: &Vec<u8>) -> (r: Result<(Module, Version), VersionsError>)
        ensures
            r is Ok <==> find_version_spec(self@.versions, name@) is Some,
            r matches Err(e) ==> (e matches VersionsError::VersionDoesNotExists(n) && n@
                == name@),
            r matches Ok(p) ==> {
                &&& Some(p.1@) == find_version_spec(self@.versions, name@)
                &&& p.0@.versions == versions_without(self@.versions, name@)
                &&& p.0@.name == self@.name
                &&& p.0@.directory == self@.directory
                &&& p.0@.repository_ptr == self@.repository_ptr
                &&& p.0@.current_version == self@.current_version
            },
    {
        let found = match find_version(&self.versions, name) {
            Some(v) => v,
            None => {
                return Err(VersionsError::VersionDoesNotExists(copy_bytes(name)));
            },
        };
        let versions = remove_versions_by_name(&self.versions, name);
        let current_version = match &self.current_version {
            Some(v) => Some(copy_version(v)),
            None => None,
        };
        let module = Module {
            repository_ptr: copy_repository_ptr(&self.repository_ptr),
            name: copy_bytes(&self.name),
            directory: copy_bytes(&self.directory),
            versions,
            current_version,
        };
        Ok((module, found))
    }

    /// Checks out the version of the given name: fails exactly when none
    /// exists; otherwise yields the module with that version current, and
    /// the version itself.  The caller saves the old current version's tree
    /// before the switch and loads the new one's after it.
    pub fn switch_version(&self, name: &Vec<u8>) -> (r: Result<(Module, Version), VersionsError>)
        ensures
            r is Ok <==> find_version_spec(self@.versions, name@) is Some,
            r matches Err(e) ==> (e matches VersionsError::VersionDoesNotExists(n) && n@
                == name@),
            r matches Ok(p) ==> {
                &&& Some(p.1@) == find_version_spec(self@.versions, name@)
                &&& p.0@.current_version == Some(p.1@)
                &&& p.0@.versions == self@.versions
                &&& p.0@.name == self@.name
                &&& p.0@.directory == self@.directory
                &&& p.0@.repository_ptr == self@.repository_ptr
            },
    {
        let found = match find_version(&self.versions, name) {
            Some(v) => v,
            None => {
                return Err(VersionsError::VersionDoesNotExists(copy_bytes(name)));
            },
        };
        let module = Module {
            repository_ptr: copy_repository_ptr(&self.repository_ptr),
            name: copy_bytes(&self.name),
            directory: copy_bytes(&self.directory),
            versions: copy_versions(&self.versions),
            current_version: Some(copy_version(&found)),
        };
        Ok((module, found))
    }
}

} // verus!
