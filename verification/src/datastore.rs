//! The making of entity keys for one project and namespace.
use vstd::prelude::*;
use vstd::string::*;
use crate::key::{IdType, Key, PartitionId, PathElement};

verus! {

/// The place keys are made for: a project and, in it, a namespace.
#[derive(Debug)]
pub struct Datastore {
    project_id: String,
    namespace_id: String,
}

/// Whether `path` is `parent` followed by one element of kind `kind` with
/// the id or name `id_type`.
pub open spec fn extends_path(
    path: Seq<PathElement>,
    parent: Seq<PathElement>,
    kind: Seq<char>,
    id_type: IdType,
) -> bool {
    &&& path.len() == parent.len() + 1
    &&& path.drop_last() == parent
    &&& path.last().kind@ == kind
    &&& path.last().id_type == Some(id_type)
}

/// The path of a parent key, if there is one.
pub open spec fn parent_path(parent: Option<Key>) -> Seq<PathElement> {
    match parent {
        Some(key) => key.path@,
        None => Seq::empty(),
    }
}

impl Datastore {
    /// The id of the project.
    pub closed spec fn project_id(self) -> Seq<char> {
        self.project_id@
    }

    /// The id of the namespace; empty for the default namespace.
    pub closed spec fn namespace_id(self) -> Seq<char> {
        self.namespace_id@
    }

    /// Whether `partition` is the partition of this project and namespace.
    pub open spec fn is_partition(self, partition: Option<PartitionId>) -> bool {
        &&& partition matches Some(p)
        &&& p.project_id@ == self.project_id()
        &&& p.namespace_id@ == self.namespace_id()
    }

    /// The given namespace of the project, or its default namespace.
    pub fn new(project_id: &str, namespace: Option<String>) -> (datastore: Datastore)
        ensures
            datastore.project_id() == project_id@,
            datastore.namespace_id() == match namespace {
                Some(name) => name@,
                None => Seq::empty(),
            },
    {
        Datastore {
            project_id: String::from_str(project_id),
            namespace_id: match namespace {
                Some(name) => name,
                None => String::new(),
            },
        }
    }

    /// The key of the entity of kind `kind` named `name`, below `parent`
    /// where one is given.
    pub fn name_key(&self, kind: &str, name: &str, parent: Option<Key>) -> (key: Key)
        ensures
            self.is_partition(key.partition_id),
            key.path@.len() == parent_path(parent).len() + 1,
            key.path@.drop_last() == parent_path(parent),
            key.path@.last().kind@ == kind@,
            key.path@.last().id_type matches Some(IdType::Name(n)) && n@ == name@,
    {
        let path = path(kind, IdType::Name(String::from_str(name)), parent);
        Key {
            partition_id: Some(partition_id(self.project_id.as_str(), self.namespace_id.clone())),
            path,
        }
    }

    /// The key of the entity of kind `kind` with the id `id`, below
    /// `parent` where one is given.
    pub fn id_key(&self, kind: &str, id: i64, parent: Option<Key>) -> (key: Key)
        ensures
            self.is_partition(key.partition_id),
            extends_path(key.path@, parent_path(parent), kind@, IdType::Id(id)),
    {
        let path = path(kind, IdType::Id(id), parent);
        Key {
            partition_id: Some(partition_id(self.project_id.as_str(), self.namespace_id.clone())),
            path,
        }
    }
}

/// The partition of a project and a namespace.
pub fn partition_id(project_id: &str, namespace_id: String) -> (partition: PartitionId)
    ensures
        partition.project_id@ == project_id@,
        partition.namespace_id == namespace_id,
{
    PartitionId { project_id: String::from_str(project_id), namespace_id }
}

/// The path of `parent`, if there is one, followed by one element of kind
/// `kind` with the id or name `id_type`.
pub fn path(kind: &str, id_type: IdType, parent: Option<Key>) -> (path: Vec<PathElement>)
    ensures
        extends_path(path@, parent_path(parent), kind@, id_type),
{
    let mut path = match parent {
        None => Vec::new(),
        Some(key) => key.path,
    };
    let ghost before = path@;
    path.push(PathElement { kind: String::from_str(kind), id_type: Some(id_type) });
    assert(path@.drop_last() =~= before);
    path
}

} // verus!
