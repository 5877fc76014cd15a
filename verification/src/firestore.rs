//! References to collections and documents, and the paths that name them.
use vstd::prelude::*;
use vstd::string::*;

verus! {

/// A collection: at the top, or below a document.
#[derive(Debug, PartialEq)]
pub struct CollectionReference {
    id: String,
    parent: Option<Box<DocumentReference>>,
}

/// A document of a collection.
#[derive(Debug, PartialEq)]
pub struct DocumentReference {
    id: String,
    parent: Box<CollectionReference>,
}

impl CollectionReference {
    /// The id of the collection.
    pub closed spec fn id(self) -> Seq<char> {
        self.id@
    }

    /// The document the collection is below, if it is below one.
    pub closed spec fn parent(self) -> Option<DocumentReference> {
        match self.parent {
            Some(parent) => Some(*parent),
            None => None,
        }
    }

    /// The path of the collection: the path of its parent, a slash and its
    /// id; at the top, its id alone.
    pub open spec fn path_text(self) -> Seq<char>
        decreases self,
    {
        match self.parent() {
            Some(parent) => parent.path_text() + "/"@ + self.id(),
            None => self.id(),
        }
    }

    /// The collection `id` below `parent`, or at the top.
    pub fn new(id: &str, parent: Option<&DocumentReference>) -> (collection: Self)
        ensures
            collection.id() == id@,
            match parent {
                Some(document) => collection.parent() == Some(*document),
                None => collection.parent() is None,
            },
    {
        CollectionReference {
            id: String::from_str(id),
            parent: match parent {
                Some(document) => Some(Box::new(document.clone())),
                None => None,
            },
        }
    }

    /// The document `id` of this collection.
    pub fn doc(&self, id: &str) -> (document: DocumentReference)
        ensures
            document.id() == id@,
            document.parent() == *self,
            document.path_text() == self.path_text() + "/"@ + id@,
    {
        DocumentReference::new(id, self)
    }

    /// Writes the path of the collection.
    pub fn path(&self) -> (path: String)
        ensures
            path@ == self.path_text(),
        decreases self,
    {
        match &self.parent {
            Some(parent) => {
                let mut path = parent.path();
                path.append("/");
                path.append(self.id.as_str());
                path
            },
            None => self.id.clone(),
        }
    }
}

impl DocumentReference {
    /// The id of the document.
    pub closed spec fn id(self) -> Seq<char> {
        self.id@
    }

    /// The collection the document is in.
    pub closed spec fn parent(self) -> CollectionReference {
        *self.parent
    }

    /// The path of the document: the path of its collection, a slash and
    /// its id.
    pub open spec fn path_text(self) -> Seq<char>
        decreases self,
    {
        self.parent().path_text() + "/"@ + self.id()
    }

    /// The document `id` of the collection `parent`.
    pub fn new(id: &str, parent: &CollectionReference) -> (document: Self)
        ensures
            document.id() == id@,
            document.parent() == *parent,
            document.path_text() == parent.path_text() + "/"@ + id@,
    {
        DocumentReference { id: String::from_str(id), parent: Box::new(parent.clone()) }
    }

    /// The collection `id` below this document.
    pub fn collection(&self, id: &str) -> (collection: CollectionReference)
        ensures
            collection.id() == id@,
            collection.parent() == Some(*self),
            collection.path_text() == self.path_text() + "/"@ + id@,
    {
        CollectionReference::new(id, Some(self))
    }

    /// Writes the path of the document.
    pub fn path(&self) -> (path: String)
        ensures
            path@ == self.path_text(),
        decreases self,
    {
        let mut path = self.parent.path();
        path.append("/");
        path.append(self.id.as_str());
        path
    }

    /// The name by which the document is asked for in the default database
    /// of the project `project_id`.
    pub open spec fn name_text(self, project_id: Seq<char>) -> Seq<char> {
        "projects/"@ + project_id + "/databases/(default)/documents/"@ + self.path_text()
    }

    /// Writes the name by which the document is asked for.
    pub fn name(&self, project_id: &str) -> (name: String)
        ensures
            name@ == self.name_text(project_id@),
    {
        let mut name = String::from_str("projects/");
        name.append(project_id);
        name.append("/databases/(default)/documents/");
        name.append(self.path().as_str());
        name
    }
}

impl Clone for CollectionReference {
    fn clone(&self) -> (copy: Self)
        ensures
            copy == *self,
        decreases self,
    {
        CollectionReference {
            id: self.id.clone(),
            parent: match &self.parent {
                Some(parent) => Some(Box::new((&**parent).clone())),
                None => None,
            },
        }
    }
}

impl Clone for DocumentReference {
    fn clone(&self) -> (copy: Self)
        ensures
            copy == *self,
        decreases self,
    {
        DocumentReference { id: self.id.clone(), parent: Box::new((&*self.parent).clone()) }
    }
}

/// The collection `id` at the top.
pub fn collection(id: &str) -> (collection: CollectionReference)
    ensures
        collection.id() == id@,
        collection.parent() is None,
        collection.path_text() == id@,
{
    CollectionReference::new(id, None)
}

} // verus!
