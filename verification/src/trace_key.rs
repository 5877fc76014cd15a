//! The path from the root of a document to a value inside it.
use vstd::prelude::*;
use vstd::string::*;

verus! {

/// A path into a document, built from the root outwards and kept only to
/// say where a value was found.
///
/// `Field(name, parent)` is the field `name` of the mapping at `parent`;
/// `Array(parent)` is some element of the array at `parent`.
#[derive(Debug)]
pub enum TraceKey {
    Root,
    Field(String, Box<TraceKey>),
    Array(Box<TraceKey>),
}

impl TraceKey {
    /// The rendered path: `/a/b` for nested fields, `/a[]` for an element of
    /// the array under `a`, nothing for the root.
    pub open spec fn text(self) -> Seq<char>
        decreases self,
    {
        match self {
            TraceKey::Root => Seq::empty(),
            TraceKey::Field(name, parent) => parent.text() + "/"@ + name@,
            TraceKey::Array(parent) => parent.text() + "[]"@,
        }
    }

    /// Whether `self` is `parent` followed by exactly one step.
    pub open spec fn is_child_of(self, parent: TraceKey) -> bool {
        match self {
            TraceKey::Root => false,
            TraceKey::Field(_, p) => *p == parent,
            TraceKey::Array(p) => *p == parent,
        }
    }

    /// The path of the field `name` below `self`.
    pub fn field(&self, name: &String) -> (key: TraceKey)
        ensures
            key == TraceKey::Field(*name, Box::new(*self)),
    {
        TraceKey::Field(name.clone(), Box::new(self.clone()))
    }

    /// The path of an element of the array at `self`.
    pub fn element(&self) -> (key: TraceKey)
        ensures
            key == TraceKey::Array(Box::new(*self)),
    {
        TraceKey::Array(Box::new(self.clone()))
    }

    /// Renders the path.
    pub fn to_string(&self) -> (s: String)
        ensures
            s@ == self.text(),
        decreases self,
    {
        match self {
            TraceKey::Root => {
                let s = String::new();
                assert(s@ =~= self.text());
                s
            },
            TraceKey::Field(name, parent) => {
                let mut s = parent.to_string();
                s.append("/");
                s.append(name.as_str());
                s
            },
            TraceKey::Array(parent) => {
                let mut s = parent.to_string();
                s.append("[]");
                s
            },
        }
    }

    /// Whether two paths take the same steps.
    pub open spec fn same_steps(self, other: TraceKey) -> bool
        decreases self,
    {
        match self {
            TraceKey::Root => other is Root,
            TraceKey::Field(a, p) => match other {
                TraceKey::Field(b, q) => a@ == b@ && p.same_steps(*q),
                _ => false,
            },
            TraceKey::Array(p) => match other {
                TraceKey::Array(q) => p.same_steps(*q),
                _ => false,
            },
        }
    }

}

impl PartialEq for TraceKey {
    fn eq(&self, other: &Self) -> (same: bool)
        decreases self,
    {
        match self {
            TraceKey::Root => match other {
                TraceKey::Root => true,
                _ => false,
            },
            TraceKey::Field(a, p) => match other {
                TraceKey::Field(b, q) => {
                    let same_name = *a == *b;
                    same_name && (&**p).eq(&**q)
                },
                _ => false,
            },
            TraceKey::Array(p) => match other {
                TraceKey::Array(q) => (&**p).eq(&**q),
                _ => false,
            },
        }
    }
}

impl vstd::std_specs::cmp::PartialEqSpecImpl for TraceKey {
    open spec fn obeys_eq_spec() -> bool {
        true
    }

    open spec fn eq_spec(&self, other: &Self) -> bool {
        self.same_steps(*other)
    }
}

impl Clone for TraceKey {
    fn clone(&self) -> (key: Self)
        ensures
            key == *self,
        decreases self,
    {
        match self {
            TraceKey::Root => TraceKey::Root,
            TraceKey::Field(name, parent) => TraceKey::Field(
                name.clone(),
                Box::new((&**parent).clone()),
            ),
            TraceKey::Array(parent) => TraceKey::Array(Box::new((&**parent).clone())),
        }
    }
}

/// Paths that take the same steps render alike.
pub proof fn lemma_same_steps_same_text(a: TraceKey, b: TraceKey)
    requires
        a.same_steps(b),
    ensures
        a.text() == b.text(),
    decreases a,
{
    match a {
        TraceKey::Root => {},
        TraceKey::Field(_, p) => match b {
            TraceKey::Field(_, q) => lemma_same_steps_same_text(*p, *q),
            _ => {},
        },
        TraceKey::Array(p) => match b {
            TraceKey::Array(q) => lemma_same_steps_same_text(*p, *q),
            _ => {},
        },
    }
}

} // verus!
