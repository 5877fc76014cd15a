//! Entity keys: a partition and a path of kinds with ids or names.
use vstd::prelude::*;
use vstd::string::*;
use crate::text::{format_str_debug, integer_text, integer_to_string, str_debug};
use crate::value::{Fields, Value};

verus! {

/// The project and namespace an entity lives in.
#[derive(Debug, Clone, PartialEq)]
pub struct PartitionId {
    pub project_id: String,
    pub namespace_id: String,
}

/// What tells an entity from the others of its kind.
#[derive(Debug, Clone, PartialEq)]
pub enum IdType {
    Id(i64),
    Name(String),
}

/// One step of a key's path.
#[derive(Debug, Clone, PartialEq)]
pub struct PathElement {
    pub kind: String,
    pub id_type: Option<IdType>,
}

/// The identifier of an entity.
#[derive(Debug, Clone, PartialEq)]
pub struct Key {
    pub partition_id: Option<PartitionId>,
    pub path: Vec<PathElement>,
}


impl PartitionId {
    /// The text of the partition, field by field.
    pub open spec fn text(self) -> Seq<char> {
        "PartitionId { project_id: "@ + str_debug(self.project_id@) + ", namespace_id: "@
            + str_debug(self.namespace_id@) + " }"@
    }

    /// Writes the partition.
    pub fn to_string(&self) -> (s: String)
        ensures
            s@ == self.text(),
    {
        let mut s = String::from_str("PartitionId { project_id: ");
        s.append(format_str_debug(self.project_id.as_str()).as_str());
        s.append(", namespace_id: ");
        s.append(format_str_debug(self.namespace_id.as_str()).as_str());
        s.append(" }");
        s
    }

    /// Whether `fields`, names taken as their characters, hold the project
    /// and the namespace, in this order.
    pub open spec fn is_map_value(self, fields: Seq<(Seq<char>, Value)>) -> bool {
        fields == seq![
            ("project_id"@, Value::StringValue(self.project_id)),
            ("namespace_id"@, Value::StringValue(self.namespace_id)),
        ]
    }

    /// The partition as a mapping of its two fields.
    pub fn map_value(&self) -> (fields: Fields)
        ensures
            self.is_map_value(fields@),
    {
        let mut fields = Fields::new();
        fields.insert(String::from_str("project_id"), Value::StringValue(self.project_id.clone()));
        fields.insert(
            String::from_str("namespace_id"),
            Value::StringValue(self.namespace_id.clone()),
        );
        proof {
            reveal_strlit("project_id");
            reveal_strlit("namespace_id");
            assert("project_id"@.len() != "namespace_id"@.len());
            assert(fields@ =~= seq![
                ("project_id"@, Value::StringValue(self.project_id)),
                ("namespace_id"@, Value::StringValue(self.namespace_id)),
            ]);
        }
        fields
    }
}

impl IdType {
    /// The text of the id or name: the variant and, in brackets, its
    /// content.
    pub open spec fn text(self) -> Seq<char> {
        match self {
            IdType::Id(id) => "Id("@ + integer_text(id as int) + ")"@,
            IdType::Name(name) => "Name("@ + str_debug(name@) + ")"@,
        }
    }

    /// Writes the id or name.
    pub fn to_string(&self) -> (s: String)
        ensures
            s@ == self.text(),
    {
        match self {
            IdType::Id(id) => {
                let mut s = String::from_str("Id(");
                s.append(integer_to_string(*id).as_str());
                s.append(")");
                s
            },
            IdType::Name(name) => {
                let mut s = String::from_str("Name(");
                s.append(format_str_debug(name.as_str()).as_str());
                s.append(")");
                s
            },
        }
    }

    /// Whether `fields` holds the one entry that names the variant.
    pub open spec fn is_map_value(self, fields: Seq<(Seq<char>, Value)>) -> bool {
        match self {
            IdType::Id(id) => fields == seq![("Id"@, Value::IntegerValue(id))],
            IdType::Name(name) => fields == seq![("Name"@, Value::StringValue(name))],
        }
    }

    /// The id or name as a mapping of one entry, named after the variant.
    pub fn map_value(&self) -> (fields: Fields)
        ensures
            self.is_map_value(fields@),
    {
        let mut fields = Fields::new();
        match self {
            IdType::Id(id) => {
                fields.insert(String::from_str("Id"), Value::IntegerValue(*id));
                assert(fields@ =~= seq![("Id"@, Value::IntegerValue(*id))]);
            },
            IdType::Name(name) => {
                fields.insert(String::from_str("Name"), Value::StringValue(name.clone()));
                assert(fields@ =~= seq![("Name"@, Value::StringValue(*name))]);
            },
        }
        fields
    }
}

/// Whether `value` stands for the id or name: a mapping of one entry, or
/// null where there is none.
pub open spec fn is_id_value(id_type: Option<IdType>, value: Value) -> bool {
    match id_type {
        Some(id) => value matches Value::MapValue(fields) && id.is_map_value(fields@),
        None => value is NullValue,
    }
}

/// Whether `value` stands for the partition: a mapping of its fields, or
/// null where there is none.
pub open spec fn is_partition_value(partition_id: Option<PartitionId>, value: Value) -> bool {
    match partition_id {
        Some(partition) => value matches Value::MapValue(fields) && partition.is_map_value(
            fields@,
        ),
        None => value is NullValue,
    }
}

impl PathElement {
    /// The text of the path element, field by field.
    pub open spec fn text(self) -> Seq<char> {
        "PathElement { kind: "@ + str_debug(self.kind@) + ", id_type: "@ + match self.id_type {
            Some(id) => "Some("@ + id.text() + ")"@,
            None => "None"@,
        } + " }"@
    }

    /// Writes the path element.
    pub fn to_string(&self) -> (s: String)
        ensures
            s@ == self.text(),
    {
        let mut s = String::from_str("PathElement { kind: ");
        s.append(format_str_debug(self.kind.as_str()).as_str());
        s.append(", id_type: ");
        match &self.id_type {
            Some(id) => {
                let mut inner = String::from_str("Some(");
                inner.append(id.to_string().as_str());
                inner.append(")");
                s.append(inner.as_str());
            },
            None => {
                s.append("None");
            },
        }
        s.append(" }");
        s
    }

    /// Whether `fields` holds the kind and what stands for the id or name.
    pub open spec fn is_map_value(self, fields: Seq<(Seq<char>, Value)>) -> bool {
        &&& fields.len() == 2
        &&& fields[0] == ("kind"@, Value::StringValue(self.kind))
        &&& fields[1].0 == "id_type"@
        &&& is_id_value(self.id_type, fields[1].1)
    }

    /// The path element as a mapping of its kind and its id or name.
    pub fn map_value(&self) -> (fields: Fields)
        ensures
            self.is_map_value(fields@),
    {
        let id_type = match &self.id_type {
            Some(id_type) => Value::MapValue(id_type.map_value()),
            None => Value::NullValue,
        };
        let mut fields = Fields::new();
        fields.insert(String::from_str("kind"), Value::StringValue(self.kind.clone()));
        fields.insert(String::from_str("id_type"), id_type);
        proof {
            reveal_strlit("kind");
            reveal_strlit("id_type");
            assert("kind"@.len() != "id_type"@.len());
        }
        fields
    }
}

/// The texts of the first `n` path elements, separated by `", "`.
pub open spec fn path_text(path: Seq<PathElement>, n: nat) -> Seq<char>
    decreases n,
{
    if n == 0 || n > path.len() {
        Seq::empty()
    } else if n == 1 {
        path[0].text()
    } else {
        path_text(path, (n - 1) as nat) + ", "@ + path[n - 1].text()
    }
}

impl Key {
    /// The text of the key: its partition, then its path elements between
    /// square brackets.
    pub open spec fn text(self) -> Seq<char> {
        "Key { partition_id: "@ + match self.partition_id {
            Some(partition) => "Some("@ + partition.text() + ")"@,
            None => "None"@,
        } + ", path: ["@ + path_text(self.path@, self.path@.len()) + "] }"@
    }

    /// Writes the key.
    pub fn to_string(&self) -> (s: String)
        ensures
            s@ == self.text(),
    {
        let mut s = String::from_str("Key { partition_id: ");
        match &self.partition_id {
            Some(partition) => {
                let mut inner = String::from_str("Some(");
                inner.append(partition.to_string().as_str());
                inner.append(")");
                s.append(inner.as_str());
            },
            None => {
                s.append("None");
            },
        }
        s.append(", path: [");
        let mut items = String::new();
        let mut i: usize = 0;
        assert(items@ =~= path_text(self.path@, 0));
        while i < self.path.len()
            invariant
                i <= self.path.len(),
                items@ == path_text(self.path@, i as nat),
            decreases self.path.len() - i,
        {
            if i > 0 {
                items.append(", ");
            }
            let text = self.path[i].to_string();
            items.append(text.as_str());
            i = i + 1;
            proof {
                if i == 1 {
                    assert(Seq::<char>::empty() + self.path@[0].text() =~= self.path@[0].text());
                }
            }
        }
        s.append(items.as_str());
        s.append("] }");
        s
    }

    /// Whether `fields` is the key taken apart: the partition under
    /// `partition_id`, then under `path` an array with one mapping for each
    /// path element, in order.
    pub open spec fn is_map_value(self, fields: Seq<(Seq<char>, Value)>) -> bool {
        &&& fields.len() == 2
        &&& fields[0].0 == "partition_id"@
        &&& is_partition_value(self.partition_id, fields[0].1)
        &&& fields[1].0 == "path"@
        &&& fields[1].1 matches Value::ArrayValue(elements)
        &&& elements@.len() == self.path@.len()
        &&& forall|i: int|
            0 <= i < elements@.len() ==> (#[trigger] elements@[i] matches Value::MapValue(element)
                && self.path@[i].is_map_value(element@))
    }

    /// The key as a mapping of its partition and its path.
    pub fn map_value(&self) -> (fields: Fields)
        ensures
            self.is_map_value(fields@),
    {
        let partition_id = match &self.partition_id {
            Some(partition_id) => Value::MapValue(partition_id.map_value()),
            None => Value::NullValue,
        };
        let mut path: Vec<Value> = Vec::new();
        let mut i: usize = 0;
        while i < self.path.len()
            invariant
                i <= self.path.len(),
                path@.len() == i,
                forall|k: int|
                    0 <= k < i ==> (#[trigger] path@[k] matches Value::MapValue(element)
                        && self.path@[k].is_map_value(element@)),
            decreases self.path.len() - i,
        {
            path.push(Value::MapValue(self.path[i].map_value()));
            i = i + 1;
        }
        let mut fields = Fields::new();
        fields.insert(String::from_str("partition_id"), partition_id);
        fields.insert(String::from_str("path"), Value::ArrayValue(path));
        proof {
            reveal_strlit("partition_id");
            reveal_strlit("path");
            assert("partition_id"@.len() != "path"@.len());
        }
        fields
    }
}

} // verus!
