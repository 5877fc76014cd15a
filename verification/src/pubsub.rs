//! Messages to be published.
use vstd::prelude::*;
use vstd::string::*;

verus! {

/// A message: its payload and its attributes, each a name and a value. No
/// name occurs twice.
#[derive(Debug, PartialEq)]
pub struct Message {
    data: Vec<u8>,
    attributes: Vec<(String, String)>,
}

/// Whether no name occurs twice among the attributes.
pub open spec fn distinct_attributes(attributes: Seq<(String, String)>) -> bool {
    forall|i: int, j: int| 0 <= i < j < attributes.len() ==> attributes[i].0@ != attributes[j].0@
}

impl Message {
    #[verifier::type_invariant]
    spec fn names_are_distinct(self) -> bool {
        distinct_attributes(self.attributes@)
    }

    /// The payload.
    pub closed spec fn payload(self) -> Seq<u8> {
        self.data@
    }

    /// The attributes, in the order in which they are held.
    pub closed spec fn named_values(self) -> Seq<(String, String)> {
        self.attributes@
    }

    /// Whether the payload is the bytes of `s` and there are no attributes.
    pub open spec fn is_text(self, s: &str) -> bool {
        &&& self.payload() == s.spec_bytes()
        &&& self.named_values().len() == 0
    }

    /// The payload.
    pub fn data(&self) -> (data: &Vec<u8>)
        ensures
            data@ == self.payload(),
    {
        &self.data
    }

    /// The attributes. No name occurs twice among them.
    pub fn attributes(&self) -> (attributes: &Vec<(String, String)>)
        ensures
            attributes@ == self.named_values(),
            distinct_attributes(attributes@),
    {
        proof {
            use_type_invariant(self);
        }
        &self.attributes
    }

    /// Gives up the message for its payload and its attributes.
    pub fn into_parts(self) -> (parts: (Vec<u8>, Vec<(String, String)>))
        ensures
            parts.0@ == self.payload(),
            parts.1@ == self.named_values(),
            distinct_attributes(parts.1@),
    {
        proof {
            use_type_invariant(&self);
        }
        (self.data, self.attributes)
    }
}

impl From<&str> for Message {
    /// The message whose payload is the bytes of `s`, without attributes.
    fn from(s: &str) -> (message: Message)
        ensures
            message.is_text(s),
    {
        Message { data: s.as_bytes_vec(), attributes: Vec::new() }
    }
}

impl vstd::std_specs::convert::FromSpecImpl<&str> for Message {
    open spec fn obeys_from_spec() -> bool {
        false
    }

    open spec fn from_spec(s: &str) -> Message {
        arbitrary()
    }
}

} // verus!
