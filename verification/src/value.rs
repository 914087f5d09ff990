//! Values and their kind tags.
use vstd::prelude::*;
use vstd::string::StringExecFns;

verus! {

/// The kind of data that a value holds. Every value carries exactly one.
#[derive(Debug, Clone, Copy, PartialEq, Eq, Structural)]
pub enum ValueKind {
    /// Used when storing simple strings
    String,
    /// Used when storing data as a map
    Mapping,
    /// Used when storing json
    Json,
    /// Used when storing lists
    List,
}

impl ValueKind {
    /// The lower-case word by which a kind is shown to clients.
    pub open spec fn label(self) -> Seq<char> {
        match self {
            ValueKind::String => "string"@,
            ValueKind::Mapping => "map"@,
            ValueKind::Json => "json"@,
            ValueKind::List => "list"@,
        }
    }

    /// Renders the kind as its label.
    pub fn to_string(&self) -> (text: String)
        ensures
            text@ == self.label(),
    {
        match self {
            ValueKind::String => String::from_str("string"),
            ValueKind::Mapping => String::from_str("map"),
            ValueKind::Json => String::from_str("json"),
            ValueKind::List => String::from_str("list"),
        }
    }
}

/// A stored unit of data: raw bytes, and the kind that says how to read them.
#[derive(Debug, PartialEq)]
pub struct Value {
    /// The kind of data stored in this value
    pub kind: ValueKind,
    /// The data as an array of bytes
    pub data: Vec<u8>,
}

impl Value {
    /// Creates a new value with the desired kind.
    pub fn new(data: Vec<u8>, kind: ValueKind) -> (value: Self)
        ensures
            value.kind == kind,
            value.data == data,
    {
        Self { kind, data }
    }

    /// Creates a new value of kind string.
    pub fn new_string(data: Vec<u8>) -> (value: Self)
        ensures
            value.kind == ValueKind::String,
            value.data == data,
    {
        Self { kind: ValueKind::String, data }
    }

    /// Creates a new value of kind map.
    pub fn new_map(data: Vec<u8>) -> (value: Self)
        ensures
            value.kind == ValueKind::Mapping,
            value.data == data,
    {
        Self { kind: ValueKind::Mapping, data }
    }
}

} // verus!
