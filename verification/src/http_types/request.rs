//! The parts of a request body: uploaded files and plain values.
use vstd::prelude::*;
use crate::json::{JsonValue, JsonView, JsonRef, json_view, ref_view, is_char_ref};

verus! {

/// A part of a request body.
pub enum BodyDataType {
    File(FileData),
    Value(JsonValue),
}

/// An uploaded file: its name, media type and bytes.
pub struct FileData {
    pub name: String,
    pub mimetype: String,
    pub data: Vec<u8>,
}

fn copy_bytes(data: &[u8]) -> (v: Vec<u8>)
    ensures
        v@ == data@,
{
    let mut v: Vec<u8> = Vec::new();
    let mut i: usize = 0;
    while i < data.len()
        invariant
            i <= data@.len(),
            v@ == data@.subrange(0, i as int),
        decreases data@.len() - i,
    {
        v.push(data[i]);
        i = i + 1;
        proof {
            assert(v@ =~= data@.subrange(0, i as int));
        }
    }
    proof {
        assert(data@.subrange(0, data@.len() as int) =~= data@);
    }
    v
}

impl BodyDataType {
    /// A file part with the given name, media type and bytes.
    pub fn new_file(filename: &str, mimetype: &str, data: &[u8]) -> (b: BodyDataType)
        ensures
            b matches BodyDataType::File(f) && f.name@ == filename@ && f.mimetype@ == mimetype@ && f.data@ == data@,
    {
        BodyDataType::File(FileData {
            name: String::from_str(filename),
            mimetype: String::from_str(mimetype),
            data: copy_bytes(data),
        })
    }

    /// A value part holding the string `data`.
    pub fn new(data: &str) -> (b: BodyDataType)
        ensures
            b matches BodyDataType::Value(v) && json_view(v) == JsonView::String(data@),
    {
        BodyDataType::Value(JsonValue::String(String::from_str(data)))
    }

    /// A reference to the value of a value part.
    pub fn value(&self) -> (r: Option<JsonRef<'_>>)
        ensures
            match *self {
                BodyDataType::Value(v) => r matches Some(x) && ref_view(x) == json_view(v) && !is_char_ref(x),
                BodyDataType::File(_) => r is None,
            },
    {
        match self {
            BodyDataType::Value(data) => Some(data.to_ref()),
            BodyDataType::File(_) => None,
        }
    }

    /// The file of a file part.
    pub fn file(&self) -> (r: Option<&FileData>)
        ensures
            match *self {
                BodyDataType::File(f) => r == Some(&f),
                BodyDataType::Value(_) => r is None,
            },
    {
        match self {
            BodyDataType::File(data) => Some(data),
            BodyDataType::Value(_) => None,
        }
    }
}

} // verus!
