//! The dynamically typed values that a decode produces.
use vstd::prelude::*;

verus! {

/// What happened when a file was handed to the persistence capability.
#[derive(Debug, Clone, PartialEq)]
pub enum Persisted {
    /// No persistence capability was invoked for this file.
    NotAttempted,
    /// The capability was invoked and produced no locator.
    NoLocator,
    /// The capability stored the bytes and returned where they now live.
    At(String),
}

/// Mathematical counterpart of [`Persisted`].
pub enum PersistedModel {
    NotAttempted,
    NoLocator,
    At(Seq<char>),
}

impl View for Persisted {
    type V = PersistedModel;

    open spec fn view(&self) -> PersistedModel {
        match self {
            Persisted::NotAttempted => PersistedModel::NotAttempted,
            Persisted::NoLocator => PersistedModel::NoLocator,
            Persisted::At(l) => PersistedModel::At(l@),
        }
    }
}

/// An uploaded file, as it stands in a document.
#[derive(Debug)]
pub struct File {
    pub file_type: String,
    pub name: String,
    pub data: Vec<u8>,
    pub persisted: Persisted,
}

/// Mathematical counterpart of [`File`]; its size is the length of `data`.
pub struct FileModel {
    pub file_type: Seq<char>,
    pub name: Seq<char>,
    pub data: Seq<u8>,
    pub persisted: PersistedModel,
}

impl View for File {
    type V = FileModel;

    open spec fn view(&self) -> FileModel {
        FileModel {
            file_type: self.file_type@,
            name: self.name@,
            data: self.data@,
            persisted: self.persisted@,
        }
    }
}

/// A value of a document entry.
#[derive(Debug)]
pub enum Value {
    Null,
    Bool(bool),
    Number(isize),
    Text(String),
    File(File),
    Sequence(Vec<Value>),
}

/// Mathematical counterpart of [`Value`].
pub enum Datum {
    Null,
    Bool(bool),
    Number(int),
    Text(Seq<char>),
    File(FileModel),
    Sequence(Seq<Datum>),
}

impl View for Value {
    type V = Datum;

    open spec fn view(&self) -> Datum
        decreases self,
    {
        match self {
            Value::Null => Datum::Null,
            Value::Bool(b) => Datum::Bool(*b),
            Value::Number(n) => Datum::Number(*n as int),
            Value::Text(s) => Datum::Text(s@),
            Value::File(f) => Datum::File(f@),
            Value::Sequence(items) => Datum::Sequence(
                Seq::new(items@.len(), |i: int| if 0 <= i < items@.len() { items@[i]@ } else { Datum::Null }),
            ),
        }
    }
}

} // verus!
