//! The schema binder: checks a finished document against a declared shape.
use vstd::prelude::*;
use crate::document::{lookup, DocModel, Document};
use crate::text::same_text;
use crate::value::{Datum, Value};

verus! {

/// The kind of value that a declared field accepts.
#[derive(Debug)]
pub enum Kind {
    Text,
    /// A number within `min..=max` (both included).
    Integer { min: i128, max: i128 },
    Boolean,
    File,
    /// A sequence whose every element is of the inner kind.
    List(Box<Kind>),
}

/// One declared field of a shape.
#[derive(Debug)]
pub struct Field {
    pub name: String,
    pub kind: Kind,
    /// A missing or null entry binds to an absent value.
    pub optional: bool,
}

pub struct FieldModel {
    pub name: Seq<char>,
    pub kind: Kind,
    pub optional: bool,
}

impl View for Field {
    type V = FieldModel;

    open spec fn view(&self) -> FieldModel {
        FieldModel { name: self.name@, kind: self.kind, optional: self.optional }
    }
}

/// The declared shape of a result: its fields in order.
#[derive(Debug)]
pub struct Shape {
    pub fields: Vec<Field>,
}

impl View for Shape {
    type V = Seq<FieldModel>;

    open spec fn view(&self) -> Seq<FieldModel> {
        self.fields@.map_values(|f: Field| f@)
    }
}

/// Why binding failed, naming the field.
#[derive(Debug, Clone, PartialEq)]
pub enum BindError {
    MissingField(String),
    TypeMismatch(String),
}

pub enum BindErrorModel {
    MissingField(Seq<char>),
    TypeMismatch(Seq<char>),
}

impl View for BindError {
    type V = BindErrorModel;

    open spec fn view(&self) -> BindErrorModel {
        match self {
            BindError::MissingField(n) => BindErrorModel::MissingField(n@),
            BindError::TypeMismatch(n) => BindErrorModel::TypeMismatch(n@),
        }
    }
}

/// Whether a value is of a kind.
pub open spec fn conforms(v: Datum, k: Kind) -> bool
    decreases k,
{
    match k {
        Kind::Text => v is Text,
        Kind::Integer { min, max } => match v {
            Datum::Number(n) => min as int <= n <= max as int,
            _ => false,
        },
        Kind::Boolean => v is Bool,
        Kind::File => v is File,
        Kind::List(e) => match v {
            Datum::Sequence(items) => forall|i: int| 0 <= i < items.len() ==> conforms(#[trigger] items[i], *e),
            _ => false,
        },
    }
}

/// How one declared field binds in a document: to a value, to an absent
/// value (`None`), or to an error.
pub open spec fn bind_field(d: DocModel, f: FieldModel) -> Result<Option<Datum>, BindErrorModel> {
    match lookup(d, f.name) {
        None => if f.optional {
            Ok(None)
        } else {
            Err(BindErrorModel::MissingField(f.name))
        },
        Some(v) => if f.optional && v == Datum::Null {
            Ok(None)
        } else if conforms(v, f.kind) {
            Ok(Some(v))
        } else {
            Err(BindErrorModel::TypeMismatch(f.name))
        },
    }
}

/// Every declared field binds.
pub open spec fn binds(d: DocModel, fs: Seq<FieldModel>) -> bool {
    forall|i: int| 0 <= i < fs.len() ==> (#[trigger] bind_field(d, fs[i])) is Ok
}

/// `e` is the error of the first declared field that does not bind.
pub open spec fn first_bind_error(d: DocModel, fs: Seq<FieldModel>, e: BindErrorModel) -> bool {
    exists|i: int|
        0 <= i < fs.len() && #[trigger] bind_field(d, fs[i]) == Err::<Option<Datum>, BindErrorModel>(e)
            && forall|j: int| 0 <= j < i ==> (#[trigger] bind_field(d, fs[j])) is Ok
}

pub open spec fn declares(fs: Seq<FieldModel>, name: Seq<char>) -> bool {
    exists|i: int| 0 <= i < fs.len() && #[trigger] fs[i].name == name
}

/// Whether `v` is of kind `k`.
pub fn conforms_to(v: &Value, k: &Kind) -> (r: bool)
    ensures
        r == conforms(v@, *k),
    decreases k,
{
    match k {
        Kind::Text => matches!(v, Value::Text(_)),
        Kind::Integer { min, max } => match v {
            Value::Number(n) => *min <= *n as i128 && *n as i128 <= *max,
            _ => false,
        },
        Kind::Boolean => matches!(v, Value::Bool(_)),
        Kind::File => matches!(v, Value::File(_)),
        Kind::List(e) => match v {
            Value::Sequence(items) => {
                let ghost dv = v@;
                assert(decreases_to!(*k => **e));
                let mut i: usize = 0;
                while i < items.len()
                    invariant
                        0 <= i <= items@.len(),
                        dv == v@,
                        *v == Value::Sequence(*items),
                        *k == Kind::List(*e),
                        decreases_to!(*k => **e),
                        forall|j: int| 0 <= j < i ==> conforms(#[trigger] items@[j]@, **e),
                    decreases items@.len() - i,
                {
                    if !conforms_to(&items[i], e) {
                        proof {
                            if let Datum::Sequence(s) = dv {
                                assert(s[i as int] == items@[i as int]@);
                            }
                        }
                        return false;
                    }
                    i = i + 1;
                }
                proof {
                    if let Datum::Sequence(s) = dv {
                        assert forall|j: int| 0 <= j < s.len() implies conforms(#[trigger] s[j], **e) by {
                            assert(s[j] == items@[j]@);
                        }
                    }
                }
                true
            },
            _ => false,
        },
    }
}

/// A document that has been bound against a shape.
#[derive(Debug)]
pub struct Record {
    document: Document,
    shape: Shape,
}

impl Record {
    pub closed spec fn document_model(&self) -> DocModel {
        self.document@
    }

    pub closed spec fn shape_model(&self) -> Seq<FieldModel> {
        self.shape@
    }

    pub closed spec fn wf(&self) -> bool {
        &&& self.document.wf()
        &&& binds(self.document@, self.shape@)
    }

    /// The value bound to the declared field `name`; `None` for an absent
    /// optional field and for a name that the shape does not declare.
    pub fn get(&self, name: &str) -> (r: Option<&Value>)
        requires
            self.wf(),
        ensures
            r is Some <==> declares(self.shape_model(), name@) && lookup(self.document_model(), name@) is Some
                && lookup(self.document_model(), name@) != Some(Datum::Null),
            r is Some ==> r.unwrap()@ == lookup(self.document_model(), name@).unwrap(),
    {
        let mut i: usize = 0;
        while i < self.shape.fields.len()
            invariant
                0 <= i <= self.shape.fields@.len(),
                self.wf(),
                forall|j: int| 0 <= j < i ==> self.shape@[j].name != name@,
            decreases self.shape.fields@.len() - i,
        {
            if same_text(self.shape.fields[i].name.as_str(), name) {
                assert(self.shape@[i as int].name == name@);
                return match self.document.get(name) {
                    Some(Value::Null) => None,
                    other => other,
                };
            }
            i = i + 1;
        }
        None
    }

    /// The bound document.
    pub fn into_document(self) -> (r: Document)
        ensures
            r@ == self.document_model(),
    {
        self.document
    }
}

/// Binds a document against a shape: all or nothing. On success every
/// declared field binds; on failure the error is that of the first declared
/// field that does not.
pub fn bind(document: Document, shape: Shape) -> (r: Result<Record, BindError>)
    requires
        document.wf(),
    ensures
        r is Ok <==> binds(document@, shape@),
        r is Ok ==> r->Ok_0.wf() && r->Ok_0.document_model() == document@ && r->Ok_0.shape_model() == shape@,
        r is Err ==> first_bind_error(document@, shape@, r->Err_0@),
{
    let mut i: usize = 0;
    while i < shape.fields.len()
        invariant
            0 <= i <= shape.fields@.len(),
            document.wf(),
            forall|j: int| 0 <= j < i ==> (#[trigger] bind_field(document@, shape@[j])) is Ok,
        decreases shape.fields@.len() - i,
    {
        let f = &shape.fields[i];
        assert(shape@[i as int] == f@);
        let failure = match document.get(f.name.as_str()) {
            None => if f.optional {
                None
            } else {
                Some(BindError::MissingField(f.name.clone()))
            },
            Some(v) => if f.optional && matches!(v, Value::Null) {
                None
            } else if conforms_to(v, &f.kind) {
                None
            } else {
                Some(BindError::TypeMismatch(f.name.clone()))
            },
        };
        match failure {
            Some(e) => {
                assert(bind_field(document@, shape@[i as int]) == Err::<Option<Datum>, BindErrorModel>(e@));
                return Err(e);
            },
            None => {},
        }
        i = i + 1;
    }
    Ok(Record { document, shape })
}

} // verus!
