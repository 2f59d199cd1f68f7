//! The document builder: a state machine that consumes the parts of a
//! request one event at a time, and the final binding step with its
//! compensation worklist.
//!
//! The caller drives it: it announces each part, hands over its chunks,
//! reports a chunk that could not be read, and closes the part. For a
//! non-empty file part, [`Decoder::pending_file`] gives what to hand to the
//! persistence capability, whose outcome comes back with [`Decoder::end_part`].
use vstd::prelude::*;
use crate::coerce::{coerce_decoded_spec, coerce_scalar, utf8_text};
use crate::document::{assign, key_of, merge, split_field_name, DocModel, Document};
use crate::file::{file_type_of, media_token, FileInfos, FileType, MediaType};
use crate::schema::{bind, binds, first_bind_error, BindError, BindErrorModel, Record, Shape};
use crate::value::{Datum, File, FileModel, Persisted, PersistedModel, Value};

verus! {

/// A part being received: its field name, its client-side file name when it
/// is a file, its declared media type, and the bytes received so far.
#[derive(Debug)]
pub struct Part {
    pub name: String,
    pub file_name: Option<String>,
    pub media: Option<MediaType>,
    pub bytes: Vec<u8>,
}

pub struct PartModel {
    pub name: Seq<char>,
    pub file_name: Option<Seq<char>>,
    pub media: Option<(Seq<char>, Seq<char>)>,
    pub bytes: Seq<u8>,
}

pub open spec fn media_view(m: Option<MediaType>) -> Option<(Seq<char>, Seq<char>)> {
    match m {
        Some(t) => Some((t.primary@, t.secondary@)),
        None => None,
    }
}

pub open spec fn name_view(n: Option<String>) -> Option<Seq<char>> {
    match n {
        Some(s) => Some(s@),
        None => None,
    }
}

impl View for Part {
    type V = PartModel;

    open spec fn view(&self) -> PartModel {
        PartModel {
            name: self.name@,
            file_name: name_view(self.file_name),
            media: media_view(self.media),
            bytes: self.bytes@,
        }
    }
}

/// One thing that happens on the part stream.
#[derive(Debug, Clone, PartialEq)]
pub enum Event {
    /// A new part starts.
    Begin { name: String, file_name: Option<String>, media: Option<MediaType> },
    /// A chunk of the current part's payload.
    Chunk(Vec<u8>),
    /// A chunk of the current part could not be read.
    ChunkFailed,
    /// The current part is complete; for a non-empty file, with the outcome
    /// of persisting it.
    End(Persisted),
}

pub enum EventModel {
    Begin { name: Seq<char>, file_name: Option<Seq<char>>, media: Option<(Seq<char>, Seq<char>)> },
    Chunk(Seq<u8>),
    ChunkFailed,
    End(PersistedModel),
}

impl View for Event {
    type V = EventModel;

    open spec fn view(&self) -> EventModel {
        match self {
            Event::Begin { name, file_name, media } => EventModel::Begin {
                name: name@,
                file_name: name_view(*file_name),
                media: media_view(*media),
            },
            Event::Chunk(b) => EventModel::Chunk(b@),
            Event::ChunkFailed => EventModel::ChunkFailed,
            Event::End(o) => EventModel::End(o@),
        }
    }
}

pub struct DecoderModel {
    pub document: DocModel,
    pub worklist: Seq<Seq<char>>,
    pub part: Option<PartModel>,
    pub violation: Option<Seq<char>>,
}

pub open spec fn initial_model() -> DecoderModel {
    DecoderModel { document: Seq::empty(), worklist: Seq::empty(), part: None, violation: None }
}

pub open spec fn is_file(p: PartModel) -> bool {
    p.file_name is Some
}

/// A file part with no bytes leaves no trace.
pub open spec fn is_empty_file(p: PartModel) -> bool {
    is_file(p) && p.bytes.len() == 0
}

pub open spec fn file_token(p: PartModel) -> Seq<char> {
    match p.media {
        Some((a, b)) => media_token(a, b),
        None => Seq::empty(),
    }
}

/// The value that a completed part contributes.
pub open spec fn part_datum(p: PartModel, outcome: PersistedModel) -> Datum {
    if is_file(p) {
        Datum::File(
            FileModel { file_type: file_token(p), name: p.file_name.unwrap(), data: p.bytes, persisted: outcome },
        )
    } else {
        coerce_decoded_spec(utf8_text(p.bytes))
    }
}

/// The locators that completing part `p` with `outcome` adds to the worklist.
pub open spec fn locators_added(p: PartModel, outcome: PersistedModel) -> Seq<Seq<char>> {
    if is_file(p) && p.bytes.len() > 0 {
        match outcome {
            PersistedModel::At(l) => seq![l],
            _ => Seq::empty(),
        }
    } else {
        Seq::empty()
    }
}

/// What the persistence capability is to receive for the current part.
pub open spec fn pending_spec(m: DecoderModel) -> Option<(Option<FileType>, Seq<char>, Seq<u8>)> {
    match m.part {
        Some(p) => if is_file(p) && p.bytes.len() > 0 {
            Some((file_type_of(file_token(p)), p.file_name.unwrap(), p.bytes))
        } else {
            None
        },
        None => None,
    }
}

/// Completing part `p` with the outcome of persisting it.
pub open spec fn complete(m: DecoderModel, p: PartModel, outcome: PersistedModel) -> DecoderModel {
    let base = DecoderModel { worklist: m.worklist + locators_added(p, outcome), part: None, ..m };
    if is_empty_file(p) {
        base
    } else {
        match merge(m.document, p.name, part_datum(p, outcome)) {
            Some(d) => DecoderModel { document: d, ..base },
            None => DecoderModel {
                violation: if m.violation is Some {
                    m.violation
                } else {
                    Some(key_of(p.name))
                },
                ..base
            },
        }
    }
}

/// One transition of the document builder.
pub open spec fn step(m: DecoderModel, e: EventModel) -> DecoderModel {
    match e {
        EventModel::Begin { name, file_name, media } => DecoderModel {
            part: Some(PartModel { name, file_name, media, bytes: Seq::empty() }),
            ..m
        },
        EventModel::Chunk(b) => match m.part {
            Some(p) => DecoderModel { part: Some(PartModel { bytes: p.bytes + b, ..p }), ..m },
            None => m,
        },
        EventModel::ChunkFailed => match m.part {
            Some(p) => DecoderModel { document: assign(m.document, key_of(p.name), Datum::Null), part: None, ..m },
            None => m,
        },
        EventModel::End(o) => match m.part {
            Some(p) => complete(m, p, o),
            None => m,
        },
    }
}

/// The state after a sequence of events.
pub open spec fn run(m: DecoderModel, es: Seq<EventModel>) -> DecoderModel
    decreases es.len(),
{
    if es.len() == 0 {
        m
    } else {
        step(run(m, es.drop_last()), es.last())
    }
}

/// Why a decode failed.
#[derive(Debug, Clone, PartialEq)]
pub enum DecodeError {
    /// A field name without `[]` was sent more than once; names its key.
    NamingConventionViolation(String),
    /// The document does not fit the declared shape.
    SchemaMismatch(BindError),
}

pub enum DecodeErrorModel {
    NamingConventionViolation(Seq<char>),
    SchemaMismatch(BindErrorModel),
}

impl View for DecodeError {
    type V = DecodeErrorModel;

    open spec fn view(&self) -> DecodeErrorModel {
        match self {
            DecodeError::NamingConventionViolation(n) => DecodeErrorModel::NamingConventionViolation(n@),
            DecodeError::SchemaMismatch(e) => DecodeErrorModel::SchemaMismatch(e@),
        }
    }
}

/// Appends the bytes of `src` to `dst`.
fn append_bytes(dst: &mut Vec<u8>, src: &[u8])
    ensures
        final(dst)@ == old(dst)@ + src@,
{
    let mut i: usize = 0;
    while i < src.len()
        invariant
            0 <= i <= src@.len(),
            dst@ == old(dst)@ + src@.subrange(0, i as int),
        decreases src@.len() - i,
    {
        dst.push(src[i]);
        assert(src@.subrange(0, i + 1) == src@.subrange(0, i as int).push(src@[i as int]));
        i = i + 1;
    }
    assert(src@.subrange(0, src@.len() as int) == src@);
}

fn copy_text(s: &String) -> (r: String)
    ensures
        r@ == s@,
{
    s.clone()
}

/// The document builder of one request.
#[derive(Debug)]
pub struct Decoder {
    document: Document,
    worklist: Vec<String>,
    part: Option<Part>,
    violation: Option<String>,
}

impl View for Decoder {
    type V = DecoderModel;

    closed spec fn view(&self) -> DecoderModel {
        DecoderModel {
            document: self.document@,
            worklist: self.worklist@.map_values(|l: String| l@),
            part: match self.part {
                Some(p) => Some(p@),
                None => None,
            },
            violation: name_view(self.violation),
        }
    }
}

impl Decoder {
    pub closed spec fn wf(&self) -> bool {
        self.document.wf()
    }

    /// A decoder that has seen nothing.
    pub fn new() -> (r: Decoder)
        ensures
            r.wf(),
            r@ == initial_model(),
    {
        let r = Decoder { document: Document::new(), worklist: Vec::new(), part: None, violation: None };
        assert(r@.worklist =~= Seq::<Seq<char>>::empty());
        r
    }

    /// Starts a new part; a part that was still open is dropped.
    pub fn begin_part(&mut self, name: String, file_name: Option<String>, media: Option<MediaType>)
        requires
            old(self).wf(),
        ensures
            final(self).wf(),
            final(self)@ == step(
                old(self)@,
                EventModel::Begin { name: name@, file_name: name_view(file_name), media: media_view(media) },
            ),
    {
        self.part = Some(Part { name, file_name, media, bytes: Vec::new() });
        assert(self@ =~= step(
            old(self)@,
            EventModel::Begin { name: name@, file_name: name_view(file_name), media: media_view(media) },
        ));
    }

    /// Adds a chunk to the payload of the current part.
    pub fn push_chunk(&mut self, chunk: &[u8])
        requires
            old(self).wf(),
        ensures
            final(self).wf(),
            final(self)@ == step(old(self)@, EventModel::Chunk(chunk@)),
    {
        match &mut self.part {
            Some(p) => {
                append_bytes(&mut p.bytes, chunk);
            },
            None => {},
        }
        assert(self@ =~= step(old(self)@, EventModel::Chunk(chunk@)));
    }

    /// A chunk of the current part could not be read: the part is abandoned
    /// and its key is bound to `Null`.
    pub fn abandon_part(&mut self)
        requires
            old(self).wf(),
        ensures
            final(self).wf(),
            final(self)@ == step(old(self)@, EventModel::ChunkFailed),
    {
        let part = self.part.take();
        match part {
            Some(p) => {
                let (key, _) = split_field_name(p.name.as_str());
                self.document.assign(key, Value::Null);
            },
            None => {},
        }
        assert(self@ =~= step(old(self)@, EventModel::ChunkFailed));
    }

    /// What to hand to the persistence capability for the current part:
    /// something only for a file part with at least one byte.
    pub fn pending_file(&self) -> (r: Option<FileInfos>)
        ensures
            r is Some <==> pending_spec(self@) is Some,
            r is Some ==> ({
                let (t, n, b) = pending_spec(self@).unwrap();
                &&& r->Some_0.file_type == t
                &&& r->Some_0.filename@ == n
                &&& r->Some_0.data@ == b
                &&& r->Some_0.weight == b.len()
            }),
    {
        match &self.part {
            Some(p) => match &p.file_name {
                Some(file_name) => {
                    if p.bytes.len() == 0 {
                        return None;
                    }
                    let token = match &p.media {
                        Some(m) => m.token(),
                        None => String::new(),
                    };
                    let mut data: Vec<u8> = Vec::new();
                    append_bytes(&mut data, p.bytes.as_slice());
                    assert(data@ =~= p.bytes@);
                    Some(
                        FileInfos {
                            file_type: FileType::from_token(token.as_str()),
                            filename: copy_text(file_name),
                            weight: p.bytes.len(),
                            data,
                        },
                    )
                },
                None => None,
            },
            None => None,
        }
    }

    /// Completes the current part. A file part with no bytes is dropped; any
    /// other part's value is merged by the grouping rule. For a non-empty
    /// file, `outcome` says what persisting it gave, and a returned locator
    /// joins the worklist. A naming-convention violation is recorded and the
    /// value is not merged.
    pub fn end_part(&mut self, outcome: Persisted)
        requires
            old(self).wf(),
        ensures
            final(self).wf(),
            final(self)@ == step(old(self)@, EventModel::End(outcome@)),
    {
        let ghost o = outcome@;
        let part = self.part.take();
        let p = match part {
            Some(p) => p,
            None => {
                assert(self@ =~= step(old(self)@, EventModel::End(o)));
                return;
            },
        };
        let ghost pm = p@;
        let ghost base = DecoderModel { worklist: old(self)@.worklist + locators_added(pm, o), part: None, ..old(self)@ };
        let value = match p.file_name {
            Some(file_name) => {
                if p.bytes.len() == 0 {
                    assert(self@ =~= step(old(self)@, EventModel::End(o)));
                    return;
                }
                match &outcome {
                    Persisted::At(l) => {
                        self.worklist.push(copy_text(l));
                    },
                    _ => {},
                }
                let file_type = match &p.media {
                    Some(m) => m.token(),
                    None => String::new(),
                };
                Value::File(File { file_type, name: file_name, data: p.bytes, persisted: outcome })
            },
            None => coerce_scalar(p.bytes.as_slice()),
        };
        assert(self@.worklist =~= base.worklist);
        assert(value@ == part_datum(pm, o));
        if !self.document.merge(p.name.as_str(), value) {
            if self.violation.is_none() {
                let (key, _) = split_field_name(p.name.as_str());
                self.violation = Some(key);
            }
        }
        assert(self@ =~= step(old(self)@, EventModel::End(o)));
    }

    /// Applies one event.
    pub fn apply(&mut self, event: Event)
        requires
            old(self).wf(),
        ensures
            final(self).wf(),
            final(self)@ == step(old(self)@, event@),
    {
        match event {
            Event::Begin { name, file_name, media } => self.begin_part(name, file_name, media),
            Event::Chunk(b) => self.push_chunk(b.as_slice()),
            Event::ChunkFailed => self.abandon_part(),
            Event::End(o) => self.end_part(o),
        }
    }

    /// The document built so far.
    pub fn document(&self) -> (r: &Document)
        requires
            self.wf(),
        ensures
            r.wf(),
            r@ == self@.document,
    {
        &self.document
    }

    /// The locators of the files persisted so far, in arrival order.
    pub fn worklist(&self) -> (r: &Vec<String>)
        ensures
            r@.map_values(|l: String| l@) == self@.worklist,
    {
        &self.worklist
    }

    /// Ends the decode and takes its pieces: the document, the worklist and
    /// the key of the first naming-convention violation, if there was one.
    pub fn into_parts(self) -> (r: (Document, Vec<String>, Option<String>))
        requires
            self.wf(),
        ensures
            r.0.wf(),
            r.0@ == self@.document,
            r.1@.map_values(|l: String| l@) == self@.worklist,
            name_view(r.2) == self@.violation,
    {
        (self.document, self.worklist, self.violation)
    }

    /// Ends the decode and binds the document against `shape`. A part that
    /// is still open is dropped. On failure the worklist of persisted files
    /// comes back with the error, for the caller to compensate.
    pub fn finish(self, shape: Shape) -> (r: Result<Record, (DecodeError, Vec<String>)>)
        requires
            self.wf(),
        ensures
            r is Ok <==> self@.violation is None && binds(self@.document, shape@),
            r is Ok ==> r->Ok_0.wf() && r->Ok_0.document_model() == self@.document
                && r->Ok_0.shape_model() == shape@,
            r is Err ==> r->Err_0.1@.map_values(|l: String| l@) == self@.worklist,
            r is Err && self@.violation is Some ==> r->Err_0.0@ == DecodeErrorModel::NamingConventionViolation(
                self@.violation.unwrap(),
            ),
            r is Err && self@.violation is None ==> r->Err_0.0 is SchemaMismatch && first_bind_error(
                self@.document,
                shape@,
                r->Err_0.0->SchemaMismatch_0@,
            ),
    {
        let Decoder { document, worklist, part: _, violation } = self;
        match violation {
            Some(key) => Err((DecodeError::NamingConventionViolation(key), worklist)),
            None => match bind(document, shape) {
                Ok(record) => Ok(record),
                Err(e) => Err((DecodeError::SchemaMismatch(e), worklist)),
            },
        }
    }
}

/// Decodes a recorded stream of events from the start.
pub fn replay(events: Vec<Event>) -> (r: Decoder)
    ensures
        r.wf(),
        r@ == run(initial_model(), events@.map_values(|e: Event| e@)),
{
    let ghost all = events@.map_values(|e: Event| e@);
    let mut rest = events;
    let mut decoder = Decoder::new();
    let ghost n = all.len();
    while rest.len() > 0
        invariant
            decoder.wf(),
            n == all.len(),
            rest@.len() <= n,
            rest@.map_values(|e: Event| e@) == all.subrange(n - rest@.len(), n as int),
            decoder@ == run(initial_model(), all.subrange(0, n - rest@.len())),
        decreases rest@.len(),
    {
        let ghost k = n - rest@.len();
        let ghost before = rest@;
        let e = rest.remove(0);
        assert(before.map_values(|e: Event| e@)[0] == all.subrange(k, n as int)[0]);
        assert(e@ == all[k]);
        assert(all.subrange(0, k + 1).drop_last() == all.subrange(0, k));
        decoder.apply(e);
        assert forall|j: int| 0 <= j < rest@.len() implies #[trigger] rest@[j]@ == all[k + 1 + j] by {
            assert(rest@[j] == before[j + 1]);
            assert(before.map_values(|e: Event| e@)[j + 1] == all.subrange(k, n as int)[j + 1]);
        }
        assert(rest@.map_values(|e: Event| e@) =~= all.subrange(n - rest@.len(), n as int));
    }
    assert(all.subrange(0, n as int) == all);
    decoder
}

/// Decodes a recorded stream of events and binds the result against
/// `shape`. On failure the locators of the files persisted during the
/// decode come back with the error.
pub fn decode(events: Vec<Event>, shape: Shape) -> (r: Result<Record, (DecodeError, Vec<String>)>)
    ensures
        ({
            let m = run(initial_model(), events@.map_values(|e: Event| e@));
            &&& r is Ok <==> m.violation is None && binds(m.document, shape@)
            &&& r is Ok ==> r->Ok_0.wf() && r->Ok_0.document_model() == m.document && r->Ok_0.shape_model()
                == shape@
            &&& r is Err ==> r->Err_0.1@.map_values(|l: String| l@) == m.worklist
            &&& r is Err && m.violation is Some ==> r->Err_0.0@
                == DecodeErrorModel::NamingConventionViolation(m.violation.unwrap())
            &&& r is Err && m.violation is None ==> r->Err_0.0 is SchemaMismatch && first_bind_error(
                m.document,
                shape@,
                r->Err_0.0->SchemaMismatch_0@,
            )
        }),
{
    replay(events).finish(shape)
}

/// The locators that persisted files add to the worklist over a run of
/// events, in arrival order.
pub open spec fn persisted_locators(m: DecoderModel, es: Seq<EventModel>) -> Seq<Seq<char>>
    decreases es.len(),
{
    if es.len() == 0 {
        Seq::empty()
    } else {
        let before = run(m, es.drop_last());
        let added = match (es.last(), before.part) {
            (EventModel::End(o), Some(p)) => locators_added(p, o),
            _ => Seq::empty(),
        };
        persisted_locators(m, es.drop_last()) + added
    }
}

/// Decoding is a function of the event stream: replaying the same recorded
/// stream gives the same document, the same worklist and the same verdict.
pub proof fn lemma_replay_is_deterministic(a: Seq<EventModel>, b: Seq<EventModel>)
    requires
        a == b,
    ensures
        run(initial_model(), a).document == run(initial_model(), b).document,
        run(initial_model(), a).worklist == run(initial_model(), b).worklist,
        run(initial_model(), a).violation == run(initial_model(), b).violation,
{
}

/// A file part with no bytes is never handed to the persistence capability,
/// and completing it leaves the document, the worklist and the verdict as
/// they were, whatever outcome is reported for it.
pub proof fn lemma_empty_file_leaves_no_trace(m: DecoderModel, o: PersistedModel)
    requires
        m.part is Some,
        is_empty_file(m.part.unwrap()),
    ensures
        pending_spec(m) is None,
        step(m, EventModel::End(o)).document == m.document,
        step(m, EventModel::End(o)).worklist == m.worklist,
        step(m, EventModel::End(o)).violation == m.violation,
{
    assert(m.worklist + Seq::<Seq<char>>::empty() == m.worklist);
}

/// The worklist holds exactly the locators returned for the non-empty
/// files completed so far, in arrival order: nothing is lost and nothing is
/// added.
pub proof fn lemma_worklist_is_persisted_locators(m: DecoderModel, es: Seq<EventModel>)
    ensures
        run(m, es).worklist == m.worklist + persisted_locators(m, es),
    decreases es.len(),
{
    if es.len() == 0 {
        assert(m.worklist + Seq::<Seq<char>>::empty() == m.worklist);
    } else {
        lemma_worklist_is_persisted_locators(m, es.drop_last());
        let before = run(m, es.drop_last());
        let added = match (es.last(), before.part) {
            (EventModel::End(o), Some(p)) => locators_added(p, o),
            _ => Seq::empty(),
        };
        assert(step(before, es.last()).worklist == before.worklist + added);
        assert(m.worklist + persisted_locators(m, es.drop_last()) + added
            == m.worklist + (persisted_locators(m, es.drop_last()) + added));
    }
}

/// The number of non-empty file parts completed over a run of events.
pub open spec fn files_completed(m: DecoderModel, es: Seq<EventModel>) -> nat
    decreases es.len(),
{
    if es.len() == 0 {
        0
    } else {
        let before = run(m, es.drop_last());
        let added: nat = match (es.last(), before.part) {
            (EventModel::End(_), Some(p)) => if is_file(p) && p.bytes.len() > 0 {
                1
            } else {
                0
            },
            _ => 0,
        };
        files_completed(m, es.drop_last()) + added
    }
}

/// A run never records more locators than it completed non-empty files.
pub proof fn lemma_worklist_bounded_by_files(m: DecoderModel, es: Seq<EventModel>)
    ensures
        persisted_locators(m, es).len() <= files_completed(m, es),
    decreases es.len(),
{
    if es.len() > 0 {
        lemma_worklist_bounded_by_files(m, es.drop_last());
    }
}

} // verus!
