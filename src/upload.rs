//! The multipart upload session: a state machine that decides, from each
//! answer of the source or of the service, which call comes next.
//!
//! Every part is read whole into memory before it is uploaded, so a part
//! must fit in memory; an object that is uploaded with a single call must
//! fit whole. Once an upload has been created, any failure to read the
//! source or to upload a part aborts it before the failure is reported. A
//! failed completion is reported as it is and leaves the upload open at the
//! service, for the caller to complete again or abort.
use vstd::prelude::*;

use crate::error::{S4Error, S4Result};
use crate::plan::{part_count, part_end, part_start};
use rusoto_core::RusotoError;
use rusoto_s3::{
    AbortMultipartUploadError, CompleteMultipartUploadError, CreateMultipartUploadError,
    PutObjectError, UploadPartError,
};

verus! {

/// Error message for a created upload that came without an ID.
pub const MISSING_UPLOAD_ID: &'static str = "response is missing upload ID";

/// Where the upload stands at the service.
#[derive(Clone, Copy, Debug, PartialEq, Eq, Structural)]
pub enum UploadState {
    /// No multipart upload exists (yet).
    NotStarted,
    /// A multipart upload is open at the service.
    Active,
    /// The object is stored.
    Completed,
    /// The multipart upload was aborted.
    Aborted,
}

/// The answer the session waits for.
#[derive(Clone, Copy, Debug, PartialEq, Eq, Structural)]
pub enum Awaiting {
    Read,
    Put,
    Create,
    Upload,
    Complete,
    Abort,
    Nothing,
}

/// A part the service accepted, as listed in the completion call.
#[derive(Clone, Debug)]
pub struct CompletedPart {
    pub e_tag: Option<String>,
    pub part_number: u64,
}

/// The call the session asks its caller to make next.
#[derive(Debug)]
pub enum Action {
    /// Read `len` bytes from the source, fewer only where the source ends,
    /// and hand them to `part_read`.
    ReadPart { len: u64 },
    /// Store the whole object with one call; answer with `object_put`.
    PutObject { body: Vec<u8> },
    /// Create the multipart upload; answer with `upload_created`.
    CreateUpload,
    /// Upload one part; answer with `part_uploaded`.
    UploadPart { upload_id: String, part_number: u64, body: Vec<u8> },
    /// Complete the upload with these parts; answer with `upload_completed`.
    CompleteUpload { upload_id: String, parts: Vec<CompletedPart> },
    /// Abort the upload; answer with `upload_aborted`.
    AbortUpload { upload_id: String },
    /// The session is over, with this result.
    Done(S4Result<()>),
}

/// An action with its byte buffers and strings seen as sequences.
pub enum ActionView {
    ReadPart { len: u64 },
    PutObject { body: Seq<u8> },
    CreateUpload,
    UploadPart { upload_id: Seq<char>, part_number: u64, body: Seq<u8> },
    CompleteUpload { upload_id: Seq<char>, parts: Seq<CompletedPart> },
    AbortUpload { upload_id: Seq<char> },
    Done(S4Result<()>),
}

impl View for Action {
    type V = ActionView;

    open spec fn view(&self) -> ActionView {
        match *self {
            Action::ReadPart { len } => ActionView::ReadPart { len },
            Action::PutObject { body } => ActionView::PutObject { body: body@ },
            Action::CreateUpload => ActionView::CreateUpload,
            Action::UploadPart { upload_id, part_number, body } => ActionView::UploadPart {
                upload_id: upload_id@,
                part_number,
                body: body@,
            },
            Action::CompleteUpload { upload_id, parts } => ActionView::CompleteUpload {
                upload_id: upload_id@,
                parts: parts@,
            },
            Action::AbortUpload { upload_id } => ActionView::AbortUpload { upload_id: upload_id@ },
            Action::Done(r) => ActionView::Done(r),
        }
    }
}

/// An answer handed to the session.
pub enum Event {
    Read(Result<Seq<u8>, std::io::Error>),
    Put(Result<(), RusotoError<PutObjectError>>),
    Created(Result<Option<Seq<char>>, RusotoError<CreateMultipartUploadError>>),
    Uploaded(Result<Option<String>, RusotoError<UploadPartError>>),
    Completed(Result<(), RusotoError<CompleteMultipartUploadError>>),
    Aborted(Result<(), RusotoError<AbortMultipartUploadError>>),
}

/// What a session holds.
pub struct SessionView {
    pub part_size: u64,
    /// An object that ends within its first part and is shorter than this
    /// is stored with a single call.
    pub single_put_limit: u64,
    pub state: UploadState,
    pub awaiting: Awaiting,
    pub upload_id: Option<Seq<char>>,
    /// The parts accepted so far, in order.
    pub completed: Seq<CompletedPart>,
    /// The first part, held while the upload is created.
    pub held: Seq<u8>,
    /// Whether the part in flight is the last one.
    pub last_part: bool,
    /// The failure to report once the upload is aborted.
    pub error: Option<S4Error>,
    /// The parts cut from the source so far, in order.
    pub cut: Seq<Seq<u8>>,
    pub parts_cut: u64,
    /// Whether the source has ended.
    pub ended: bool,
}

/// The bytes read from the source so far.
pub open spec fn bytes_read(s: SessionView) -> Seq<u8> {
    s.cut.flatten()
}

/// A session that has not read anything yet.
pub open spec fn fresh_session(part_size: u64, single_put_limit: u64) -> SessionView {
    SessionView {
        part_size,
        single_put_limit,
        state: UploadState::NotStarted,
        awaiting: Awaiting::Read,
        upload_id: None,
        completed: Seq::empty(),
        held: Seq::empty(),
        last_part: false,
        error: None,
        cut: Seq::empty(),
        parts_cut: 0,
        ended: false,
    }
}

/// The session's invariant.
pub open spec fn wf(s: SessionView) -> bool {
    &&& s.part_size > 0
    &&& s.parts_cut == s.cut.len()
    &&& forall|i: int| 0 <= i < s.cut.len() ==> #[trigger] s.cut[i].len() <= s.part_size
    &&& forall|i: int| 0 <= i < s.cut.len() - 1 ==> #[trigger] s.cut[i].len() == s.part_size
    &&& forall|i: int| 1 <= i < s.cut.len() ==> #[trigger] s.cut[i].len() > 0
    &&& forall|i: int| 0 <= i < s.completed.len() ==> #[trigger] s.completed[i].part_number == i + 1
    &&& s.state == UploadState::Active ==> s.upload_id is Some
    &&& match s.awaiting {
        Awaiting::Read => if s.state == UploadState::NotStarted {
            s.cut.len() == 0 && s.completed.len() == 0
        } else {
            &&& s.state == UploadState::Active
            &&& s.cut.len() >= 1
            &&& s.completed.len() == s.cut.len()
            &&& s.cut.last().len() == s.part_size
        },
        Awaiting::Put => {
            &&& s.state == UploadState::NotStarted
            &&& s.cut.len() == 1
            &&& s.cut[0].len() < s.part_size
            &&& s.ended
        },
        Awaiting::Create => {
            &&& s.state == UploadState::NotStarted
            &&& s.cut.len() == 1
            &&& s.held == s.cut[0]
            &&& s.completed.len() == 0
            &&& s.last_part == s.ended
            &&& (s.ended <==> s.held.len() < s.part_size)
        },
        Awaiting::Upload => {
            &&& s.state == UploadState::Active
            &&& s.cut.len() >= 1
            &&& s.completed.len() + 1 == s.cut.len()
            &&& s.last_part == s.ended
            &&& (s.ended <==> s.cut.last().len() < s.part_size)
        },
        Awaiting::Complete => s.state == UploadState::Active && s.ended && s.cut.len() >= 1,
        Awaiting::Abort => s.state == UploadState::Active && s.error is Some,
        Awaiting::Nothing => true,
    }
}

/// Whether the session waits for this answer, and can take it in.
pub open spec fn accepts(s: SessionView, ev: Event) -> bool {
    match ev {
        Event::Read(r) => {
            &&& s.awaiting == Awaiting::Read
            &&& s.parts_cut < u64::MAX
            &&& r matches Ok(body) ==> body.len() <= s.part_size
        },
        Event::Put(_) => s.awaiting == Awaiting::Put,
        Event::Created(_) => s.awaiting == Awaiting::Create,
        Event::Uploaded(_) => s.awaiting == Awaiting::Upload,
        Event::Completed(_) => s.awaiting == Awaiting::Complete,
        Event::Aborted(_) => s.awaiting == Awaiting::Abort,
    }
}

/// The session after it is over.
pub open spec fn finished(s: SessionView, state: UploadState) -> SessionView {
    SessionView { state, awaiting: Awaiting::Nothing, ..s }
}

/// Taking in a part read from the source.
pub open spec fn on_read(s: SessionView, r: Result<Seq<u8>, std::io::Error>) -> (
    SessionView,
    ActionView,
) {
    match r {
        Err(e) => if s.state == UploadState::Active {
            (
                SessionView { awaiting: Awaiting::Abort, error: Some(S4Error::IoError(e)), ..s },
                ActionView::AbortUpload { upload_id: s.upload_id.unwrap() },
            )
        } else {
            (finished(s, s.state), ActionView::Done(Err(S4Error::IoError(e))))
        },
        Ok(body) => {
            let last = body.len() < s.part_size;
            if s.state == UploadState::NotStarted {
                let s1 = SessionView { cut: seq![body], parts_cut: 1, ended: last, ..s };
                if last && body.len() < s.single_put_limit {
                    (SessionView { awaiting: Awaiting::Put, ..s1 }, ActionView::PutObject { body })
                } else {
                    (
                        SessionView {
                            awaiting: Awaiting::Create,
                            held: body,
                            last_part: last,
                            ..s1
                        },
                        ActionView::CreateUpload,
                    )
                }
            } else if body.len() == 0 {
                (
                    SessionView {
                        awaiting: Awaiting::Complete,
                        ended: true,
                        completed: Seq::empty(),
                        ..s
                    },
                    ActionView::CompleteUpload {
                        upload_id: s.upload_id.unwrap(),
                        parts: s.completed,
                    },
                )
            } else {
                let n = (s.parts_cut + 1) as u64;
                (
                    SessionView {
                        awaiting: Awaiting::Upload,
                        cut: s.cut.push(body),
                        parts_cut: n,
                        ended: last,
                        last_part: last,
                        ..s
                    },
                    ActionView::UploadPart { upload_id: s.upload_id.unwrap(), part_number: n, body },
                )
            }
        },
    }
}

/// Taking in the service's answer to a part upload.
pub open spec fn on_uploaded(
    s: SessionView,
    r: Result<Option<String>, RusotoError<UploadPartError>>,
) -> (SessionView, ActionView) {
    match r {
        Ok(e_tag) => {
            let done = s.completed.push(CompletedPart { e_tag, part_number: s.parts_cut });
            if s.last_part {
                (
                    SessionView { awaiting: Awaiting::Complete, completed: Seq::empty(), ..s },
                    ActionView::CompleteUpload { upload_id: s.upload_id.unwrap(), parts: done },
                )
            } else {
                (
                    SessionView { awaiting: Awaiting::Read, completed: done, ..s },
                    ActionView::ReadPart { len: s.part_size },
                )
            }
        },
        Err(e) => (
            SessionView {
                awaiting: Awaiting::Abort,
                error: Some(S4Error::UploadPartError(e)),
                ..s
            },
            ActionView::AbortUpload { upload_id: s.upload_id.unwrap() },
        ),
    }
}

/// One answer taken in: the session after it, and the next call.
pub open spec fn step(s: SessionView, ev: Event) -> (SessionView, ActionView) {
    match ev {
        Event::Read(r) => on_read(s, r),
        Event::Put(r) => match r {
            Ok(()) => (finished(s, UploadState::Completed), ActionView::Done(Ok(()))),
            Err(e) => (finished(s, s.state), ActionView::Done(Err(S4Error::PutObjectError(e)))),
        },
        Event::Created(r) => match r {
            Ok(Some(id)) => (
                SessionView {
                    state: UploadState::Active,
                    awaiting: Awaiting::Upload,
                    upload_id: Some(id),
                    held: Seq::empty(),
                    ..s
                },
                ActionView::UploadPart { upload_id: id, part_number: 1, body: s.held },
            ),
            Ok(None) => (finished(s, s.state), ActionView::Done(Err(S4Error::Other(MISSING_UPLOAD_ID)))),
            Err(e) => (
                finished(s, s.state),
                ActionView::Done(Err(S4Error::CreateMultipartUploadError(e))),
            ),
        },
        Event::Uploaded(r) => on_uploaded(s, r),
        Event::Completed(r) => match r {
            Ok(()) => (finished(s, UploadState::Completed), ActionView::Done(Ok(()))),
            Err(e) => (
                finished(s, s.state),
                ActionView::Done(Err(S4Error::CompleteMultipartUploadError(e))),
            ),
        },
        Event::Aborted(r) => match r {
            Ok(()) => (
                SessionView { error: None, ..finished(s, UploadState::Aborted) },
                ActionView::Done(Err(s.error.unwrap())),
            ),
            Err(e) => (
                finished(s, s.state),
                ActionView::Done(Err(S4Error::AbortMultipartUploadError(e))),
            ),
        },
    }
}

/// Every answer the session accepts keeps its invariant.
pub proof fn lemma_step_keeps_wf(s: SessionView, ev: Event)
    requires
        wf(s),
        accepts(s, ev),
    ensures
        wf(step(s, ev).0),
{
    let s1 = step(s, ev).0;
    match ev {
        Event::Read(r) => {
            if let Ok(body) = r {
                if s.state != UploadState::NotStarted && body.len() > 0 {
                    assert(s1.cut.last() == body);
                    assert forall|i: int| 0 <= i < s1.cut.len() - 1 implies #[trigger] s1.cut[i].len()
                        == s1.part_size by {
                        if i < s.cut.len() - 1 {
                            assert(s1.cut[i] == s.cut[i]);
                        } else {
                            assert(s1.cut[i] == s.cut.last());
                        }
                    }
                    assert forall|i: int| 0 <= i < s1.cut.len() implies #[trigger] s1.cut[i].len()
                        <= s1.part_size by {
                        if i < s.cut.len() {
                            assert(s1.cut[i] == s.cut[i]);
                        }
                    }
                    assert forall|i: int| 1 <= i < s1.cut.len() implies #[trigger] s1.cut[i].len()
                        > 0 by {
                        if i < s.cut.len() {
                            assert(s1.cut[i] == s.cut[i]);
                        }
                    }
                }
            }
        },
        Event::Uploaded(r) => {
            if let Ok(e_tag) = r {
                assert forall|i: int| 0 <= i < s1.completed.len() implies #[trigger] s1.completed[i].part_number
                    == i + 1 by {
                    if !s.last_part && i < s.completed.len() {
                        assert(s1.completed[i] == s.completed[i]);
                    }
                }
            }
        },
        _ => {},
    }
}

/// The characters of an optional string.
pub open spec fn id_view(id: Option<String>) -> Option<Seq<char>> {
    match id {
        Some(id) => Some(id@),
        None => None,
    }
}

/// The answer of the source to a read.
pub open spec fn read_event(r: Result<Vec<u8>, std::io::Error>) -> Event {
    Event::Read(
        match r {
            Ok(v) => Ok(v@),
            Err(e) => Err(e),
        },
    )
}

/// The answer of the service to the creation of an upload.
pub open spec fn created_event(
    r: Result<Option<String>, RusotoError<CreateMultipartUploadError>>,
) -> Event {
    Event::Created(
        match r {
            Ok(id) => Ok(id_view(id)),
            Err(e) => Err(e),
        },
    )
}

/// A multipart upload of one object from a source read part by part.
///
/// The caller makes each call the session asks for and hands the answer
/// to the matching method, which returns the next call.
pub struct MultipartSession {
    part_size: u64,
    single_put_limit: u64,
    state: UploadState,
    awaiting: Awaiting,
    upload_id: Option<String>,
    completed_parts: Vec<CompletedPart>,
    held: Vec<u8>,
    last_part: bool,
    error: Option<S4Error>,
    parts_cut: u64,
    cut: Ghost<Seq<Seq<u8>>>,
    ended: Ghost<bool>,
}

impl View for MultipartSession {
    type V = SessionView;

    closed spec fn view(&self) -> SessionView {
        SessionView {
            part_size: self.part_size,
            single_put_limit: self.single_put_limit,
            state: self.state,
            awaiting: self.awaiting,
            upload_id: id_view(self.upload_id),
            completed: self.completed_parts@,
            held: self.held@,
            last_part: self.last_part,
            error: self.error,
            cut: self.cut@,
            parts_cut: self.parts_cut,
            ended: self.ended@,
        }
    }
}

impl MultipartSession {
    /// A session that cuts the source into parts of `part_size` bytes, and
    /// stores an object shorter than both `part_size` and
    /// `single_put_limit` with a single call. Its first call is a read.
    pub fn new(part_size: u64, single_put_limit: u64) -> (r: (MultipartSession, Action))
        requires
            part_size > 0,
        ensures
            r.0@ == fresh_session(part_size, single_put_limit),
            wf(r.0@),
            r.1@ == (ActionView::ReadPart { len: part_size }),
    {
        let s = MultipartSession {
            part_size,
            single_put_limit,
            state: UploadState::NotStarted,
            awaiting: Awaiting::Read,
            upload_id: None,
            completed_parts: Vec::new(),
            held: Vec::new(),
            last_part: false,
            error: None,
            parts_cut: 0,
            cut: Ghost(Seq::empty()),
            ended: Ghost(false),
        };
        assert(s@ =~= fresh_session(part_size, single_put_limit));
        (s, Action::ReadPart { len: part_size })
    }

    /// The answer the session waits for.
    pub fn awaiting(&self) -> (r: Awaiting)
        ensures
            r == self@.awaiting,
    {
        self.awaiting
    }

    /// Where the upload stands at the service.
    pub fn state(&self) -> (r: UploadState)
        ensures
            r == self@.state,
    {
        self.state
    }

    /// The number of parts cut from the source so far.
    pub fn parts_cut(&self) -> (r: u64)
        ensures
            r == self@.parts_cut,
    {
        self.parts_cut
    }

    /// The parts accepted so far, handed out for the completion call.
    fn take_completed(&mut self) -> (r: Vec<CompletedPart>)
        ensures
            r@ == old(self)@.completed,
            final(self)@ == (SessionView { completed: Seq::empty(), ..old(self)@ }),
    {
        let mut parts: Vec<CompletedPart> = Vec::new();
        std::mem::swap(&mut parts, &mut self.completed_parts);
        assert(self@ =~= (SessionView { completed: Seq::empty(), ..old(self)@ }));
        parts
    }

    /// The upload ID of an open upload.
    fn open_upload_id(&self) -> (r: String)
        requires
            self@.upload_id is Some,
        ensures
            r@ == self@.upload_id.unwrap(),
    {
        match &self.upload_id {
            Some(id) => id.clone(),
            None => String::new(),
        }
    }

    /// Takes in a part read from the source, or the failure to read it.
    pub fn part_read(&mut self, r: Result<Vec<u8>, std::io::Error>) -> (a: Action)
        requires
            wf(old(self)@),
            accepts(
                old(self)@,
                read_event(r),
            ),
        ensures
            (final(self)@, a@) == step(
                old(self)@,
                read_event(r),
            ),
            wf(final(self)@),
    {
        let ghost ev = read_event(r);
        proof {
            lemma_step_keeps_wf(self@, ev);
        }
        match r {
            Err(e) => {
                if self.state == UploadState::Active {
                    let upload_id = self.open_upload_id();
                    self.awaiting = Awaiting::Abort;
                    self.error = Some(S4Error::IoError(e));
                    assert(self@ =~= step(old(self)@, ev).0);
                    Action::AbortUpload { upload_id }
                } else {
                    self.awaiting = Awaiting::Nothing;
                    assert(self@ =~= step(old(self)@, ev).0);
                    Action::Done(Err(S4Error::IoError(e)))
                }
            },
            Ok(body) => {
                let last = (body.len() as u64) < self.part_size;
                if self.state == UploadState::NotStarted {
                    self.cut = Ghost(Seq::empty().push(body@));
                    self.parts_cut = 1;
                    self.ended = Ghost(last);
                    if last && (body.len() as u64) < self.single_put_limit {
                        self.awaiting = Awaiting::Put;
                        assert(self@ =~= step(old(self)@, ev).0);
                        Action::PutObject { body }
                    } else {
                        self.awaiting = Awaiting::Create;
                        self.held = body;
                        self.last_part = last;
                        assert(self@ =~= step(old(self)@, ev).0);
                        Action::CreateUpload
                    }
                } else if body.len() == 0 {
                    let upload_id = self.open_upload_id();
                    self.awaiting = Awaiting::Complete;
                    self.ended = Ghost(true);
                    let parts = self.take_completed();
                    assert(self@ =~= step(old(self)@, ev).0);
                    Action::CompleteUpload { upload_id, parts }
                } else {
                    let upload_id = self.open_upload_id();
                    let n = self.parts_cut + 1;
                    self.awaiting = Awaiting::Upload;
                    self.cut = Ghost(self.cut@.push(body@));
                    self.parts_cut = n;
                    self.ended = Ghost(last);
                    self.last_part = last;
                    assert(self@ =~= step(old(self)@, ev).0);
                    Action::UploadPart { upload_id, part_number: n, body }
                }
            },
        }
    }

    /// Takes in the answer to the single-call upload.
    pub fn object_put(&mut self, r: Result<(), RusotoError<PutObjectError>>) -> (a: Action)
        requires
            wf(old(self)@),
            accepts(old(self)@, Event::Put(r)),
        ensures
            (final(self)@, a@) == step(old(self)@, Event::Put(r)),
            wf(final(self)@),
    {
        proof {
            lemma_step_keeps_wf(self@, Event::Put(r));
        }
        self.awaiting = Awaiting::Nothing;
        match r {
            Ok(()) => {
                self.state = UploadState::Completed;
                Action::Done(Ok(()))
            },
            Err(e) => Action::Done(Err(S4Error::PutObjectError(e))),
        }
    }

    /// Takes in the answer to the creation of the multipart upload: the
    /// upload ID it reported.
    pub fn upload_created(
        &mut self,
        r: Result<Option<String>, RusotoError<CreateMultipartUploadError>>,
    ) -> (a: Action)
        requires
            wf(old(self)@),
            accepts(
                old(self)@,
                created_event(r),
            ),
        ensures
            (final(self)@, a@) == step(
                old(self)@,
                created_event(r),
            ),
            wf(final(self)@),
    {
        let ghost ev = created_event(r);
        proof {
            lemma_step_keeps_wf(self@, ev);
        }
        match r {
            Ok(Some(id)) => {
                let upload_id = id.clone();
                self.upload_id = Some(id);
                self.state = UploadState::Active;
                self.awaiting = Awaiting::Upload;
                let mut body: Vec<u8> = Vec::new();
                std::mem::swap(&mut body, &mut self.held);
                Action::UploadPart { upload_id, part_number: 1, body }
            },
            Ok(None) => {
                self.awaiting = Awaiting::Nothing;
                Action::Done(Err(S4Error::Other(MISSING_UPLOAD_ID)))
            },
            Err(e) => {
                self.awaiting = Awaiting::Nothing;
                Action::Done(Err(S4Error::CreateMultipartUploadError(e)))
            },
        }
    }

    /// Takes in the answer to a part upload: the part's entity tag.
    pub fn part_uploaded(&mut self, r: Result<Option<String>, RusotoError<UploadPartError>>) -> (a:
        Action)
        requires
            wf(old(self)@),
            accepts(old(self)@, Event::Uploaded(r)),
        ensures
            (final(self)@, a@) == step(old(self)@, Event::Uploaded(r)),
            wf(final(self)@),
    {
        proof {
            lemma_step_keeps_wf(self@, Event::Uploaded(r));
        }
        let upload_id = self.open_upload_id();
        match r {
            Ok(e_tag) => {
                self.completed_parts.push(CompletedPart { e_tag, part_number: self.parts_cut });
                if self.last_part {
                    self.awaiting = Awaiting::Complete;
                    let parts = self.take_completed();
                    Action::CompleteUpload { upload_id, parts }
                } else {
                    self.awaiting = Awaiting::Read;
                    Action::ReadPart { len: self.part_size }
                }
            },
            Err(e) => {
                self.awaiting = Awaiting::Abort;
                self.error = Some(S4Error::UploadPartError(e));
                Action::AbortUpload { upload_id }
            },
        }
    }

    /// Takes in the answer to the completion call.
    pub fn upload_completed(
        &mut self,
        r: Result<(), RusotoError<CompleteMultipartUploadError>>,
    ) -> (a: Action)
        requires
            wf(old(self)@),
            accepts(old(self)@, Event::Completed(r)),
        ensures
            (final(self)@, a@) == step(old(self)@, Event::Completed(r)),
            wf(final(self)@),
    {
        proof {
            lemma_step_keeps_wf(self@, Event::Completed(r));
        }
        self.awaiting = Awaiting::Nothing;
        match r {
            Ok(()) => {
                self.state = UploadState::Completed;
                Action::Done(Ok(()))
            },
            Err(e) => Action::Done(Err(S4Error::CompleteMultipartUploadError(e))),
        }
    }

    /// Takes in the answer to the abort call, and reports the failure that
    /// caused it once the upload is gone.
    pub fn upload_aborted(&mut self, r: Result<(), RusotoError<AbortMultipartUploadError>>) -> (a:
        Action)
        requires
            wf(old(self)@),
            accepts(old(self)@, Event::Aborted(r)),
        ensures
            (final(self)@, a@) == step(old(self)@, Event::Aborted(r)),
            wf(final(self)@),
    {
        proof {
            lemma_step_keeps_wf(self@, Event::Aborted(r));
        }
        self.awaiting = Awaiting::Nothing;
        match r {
            Ok(()) => {
                self.state = UploadState::Aborted;
                let mut error: Option<S4Error> = None;
                std::mem::swap(&mut error, &mut self.error);
                Action::Done(Err(error.unwrap()))
            },
            Err(e) => Action::Done(Err(S4Error::AbortMultipartUploadError(e))),
        }
    }
}

proof fn lemma_flatten_full(parts: Seq<Seq<u8>>, part_size: int)
    requires
        forall|i: int| 0 <= i < parts.len() ==> #[trigger] parts[i].len() == part_size,
    ensures
        parts.flatten().len() == parts.len() * part_size,
    decreases parts.len(),
{
    if parts.len() > 0 {
        let rest = parts.drop_first();
        assert forall|i: int| 0 <= i < rest.len() implies #[trigger] rest[i].len() == part_size by {
            assert(rest[i] == parts[i + 1]);
        }
        lemma_flatten_full(rest, part_size);
        assert(parts.len() * part_size == part_size + rest.len() * part_size) by (nonlinear_arith)
            requires
                parts.len() == rest.len() + 1,
        ;
    }
}

proof fn lemma_flatten_split(parts: Seq<Seq<u8>>, i: int)
    requires
        0 <= i < parts.len(),
    ensures
        parts.flatten() == parts.take(i).flatten() + parts[i] + parts.skip(i + 1).flatten(),
{
    assert(parts =~= parts.take(i) + parts.skip(i));
    vstd::seq_lib::lemma_flatten_concat(parts.take(i), parts.skip(i));
    let tail = parts.skip(i);
    assert(tail.first() == parts[i]);
    assert(tail.drop_first() =~= parts.skip(i + 1));
    assert(tail.flatten() == parts[i] + parts.skip(i + 1).flatten());
    assert(parts.take(i).flatten() + tail.flatten() =~= parts.take(i).flatten() + parts[i]
        + parts.skip(i + 1).flatten());
}

/// Parts cut as a session cuts them, every one full but the last, which is
/// not empty unless it is the only one, are the parts that the plan of
/// their concatenation gives.
proof fn lemma_cut_follows_plan(cut: Seq<Seq<u8>>, part_size: int)
    requires
        part_size > 0,
        cut.len() >= 1,
        forall|i: int| 0 <= i < cut.len() - 1 ==> #[trigger] cut[i].len() == part_size,
        cut.last().len() <= part_size,
        cut.len() > 1 ==> cut.last().len() > 0,
    ensures
        ({
            let total = cut.flatten().len() as int;
            &&& cut.len() == part_count(total, part_size)
            &&& forall|i: int|
                0 <= i < cut.len() ==> #[trigger] cut[i] == cut.flatten().subrange(
                    part_start(i, part_size),
                    part_end(i, total, part_size),
                )
        }),
{
    let n = cut.len() as int;
    let all = cut.flatten();
    let total = all.len() as int;
    let r = cut.last().len() as int;
    lemma_flatten_split(cut, n - 1);
    assert(cut.skip(n).flatten() =~= Seq::empty());
    lemma_flatten_full(cut.take(n - 1), part_size);
    assert(total == (n - 1) * part_size + r);
    assert((n - 1) * part_size >= 0) by (nonlinear_arith)
        requires
            n >= 1,
            part_size > 0,
    ;
    assert(n == 1 ==> (n - 1) * part_size == 0);
    if total != 0 {
        assert(r >= 1);
        vstd::arithmetic::div_mod::lemma_fundamental_div_mod_converse(
            total - 1,
            part_size,
            n - 1,
            r - 1,
        );
    }
    assert forall|i: int| 0 <= i < n implies #[trigger] cut[i] == all.subrange(
        part_start(i, part_size),
        part_end(i, total, part_size),
    ) by {
        lemma_flatten_split(cut, i);
        lemma_flatten_full(cut.take(i), part_size);
        let before = cut.take(i).flatten();
        assert(before.len() == i * part_size);
        assert((i + 1) * part_size == i * part_size + part_size) by (nonlinear_arith);
        if i < n - 1 {
            assert((i + 1) * part_size <= (n - 1) * part_size) by (nonlinear_arith)
                requires
                    i + 1 <= n - 1,
                    part_size > 0,
            ;
            assert(part_end(i, total, part_size) == (i + 1) * part_size);
        } else {
            assert(part_end(i, total, part_size) == total);
        }
        assert(all.subrange(part_start(i, part_size), part_end(i, total, part_size)) =~= cut[i]);
    }
}

/// When the session asks for the upload to be completed, the source has
/// ended, and the parts it lists are numbered from 1 on, one for each part
/// cut from the source. Those parts, whose bodies went out with the same
/// numbers in `UploadPart`, are the byte ranges that the plan of the bytes
/// read gives: the object the service puts together from them is the
/// source, byte for byte.
pub proof fn lemma_completion_reassembles_source(s: SessionView, ev: Event)
    requires
        wf(s),
        accepts(s, ev),
        step(s, ev).1 is CompleteUpload,
    ensures
        ({
            let (s1, a) = step(s, ev);
            let parts = a->CompleteUpload_parts;
            let total = bytes_read(s1).len() as int;
            &&& s1.ended
            &&& parts.len() == s1.cut.len()
            &&& s1.cut.len() == part_count(total, s1.part_size as int)
            &&& forall|i: int| 0 <= i < parts.len() ==> #[trigger] parts[i].part_number == i + 1
            &&& forall|i: int|
                0 <= i < s1.cut.len() ==> #[trigger] s1.cut[i] == bytes_read(s1).subrange(
                    part_start(i, s1.part_size as int),
                    part_end(i, total, s1.part_size as int),
                )
        }),
{
    let (s1, a) = step(s, ev);
    let parts = a->CompleteUpload_parts;
    lemma_step_keeps_wf(s, ev);
    match ev {
        Event::Uploaded(r) => {
            assert forall|i: int| 0 <= i < parts.len() implies #[trigger] parts[i].part_number == i
                + 1 by {
                if i < s.completed.len() {
                    assert(parts[i] == s.completed[i]);
                }
            }
        },
        _ => {},
    }
    lemma_cut_follows_plan(s1.cut, s1.part_size as int);
}

/// A failed read leaves no upload open: before the upload was created it
/// ends the session with the read failure and nothing at the service;
/// after, it aborts the upload, and once the abort is through the upload
/// is gone and the read failure is what is reported.
pub proof fn lemma_read_failure_aborts(s: SessionView, e: std::io::Error)
    requires
        wf(s),
        s.awaiting == Awaiting::Read,
    ensures
        ({
            let (s1, a1) = step(s, Event::Read(Err(e)));
            let (s2, a2) = step(s1, Event::Aborted(Ok(())));
            if s.state == UploadState::Active {
                &&& a1 == (ActionView::AbortUpload { upload_id: s.upload_id.unwrap() })
                &&& s2.state == UploadState::Aborted
                &&& a2 == ActionView::Done(Err(S4Error::IoError(e)))
            } else {
                &&& s.state == UploadState::NotStarted
                &&& s1.state == UploadState::NotStarted
                &&& a1 == ActionView::Done(Err(S4Error::IoError(e)))
            }
        }),
{
}

/// A part the service rejects aborts the upload; once the abort is
/// through, the upload is gone and the rejection is what is reported.
pub proof fn lemma_part_failure_aborts(s: SessionView, e: RusotoError<UploadPartError>)
    requires
        wf(s),
        s.awaiting == Awaiting::Upload,
    ensures
        ({
            let (s1, a1) = step(s, Event::Uploaded(Err(e)));
            let (s2, a2) = step(s1, Event::Aborted(Ok(())));
            &&& a1 == (ActionView::AbortUpload { upload_id: s.upload_id.unwrap() })
            &&& s2.state == UploadState::Aborted
            &&& a2 == ActionView::Done(Err(S4Error::UploadPartError(e)))
        }),
{
}

/// No session ends with the upload still open, but where the completion
/// call or the abort call failed.
pub proof fn lemma_done_leaves_no_open_upload(s: SessionView, ev: Event)
    requires
        wf(s),
        accepts(s, ev),
    ensures
        ({
            let (s1, a) = step(s, ev);
            a is Done && s1.state == UploadState::Active ==> (ev is Completed && ev->Completed_0 is Err)
                || (ev is Aborted && ev->Aborted_0 is Err)
        }),
{
}

} // verus!
