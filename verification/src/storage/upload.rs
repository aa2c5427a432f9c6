//! The course of one upload to an S3 compatible store.
//!
//! An object of a known small size is collected and sent at once. Every other
//! one is sent in parts while it is being read, so that never more than one
//! part and one chunk of it are held; an object of unknown size that turns out
//! to be shorter than a part is sent at once too. An upload in parts that
//! fails is called off, so that no unfinished parts stay behind.
//!
//! [`Upload`] decides what is done next; whoever drives it performs the action
//! and hands back what came of it.
use vstd::prelude::*;
use vstd::string::*;

use crate::storage::StorageError;
use crate::storage::s3::{MULTIPART_PART_SIZE, MULTIPART_THRESHOLD, to_path};

verus! {

/// Where an upload stands, that is, what it waits for.
#[derive(Debug, Clone, Copy, PartialEq, Eq, Structural)]
pub enum UploadStage {
    /// An upload in parts is being set up.
    Create,
    /// The next chunk of the object is being read.
    Read,
    /// A part is being sent.
    PutPart { last: bool },
    /// The whole object is being sent.
    Put,
    /// The upload in parts is being finished.
    Complete,
    /// The upload in parts is being called off.
    Abort,
    /// The upload is over.
    Done,
}

/// What came of an action.
#[derive(Debug)]
pub enum UploadEvent {
    /// A chunk was read.
    Chunk(Vec<u8>),
    /// There are no more chunks.
    End,
    /// The object cannot be read any further.
    Broken(StorageError),
    /// The store has done what was asked.
    Done,
    /// The store has refused what was asked.
    Failed(String),
}

/// An upload of one object.
#[derive(Debug)]
pub struct Upload {
    path: String,
    multipart: bool,
    declared: u64,
    received: u64,
    pending: Vec<u8>,
    payload: Vec<u8>,
    stage: UploadStage,
    outcome: Option<Result<(), StorageError>>,
}

/// An upload, in the terms of the contracts.
pub struct UploadView {
    /// The path of the object.
    pub path: Seq<char>,
    /// Whether it is sent in parts. An object of unknown size is, once there
    /// are enough bytes for one.
    pub multipart: bool,
    /// The size that was announced; zero for an unknown size.
    pub declared: u64,
    /// The number of bytes read.
    pub received: u64,
    /// The bytes that were read and not sent yet.
    pub pending: Seq<u8>,
    /// The bytes that are due to be sent.
    pub payload: Seq<u8>,
    pub stage: UploadStage,
    pub outcome: Option<Result<(), crate::storage::StorageErrorView>>,
}

impl View for Upload {
    type V = UploadView;

    closed spec fn view(&self) -> UploadView {
        UploadView {
            path: self.path@,
            multipart: self.multipart,
            declared: self.declared,
            received: self.received,
            pending: self.pending@,
            payload: self.payload@,
            stage: self.stage,
            outcome: match self.outcome {
                Some(Ok(())) => Some(Ok(())),
                Some(Err(error)) => Some(Err(error@)),
                None => None,
            },
        }
    }
}

// ── the transitions ─────────────────────────────────────────────────────

/// An upload that has not begun.
pub open spec fn begun(path: Seq<char>, declared: u64) -> UploadView {
    UploadView {
        path,
        multipart: declared >= MULTIPART_THRESHOLD,
        declared,
        received: 0,
        pending: Seq::empty(),
        payload: Seq::empty(),
        stage: if declared >= MULTIPART_THRESHOLD {
            UploadStage::Create
        } else {
            UploadStage::Read
        },
        outcome: None,
    }
}

impl UploadView {
    /// The upload, over. Nothing of the object is held any longer.
    pub open spec fn finished(self, outcome: Result<(), crate::storage::StorageErrorView>) -> Self {
        UploadView {
            stage: UploadStage::Done,
            outcome: Some(outcome),
            pending: Seq::empty(),
            payload: Seq::empty(),
            ..self
        }
    }

    /// The upload, over because the store refused to do something.
    pub open spec fn refused(self, what: Seq<char>, message: Seq<char>) -> Self {
        self.finished(Err(crate::storage::StorageErrorView::Other(what + message)))
    }

    /// The upload, to be called off. Nothing of the object is held any longer.
    pub open spec fn called_off(self, error: crate::storage::StorageErrorView) -> Self {
        UploadView {
            stage: UploadStage::Abort,
            outcome: Some(Err(error)),
            pending: Seq::empty(),
            payload: Seq::empty(),
            ..self
        }
    }

    /// Whether more was read than announced for an object that is not sent in
    /// parts. It is not going to be sent: its bytes are only counted.
    pub open spec fn overlong(self) -> bool {
        !self.multipart && self.declared > 0 && self.received > self.declared
    }

    /// Whether the number of bytes read is not the announced one.
    pub open spec fn mismatched(self) -> bool {
        self.declared > 0 && self.received != self.declared
    }

    /// The error for a wrong number of bytes.
    pub open spec fn mismatch(self) -> crate::storage::StorageErrorView {
        crate::storage::StorageErrorView::SizeMismatch {
            expected: self.declared,
            actual: self.received,
        }
    }

    /// After bytes were read or sent: send a part if there are enough bytes
    /// for one, for which the upload in parts may have to be set up first;
    /// else read on.
    pub open spec fn proceeding(self) -> Self {
        if self.pending.len() < MULTIPART_PART_SIZE {
            UploadView { stage: UploadStage::Read, payload: Seq::empty(), ..self }
        } else if self.multipart {
            UploadView {
                stage: UploadStage::PutPart { last: false },
                payload: self.pending.take(MULTIPART_PART_SIZE as int),
                pending: self.pending.skip(MULTIPART_PART_SIZE as int),
                ..self
            }
        } else {
            UploadView {
                stage: UploadStage::Create,
                multipart: true,
                payload: Seq::empty(),
                ..self
            }
        }
    }

    /// After the last part was sent.
    pub open spec fn closing(self) -> Self {
        if self.mismatched() {
            self.called_off(self.mismatch())
        } else {
            UploadView { stage: UploadStage::Complete, payload: Seq::empty(), ..self }
        }
    }

    /// After the last chunk was read.
    pub open spec fn ended(self) -> Self {
        if self.multipart {
            if self.pending.len() > 0 {
                UploadView {
                    stage: UploadStage::PutPart { last: true },
                    payload: self.pending,
                    pending: Seq::empty(),
                    ..self
                }
            } else {
                self.closing()
            }
        } else if self.mismatched() {
            self.finished(Err(self.mismatch()))
        } else {
            UploadView {
                stage: UploadStage::Put,
                payload: self.pending,
                pending: Seq::empty(),
                ..self
            }
        }
    }

    /// After a chunk was read.
    pub open spec fn fed(self, chunk: Seq<u8>) -> Self {
        let counted = UploadView {
            received: if self.received + chunk.len() > u64::MAX {
                u64::MAX
            } else {
                (self.received + chunk.len()) as u64
            },
            ..self
        };
        if counted.overlong() {
            UploadView { pending: Seq::empty(), ..counted }
        } else {
            UploadView { pending: self.pending + chunk, ..counted }.proceeding()
        }
    }

    /// Whether an event answers what the upload waits for.
    pub open spec fn expects(self, event: UploadEvent) -> bool {
        match self.stage {
            UploadStage::Read => event is Chunk || event is End || event is Broken,
            UploadStage::Done => false,
            _ => event is Done || event is Failed,
        }
    }

    /// The upload after an event. An event that does not answer what the
    /// upload waits for changes nothing.
    pub open spec fn next(self, event: UploadEvent) -> Self {
        match (self.stage, event) {
            (UploadStage::Create, UploadEvent::Done) => self.proceeding(),
            (UploadStage::Create, UploadEvent::Failed(message)) => self.refused(
                "S3 CreateMultipartUpload failed: "@,
                message@,
            ),
            (UploadStage::Read, UploadEvent::Chunk(chunk)) => self.fed(chunk@),
            (UploadStage::Read, UploadEvent::End) => self.ended(),
            (UploadStage::Read, UploadEvent::Broken(error)) => if self.multipart {
                self.called_off(error@)
            } else {
                self.finished(Err(error@))
            },
            (UploadStage::PutPart { last: false }, UploadEvent::Done) => self.proceeding(),
            (UploadStage::PutPart { last: true }, UploadEvent::Done) => self.closing(),
            (UploadStage::PutPart { last }, UploadEvent::Failed(message)) => self.called_off(
                crate::storage::StorageErrorView::Other("S3 UploadPart failed: "@ + message@),
            ),
            (UploadStage::Put, UploadEvent::Done) => self.finished(Ok(())),
            (UploadStage::Put, UploadEvent::Failed(message)) => self.refused(
                "S3 PutObject failed: "@,
                message@,
            ),
            (UploadStage::Complete, UploadEvent::Done) => self.finished(Ok(())),
            (UploadStage::Complete, UploadEvent::Failed(message)) => self.refused(
                "S3 CompleteMultipartUpload failed: "@,
                message@,
            ),
            (UploadStage::Abort, UploadEvent::Done | UploadEvent::Failed(_)) => UploadView {
                stage: UploadStage::Done,
                ..self
            },
            _ => self,
        }
    }
}

impl Upload {
    /// Begins an upload of `content_length` bytes, or of an unknown number of
    /// bytes if that is zero. A key that names no object is refused.
    pub fn begin(key: &str, content_length: u64) -> (upload: Result<Upload, StorageError>)
        ensures
            match upload {
                Ok(upload) => {
                    &&& key@.len() > 0
                    &&& crate::storage::s3::object_path(key@) matches Some(path)
                    &&& upload@ == begun(path, content_length)
                },
                Err(error) => (key@.len() == 0 || crate::storage::s3::object_path(key@) is None)
                    && error@ == crate::storage::StorageErrorView::InvalidKey,
            },
    {
        let path = match to_path(key) {
            Ok(path) => path,
            Err(error) => {
                return Err(error);
            },
        };
        let multipart = content_length >= MULTIPART_THRESHOLD;
        let upload = Upload {
            path,
            multipart,
            declared: content_length,
            received: 0,
            pending: Vec::new(),
            payload: Vec::new(),
            stage: if multipart {
                UploadStage::Create
            } else {
                UploadStage::Read
            },
            outcome: None,
        };
        Ok(upload)
    }

    /// The path of the object.
    pub fn path(&self) -> (path: &String)
        ensures
            path@ == self@.path,
    {
        &self.path
    }

    /// What the upload waits for.
    pub fn stage(&self) -> (stage: UploadStage)
        ensures
            stage == self@.stage,
    {
        self.stage
    }

    /// Hands out the bytes that are due to be sent.
    pub fn take_payload(&mut self) -> (payload: Vec<u8>)
        ensures
            payload@ == old(self)@.payload,
            final(self)@ == (UploadView { payload: Seq::empty(), ..old(self)@ }),
    {
        let mut payload: Vec<u8> = Vec::new();
        std::mem::swap(&mut payload, &mut self.payload);
        payload
    }

    /// Takes in what came of the last action.
    pub fn step(&mut self, event: UploadEvent)
        ensures
            final(self)@ == old(self)@.next(event),
    {
        match event {
            UploadEvent::Chunk(chunk) => {
                if let UploadStage::Read = self.stage {
                    self.received = self.received.saturating_add(chunk.len() as u64);
                    if !self.multipart && self.declared > 0 && self.received > self.declared {
                        self.pending = Vec::new();
                    } else {
                        let mut chunk = chunk;
                        self.pending.append(&mut chunk);
                        self.proceed();
                    }
                }
            },
            UploadEvent::End => {
                if let UploadStage::Read = self.stage {
                    self.end();
                }
            },
            UploadEvent::Broken(error) => {
                if let UploadStage::Read = self.stage {
                    if self.multipart {
                        self.call_off(error);
                    } else {
                        self.finish(Err(error));
                    }
                }
            },
            UploadEvent::Done => self.succeeded(),
            UploadEvent::Failed(message) => self.failed(message),
        }
    }

    fn succeeded(&mut self)
        ensures
            final(self)@ == old(self)@.next(UploadEvent::Done),
    {
        match self.stage {
            UploadStage::Create | UploadStage::PutPart { last: false } => self.proceed(),
            UploadStage::PutPart { last: true } => self.close(),
            UploadStage::Put | UploadStage::Complete => self.finish(Ok(())),
            UploadStage::Abort => {
                self.stage = UploadStage::Done;
            },
            UploadStage::Read | UploadStage::Done => {},
        }
    }

    fn failed(&mut self, message: String)
        ensures
            final(self)@ == old(self)@.next(UploadEvent::Failed(message)),
    {
        match self.stage {
            UploadStage::Create => self.refuse("S3 CreateMultipartUpload failed: ", message),
            UploadStage::PutPart { last: _ } => {
                let mut text = "S3 UploadPart failed: ".to_string();
                text.append(message.as_str());
                self.call_off(StorageError::Other(text));
            },
            UploadStage::Put => self.refuse("S3 PutObject failed: ", message),
            UploadStage::Complete => self.refuse("S3 CompleteMultipartUpload failed: ", message),
            UploadStage::Abort => {
                self.stage = UploadStage::Done;
            },
            UploadStage::Read | UploadStage::Done => {},
        }
    }

    fn proceed(&mut self)
        ensures
            final(self)@ == old(self)@.proceeding(),
    {
        if self.pending.len() < MULTIPART_PART_SIZE {
            self.payload = Vec::new();
            self.stage = UploadStage::Read;
        } else if self.multipart {
            let ghost whole = self.pending@;
            let rest = self.pending.split_off(MULTIPART_PART_SIZE);
            let mut part = rest;
            std::mem::swap(&mut part, &mut self.pending);
            assert(part@ =~= whole.take(MULTIPART_PART_SIZE as int));
            assert(self.pending@ =~= whole.skip(MULTIPART_PART_SIZE as int));
            self.payload = part;
            self.stage = UploadStage::PutPart { last: false };
        } else {
            self.payload = Vec::new();
            self.multipart = true;
            self.stage = UploadStage::Create;
        }
    }

    fn end(&mut self)
        ensures
            final(self)@ == old(self)@.ended(),
    {
        if self.multipart {
            if self.pending.len() > 0 {
                self.release();
                self.stage = UploadStage::PutPart { last: true };
            } else {
                self.close();
            }
        } else if self.declared > 0 && self.received != self.declared {
            let (expected, actual) = (self.declared, self.received);
            self.finish(Err(StorageError::SizeMismatch { expected, actual }));
        } else {
            self.release();
            self.stage = UploadStage::Put;
        }
    }

    fn release(&mut self)
        ensures
            final(self)@ == (UploadView {
                payload: old(self)@.pending,
                pending: Seq::empty(),
                ..old(self)@
            }),
    {
        let mut payload: Vec<u8> = Vec::new();
        std::mem::swap(&mut payload, &mut self.pending);
        self.payload = payload;
    }

    fn close(&mut self)
        ensures
            final(self)@ == old(self)@.closing(),
    {
        if self.declared > 0 && self.received != self.declared {
            let (expected, actual) = (self.declared, self.received);
            self.call_off(StorageError::SizeMismatch { expected, actual });
        } else {
            self.payload = Vec::new();
            self.stage = UploadStage::Complete;
        }
    }

    fn call_off(&mut self, error: StorageError)
        ensures
            final(self)@ == old(self)@.called_off(error@),
    {
        self.outcome = Some(Err(error));
        self.pending = Vec::new();
        self.payload = Vec::new();
        self.stage = UploadStage::Abort;
    }

    fn refuse(&mut self, what: &str, message: String)
        ensures
            final(self)@ == old(self)@.refused(what@, message@),
    {
        let mut text = what.to_string();
        text.append(message.as_str());
        self.finish(Err(StorageError::Other(text)));
    }

    fn finish(&mut self, outcome: Result<(), StorageError>)
        ensures
            final(self)@ == old(self)@.finished(
                match outcome {
                    Ok(()) => Ok(()),
                    Err(error) => Err(error@),
                },
            ),
    {
        self.outcome = Some(outcome);
        self.pending = Vec::new();
        self.payload = Vec::new();
        self.stage = UploadStage::Done;
    }

    /// The result, once the upload is over.
    pub fn into_outcome(self) -> (outcome: Option<Result<(), StorageError>>)
        ensures
            self@.outcome == match outcome {
                Some(Ok(())) => Some(Ok::<(), crate::storage::StorageErrorView>(())),
                Some(Err(error)) => Some(Err(error@)),
                None => None,
            },
    {
        self.outcome
    }
}

// ── what holds of every upload ──────────────────────────────────────────

/// The upload that begins as `start` and sees the events of `trace`.
pub open spec fn played(start: UploadView, trace: Seq<UploadEvent>) -> UploadView
    decreases trace.len(),
{
    if trace.len() == 0 {
        start
    } else {
        played(start, trace.drop_last()).next(trace.last())
    }
}

/// The bytes of the object, as far as they were read.
pub open spec fn bytes_read(start: UploadView, trace: Seq<UploadEvent>) -> Seq<u8>
    decreases trace.len(),
{
    if trace.len() == 0 {
        Seq::empty()
    } else {
        let earlier = bytes_read(start, trace.drop_last());
        match (played(start, trace.drop_last()).stage, trace.last()) {
            (UploadStage::Read, UploadEvent::Chunk(chunk)) => earlier + chunk@,
            _ => earlier,
        }
    }
}

/// Whether an upload is about to send something.
pub open spec fn is_sending(stage: UploadStage) -> bool {
    match stage {
        UploadStage::PutPart { last } => true,
        UploadStage::Put => true,
        _ => false,
    }
}

/// What was given out to be sent, in order.
pub open spec fn payloads(start: UploadView, trace: Seq<UploadEvent>) -> Seq<Seq<u8>>
    decreases trace.len(),
{
    if trace.len() == 0 {
        Seq::empty()
    } else {
        let earlier = payloads(start, trace.drop_last());
        let before = played(start, trace.drop_last());
        let after = before.next(trace.last());
        if before.expects(trace.last()) && is_sending(after.stage) {
            earlier.push(after.payload)
        } else {
            earlier
        }
    }
}

/// The bytes of a list of payloads, one after the other.
pub open spec fn in_sequence(list: Seq<Seq<u8>>) -> Seq<u8>
    decreases list.len(),
{
    if list.len() == 0 {
        Seq::empty()
    } else {
        in_sequence(list.drop_last()) + list.last()
    }
}

/// The parts have the size of a part, but for the last one, which may be
/// smaller and is not empty.
pub open spec fn well_sized(parts: Seq<Seq<u8>>) -> bool {
    forall|i: int|
        0 <= i < parts.len() ==> {
            &&& i < parts.len() - 1 ==> (#[trigger] parts[i]).len() == MULTIPART_PART_SIZE
            &&& 0 < parts[i].len() <= MULTIPART_PART_SIZE
        }
}

spec fn full_sized(parts: Seq<Seq<u8>>) -> bool {
    forall|i: int| 0 <= i < parts.len() ==> (#[trigger] parts[i]).len() == MULTIPART_PART_SIZE
}

spec fn upload_stands(start: UploadView, trace: Seq<UploadEvent>) -> bool {
    let upload = played(start, trace);
    let sent = payloads(start, trace);
    let read = bytes_read(start, trace);
    &&& upload.declared == start.declared
    &&& start.declared >= MULTIPART_THRESHOLD ==> upload.multipart
    &&& upload.multipart && start.declared < MULTIPART_THRESHOLD ==> start.declared == 0
        && read.len() >= MULTIPART_PART_SIZE
    &&& upload.received == if read.len() > u64::MAX {
        u64::MAX as nat
    } else {
        read.len()
    }
    &&& match upload.stage {
        UploadStage::Create => sent == Seq::<Seq<u8>>::empty() && read == upload.pending
            && upload.outcome is None && upload.multipart,
        UploadStage::Read => {
            &&& upload.outcome is None
            &&& upload.pending.len() < MULTIPART_PART_SIZE
            &&& if upload.multipart {
                read == in_sequence(sent) + upload.pending && full_sized(sent)
            } else {
                sent == Seq::<Seq<u8>>::empty() && if upload.overlong() {
                    upload.pending == Seq::<u8>::empty()
                } else {
                    read == upload.pending
                }
            }
        },
        UploadStage::PutPart { last: false } => read == in_sequence(sent) + upload.pending
            && full_sized(sent) && upload.multipart && upload.outcome is None,
        UploadStage::PutPart { last: true } => read == in_sequence(sent) && well_sized(sent)
            && upload.multipart && upload.outcome is None,
        UploadStage::Put => read == in_sequence(sent) && sent.len() == 1 && !upload.multipart
            && !upload.mismatched() && upload.outcome is None && read.len() < MULTIPART_PART_SIZE,
        UploadStage::Complete => read == in_sequence(sent) && well_sized(sent) && upload.multipart
            && !upload.mismatched() && upload.outcome is None,
        UploadStage::Abort => upload.multipart && upload.outcome matches Some(Err(_)),
        UploadStage::Done => upload.outcome matches Some(outcome) && (outcome is Ok ==> read
            == in_sequence(sent) && !upload.mismatched() && if upload.multipart {
            well_sized(sent)
        } else {
            sent.len() == 1 && read.len() < MULTIPART_PART_SIZE
        }),
    }
}

proof fn lemma_upload_stands(path: Seq<char>, declared: u64, trace: Seq<UploadEvent>)
    ensures
        upload_stands(begun(path, declared), trace),
    decreases trace.len(),
{
    let start = begun(path, declared);
    if trace.len() > 0 {
        let earlier = trace.drop_last();
        lemma_upload_stands(path, declared, earlier);
        let before = played(start, earlier);
        let after = before.next(trace.last());
        let sent = payloads(start, earlier);
        let read = bytes_read(start, earlier);
        let now_sent = payloads(start, trace);
        let now_read = bytes_read(start, trace);
        let nothing = Seq::<Seq<u8>>::empty();
        assert(in_sequence(nothing) == Seq::<u8>::empty());
        if before.expects(trace.last()) && is_sending(after.stage) {
            assert(now_sent == sent.push(after.payload));
            assert(now_sent.drop_last() =~= sent);
            assert(in_sequence(now_sent) == in_sequence(sent) + after.payload);
        }
        match before.stage {
            UploadStage::Create => {
                if trace.last() is Done {
                    if before.pending.len() >= MULTIPART_PART_SIZE {
                        assert(before.pending =~= after.payload + after.pending);
                        assert(in_sequence(now_sent) + after.pending =~= read);
                    } else {
                        assert(in_sequence(sent) + before.pending =~= read);
                    }
                }
            },
            UploadStage::Read => match trace.last() {
                UploadEvent::Chunk(chunk) => {
                    let all = before.pending + chunk@;
                    if before.multipart {
                        assert(now_read =~= in_sequence(sent) + all);
                        if all.len() >= MULTIPART_PART_SIZE {
                            assert(all =~= after.payload + after.pending);
                            assert(now_read =~= in_sequence(now_sent) + after.pending);
                        }
                    } else if !after.overlong() {
                        assert(now_read =~= all);
                    }
                },
                UploadEvent::End => {
                    if before.pending.len() == 0 {
                        assert(in_sequence(sent) + before.pending =~= in_sequence(sent));
                    }
                    if !before.multipart {
                        assert(in_sequence(sent) + before.pending =~= before.pending);
                    }
                },
                _ => {},
            },
            UploadStage::PutPart { last: false } => {
                if trace.last() is Done && before.pending.len() >= MULTIPART_PART_SIZE {
                    assert(before.pending =~= after.payload + after.pending);
                    assert(in_sequence(now_sent) + after.pending =~= in_sequence(sent)
                        + before.pending);
                }
            },
            _ => {},
        }
    } else {
        assert(start.pending =~= Seq::<u8>::empty());
        assert(in_sequence(Seq::empty()) + start.pending =~= Seq::<u8>::empty());
    }
}

/// A finished upload has sent the object: what was sent is what was read, in
/// order and once; at once if it is shorter than a part, or else in parts of
/// the right sizes; and it is as long as announced, if its length was.
pub proof fn law_uploads_are_complete(path: Seq<char>, declared: u64, trace: Seq<UploadEvent>)
    requires
        bytes_read(begun(path, declared), trace).len() <= u64::MAX,
    ensures
        ({
            let start = begun(path, declared);
            let sent = payloads(start, trace);
            let read = bytes_read(start, trace);
            played(start, trace).outcome == Some(Ok::<(), crate::storage::StorageErrorView>(()))
                ==> {
                &&& in_sequence(sent) == read
                &&& declared > 0 ==> read.len() == declared
                &&& if read.len() < MULTIPART_PART_SIZE {
                    sent.len() == 1
                } else {
                    well_sized(sent)
                }
            }
        }),
{
    lemma_upload_stands(path, declared, trace);
}

/// An object of a known small size is sent as a whole where exactly that many
/// bytes were read; else nothing of it is sent, and the error tells both
/// numbers.
pub proof fn law_small_sizes_are_checked(path: Seq<char>, declared: u64, trace: Seq<UploadEvent>)
    requires
        0 < declared < MULTIPART_THRESHOLD,
        bytes_read(begun(path, declared), trace).len() <= u64::MAX,
        played(begun(path, declared), trace).stage == UploadStage::Read,
    ensures
        ({
            let start = begun(path, declared);
            let read = bytes_read(start, trace);
            let after = played(start, trace).next(UploadEvent::End);
            &&& payloads(start, trace).len() == 0
            &&& if read.len() == declared {
                after.stage == UploadStage::Put && after.payload == read
            } else {
                &&& after.stage == UploadStage::Done
                &&& after.outcome == Some(
                    Err::<(), _>(
                        crate::storage::StorageErrorView::SizeMismatch {
                            expected: declared,
                            actual: read.len() as u64,
                        },
                    ),
                )
            }
        }),
{
    lemma_upload_stands(path, declared, trace);
}

/// The length of the longest chunk in a trace.
pub open spec fn longest_chunk(trace: Seq<UploadEvent>) -> nat
    decreases trace.len(),
{
    if trace.len() == 0 {
        0
    } else {
        let earlier = longest_chunk(trace.drop_last());
        match trace.last() {
            UploadEvent::Chunk(chunk) => if chunk@.len() > earlier {
                chunk@.len()
            } else {
                earlier
            },
            _ => earlier,
        }
    }
}

/// An object is never held as a whole, however long it is and whatever length
/// was announced: what was read and not sent yet, together with what is being
/// sent, is less than one part and one chunk.
pub proof fn law_little_is_held(path: Seq<char>, declared: u64, trace: Seq<UploadEvent>)
    ensures
        ({
            let upload = played(begun(path, declared), trace);
            upload.pending.len() + upload.payload.len() < MULTIPART_PART_SIZE + longest_chunk(trace)
        }),
{
    lemma_little_is_held(path, declared, trace);
}

proof fn lemma_little_is_held(path: Seq<char>, declared: u64, trace: Seq<UploadEvent>)
    ensures
        ({
            let upload = played(begun(path, declared), trace);
            let longest = longest_chunk(trace);
            match upload.stage {
                UploadStage::Create => upload.payload.len() == 0 && upload.pending.len()
                    < MULTIPART_PART_SIZE + longest,
                UploadStage::Read => upload.payload.len() == 0 && upload.pending.len()
                    < MULTIPART_PART_SIZE,
                UploadStage::PutPart { last: false } => upload.payload.len() == MULTIPART_PART_SIZE
                    && upload.pending.len() < longest,
                UploadStage::PutPart { last: true } | UploadStage::Put => upload.pending.len() == 0
                    && upload.payload.len() < MULTIPART_PART_SIZE,
                _ => upload.pending.len() == 0 && upload.payload.len() == 0,
            }
        }),
    decreases trace.len(),
{
    if trace.len() > 0 {
        lemma_little_is_held(path, declared, trace.drop_last());
        lemma_upload_stands(path, declared, trace.drop_last());
    }
}

/// An upload in parts that fails while it is read or sent is called off
/// before it is over; nothing else is ever called off.
pub proof fn law_failed_uploads_are_called_off(upload: UploadView, event: UploadEvent)
    requires
        upload.outcome is None,
        upload.stage is PutPart ==> upload.multipart,
    ensures
        ({
            let after = upload.next(event);
            &&& upload.multipart && (upload.stage is Read || upload.stage is PutPart) && (
            after.outcome is Some) ==> after.stage is Abort && after.outcome->0 is Err
            &&& after.stage is Abort && !(upload.stage is Abort) ==> upload.multipart && (
            upload.stage is Read || upload.stage is PutPart) && after.outcome is Some
                && after.outcome->0 is Err
        }),
{
}

/// An upload that was called off ends with the error for which it was.
pub proof fn law_calling_off_keeps_the_error(upload: UploadView, event: UploadEvent)
    requires
        upload.stage is Abort,
        upload.expects(event),
    ensures
        upload.next(event).stage is Done,
        upload.next(event).outcome == upload.outcome,
{
}

/// An upload fails for a reason, and says which: the store refused something,
/// the object could not be read, or all of it was read and it did not have the
/// announced size. How much was read or sent before does not matter.
pub proof fn law_uploads_fail_for_a_reason(upload: UploadView, event: UploadEvent)
    requires
        upload.outcome is None,
        !(upload.stage is Done) && !(upload.stage is Abort),
    ensures
        upload.next(event).outcome matches Some(Err(error)) ==> match event {
            UploadEvent::Failed(message) => error == crate::storage::StorageErrorView::Other(
                (match upload.stage {
                    UploadStage::Create => "S3 CreateMultipartUpload failed: "@,
                    UploadStage::PutPart { last } => "S3 UploadPart failed: "@,
                    UploadStage::Put => "S3 PutObject failed: "@,
                    _ => "S3 CompleteMultipartUpload failed: "@,
                }) + message@,
            ) && !(upload.stage is Read),
            UploadEvent::Broken(fault) => error == fault@ && upload.stage is Read,
            UploadEvent::End | UploadEvent::Done => {
                &&& upload.declared > 0
                &&& upload.received != upload.declared
                &&& error == (crate::storage::StorageErrorView::SizeMismatch {
                    expected: upload.declared,
                    actual: upload.received,
                })
                &&& upload.stage is Read || upload.stage == (UploadStage::PutPart { last: true })
            },
            UploadEvent::Chunk(_) => false,
        },
        event is Failed && !(upload.stage is Read) ==> upload.next(event).outcome is Some
            && upload.next(event).outcome->0 is Err,
        event is Broken && upload.stage is Read ==> upload.next(event).outcome is Some
            && upload.next(event).outcome->0 is Err,
{
}

/// An object that was read to its end, and has the announced size if one was
/// announced, gets into the store if the store does what it is asked: what is
/// left of it is sent, an upload in parts is finished, and the upload succeeds.
pub proof fn law_good_uploads_succeed(upload: UploadView)
    requires
        upload.stage == UploadStage::Read,
        upload.outcome is None,
        upload.declared == 0 || upload.received == upload.declared,
    ensures
        ({
            let ended = upload.next(UploadEvent::End);
            let once = ended.next(UploadEvent::Done);
            let twice = once.next(UploadEvent::Done);
            let success = Some(Ok::<(), crate::storage::StorageErrorView>(()));
            if !upload.multipart {
                &&& ended.stage == UploadStage::Put
                &&& ended.payload == upload.pending
                &&& once.stage == UploadStage::Done
                &&& once.outcome == success
            } else if upload.pending.len() > 0 {
                &&& ended.stage == (UploadStage::PutPart { last: true })
                &&& ended.payload == upload.pending
                &&& once.stage == UploadStage::Complete
                &&& twice.stage == UploadStage::Done
                &&& twice.outcome == success
            } else {
                &&& ended.stage == UploadStage::Complete
                &&& once.stage == UploadStage::Done
                &&& once.outcome == success
            }
        }),
{
}

/// Nothing is lost on the way: the bytes that are due to be sent and those that
/// wait are, after each step, the bytes that waited before it and those of the
/// chunk, in order. A part that is not the last has 5 MiB; while fewer bytes
/// wait, the object is read on. Only of an object that turned out longer than
/// its announced small size nothing is kept.
pub proof fn law_nothing_is_lost_on_the_way(upload: UploadView, event: UploadEvent)
    requires
        upload.outcome is None,
        upload.received <= 0x7fff_ffff_ffff_ffff,
        !upload.multipart ==> upload.declared < 5_242_880,
    ensures
        ({
            let after = upload.next(event);
            let fresh = match event {
                UploadEvent::Chunk(chunk) => chunk@,
                _ => Seq::<u8>::empty(),
            };
            let overlong = !upload.multipart && upload.declared > 0 && upload.received + fresh.len()
                > upload.declared;
            let waiting = (upload.stage is Read && event is Chunk && !overlong) || ((upload.stage
                is Create || upload.stage == (UploadStage::PutPart { last: false })) && event
                is Done);
            &&& waiting ==> {
                let bytes = upload.pending + fresh;
                if bytes.len() < 5_242_880 {
                    after.stage == UploadStage::Read && after.pending == bytes
                        && after.payload.len() == 0
                } else if upload.multipart {
                    after.stage == (UploadStage::PutPart { last: false }) && after.payload
                        + after.pending == bytes && after.payload.len() == 5_242_880
                } else {
                    after.stage == UploadStage::Create && after.multipart && after.pending == bytes
                }
            }
            &&& upload.stage is Read && event is Chunk && fresh.len() <= 0x7fff_ffff_ffff_ffff
                ==> after.received == upload.received + fresh.len()
            &&& upload.stage is Read && event is Chunk && overlong ==> after.stage
                == UploadStage::Read && after.pending.len() == 0
            &&& after.declared == upload.declared
            &&& after.path == upload.path
        }),
{
    let after = upload.next(event);
    let fresh = match event {
        UploadEvent::Chunk(chunk) => chunk@,
        _ => Seq::<u8>::empty(),
    };
    let bytes = upload.pending + fresh;
    if event is Done {
        assert(bytes =~= upload.pending);
    }
    if bytes.len() >= 5_242_880 {
        assert(bytes.take(5_242_880) + bytes.skip(5_242_880) =~= bytes);
    }
}

/// An upload is set up in parts from the beginning exactly if at least 5 MiB
/// were announced; else it begins by reading.
pub proof fn law_large_uploads_begin_in_parts(path: Seq<char>, declared: u64)
    ensures
        declared >= 5_242_880 ==> begun(path, declared).stage == UploadStage::Create && begun(
            path,
            declared,
        ).multipart,
        declared < 5_242_880 ==> begun(path, declared).stage == UploadStage::Read && !begun(
            path,
            declared,
        ).multipart,
        begun(path, declared).path == path,
        begun(path, declared).declared == declared,
        begun(path, declared).received == 0,
        begun(path, declared).pending.len() == 0,
        begun(path, declared).outcome is None,
{
}

/// An event that an upload does not wait for changes nothing: the store only
/// answers what it was asked, and the object is read only where that is due.
pub proof fn law_only_awaited_events_count(upload: UploadView, event: UploadEvent)
    ensures
        ({
            let awaited = match upload.stage {
                UploadStage::Read => event is Chunk || event is End || event is Broken,
                UploadStage::Done => false,
                _ => event is Done || event is Failed,
            };
            &&& !awaited ==> upload.next(event) == upload
            &&& upload.expects(event) == awaited
        }),
{
}

} // verus!
