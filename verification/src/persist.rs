//! Storing the images of a reply as files.
//!
//! The images are taken one after the other. The bytes of a data URI are
//! decoded here; those of a remote URL are fetched by the host. The host
//! also writes the files, and must refuse to overwrite one that exists: a
//! name that is taken is tried again with a counter behind it. What cannot
//! be stored is recorded with the reason, and the next image is taken.
//!
//! A [`PersistSession`] holds where that work stands. The host asks it for
//! the next [`PersistAction`], performs it and reports a [`PersistEvent`].

use crate::codec::{base64_decoded, decode};
use crate::reply::{descriptors_view, ImageDescriptor, ImageDescriptorView};
use crate::source::{
    extension_for_source, extension_of_source, is_data_uri, is_remote_url, join_path,
    joined_path, payload_of, payload_of_source, source_is_data_uri, source_is_remote,
};
use crate::text::{
    chars_of, decimal, is_digit, lemma_decimal_digits, lemma_decimal_injective,
    lemma_digit_run_unique, push_decimal, push_range, push_str, string_of,
};
use vstd::prelude::*;

verus! {

/// Number of characters of a source that a record shows.
pub const PREVIEW_CHARS: usize = 50;

/// Number of names that are tried for one image before it is given up.
pub const MAX_ATTEMPTS: u64 = 1000;

/// What became of one image.
#[derive(Clone, Debug, PartialEq, Eq)]
pub struct SavedImageInfo {
    /// The first characters of the source.
    pub source_preview: String,
    /// Where the image was written; `None` where it was not.
    pub saved_path: Option<String>,
    /// Where the bytes came from, or why the image was not stored.
    pub diagnostic: String,
}

/// Mathematical value of a [`SavedImageInfo`].
pub struct SavedImageInfoView {
    pub source_preview: Seq<char>,
    pub saved_path: Option<Seq<char>>,
    pub diagnostic: Seq<char>,
}

impl View for SavedImageInfo {
    type V = SavedImageInfoView;

    open spec fn view(&self) -> SavedImageInfoView {
        SavedImageInfoView {
            source_preview: self.source_preview@,
            saved_path: match self.saved_path {
                Some(p) => Some(p@),
                None => None,
            },
            diagnostic: self.diagnostic@,
        }
    }
}

/// View of a list of records.
pub open spec fn records_view(v: Seq<SavedImageInfo>) -> Seq<SavedImageInfoView> {
    Seq::new(v.len(), |i: int| v[i]@)
}

/// The sources of a list of descriptors.
pub open spec fn sources_of(images: Seq<ImageDescriptorView>) -> Seq<Seq<char>> {
    Seq::new(images.len(), |i: int| images[i].source_url)
}

/// The first `PREVIEW_CHARS` characters of a source.
pub open spec fn preview_of(source: Seq<char>) -> Seq<char> {
    source.subrange(
        0,
        if source.len() <= PREVIEW_CHARS {
            source.len() as int
        } else {
            PREVIEW_CHARS as int
        },
    )
}

/// The name that the files of a batch start with: the base name where one
/// is given, else a word for the kind of operation and a stamp.
pub open spec fn batch_stem(base_name: Option<Seq<char>>, is_edit: bool, stamp: nat) -> Seq<char> {
    match base_name {
        Some(b) => b,
        None => (if is_edit {
            "edited_image"@
        } else {
            "generated_image"@
        }) + seq!['_'] + decimal(stamp),
    }
}

/// What tells the images of one batch apart: nothing for a single image,
/// else the number of the image, counted from 1.
pub open spec fn index_suffix(index: nat, count: nat) -> Seq<char> {
    if count > 1 {
        seq!['_'] + decimal(index + 1)
    } else {
        Seq::empty()
    }
}

/// What is put behind a name that was taken: nothing at the first attempt,
/// else the number of names found taken.
pub open spec fn attempt_suffix(attempt: nat) -> Seq<char> {
    if attempt > 0 {
        seq!['_'] + decimal(attempt)
    } else {
        Seq::empty()
    }
}

/// The file name of image `index` of `count` at the given attempt.
pub open spec fn file_name(
    stem: Seq<char>,
    index: nat,
    count: nat,
    attempt: nat,
    ext: Seq<char>,
) -> Seq<char> {
    stem + index_suffix(index, count) + attempt_suffix(attempt) + seq!['.'] + ext
}

/// A record of an image that was not stored.
pub open spec fn failure(source: Seq<char>, reason: Seq<char>) -> SavedImageInfoView {
    SavedImageInfoView { source_preview: preview_of(source), saved_path: None, diagnostic: reason }
}

/// A record of an image that was stored at `path`.
pub open spec fn success(source: Seq<char>, path: Seq<char>) -> SavedImageInfoView {
    SavedImageInfoView {
        source_preview: preview_of(source),
        saved_path: Some(path),
        diagnostic: if is_data_uri(source) {
            "decoded from the data URI"@
        } else {
            "downloaded from the URL"@
        },
    }
}

/// What the host reports.
pub enum PersistEventModel {
    /// The URL gave these bytes.
    Fetched(Seq<u8>),
    /// The URL could not be fetched.
    FetchFailed(Seq<char>),
    /// The file was written.
    Written,
    /// A file of that name exists; nothing was written.
    AlreadyExists,
    /// The file could not be written.
    WriteFailed(Seq<char>),
}

/// What the host is to do.
pub enum PersistActionModel {
    /// Fetch the bytes at `url`.
    Fetch { url: Seq<char> },
    /// Write the bytes at hand to a new file at `path`.
    Write { path: Seq<char> },
    /// Nothing: every image has its record.
    Done,
}

/// Where the storing of a batch stands.
pub struct PersistModel {
    /// The sources of the images, in the order of the reply.
    pub sources: Seq<Seq<char>>,
    /// The directory that the files go to.
    pub target_dir: Seq<char>,
    /// What every file name starts with.
    pub stem: Seq<char>,
    /// The records of the images dealt with, in the order of the images.
    pub results: Seq<SavedImageInfoView>,
    /// How many names were found taken for the image at hand.
    pub attempt: nat,
    /// The bytes of the image at hand, once they are known.
    pub pending: Option<Seq<u8>>,
}

impl PersistModel {
    /// The state before anything is done.
    pub open spec fn initial(
        sources: Seq<Seq<char>>,
        target_dir: Seq<char>,
        stem: Seq<char>,
    ) -> PersistModel {
        PersistModel {
            sources,
            target_dir,
            stem,
            results: Seq::empty(),
            attempt: 0,
            pending: None,
        }
    }

    /// Every image has its record.
    pub open spec fn finished(self) -> bool {
        self.results.len() >= self.sources.len()
    }

    /// The source of the image at hand.
    pub open spec fn source(self) -> Seq<char> {
        self.sources[self.results.len() as int]
    }

    /// The path of image `index` at the given attempt.
    pub open spec fn path(self, index: nat, attempt: nat) -> Seq<char> {
        joined_path(
            self.target_dir,
            file_name(
                self.stem,
                index,
                self.sources.len(),
                attempt,
                extension_for_source(self.sources[index as int]),
            ),
        )
    }

    /// The state once the image at hand has the record `info`.
    pub open spec fn recorded(self, info: SavedImageInfoView) -> PersistModel {
        PersistModel { results: self.results.push(info), attempt: 0, pending: None, ..self }
    }

    /// The state once every image that needs no host is dealt with.
    ///
    /// A data URI is decoded on the spot: its bytes are then at hand, or
    /// it is recorded as failed. A source that is neither a data URI nor a
    /// remote URL is recorded as failed. A remote URL waits for the host.
    pub open spec fn settle(self) -> PersistModel
        decreases self.sources.len() - self.results.len(),
    {
        if self.finished() || self.pending is Some {
            self
        } else if is_data_uri(self.source()) {
            match payload_of(self.source()) {
                None => self.recorded(
                    failure(self.source(), "the data URI has no payload"@),
                ).settle(),
                Some(payload) => match base64_decoded(payload) {
                    None => self.recorded(
                        failure(self.source(), "the payload is not valid base64"@),
                    ).settle(),
                    Some(bytes) => PersistModel { pending: Some(bytes), ..self },
                },
            }
        } else if is_remote_url(self.source()) {
            self
        } else {
            self.recorded(
                failure(self.source(), "the source is neither a URL nor a data URI"@),
            ).settle()
        }
    }

    /// What the host is to do next.
    pub open spec fn action(self) -> PersistActionModel {
        if self.finished() {
            PersistActionModel::Done
        } else if self.pending is Some {
            PersistActionModel::Write { path: self.path(self.results.len(), self.attempt) }
        } else {
            PersistActionModel::Fetch { url: self.source() }
        }
    }

    /// The state after the host's report. A report that does not answer
    /// the action that was due changes nothing.
    pub open spec fn handle(self, event: PersistEventModel) -> PersistModel {
        if self.finished() {
            self
        } else {
            match (self.pending, event) {
                (None, PersistEventModel::Fetched(bytes)) => PersistModel {
                    pending: Some(bytes),
                    ..self
                },
                (None, PersistEventModel::FetchFailed(reason)) => self.recorded(
                    failure(self.source(), "download failed: "@ + reason),
                ).settle(),
                (Some(_), PersistEventModel::Written) => self.recorded(
                    success(self.source(), self.path(self.results.len(), self.attempt)),
                ).settle(),
                (Some(_), PersistEventModel::AlreadyExists) => if self.attempt + 1 < MAX_ATTEMPTS {
                    PersistModel { attempt: self.attempt + 1, ..self }
                } else {
                    self.recorded(
                        failure(self.source(), "no free file name was found"@),
                    ).settle()
                },
                (Some(_), PersistEventModel::WriteFailed(reason)) => self.recorded(
                    failure(self.source(), "write failed: "@ + reason),
                ).settle(),
                _ => self,
            }
        }
    }

    /// The records follow the images one by one, and each path that was
    /// written to is one that this batch proposes for that image.
    pub open spec fn results_wf(self) -> bool {
        &&& self.results.len() <= self.sources.len()
        &&& forall|i: int|
            0 <= i < self.results.len() ==> {
                &&& (#[trigger] self.results[i]).source_preview == preview_of(self.sources[i])
                &&& self.results[i].saved_path matches Some(p) ==> exists|a: nat|
                    p == #[trigger] self.path(i as nat, a)
            }
    }

    /// The state is one that a session can be in.
    pub open spec fn wf(self) -> bool {
        &&& self.results_wf()
        &&& self.attempt < MAX_ATTEMPTS
        &&& self.finished() ==> self.pending is None
        &&& !self.finished() && self.pending is None ==> is_remote_url(self.source())
    }
}

/// What comes before the number of an image in every path of a batch
/// of several images.
pub open spec fn path_head(target_dir: Seq<char>, stem: Seq<char>) -> Seq<char> {
    joined_path(target_dir, stem + seq!['_'])
}

/// What comes behind the number of an image in a path.
pub open spec fn path_tail(attempt: nat, ext: Seq<char>) -> Seq<char> {
    attempt_suffix(attempt) + seq!['.'] + ext
}

proof fn lemma_path_parts(m: PersistModel, index: nat, attempt: nat)
    requires
        m.sources.len() > 1,
    ensures
        m.path(index, attempt) == path_head(m.target_dir, m.stem) + (decimal(index + 1)
            + path_tail(attempt, extension_for_source(m.sources[index as int]))),
        path_tail(attempt, extension_for_source(m.sources[index as int])).len() > 0,
        !is_digit(path_tail(attempt, extension_for_source(m.sources[index as int]))[0]),
{
    let ext = extension_for_source(m.sources[index as int]);
    let name = file_name(m.stem, index, m.sources.len(), attempt, ext);
    let tail = path_tail(attempt, ext);
    assert(name =~= (m.stem + seq!['_']) + (decimal(index + 1) + tail));
    assert(m.path(index, attempt) =~= path_head(m.target_dir, m.stem) + (decimal(index + 1)
        + tail));
    if attempt > 0 {
        assert(tail[0] == '_');
    } else {
        assert(tail[0] == '.');
    }
}

/// Two images of one batch are never given the same path, whatever the
/// attempts at which they are written.
pub proof fn lemma_paths_distinct(m: PersistModel, i: nat, a: nat, j: nat, b: nat)
    requires
        i < m.sources.len(),
        j < m.sources.len(),
        i != j,
    ensures
        m.path(i, a) != m.path(j, b),
{
    if m.path(i, a) == m.path(j, b) {
        lemma_path_parts(m, i, a);
        lemma_path_parts(m, j, b);
        let head = path_head(m.target_dir, m.stem);
        let x = decimal(i + 1) + path_tail(a, extension_for_source(m.sources[i as int]));
        let y = decimal(j + 1) + path_tail(b, extension_for_source(m.sources[j as int]));
        assert(x =~= (head + x).subrange(head.len() as int, (head + x).len() as int));
        assert(y =~= (head + y).subrange(head.len() as int, (head + y).len() as int));
        lemma_decimal_digits(i + 1);
        lemma_decimal_digits(j + 1);
        lemma_digit_run_unique(
            decimal(i + 1),
            path_tail(a, extension_for_source(m.sources[i as int])),
            decimal(j + 1),
            path_tail(b, extension_for_source(m.sources[j as int])),
        );
        lemma_decimal_injective(i + 1, j + 1);
    }
}

/// No two images of a batch are stored at the same path: of two records
/// that name a path, each names its own.
pub proof fn lemma_saved_paths_distinct(m: PersistModel, i: int, j: int)
    requires
        m.results_wf(),
        0 <= i < m.results.len(),
        0 <= j < m.results.len(),
        i != j,
        m.results[i].saved_path is Some,
        m.results[j].saved_path is Some,
    ensures
        m.results[i].saved_path != m.results[j].saved_path,
{
    let p = m.results[i].saved_path->0;
    let q = m.results[j].saved_path->0;
    let a = choose|a: nat| p == #[trigger] m.path(i as nat, a);
    let b = choose|b: nat| q == #[trigger] m.path(j as nat, b);
    lemma_paths_distinct(m, i as nat, a, j as nat, b);
}

/// Once a batch is finished there is one record for each image, in the
/// order of the images.
pub proof fn lemma_one_record_per_image(m: PersistModel)
    requires
        m.wf(),
        m.finished(),
    ensures
        m.results.len() == m.sources.len(),
        forall|i: int|
            0 <= i < m.sources.len() ==> (#[trigger] m.results[i]).source_preview == preview_of(
                m.sources[i],
            ),
{
}

proof fn lemma_recorded_wf(m: PersistModel, info: SavedImageInfoView)
    requires
        m.results_wf(),
        !m.finished(),
        info.source_preview == preview_of(m.source()),
        info.saved_path matches Some(p) ==> exists|a: nat|
            p == #[trigger] m.path(m.results.len(), a),
    ensures
        m.recorded(info).results_wf(),
{
    let n = m.recorded(info);
    assert forall|i: int| 0 <= i < n.results.len() implies {
        &&& (#[trigger] n.results[i]).source_preview == preview_of(n.sources[i])
        &&& n.results[i].saved_path matches Some(p) ==> exists|a: nat|
            p == #[trigger] n.path(i as nat, a)
    } by {
        if i < m.results.len() {
            assert(n.results[i] == m.results[i]);
            if let Some(p) = m.results[i].saved_path {
                let a = choose|a: nat| p == #[trigger] m.path(i as nat, a);
                assert(p == n.path(i as nat, a));
            }
        } else {
            if let Some(p) = info.saved_path {
                let a = choose|a: nat| p == #[trigger] m.path(m.results.len(), a);
                assert(p == n.path(i as nat, a));
            }
        }
    }
}

/// Settling a state keeps the batch and leaves a state that a session can
/// be in.
pub proof fn lemma_settle_wf(m: PersistModel)
    requires
        m.results_wf(),
        m.attempt < MAX_ATTEMPTS,
        m.finished() ==> m.pending is None,
    ensures
        m.settle().wf(),
        m.settle().sources == m.sources,
        m.settle().target_dir == m.target_dir,
        m.settle().stem == m.stem,
        m.settle().results.len() >= m.results.len(),
    decreases m.sources.len() - m.results.len(),
{
    if m.finished() || m.pending is Some {
    } else if is_data_uri(m.source()) {
        match payload_of(m.source()) {
            None => {
                let n = m.recorded(failure(m.source(), "the data URI has no payload"@));
                lemma_recorded_wf(m, failure(m.source(), "the data URI has no payload"@));
                lemma_settle_wf(n);
            },
            Some(payload) => match base64_decoded(payload) {
                None => {
                    let n = m.recorded(failure(m.source(), "the payload is not valid base64"@));
                    lemma_recorded_wf(m, failure(m.source(), "the payload is not valid base64"@));
                    lemma_settle_wf(n);
                },
                Some(bytes) => {
                    lemma_same_results_wf(m, PersistModel { pending: Some(bytes), ..m });
                },
            },
        }
    } else if is_remote_url(m.source()) {
    } else {
        let n = m.recorded(failure(m.source(), "the source is neither a URL nor a data URI"@));
        lemma_recorded_wf(m, failure(m.source(), "the source is neither a URL nor a data URI"@));
        lemma_settle_wf(n);
    }
}

/// Whatever the host reports, the state stays one that a session can be
/// in, the batch stays the same, and no record is taken back.
pub proof fn lemma_handle_wf(m: PersistModel, event: PersistEventModel)
    requires
        m.wf(),
    ensures
        m.handle(event).wf(),
        m.handle(event).sources == m.sources,
        m.handle(event).target_dir == m.target_dir,
        m.handle(event).stem == m.stem,
        m.handle(event).results.len() >= m.results.len(),
{
    if !m.finished() {
        match (m.pending, event) {
            (None, PersistEventModel::Fetched(bytes)) => {
                let n = PersistModel { pending: Some(bytes), ..m };
                lemma_same_results_wf(m, n);
            },
            (None, PersistEventModel::FetchFailed(reason)) => {
                let info = failure(m.source(), "download failed: "@ + reason);
                lemma_recorded_wf(m, info);
                lemma_settle_wf(m.recorded(info));
            },
            (Some(_), PersistEventModel::Written) => {
                let info = success(m.source(), m.path(m.results.len(), m.attempt));
                lemma_recorded_wf(m, info);
                lemma_settle_wf(m.recorded(info));
            },
            (Some(_), PersistEventModel::AlreadyExists) => {
                if m.attempt + 1 < MAX_ATTEMPTS {
                    let n = PersistModel { attempt: m.attempt + 1, ..m };
                    lemma_same_results_wf(m, n);
                } else {
                    let info = failure(m.source(), "no free file name was found"@);
                    lemma_recorded_wf(m, info);
                    lemma_settle_wf(m.recorded(info));
                }
            },
            (Some(_), PersistEventModel::WriteFailed(reason)) => {
                let info = failure(m.source(), "write failed: "@ + reason);
                lemma_recorded_wf(m, info);
                lemma_settle_wf(m.recorded(info));
            },
            _ => {},
        }
    }
}

proof fn lemma_same_results_wf(m: PersistModel, n: PersistModel)
    requires
        m.results_wf(),
        n.sources == m.sources,
        n.target_dir == m.target_dir,
        n.stem == m.stem,
        n.results == m.results,
    ensures
        n.results_wf(),
{
    assert forall|i: int| 0 <= i < n.results.len() implies {
        &&& (#[trigger] n.results[i]).source_preview == preview_of(n.sources[i])
        &&& n.results[i].saved_path matches Some(p) ==> exists|a: nat|
            p == #[trigger] n.path(i as nat, a)
    } by {
        if let Some(p) = m.results[i].saved_path {
            let a = choose|a: nat| p == #[trigger] m.path(i as nat, a);
            assert(p == n.path(i as nat, a));
        }
    }
}

/// What the host reports.
#[derive(Clone, Debug, PartialEq, Eq)]
pub enum PersistEvent {
    /// The URL gave these bytes.
    Fetched(Vec<u8>),
    /// The URL could not be fetched.
    FetchFailed(String),
    /// The file was written.
    Written,
    /// A file of that name exists; nothing was written.
    AlreadyExists,
    /// The file could not be written.
    WriteFailed(String),
}

impl View for PersistEvent {
    type V = PersistEventModel;

    open spec fn view(&self) -> PersistEventModel {
        match self {
            PersistEvent::Fetched(bytes) => PersistEventModel::Fetched(bytes@),
            PersistEvent::FetchFailed(reason) => PersistEventModel::FetchFailed(reason@),
            PersistEvent::Written => PersistEventModel::Written,
            PersistEvent::AlreadyExists => PersistEventModel::AlreadyExists,
            PersistEvent::WriteFailed(reason) => PersistEventModel::WriteFailed(reason@),
        }
    }
}

/// What the host is to do.
#[derive(Clone, Debug, PartialEq, Eq)]
pub enum PersistAction {
    /// Fetch the bytes at `url`.
    Fetch { url: String },
    /// Write the bytes at hand to a new file at `path`, creating the
    /// directory where it is missing and never replacing a file.
    Write { path: String },
    /// Nothing: every image has its record.
    Done,
}

impl View for PersistAction {
    type V = PersistActionModel;

    open spec fn view(&self) -> PersistActionModel {
        match self {
            PersistAction::Fetch { url } => PersistActionModel::Fetch { url: url@ },
            PersistAction::Write { path } => PersistActionModel::Write { path: path@ },
            PersistAction::Done => PersistActionModel::Done,
        }
    }
}

/// The first `PREVIEW_CHARS` characters of a source.
pub fn preview(source: &str) -> (r: String)
    ensures
        r@ == preview_of(source@),
{
    let chars = chars_of(source);
    let n = if chars.len() <= PREVIEW_CHARS {
        chars.len()
    } else {
        PREVIEW_CHARS
    };
    let mut r: Vec<char> = Vec::new();
    push_range(&mut r, &chars, 0, n);
    string_of(&r)
}

/// The name that the files of a batch start with.
pub fn stem_for(base_name: Option<&str>, is_edit: bool, stamp: u64) -> (r: String)
    ensures
        r@ == batch_stem(
            match base_name {
                Some(b) => Some(b@),
                None => None,
            },
            is_edit,
            stamp as nat,
        ),
{
    match base_name {
        Some(b) => b.to_owned(),
        None => {
            let mut r: Vec<char> = Vec::new();
            if is_edit {
                push_str(&mut r, "edited_image");
            } else {
                push_str(&mut r, "generated_image");
            }
            r.push('_');
            push_decimal(&mut r, stamp);
            string_of(&r)
        },
    }
}

/// The file name of image `index` of `count` at the given attempt.
pub fn name_for(stem: &str, index: usize, count: usize, attempt: u64, ext: &str) -> (r: String)
    requires
        index < count,
    ensures
        r@ == file_name(stem@, index as nat, count as nat, attempt as nat, ext@),
{
    let mut r: Vec<char> = Vec::new();
    push_str(&mut r, stem);
    if count > 1 {
        r.push('_');
        push_decimal(&mut r, index as u64 + 1);
    }
    if attempt > 0 {
        r.push('_');
        push_decimal(&mut r, attempt);
    }
    r.push('.');
    push_str(&mut r, ext);
    assert(r@ =~= file_name(stem@, index as nat, count as nat, attempt as nat, ext@));
    string_of(&r)
}

/// The storing of one batch of images.
pub struct PersistSession {
    images: Vec<ImageDescriptor>,
    target_dir: String,
    stem: String,
    results: Vec<SavedImageInfo>,
    attempt: u64,
    pending: Option<Vec<u8>>,
}

impl View for PersistSession {
    type V = PersistModel;

    closed spec fn view(&self) -> PersistModel {
        PersistModel {
            sources: sources_of(descriptors_view(self.images@)),
            target_dir: self.target_dir@,
            stem: self.stem@,
            results: records_view(self.results@),
            attempt: self.attempt as nat,
            pending: match self.pending {
                Some(bytes) => Some(bytes@),
                None => None,
            },
        }
    }
}

impl PersistSession {
    /// The session is in a state that it can reach.
    pub open spec fn wf(&self) -> bool {
        self@.wf()
    }

    /// Starts to store `images` in `target_dir`.
    ///
    /// With a `base_name` the files are called by it; without one, by the
    /// kind of operation and `stamp`, which the host takes from its clock.
    pub fn new(
        images: Vec<ImageDescriptor>,
        target_dir: &str,
        base_name: Option<&str>,
        is_edit: bool,
        stamp: u64,
    ) -> (r: PersistSession)
        ensures
            r.wf(),
            r@ == PersistModel::initial(
                sources_of(descriptors_view(images@)),
                target_dir@,
                batch_stem(
                    match base_name {
                        Some(b) => Some(b@),
                        None => None,
                    },
                    is_edit,
                    stamp as nat,
                ),
            ).settle(),
    {
        let mut r = PersistSession {
            images,
            target_dir: target_dir.to_owned(),
            stem: stem_for(base_name, is_edit, stamp),
            results: Vec::new(),
            attempt: 0,
            pending: None,
        };
        assert(records_view(r.results@) =~= Seq::<SavedImageInfoView>::empty());
        proof {
            lemma_settle_wf(r@);
        }
        r.settle();
        r
    }

    /// The source of the image at hand.
    fn current_source(&self) -> (r: Vec<char>)
        requires
            !self@.finished(),
        ensures
            r@ == self@.source(),
    {
        assert(self.results@.len() < self.images@.len());
        chars_of(self.images[self.results.len()].source_url.as_str())
    }

    /// Gives the image at hand the record of a failure.
    fn record_failure(&mut self, reason: &str)
        requires
            !old(self)@.finished(),
        ensures
            final(self)@ == old(self)@.recorded(failure(old(self)@.source(), reason@)),
    {
        let source = self.current_source();
        let source_preview = preview(string_of(&source).as_str());
        let info = SavedImageInfo {
            source_preview,
            saved_path: None,
            diagnostic: reason.to_owned(),
        };
        self.results.push(info);
        self.attempt = 0;
        self.pending = None;
        assert(records_view(self.results@) =~= records_view(old(self).results@).push(info@));
    }

    /// Deals with every image that needs no host.
    fn settle(&mut self)
        ensures
            final(self)@ == old(self)@.settle(),
    {
        while self.results.len() < self.images.len() && self.pending.is_none()
            invariant
                self@.settle() == old(self)@.settle(),
                self@.sources.len() == self.images@.len(),
                self@.results.len() == self.results@.len(),
                self@.pending is None <==> self.pending is None,
            ensures
                self@ == old(self)@.settle(),
            decreases self.images@.len() - self.results@.len(),
        {
            let source = self.current_source();
            if source_is_data_uri(&source) {
                match payload_of_source(&source) {
                    None => {
                        self.record_failure("the data URI has no payload");
                    },
                    Some(payload) => match decode(string_of(&payload).as_str()) {
                        None => {
                            self.record_failure("the payload is not valid base64");
                        },
                        Some(bytes) => {
                            self.pending = Some(bytes);
                            break ;
                        },
                    },
                }
            } else if source_is_remote(&source) {
                break ;
            } else {
                self.record_failure("the source is neither a URL nor a data URI");
            }
        }
    }

    /// Whether every image has its record.
    pub fn is_finished(&self) -> (r: bool)
        ensures
            r == self@.finished(),
    {
        self.results.len() >= self.images.len()
    }

    /// The path of the image at hand at the attempt that is due.
    fn current_path(&self) -> (r: String)
        requires
            !self@.finished(),
        ensures
            r@ == self@.path(self@.results.len(), self@.attempt),
    {
        let source = self.current_source();
        let ext = extension_of_source(&source);
        let name = name_for(
            self.stem.as_str(),
            self.results.len(),
            self.images.len(),
            self.attempt,
            string_of(&ext).as_str(),
        );
        let path = join_path(&chars_of(self.target_dir.as_str()), &chars_of(name.as_str()));
        string_of(&path)
    }

    /// What the host is to do next.
    pub fn action(&self) -> (r: PersistAction)
        ensures
            r@ == self@.action(),
    {
        if self.is_finished() {
            PersistAction::Done
        } else if self.pending.is_some() {
            PersistAction::Write { path: self.current_path() }
        } else {
            PersistAction::Fetch { url: string_of(&self.current_source()) }
        }
    }

    /// The bytes that are to be written, where a write is due.
    pub fn payload(&self) -> (r: Option<&Vec<u8>>)
        ensures
            match r {
                Some(bytes) => self@.pending == Some(bytes@),
                None => self@.pending is None,
            },
    {
        self.pending.as_ref()
    }

    /// Takes in what the host reports.
    pub fn handle(&mut self, event: PersistEvent)
        ensures
            final(self)@ == old(self)@.handle(event@),
            old(self).wf() ==> final(self).wf(),
    {
        proof {
            if self.wf() {
                lemma_handle_wf(self@, event@);
            }
        }
        if self.is_finished() {
            return ;
        }
        let waits_for_write = self.pending.is_some();
        match event {
            PersistEvent::Fetched(bytes) => {
                if !waits_for_write {
                    self.pending = Some(bytes);
                }
            },
            PersistEvent::FetchFailed(reason) => {
                if !waits_for_write {
                    let mut text: Vec<char> = Vec::new();
                    push_str(&mut text, "download failed: ");
                    push_str(&mut text, reason.as_str());
                    self.record_failure(string_of(&text).as_str());
                    self.settle();
                }
            },
            PersistEvent::Written => {
                if waits_for_write {
                    let source = self.current_source();
                    let path = self.current_path();
                    let diagnostic = if source_is_data_uri(&source) {
                        "decoded from the data URI".to_owned()
                    } else {
                        "downloaded from the URL".to_owned()
                    };
                    let info = SavedImageInfo {
                        source_preview: preview(string_of(&source).as_str()),
                        saved_path: Some(path),
                        diagnostic,
                    };
                    self.results.push(info);
                    self.attempt = 0;
                    self.pending = None;
                    assert(records_view(self.results@) =~= records_view(old(self).results@).push(
                        info@,
                    ));
                    self.settle();
                }
            },
            PersistEvent::AlreadyExists => {
                if waits_for_write {
                    if self.attempt < MAX_ATTEMPTS - 1 {
                        self.attempt = self.attempt + 1;
                    } else {
                        self.record_failure("no free file name was found");
                        self.settle();
                    }
                }
            },
            PersistEvent::WriteFailed(reason) => {
                if waits_for_write {
                    let mut text: Vec<char> = Vec::new();
                    push_str(&mut text, "write failed: ");
                    push_str(&mut text, reason.as_str());
                    self.record_failure(string_of(&text).as_str());
                    self.settle();
                }
            },
        }
    }

    /// The records of the images dealt with so far, in the order of the
    /// images.
    pub fn records(&self) -> (r: &Vec<SavedImageInfo>)
        ensures
            records_view(r@) == self@.results,
    {
        &self.results
    }

    /// The records of the images dealt with so far, in the order of the
    /// images.
    pub fn into_results(self) -> (r: Vec<SavedImageInfo>)
        ensures
            records_view(r@) == self@.results,
    {
        self.results
    }
}

} // verus!
