//! What a caller means by an image that it hands in.
//!
//! An image is named by a remote URL, by a data URI, or by the path of a
//! local file. The first two are told by their prefix and passed on as they
//! are. A local file is looked for at the path itself and then in the save
//! directory; the first place where it can be read decides.

use crate::codec::{base64_encoded, can_encode, encodable_len, encode};
use crate::source::{
    data_uri, data_uri_text, extension_of_path, is_data_image, is_remote_url, is_separator,
    join_path, joined_path, mime_for_extension, mime_of_extension, path_extension,
    source_is_data_image, source_is_remote,
};
use crate::text::{chars_of, push_all, push_str, string_of, strings_view};
use vstd::prelude::*;

verus! {

/// How an image input was understood.
#[derive(Clone, Copy, Debug, PartialEq, Eq, Structural)]
pub enum ImageInputKind {
    /// A remote URL, passed on unchanged.
    Url,
    /// A data URI: one passed on unchanged, or the content of a file found
    /// at the very path that was given.
    Base64,
    /// The content of a file found in the save directory.
    LocalFileResolved,
}

/// An image input in the form in which it is sent on.
#[derive(Clone, Debug, PartialEq, Eq)]
pub struct ClassifiedImageInput {
    pub kind: ImageInputKind,
    /// The URL, or the data URI.
    pub payload: String,
}

/// Mathematical value of a [`ClassifiedImageInput`].
pub struct ClassifiedImageInputView {
    pub kind: ImageInputKind,
    pub payload: Seq<char>,
}

impl View for ClassifiedImageInput {
    type V = ClassifiedImageInputView;

    open spec fn view(&self) -> ClassifiedImageInputView {
        ClassifiedImageInputView { kind: self.kind, payload: self.payload@ }
    }
}

/// The input is neither a URL nor a data URI, and no file was found for it.
#[derive(Clone, Copy, Debug, PartialEq, Eq, Structural)]
pub struct InputUnrecognized;

/// The kind of an input that is told by its prefix: a URL starts with
/// `http://` or `https://`, a data URI with `data:image/`.
pub open spec fn literal_kind(input: Seq<char>) -> Option<ImageInputKind> {
    if is_remote_url(input) {
        Some(ImageInputKind::Url)
    } else if is_data_image(input) {
        Some(ImageInputKind::Base64)
    } else {
        None
    }
}

/// The extensions that are tried for a file name that has none.
pub open spec fn probe_extensions() -> Seq<Seq<char>> {
    seq!["png"@, "jpg"@, "jpeg"@, "gif"@, "webp"@, "bmp"@]
}

/// A plain file name without extension: not empty, no separator, no dot.
pub open spec fn is_bare_name(input: Seq<char>) -> bool {
    &&& input.len() > 0
    &&& forall|i: int|
        0 <= i < input.len() ==> !is_separator(#[trigger] input[i]) && input[i] != '.'
}

/// The save-directory paths that are tried for a bare name: the name with
/// each of the first `n` probe extensions.
pub open spec fn extended_paths(input: Seq<char>, save_dir: Seq<char>, n: int) -> Seq<Seq<char>>
    decreases n,
{
    if n <= 0 {
        Seq::empty()
    } else {
        extended_paths(input, save_dir, n - 1).push(
            joined_path(save_dir, input + seq!['.'] + probe_extensions()[n - 1]),
        )
    }
}

/// The paths at which the file of a local reference is looked for, in the
/// order in which they are tried: the reference itself, the entry of that
/// name in the save directory and, for a bare name, that entry with each
/// probe extension.
pub open spec fn probe_paths(input: Seq<char>, save_dir: Seq<char>) -> Seq<Seq<char>> {
    seq![input, joined_path(save_dir, input)] + if is_bare_name(input) {
        extended_paths(input, save_dir, probe_extensions().len() as int)
    } else {
        Seq::empty()
    }
}

/// The data URI that carries the content `bytes` of the file at `path`,
/// with the MIME type that the extension of the path stands for.
pub open spec fn file_payload(path: Seq<char>, bytes: Seq<u8>) -> Seq<char> {
    data_uri_text(mime_for_extension(path_extension(path)), base64_encoded(bytes))
}

/// Where the search for the file of one image input stands.
pub struct ResolverModel {
    /// The input as the caller gave it.
    pub input: Seq<char>,
    /// The paths to try, in order.
    pub paths: Seq<Seq<char>>,
    /// How many of them were tried in vain.
    pub position: nat,
}

/// What is to happen next with an image input.
pub enum ResolveStepModel {
    /// The input is understood.
    Done(ClassifiedImageInputView),
    /// The file at `path` is to be read.
    Read { path: Seq<char> },
    /// Every path was tried in vain.
    Unrecognized,
}

impl ResolverModel {
    /// What is to happen next.
    pub open spec fn step(self) -> ResolveStepModel {
        match literal_kind(self.input) {
            Some(kind) => ResolveStepModel::Done(
                ClassifiedImageInputView { kind, payload: self.input },
            ),
            None => if self.position < self.paths.len() {
                ResolveStepModel::Read { path: self.paths[self.position as int] }
            } else {
                ResolveStepModel::Unrecognized
            },
        }
    }

    /// The state after the path that was to be read proved unreadable.
    pub open spec fn after_missing(self) -> ResolverModel {
        if self.position < self.paths.len() {
            ResolverModel { position: self.position + 1, ..self }
        } else {
            self
        }
    }

    /// What the input stands for once the path that was to be read gave
    /// `bytes`. A file found at the given path itself counts as `Base64`,
    /// one found in the save directory as `LocalFileResolved`.
    pub open spec fn found(self, bytes: Seq<u8>) -> Result<
        ClassifiedImageInputView,
        InputUnrecognized,
    > {
        match self.step() {
            ResolveStepModel::Read { path } if encodable_len(bytes.len()) => Ok(
                ClassifiedImageInputView {
                    kind: if self.position == 0 {
                        ImageInputKind::Base64
                    } else {
                        ImageInputKind::LocalFileResolved
                    },
                    payload: file_payload(path, bytes),
                },
            ),
            _ => Err(InputUnrecognized),
        }
    }
}

/// An input that is told by its prefix is understood at once, as that
/// kind and with the input itself as payload, whatever the paths are.
pub proof fn lemma_literal_is_done(m: ResolverModel)
    requires
        literal_kind(m.input) is Some,
    ensures
        m.step() == ResolveStepModel::Done(
            ClassifiedImageInputView { kind: literal_kind(m.input)->0, payload: m.input },
        ),
{
}

/// A local reference of which every path was tried in vain is not
/// recognized, and nothing that is reported of it later changes that.
pub proof fn lemma_exhausted_is_unrecognized(m: ResolverModel, bytes: Seq<u8>)
    requires
        literal_kind(m.input) is None,
        m.position >= m.paths.len(),
    ensures
        m.step() is Unrecognized,
        m.after_missing() == m,
        m.found(bytes) == Err::<ClassifiedImageInputView, InputUnrecognized>(InputUnrecognized),
{
}

/// Each path that proves unreadable brings the search one path further,
/// until none is left.
pub proof fn lemma_missing_moves_on(m: ResolverModel)
    requires
        m.position < m.paths.len(),
    ensures
        m.after_missing().position == m.position + 1,
        m.after_missing().paths == m.paths,
        m.after_missing().input == m.input,
{
}

/// What is to happen next with an image input.
#[derive(Clone, Debug, PartialEq, Eq)]
pub enum ResolveStep {
    /// The input is understood.
    Done(ClassifiedImageInput),
    /// The file at `path` is to be read.
    Read { path: String },
    /// Every path was tried in vain.
    Unrecognized,
}

impl View for ResolveStep {
    type V = ResolveStepModel;

    open spec fn view(&self) -> ResolveStepModel {
        match self {
            ResolveStep::Done(c) => ResolveStepModel::Done(c@),
            ResolveStep::Read { path } => ResolveStepModel::Read { path: path@ },
            ResolveStep::Unrecognized => ResolveStepModel::Unrecognized,
        }
    }
}

/// The search for the file of one image input.
///
/// The host reads the file that [`InputResolver::step`] names and reports
/// back with [`InputResolver::missing`] or [`InputResolver::found`].
pub struct InputResolver {
    input: String,
    paths: Vec<String>,
    position: usize,
}

impl View for InputResolver {
    type V = ResolverModel;

    closed spec fn view(&self) -> ResolverModel {
        ResolverModel {
            input: self.input@,
            paths: strings_view(self.paths@),
            position: self.position as nat,
        }
    }
}

/// Understands an input that is told by its prefix. `None` stands for a
/// local reference.
pub fn classify_literal(input: &str) -> (r: Option<ClassifiedImageInput>)
    ensures
        match r {
            Some(c) => literal_kind(input@) == Some(c.kind) && c.payload@ == input@,
            None => literal_kind(input@) is None,
        },
{
    let chars = chars_of(input);
    if source_is_remote(&chars) {
        Some(ClassifiedImageInput { kind: ImageInputKind::Url, payload: input.to_owned() })
    } else if source_is_data_image(&chars) {
        Some(ClassifiedImageInput { kind: ImageInputKind::Base64, payload: input.to_owned() })
    } else {
        None
    }
}

/// Whether `input` is a plain file name without extension.
pub fn bare_name(input: &Vec<char>) -> (r: bool)
    ensures
        r == is_bare_name(input@),
{
    if input.len() == 0 {
        return false;
    }
    let mut i: usize = 0;
    while i < input.len()
        invariant
            i <= input.len(),
            forall|k: int| 0 <= k < i ==> !is_separator(#[trigger] input@[k]) && input@[k] != '.',
        decreases input.len() - i,
    {
        let c = input[i];
        if c == '/' || c == '\\' || c == '.' {
            assert(is_separator(input@[i as int]) || input@[i as int] == '.');
            return false;
        }
        i = i + 1;
    }
    true
}

/// The paths at which the file of a local reference is looked for, in the
/// order in which they are tried.
pub fn lookup_paths(input: &str, save_dir: &str) -> (r: Vec<String>)
    ensures
        strings_view(r@) == probe_paths(input@, save_dir@),
{
    let name = chars_of(input);
    let dir = chars_of(save_dir);
    let mut r: Vec<String> = Vec::new();
    r.push(input.to_owned());
    r.push(string_of(&join_path(&dir, &name)));
    assert(strings_view(r@) =~= seq![input@, joined_path(save_dir@, input@)]);
    if bare_name(&name) {
        let extensions: Vec<&str> = vec!["png", "jpg", "jpeg", "gif", "webp", "bmp"];
        assert(extensions@.len() == 6);
        assert(probe_extensions() =~= Seq::new(6, |i: int| extensions@[i]@));
        let ghost head = strings_view(r@);
        let mut i: usize = 0;
        while i < extensions.len()
            invariant
                i <= extensions.len(),
                extensions@.len() == 6,
                name@ == input@,
                dir@ == save_dir@,
                probe_extensions() == Seq::new(6, |k: int| extensions@[k]@),
                strings_view(r@) == head + extended_paths(input@, save_dir@, i as int),
            decreases extensions.len() - i,
        {
            let mut file: Vec<char> = Vec::new();
            push_all(&mut file, &name);
            file.push('.');
            push_str(&mut file, extensions[i]);
            assert(file@ =~= input@ + seq!['.'] + probe_extensions()[i as int]);
            let ghost before = strings_view(r@);
            let path = string_of(&join_path(&dir, &file));
            r.push(path);
            assert(strings_view(r@) =~= before.push(path@));
            assert(before.push(path@) =~= head + extended_paths(input@, save_dir@, i + 1));
            i = i + 1;
        }
    } else {
        assert(strings_view(r@) =~= strings_view(r@) + Seq::<Seq<char>>::empty());
    }
    r
}

/// The data URI that carries the content `bytes` of the file at `path`.
pub fn local_payload(path: &str, bytes: &[u8]) -> (r: String)
    requires
        encodable_len(bytes@.len()),
    ensures
        r@ == file_payload(path@, bytes@),
{
    let p = chars_of(path);
    let mime = mime_of_extension(&extension_of_path(&p));
    let encoded = encode(bytes);
    data_uri(&mime, encoded.as_str())
}

impl InputResolver {
    /// Starts the search for `input`, with `save_dir` as the save
    /// directory of the moment.
    pub fn new(input: &str, save_dir: &str) -> (r: InputResolver)
        ensures
            r@ == (ResolverModel {
                input: input@,
                paths: probe_paths(input@, save_dir@),
                position: 0,
            }),
    {
        InputResolver {
            input: input.to_owned(),
            paths: lookup_paths(input, save_dir),
            position: 0,
        }
    }

    /// The input as the caller gave it.
    pub fn input(&self) -> (r: &str)
        ensures
            r@ == self@.input,
    {
        self.input.as_str()
    }

    /// What is to happen next.
    pub fn step(&self) -> (s: ResolveStep)
        ensures
            s@ == self@.step(),
    {
        match classify_literal(self.input.as_str()) {
            Some(c) => ResolveStep::Done(c),
            None => {
                if self.position < self.paths.len() {
                    ResolveStep::Read { path: self.paths[self.position].clone() }
                } else {
                    ResolveStep::Unrecognized
                }
            },
        }
    }

    /// The path that was to be read could not be read.
    pub fn missing(&mut self)
        ensures
            final(self)@ == old(self)@.after_missing(),
    {
        if self.position < self.paths.len() {
            self.position = self.position + 1;
        }
    }

    /// The path that was to be read gave `bytes`.
    pub fn found(&self, bytes: &[u8]) -> (r: Result<ClassifiedImageInput, InputUnrecognized>)
        ensures
            match r {
                Ok(c) => self@.found(bytes@) == Ok::<ClassifiedImageInputView, InputUnrecognized>(
                    c@,
                ),
                Err(e) => self@.found(bytes@) == Err::<ClassifiedImageInputView, InputUnrecognized>(
                    e,
                ),
            },
    {
        let chars = chars_of(self.input.as_str());
        if source_is_remote(&chars) || source_is_data_image(&chars) {
            return Err(InputUnrecognized);
        }
        if self.position >= self.paths.len() || !can_encode(bytes.len()) {
            return Err(InputUnrecognized);
        }
        let payload = local_payload(self.paths[self.position].as_str(), bytes);
        let kind = if self.position == 0 {
            ImageInputKind::Base64
        } else {
            ImageInputKind::LocalFileResolved
        };
        Ok(ClassifiedImageInput { kind, payload })
    }
}

} // verus!
