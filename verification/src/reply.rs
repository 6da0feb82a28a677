//! What a reply of the endpoint holds: one text and a list of images.
//!
//! Providers disagree on the shape of a reply. The message may stand under
//! `choices[0].message` or under `candidates[0].content`; its images may be
//! typed parts of the content, entries of a sibling `images` array, entries
//! of a top-level `data` array, or markdown inside the text. All of them
//! end up in one list of [`ImageDescriptor`]s.

use crate::error::{Malformed, ToolError, ToolErrorView};
use crate::json::{
    as_items, as_text, field, items_field, items_member, json_of, member, models_of,
    text_field, text_member, text_of, JsonModel,
};
use crate::markdown::{
    cleaned_text, embedded_images, extract_images_from_markdown, lemma_plain_text,
};
use crate::source::{embedded_mime, mime_of_source};
use crate::text::{
    chars_of, is_whitespace, lemma_trimmed_unchanged, push_str, str_eq, string_of, strings_view,
};
use vstd::prelude::*;

verus! {

/// One image found in a reply.
#[derive(Clone, Debug, PartialEq, Eq)]
pub struct ImageDescriptor {
    /// A remote URL or a data URI; empty where the reply named no source.
    pub source_url: String,
    /// The MIME type that the source names, if it is a data URI that does.
    pub mime_hint: Option<String>,
}

/// Mathematical value of an [`ImageDescriptor`].
pub struct ImageDescriptorView {
    pub source_url: Seq<char>,
    pub mime_hint: Option<Seq<char>>,
}

impl View for ImageDescriptor {
    type V = ImageDescriptorView;

    open spec fn view(&self) -> ImageDescriptorView {
        ImageDescriptorView {
            source_url: self.source_url@,
            mime_hint: match self.mime_hint {
                Some(m) => Some(m@),
                None => None,
            },
        }
    }
}

/// The descriptor of the image at `source`.
pub open spec fn descriptor_for(source: Seq<char>) -> ImageDescriptorView {
    ImageDescriptorView { source_url: source, mime_hint: embedded_mime(source) }
}

/// The descriptors of the images at `sources`, in order.
pub open spec fn descriptors_for(sources: Seq<Seq<char>>) -> Seq<ImageDescriptorView> {
    Seq::new(sources.len(), |i: int| descriptor_for(sources[i]))
}

/// View of a list of descriptors.
pub open spec fn descriptors_view(v: Seq<ImageDescriptor>) -> Seq<ImageDescriptorView> {
    Seq::new(v.len(), |i: int| v[i]@)
}

impl ImageDescriptor {
    /// The descriptor of the image at `source`.
    pub fn new(source: &str) -> (d: ImageDescriptor)
        ensures
            d@ == descriptor_for(source@),
    {
        let chars = chars_of(source);
        let mime_hint = match mime_of_source(&chars) {
            Some(m) => Some(string_of(&m)),
            None => None,
        };
        ImageDescriptor { source_url: string_of(&chars), mime_hint }
    }
}

/// Text fragments and images collected from a reply, each in the order in
/// which they were met.
pub struct Gathered {
    pub texts: Seq<Seq<char>>,
    pub images: Seq<ImageDescriptorView>,
}

impl Gathered {
    /// Nothing collected.
    pub open spec fn nothing() -> Gathered {
        Gathered { texts: Seq::empty(), images: Seq::empty() }
    }

    /// What `self` holds, followed by what `next` holds.
    pub open spec fn followed_by(self, next: Gathered) -> Gathered {
        Gathered { texts: self.texts + next.texts, images: self.images + next.images }
    }
}

/// The text put in place of an answer that holds no text.
pub open spec fn no_content_text() -> Seq<char> {
    "no content"@
}

/// The message given for an `error` member that carries none.
pub open spec fn unknown_error_text() -> Seq<char> {
    "unknown error"@
}

/// What a data URI of a bare base64 payload starts with.
pub open spec fn png_data_prefix() -> Seq<char> {
    "data:image/png;base64,"@
}

/// The message of the `error` member of a reply, if it has such a member.
pub open spec fn upstream_error(reply: JsonModel) -> Option<Seq<char>> {
    match field(reply, "error"@) {
        Some(e) => Some(
            match text_field(e, "message"@) {
                Some(m) => m,
                None => unknown_error_text(),
            },
        ),
        None => None,
    }
}

/// The message of a reply: `choices[0].message` where `choices` is an
/// array, else `candidates[0].content` where `candidates` is one.
pub open spec fn message_container(reply: JsonModel) -> Result<JsonModel, Malformed> {
    match items_field(reply, "choices"@) {
        Some(choices) => if choices.len() == 0 {
            Err(Malformed::EmptyChoices)
        } else {
            match field(choices[0], "message"@) {
                Some(m) => Ok(m),
                None => Err(Malformed::MissingMessage),
            }
        },
        None => match items_field(reply, "candidates"@) {
            Some(candidates) => if candidates.len() == 0 {
                Err(Malformed::EmptyCandidates)
            } else {
                match field(candidates[0], "content"@) {
                    Some(c) => Ok(c),
                    None => Err(Malformed::MissingContent),
                }
            },
            None => Err(Malformed::NoEnvelope),
        },
    }
}

/// The content of a message: its `content`, else its `parts`, else the
/// message itself.
pub open spec fn content_of(message: JsonModel) -> JsonModel {
    match field(message, "content"@) {
        Some(c) => c,
        None => match field(message, "parts"@) {
            Some(p) => p,
            None => message,
        },
    }
}

/// The source that a URL object names: its `url` where that is a string.
pub open spec fn url_of(url_object: JsonModel) -> Seq<char> {
    match text_field(url_object, "url"@) {
        Some(u) => u,
        None => Seq::empty(),
    }
}

/// What a piece of text yields: the text without its embedded images, if
/// anything is left of it, and those images.
pub open spec fn gathered_from_text(t: Seq<char>) -> Gathered {
    Gathered {
        texts: if cleaned_text(t).len() > 0 {
            seq![cleaned_text(t)]
        } else {
            Seq::empty()
        },
        images: descriptors_for(embedded_images(t)),
    }
}

/// What one typed part yields. A part of type `text` yields what its text
/// does, one of type `image_url` the image of its URL object; any other
/// part yields nothing.
pub open spec fn gathered_from_part(part: JsonModel) -> Gathered {
    let kind = text_field(part, "type"@);
    if kind == Some("text"@) {
        match text_field(part, "text"@) {
            Some(t) => gathered_from_text(t),
            None => Gathered::nothing(),
        }
    } else if kind == Some("image_url"@) {
        match field(part, "image_url"@) {
            Some(o) => Gathered { texts: Seq::empty(), images: seq![descriptor_for(url_of(o))] },
            None => Gathered::nothing(),
        }
    } else {
        Gathered::nothing()
    }
}

/// What the first `n` parts yield, in order.
pub open spec fn gathered_from_parts(parts: Seq<JsonModel>, n: int) -> Gathered
    decreases n,
{
    if n <= 0 {
        Gathered::nothing()
    } else {
        gathered_from_parts(parts, n - 1).followed_by(gathered_from_part(parts[n - 1]))
    }
}

/// What the content of a message yields: a string as one piece of text, an
/// array as typed parts, anything else nothing.
pub open spec fn gathered_from_content(content: JsonModel) -> Gathered {
    match content {
        JsonModel::Text(t) => gathered_from_text(t),
        JsonModel::Array(parts) => gathered_from_parts(parts, parts.len() as int),
        _ => Gathered::nothing(),
    }
}

/// The image of an entry of a message's `images` array: that of its
/// `image_url`, if it has one.
pub open spec fn attached_image(entry: JsonModel) -> Seq<ImageDescriptorView> {
    match field(entry, "image_url"@) {
        Some(o) => seq![descriptor_for(url_of(o))],
        None => Seq::empty(),
    }
}

/// The images of the first `n` entries of a message's `images` array.
pub open spec fn attached_images(entries: Seq<JsonModel>, n: int) -> Seq<ImageDescriptorView>
    decreases n,
{
    if n <= 0 {
        Seq::empty()
    } else {
        attached_images(entries, n - 1) + attached_image(entries[n - 1])
    }
}

/// The image of an entry of a top-level `data` array: a PNG data URI made
/// of its `b64_json`, where that is a string, else the image at its `url`,
/// if it has one.
pub open spec fn data_image(entry: JsonModel) -> Seq<ImageDescriptorView> {
    match text_field(entry, "b64_json"@) {
        Some(b) => seq![descriptor_for(png_data_prefix() + b)],
        None => match field(entry, "url"@) {
            Some(u) => seq![
                descriptor_for(
                    match text_of(u) {
                        Some(s) => s,
                        None => Seq::empty(),
                    },
                ),
            ],
            None => Seq::empty(),
        },
    }
}

/// The images of the first `n` entries of a top-level `data` array.
pub open spec fn data_images(entries: Seq<JsonModel>, n: int) -> Seq<ImageDescriptorView>
    decreases n,
{
    if n <= 0 {
        Seq::empty()
    } else {
        data_images(entries, n - 1) + data_image(entries[n - 1])
    }
}

/// The images attached to a message: those of its `images` array, if it
/// has one.
pub open spec fn attached_to(message: JsonModel) -> Seq<ImageDescriptorView> {
    match items_field(message, "images"@) {
        Some(entries) => attached_images(entries, entries.len() as int),
        None => Seq::empty(),
    }
}

/// The images of the top-level `data` array, if there is one.
pub open spec fn data_of(reply: JsonModel) -> Seq<ImageDescriptorView> {
    match items_field(reply, "data"@) {
        Some(entries) => data_images(entries, entries.len() as int),
        None => Seq::empty(),
    }
}

/// The first `n` fragments, joined by line feeds.
pub open spec fn joined(texts: Seq<Seq<char>>, n: int) -> Seq<char>
    decreases n,
{
    if n <= 0 {
        Seq::empty()
    } else if n == 1 {
        texts[0]
    } else {
        joined(texts, n - 1) + seq!['\n'] + texts[n - 1]
    }
}

/// The text of a reply: its fragments joined by line feeds, or the fixed
/// text that stands for an answer without any.
pub open spec fn merged_text(texts: Seq<Seq<char>>) -> Seq<char> {
    if texts.len() == 0 {
        no_content_text()
    } else {
        joined(texts, texts.len() as int)
    }
}

/// The images of a reply whose message is `message`: those of the content,
/// then those attached to the message; where there are none of either,
/// those of the top-level `data` array.
pub open spec fn images_of(reply: JsonModel, message: JsonModel) -> Seq<ImageDescriptorView> {
    let found = gathered_from_content(content_of(message)).images + attached_to(message);
    if found.len() == 0 {
        data_of(reply)
    } else {
        found
    }
}

/// What a reply holds, or why it holds nothing.
///
/// An `error` member decides before anything else is looked at.
pub open spec fn normalized(reply: JsonModel) -> Result<
    (Seq<char>, Seq<ImageDescriptorView>),
    ToolErrorView,
> {
    match upstream_error(reply) {
        Some(message) => Err(ToolErrorView::Upstream { message }),
        None => match message_container(reply) {
            Err(reason) => Err(ToolErrorView::MalformedResponse { reason }),
            Ok(message) => Ok(
                (
                    merged_text(gathered_from_content(content_of(message)).texts),
                    images_of(reply, message),
                ),
            ),
        },
    }
}

/// A text without `!` that neither starts nor ends with whitespace.
pub open spec fn is_plain(t: Seq<char>) -> bool {
    &&& t.len() > 0
    &&& !is_whitespace(t[0])
    &&& !is_whitespace(t.last())
    &&& forall|k: int| 0 <= k < t.len() ==> t[k] != '!'
}

/// A reply with an `error` member yields that error, whatever else it
/// holds: the message of the member where it has one, else the fixed text.
pub proof fn lemma_error_member_decides(reply: JsonModel)
    requires
        field(reply, "error"@) is Some,
    ensures
        normalized(reply) == Err::<(Seq<char>, Seq<ImageDescriptorView>), ToolErrorView>(
            ToolErrorView::Upstream {
                message: match text_field(field(reply, "error"@)->0, "message"@) {
                    Some(m) => m,
                    None => unknown_error_text(),
                },
            },
        ),
{
}

/// A reply without `error` whose `choices` is an empty array is malformed,
/// whatever else it holds.
pub proof fn lemma_empty_choices_is_malformed(reply: JsonModel)
    requires
        field(reply, "error"@) is None,
        items_field(reply, "choices"@) == Some(Seq::<JsonModel>::empty()),
    ensures
        normalized(reply) == Err::<(Seq<char>, Seq<ImageDescriptorView>), ToolErrorView>(
            ToolErrorView::MalformedResponse { reason: Malformed::EmptyChoices },
        ),
{
}

/// The object with the one member `key`.
pub open spec fn object_of(key: Seq<char>, value: JsonModel) -> JsonModel {
    JsonModel::Object(Map::empty().insert(key, value))
}

/// A reply of the shape `{choices:[{message:{content:t}}]}` with a plain
/// text `t` yields that text and no image.
pub proof fn lemma_plain_content_of_first_choice(t: Seq<char>)
    requires
        is_plain(t),
    ensures
        normalized(
            object_of(
                "choices"@,
                JsonModel::Array(
                    seq![object_of("message"@, object_of("content"@, JsonModel::Text(t)))],
                ),
            ),
        ) == Ok::<(Seq<char>, Seq<ImageDescriptorView>), ToolErrorView>((t, Seq::empty())),
{
    reveal_strlit("choices");
    reveal_strlit("message");
    reveal_strlit("content");
    reveal_strlit("error");
    reveal_strlit("images");
    reveal_strlit("data");
    let message = object_of("content"@, JsonModel::Text(t));
    let choice = object_of("message"@, message);
    let choices = seq![choice];
    let reply = object_of("choices"@, JsonModel::Array(choices));
    assert("error"@ != "choices"@) by {
        assert("error"@.len() != "choices"@.len());
    }
    assert("data"@ != "choices"@) by {
        assert("data"@.len() != "choices"@.len());
    }
    assert("images"@ != "content"@) by {
        assert("images"@.len() != "content"@.len());
    }
    assert(field(reply, "error"@) is None);
    assert(items_field(reply, "choices"@) == Some(choices));
    assert(choices[0] == choice);
    assert(message_container(reply) == Ok::<JsonModel, Malformed>(message));
    assert(content_of(message) == JsonModel::Text(t));
    lemma_plain_text(t, 0);
    assert(t.subrange(0, t.len() as int) =~= t);
    lemma_trimmed_unchanged(t);
    assert(cleaned_text(t) == t);
    assert(descriptors_for(embedded_images(t)) =~= Seq::<ImageDescriptorView>::empty());
    let g = gathered_from_content(content_of(message));
    assert(g.texts == seq![t]);
    assert(joined(seq![t], 1) == t);
    assert(attached_to(message) =~= Seq::<ImageDescriptorView>::empty());
    assert(data_of(reply) =~= Seq::<ImageDescriptorView>::empty());
    assert(g.images + attached_to(message) =~= Seq::<ImageDescriptorView>::empty());
}

/// The typed part that carries the text `t`.
pub open spec fn text_part(t: Seq<char>) -> JsonModel {
    JsonModel::Object(
        Map::empty().insert("type"@, JsonModel::Text("text"@)).insert("text"@, JsonModel::Text(t)),
    )
}

/// The typed part that carries the image at `url`.
pub open spec fn image_part(url: Seq<char>) -> JsonModel {
    JsonModel::Object(
        Map::empty().insert("type"@, JsonModel::Text("image_url"@)).insert(
            "image_url"@,
            object_of("url"@, JsonModel::Text(url)),
        ),
    )
}

/// A reply of the shape `{candidates:[{content:{parts:[text, image]}}]}`
/// with a plain text and an image URL yields that text and exactly one
/// image, with that URL as its source.
pub proof fn lemma_parts_of_first_candidate(t: Seq<char>, url: Seq<char>)
    requires
        is_plain(t),
    ensures
        normalized(
            object_of(
                "candidates"@,
                JsonModel::Array(
                    seq![
                        object_of(
                            "content"@,
                            object_of("parts"@, JsonModel::Array(seq![text_part(t), image_part(url)])),
                        ),
                    ],
                ),
            ),
        ) == Ok::<(Seq<char>, Seq<ImageDescriptorView>), ToolErrorView>(
            (t, seq![descriptor_for(url)]),
        ),
{
    reveal_strlit("choices");
    reveal_strlit("candidates");
    reveal_strlit("content");
    reveal_strlit("parts");
    reveal_strlit("error");
    reveal_strlit("images");
    reveal_strlit("data");
    reveal_strlit("type");
    reveal_strlit("text");
    reveal_strlit("image_url");
    reveal_strlit("url");
    let parts = seq![text_part(t), image_part(url)];
    let container = object_of("parts"@, JsonModel::Array(parts));
    let candidate = object_of("content"@, container);
    let candidates = seq![candidate];
    let reply = object_of("candidates"@, JsonModel::Array(candidates));
    assert("error"@ != "candidates"@) by {
        assert("error"@.len() != "candidates"@.len());
    }
    assert("choices"@ != "candidates"@) by {
        assert("choices"@.len() != "candidates"@.len());
    }
    assert("data"@ != "candidates"@) by {
        assert("data"@.len() != "candidates"@.len());
    }
    assert("content"@ != "parts"@) by {
        assert("content"@.len() != "parts"@.len());
    }
    assert("images"@ != "parts"@) by {
        assert("images"@.len() != "parts"@.len());
    }
    assert("type"@ != "text"@) by {
        assert("type"@[1] != "text"@[1]);
    }
    assert("type"@ != "image_url"@) by {
        assert("type"@.len() != "image_url"@.len());
    }
    assert("text"@ != "image_url"@) by {
        assert("text"@.len() != "image_url"@.len());
    }
    assert(field(reply, "error"@) is None);
    assert(items_field(reply, "choices"@) is None);
    assert(items_field(reply, "candidates"@) == Some(candidates));
    assert(candidates[0] == candidate);
    assert(message_container(reply) == Ok::<JsonModel, Malformed>(container));
    assert(field(container, "content"@) is None);
    assert(content_of(container) == JsonModel::Array(parts));
    lemma_plain_text(t, 0);
    assert(t.subrange(0, t.len() as int) =~= t);
    lemma_trimmed_unchanged(t);
    assert(cleaned_text(t) == t);
    assert(descriptors_for(embedded_images(t)) =~= Seq::<ImageDescriptorView>::empty());
    assert(text_field(text_part(t), "type"@) == Some("text"@));
    assert(text_field(text_part(t), "text"@) == Some(t));
    assert(gathered_from_part(parts[0]) == gathered_from_text(t));
    assert(text_field(image_part(url), "type"@) == Some("image_url"@));
    assert(field(image_part(url), "image_url"@) == Some(object_of("url"@, JsonModel::Text(url))));
    assert(url_of(object_of("url"@, JsonModel::Text(url))) == url);
    assert(gathered_from_part(parts[1]) == Gathered {
        texts: Seq::empty(),
        images: seq![descriptor_for(url)],
    });
    reveal_with_fuel(gathered_from_parts, 3);
    let g = gathered_from_parts(parts, 2);
    assert(g.texts =~= seq![t]);
    assert(g.images =~= seq![descriptor_for(url)]);
    assert(joined(seq![t], 1) == t);
    assert(attached_to(container) =~= Seq::<ImageDescriptorView>::empty());
    assert(g.images + attached_to(container) =~= seq![descriptor_for(url)]);
}

/// Appends one descriptor.
fn push_descriptor(images: &mut Vec<ImageDescriptor>, d: ImageDescriptor)
    ensures
        descriptors_view(final(images)@) == descriptors_view(old(images)@).push(d@),
{
    images.push(d);
    assert(descriptors_view(images@) =~= descriptors_view(old(images)@).push(d@));
}

/// Appends one text fragment.
fn push_text(texts: &mut Vec<String>, t: String)
    ensures
        strings_view(final(texts)@) == strings_view(old(texts)@).push(t@),
{
    texts.push(t);
    assert(strings_view(texts@) =~= strings_view(old(texts)@).push(t@));
}

/// The message of the `error` member of `reply`, if it has one.
fn read_upstream_error(reply: &serde_json::Value) -> (r: Option<String>)
    ensures
        match r {
            Some(m) => upstream_error(json_of(*reply)) == Some(m@),
            None => upstream_error(json_of(*reply)) is None,
        },
{
    match member(reply, "error") {
        Some(e) => match text_member(e, "message") {
            Some(m) => Some(m.to_owned()),
            None => Some("unknown error".to_owned()),
        },
        None => None,
    }
}

/// The message of `reply`.
fn read_message<'a>(reply: &'a serde_json::Value) -> (r: Result<&'a serde_json::Value, Malformed>)
    ensures
        match r {
            Ok(m) => message_container(json_of(*reply)) == Ok::<JsonModel, Malformed>(json_of(*m)),
            Err(reason) => message_container(json_of(*reply)) == Err::<JsonModel, Malformed>(
                reason,
            ),
        },
{
    match items_member(reply, "choices") {
        Some(choices) => {
            if choices.len() == 0 {
                return Err(Malformed::EmptyChoices);
            }
            match member(&choices[0], "message") {
                Some(m) => Ok(m),
                None => Err(Malformed::MissingMessage),
            }
        },
        None => match items_member(reply, "candidates") {
            Some(candidates) => {
                if candidates.len() == 0 {
                    return Err(Malformed::EmptyCandidates);
                }
                match member(&candidates[0], "content") {
                    Some(c) => Ok(c),
                    None => Err(Malformed::MissingContent),
                }
            },
            None => Err(Malformed::NoEnvelope),
        },
    }
}

/// The content of `message`.
fn read_content<'a>(message: &'a serde_json::Value) -> (r: &'a serde_json::Value)
    ensures
        json_of(*r) == content_of(json_of(*message)),
{
    match member(message, "content") {
        Some(c) => c,
        None => match member(message, "parts") {
            Some(p) => p,
            None => message,
        },
    }
}

/// The descriptor of the image that a URL object names.
fn read_url_object(url_object: &serde_json::Value) -> (d: ImageDescriptor)
    ensures
        d@ == descriptor_for(url_of(json_of(*url_object))),
{
    match text_member(url_object, "url") {
        Some(u) => ImageDescriptor::new(u),
        None => {
            let d = ImageDescriptor::new("");
            proof {
                reveal_strlit("");
                assert(""@ =~= Seq::<char>::empty());
            }
            d
        },
    }
}

/// Adds what the text `t` yields.
fn gather_text(t: &str, texts: &mut Vec<String>, images: &mut Vec<ImageDescriptor>)
    ensures
        strings_view(final(texts)@) == strings_view(old(texts)@) + gathered_from_text(t@).texts,
        descriptors_view(final(images)@) == descriptors_view(old(images)@) + gathered_from_text(
            t@,
        ).images,
{
    let (cleaned, embedded) = extract_images_from_markdown(t);
    let ghost uris = embedded_images(t@);
    let ghost start = descriptors_view(images@);
    let mut i: usize = 0;
    assert(start =~= start + descriptors_for(uris).take(0));
    while i < embedded.len()
        invariant
            i <= embedded.len(),
            strings_view(embedded@) == uris,
            descriptors_view(images@) == start + descriptors_for(uris).take(i as int),
        decreases embedded.len() - i,
    {
        let d = ImageDescriptor::new(embedded[i].as_str());
        assert(strings_view(embedded@)[i as int] == embedded@[i as int]@);
        push_descriptor(images, d);
        assert((start + descriptors_for(uris).take(i as int)).push(d@) =~= start
            + descriptors_for(uris).take(i + 1));
        i = i + 1;
    }
    assert(descriptors_for(uris).take(embedded.len() as int) =~= descriptors_for(uris));
    let ghost before = strings_view(texts@);
    if !cleaned.as_str().is_empty() {
        push_text(texts, cleaned);
        assert(before.push(cleaned_text(t@)) =~= before + seq![cleaned_text(t@)]);
    } else {
        assert(before =~= before + Seq::<Seq<char>>::empty());
    }
}

/// Adds what the typed part `part` yields.
fn gather_part(part: &serde_json::Value, texts: &mut Vec<String>, images: &mut Vec<ImageDescriptor>)
    ensures
        strings_view(final(texts)@) == strings_view(old(texts)@) + gathered_from_part(
            json_of(*part),
        ).texts,
        descriptors_view(final(images)@) == descriptors_view(old(images)@) + gathered_from_part(
            json_of(*part),
        ).images,
{
    let ghost t0 = strings_view(texts@);
    let ghost i0 = descriptors_view(images@);
    assert(t0 + Seq::<Seq<char>>::empty() =~= t0);
    assert(i0 + Seq::<ImageDescriptorView>::empty() =~= i0);
    let kind = match text_member(part, "type") {
        Some(k) => k,
        None => {
            return ;
        },
    };
    if str_eq(kind, "text") {
        match text_member(part, "text") {
            Some(t) => gather_text(t, texts, images),
            None => {},
        }
    } else if str_eq(kind, "image_url") {
        match member(part, "image_url") {
            Some(o) => {
                let d = read_url_object(o);
                push_descriptor(images, d);
                assert(i0.push(d@) =~= i0 + seq![d@]);
            },
            None => {},
        }
    }
}

/// Adds what the content `content` of a message yields.
fn gather_content(
    content: &serde_json::Value,
    texts: &mut Vec<String>,
    images: &mut Vec<ImageDescriptor>,
)
    ensures
        strings_view(final(texts)@) == strings_view(old(texts)@) + gathered_from_content(
            json_of(*content),
        ).texts,
        descriptors_view(final(images)@) == descriptors_view(old(images)@) + gathered_from_content(
            json_of(*content),
        ).images,
{
    let ghost t0 = strings_view(texts@);
    let ghost i0 = descriptors_view(images@);
    assert(t0 + Seq::<Seq<char>>::empty() =~= t0);
    assert(i0 + Seq::<ImageDescriptorView>::empty() =~= i0);
    match as_text(content) {
        Some(t) => {
            gather_text(t, texts, images);
        },
        None => match as_items(content) {
            Some(parts) => {
                let ghost models = models_of(parts@);
                let mut i: usize = 0;
                while i < parts.len()
                    invariant
                        i <= parts.len(),
                        models == models_of(parts@),
                        strings_view(texts@) == t0 + gathered_from_parts(models, i as int).texts,
                        descriptors_view(images@) == i0 + gathered_from_parts(
                            models,
                            i as int,
                        ).images,
                    decreases parts.len() - i,
                {
                    let ghost g = gathered_from_parts(models, i as int);
                    let ghost p = gathered_from_part(models[i as int]);
                    gather_part(&parts[i], texts, images);
                    assert(strings_view(texts@) =~= t0 + (g.texts + p.texts));
                    assert(descriptors_view(images@) =~= i0 + (g.images + p.images));
                    i = i + 1;
                }
            },
            None => {},
        },
    }
}

/// Adds the images attached to `message`.
fn gather_attached(message: &serde_json::Value, images: &mut Vec<ImageDescriptor>)
    ensures
        descriptors_view(final(images)@) == descriptors_view(old(images)@) + attached_to(
            json_of(*message),
        ),
{
    let ghost i0 = descriptors_view(images@);
    assert(i0 + Seq::<ImageDescriptorView>::empty() =~= i0);
    match items_member(message, "images") {
        Some(entries) => {
            let ghost models = models_of(entries@);
            let mut i: usize = 0;
            while i < entries.len()
                invariant
                    i <= entries.len(),
                    models == models_of(entries@),
                    descriptors_view(images@) == i0 + attached_images(models, i as int),
                decreases entries.len() - i,
            {
                let ghost sofar = attached_images(models, i as int);
                match member(&entries[i], "image_url") {
                    Some(o) => {
                        let d = read_url_object(o);
                        push_descriptor(images, d);
                        assert((i0 + sofar).push(d@) =~= i0 + (sofar + seq![d@]));
                    },
                    None => {
                        assert(i0 + sofar =~= i0 + (sofar + Seq::<ImageDescriptorView>::empty()));
                    },
                }
                i = i + 1;
            }
        },
        None => {},
    }
}

/// Adds the images of the top-level `data` array of `reply`.
fn gather_data(reply: &serde_json::Value, images: &mut Vec<ImageDescriptor>)
    ensures
        descriptors_view(final(images)@) == descriptors_view(old(images)@) + data_of(
            json_of(*reply),
        ),
{
    let ghost i0 = descriptors_view(images@);
    assert(i0 + Seq::<ImageDescriptorView>::empty() =~= i0);
    match items_member(reply, "data") {
        Some(entries) => {
            let ghost models = models_of(entries@);
            let mut i: usize = 0;
            while i < entries.len()
                invariant
                    i <= entries.len(),
                    models == models_of(entries@),
                    descriptors_view(images@) == i0 + data_images(models, i as int),
                decreases entries.len() - i,
            {
                let ghost sofar = data_images(models, i as int);
                let ghost entry = models[i as int];
                match text_member(&entries[i], "b64_json") {
                    Some(b) => {
                        let mut source: Vec<char> = Vec::new();
                        push_str(&mut source, "data:image/png;base64,");
                        push_str(&mut source, b);
                        let text = string_of(&source);
                        let d = ImageDescriptor::new(text.as_str());
                        assert(source@ =~= png_data_prefix() + b@);
                        push_descriptor(images, d);
                        assert((i0 + sofar).push(d@) =~= i0 + (sofar + seq![d@]));
                    },
                    None => match member(&entries[i], "url") {
                        Some(u) => {
                            let d = match as_text(u) {
                                Some(s) => ImageDescriptor::new(s),
                                None => {
                                    proof {
                                        reveal_strlit("");
                                        assert(""@ =~= Seq::<char>::empty());
                                    }
                                    ImageDescriptor::new("")
                                },
                            };
                            push_descriptor(images, d);
                            assert((i0 + sofar).push(d@) =~= i0 + (sofar + seq![d@]));
                        },
                        None => {
                            assert(i0 + sofar =~= i0 + (sofar + Seq::<
                                ImageDescriptorView,
                            >::empty()));
                        },
                    },
                }
                i = i + 1;
            }
        },
        None => {},
    }
}

/// The fragments joined by line feeds, or the fixed text that stands for
/// an answer without any.
pub fn merge_texts(texts: &Vec<String>) -> (r: String)
    ensures
        r@ == merged_text(strings_view(texts@)),
{
    if texts.len() == 0 {
        return "no content".to_owned();
    }
    let ghost all = strings_view(texts@);
    let mut out: Vec<char> = Vec::new();
    push_str(&mut out, texts[0].as_str());
    assert(out@ =~= joined(all, 1));
    let mut i: usize = 1;
    while i < texts.len()
        invariant
            1 <= i <= texts.len(),
            all == strings_view(texts@),
            out@ == joined(all, i as int),
        decreases texts.len() - i,
    {
        out.push('\n');
        push_str(&mut out, texts[i].as_str());
        assert(out@ =~= joined(all, i as int) + seq!['\n'] + all[i as int]);
        i = i + 1;
    }
    string_of(&out)
}

/// Reads the text and the images out of a reply of the endpoint.
///
/// Fails with `Upstream` where the reply has an `error` member, whatever
/// else it holds, and with `MalformedResponse` where it has no message.
pub fn extract_text_and_images(response: &serde_json::Value) -> (r: Result<
    (String, Vec<ImageDescriptor>),
    ToolError,
>)
    ensures
        match r {
            Ok((text, images)) => normalized(json_of(*response)) == Ok::<
                (Seq<char>, Seq<ImageDescriptorView>),
                ToolErrorView,
            >((text@, descriptors_view(images@))),
            Err(e) => normalized(json_of(*response)) == Err::<
                (Seq<char>, Seq<ImageDescriptorView>),
                ToolErrorView,
            >(e@),
        },
{
    match read_upstream_error(response) {
        Some(message) => {
            return Err(ToolError::Upstream { message });
        },
        None => {},
    }
    let message = match read_message(response) {
        Ok(m) => m,
        Err(reason) => {
            return Err(ToolError::MalformedResponse { reason });
        },
    };
    let mut texts: Vec<String> = Vec::new();
    let mut images: Vec<ImageDescriptor> = Vec::new();
    assert(strings_view(texts@) =~= Seq::<Seq<char>>::empty());
    assert(descriptors_view(images@) =~= Seq::<ImageDescriptorView>::empty());
    gather_content(read_content(message), &mut texts, &mut images);
    gather_attached(message, &mut images);
    let ghost g = gathered_from_content(content_of(json_of(*message)));
    assert(strings_view(texts@) =~= g.texts);
    assert(descriptors_view(images@) =~= g.images + attached_to(json_of(*message)));
    if images.len() == 0 {
        gather_data(response, &mut images);
        assert(descriptors_view(images@) =~= data_of(json_of(*response)));
    }
    Ok((merge_texts(&texts), images))
}

} // verus!
