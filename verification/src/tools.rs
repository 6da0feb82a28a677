//! The two operations, image generation and image editing, as far as they
//! are computation: what is sent to the endpoint, what its answer means,
//! and what the caller is told.

use crate::classify::literal_kind;
use crate::error::{Malformed, ToolError, ToolErrorView};
use crate::json::{
    field, json_of, member, parse, parsed_json, unsigned_field, unsigned_member, JsonModel,
};
use crate::persist::{records_view, SavedImageInfo, SavedImageInfoView};
use crate::reply::{
    descriptors_view, extract_text_and_images, normalized, ImageDescriptor, ImageDescriptorView,
};
use crate::source::{file_stem, source_is_data_image, source_is_remote, stem_of_path};
use crate::text::{chars_of, decimal, push_decimal, push_str, string_of, strings_view};
use vstd::prelude::*;

verus! {

/// Upper bound on the length of the answer that is asked for.
pub const MAX_TOKENS: u32 = 1000;

/// What is asked of the image generation.
#[derive(Clone, Debug, PartialEq, Eq)]
pub struct GenerateImageArgs {
    /// What the image is to show.
    pub prompt: String,
}

/// What is asked of the image editing.
#[derive(Clone, Debug, PartialEq, Eq)]
pub struct EditImageArgs {
    /// What is to be done with the images.
    pub instruction: String,
    /// The images: each a URL, a data URI or the path of a local file.
    pub images: Vec<String>,
}

/// One part of the message that is sent.
#[derive(Clone, Debug, PartialEq, Eq)]
pub enum ContentPart {
    Text { text: String },
    ImageUrl { url: String },
}

/// Mathematical value of a [`ContentPart`].
pub enum ContentPartView {
    Text { text: Seq<char> },
    ImageUrl { url: Seq<char> },
}

impl View for ContentPart {
    type V = ContentPartView;

    open spec fn view(&self) -> ContentPartView {
        match self {
            ContentPart::Text { text } => ContentPartView::Text { text: text@ },
            ContentPart::ImageUrl { url } => ContentPartView::ImageUrl { url: url@ },
        }
    }
}

/// View of a list of parts.
pub open spec fn parts_view(v: Seq<ContentPart>) -> Seq<ContentPartView> {
    Seq::new(v.len(), |i: int| v[i]@)
}

/// What is sent to the endpoint: one user message for one model.
#[derive(Clone, Debug, PartialEq, Eq)]
pub struct ChatRequest {
    pub model: String,
    /// The parts of the one user message.
    pub content: Vec<ContentPart>,
    pub max_tokens: u32,
}

/// Mathematical value of a [`ChatRequest`].
pub struct ChatRequestView {
    pub model: Seq<char>,
    pub content: Seq<ContentPartView>,
    pub max_tokens: u32,
}

impl View for ChatRequest {
    type V = ChatRequestView;

    open spec fn view(&self) -> ChatRequestView {
        ChatRequestView {
            model: self.model@,
            content: parts_view(self.content@),
            max_tokens: self.max_tokens,
        }
    }
}

/// The request of a generation: the prompt as the only part.
pub open spec fn generate_request(model: Seq<char>, prompt: Seq<char>) -> ChatRequestView {
    ChatRequestView {
        model,
        content: seq![ContentPartView::Text { text: prompt }],
        max_tokens: MAX_TOKENS,
    }
}

/// The request of an edit: the instruction, then one part for each image,
/// in the order of the images.
pub open spec fn edit_request(
    model: Seq<char>,
    instruction: Seq<char>,
    urls: Seq<Seq<char>>,
) -> ChatRequestView {
    ChatRequestView {
        model,
        content: seq![ContentPartView::Text { text: instruction }] + Seq::new(
            urls.len(),
            |i: int| ContentPartView::ImageUrl { url: urls[i] },
        ),
        max_tokens: MAX_TOKENS,
    }
}

/// Where requests are posted to, for an endpoint at `base_url`.
pub open spec fn endpoint_of(base_url: Seq<char>) -> Seq<char> {
    base_url + "/chat/completions"@
}

/// The name under which the results of an edit are stored: that of the
/// first image without directories and extension, where that image is a
/// local file.
pub open spec fn edit_base_name(images: Seq<Seq<char>>) -> Option<Seq<char>> {
    if images.len() > 0 && literal_kind(images[0]) is None {
        Some(file_stem(images[0]))
    } else {
        None
    }
}

/// The numbers of tokens that the endpoint reports.
#[derive(Clone, Copy, Debug, PartialEq, Eq, Structural)]
pub struct TokenUsage {
    pub prompt_tokens: u64,
    pub completion_tokens: u64,
    pub total_tokens: u64,
}

/// The token usage of a reply: that of its `usage` member, where all three
/// numbers are there.
pub open spec fn usage_of(reply: JsonModel) -> Option<TokenUsage> {
    match field(reply, "usage"@) {
        Some(u) => match (
            unsigned_field(u, "prompt_tokens"@),
            unsigned_field(u, "completion_tokens"@),
            unsigned_field(u, "total_tokens"@),
        ) {
            (Some(prompt_tokens), Some(completion_tokens), Some(total_tokens)) => Some(
                TokenUsage { prompt_tokens, completion_tokens, total_tokens },
            ),
            _ => None,
        },
        None => None,
    }
}

/// What a reply of the endpoint holds.
#[derive(Clone, Debug, PartialEq, Eq)]
pub struct Reply {
    pub text: String,
    pub images: Vec<ImageDescriptor>,
    pub usage: Option<TokenUsage>,
}

/// Mathematical value of a [`Reply`].
pub struct ReplyView {
    pub text: Seq<char>,
    pub images: Seq<ImageDescriptorView>,
    pub usage: Option<TokenUsage>,
}

impl View for Reply {
    type V = ReplyView;

    open spec fn view(&self) -> ReplyView {
        ReplyView { text: self.text@, images: descriptors_view(self.images@), usage: self.usage }
    }
}

/// What a reply holds, with its token usage, or why it holds nothing.
pub open spec fn reply_of(reply: JsonModel) -> Result<ReplyView, ToolErrorView> {
    match normalized(reply) {
        Ok((text, images)) => Ok(ReplyView { text, images, usage: usage_of(reply) }),
        Err(e) => Err(e),
    }
}

/// The status stands for success.
pub open spec fn is_success(status: u16) -> bool {
    200 <= status <= 299
}

/// What an answer of the endpoint means. A status outside 200..=299 is an
/// error that carries status and body; a body that is not JSON has no
/// shape; anything else is read as a reply.
pub open spec fn interpreted(status: u16, body: Seq<char>) -> Result<ReplyView, ToolErrorView> {
    if !is_success(status) {
        Err(ToolErrorView::UpstreamHttp { status, body })
    } else {
        match parsed_json(body) {
            None => Err(ToolErrorView::MalformedResponse { reason: Malformed::NotJson }),
            Some(reply) => reply_of(reply),
        }
    }
}

/// The first lines of the report of a generation.
pub open spec fn generate_header(
    model: Seq<char>,
    prompt: Seq<char>,
    save_dir: Seq<char>,
    text: Seq<char>,
) -> Seq<char> {
    "**Model:** "@ + model + "\n**Prompt:** "@ + prompt + "\n**Save directory:** "@ + save_dir
        + "\n**Response:** "@ + text
}

/// The first lines of the report of an edit.
pub open spec fn edit_header(
    model: Seq<char>,
    instruction: Seq<char>,
    inputs: nat,
    text: Seq<char>,
) -> Seq<char> {
    "**Model:** "@ + model + "\n**Instruction:** "@ + instruction + "\n**Input images:** "@
        + decimal(inputs) + " images"@ + "\n**Response:** "@ + text
}

/// The lines of the report for image number `number`, counted from 1.
pub open spec fn record_lines(number: nat, record: SavedImageInfoView) -> Seq<char> {
    "\n- image "@ + decimal(number) + ": "@ + record.source_preview + "..."@ + (match record.saved_path {
        Some(path) => "\n  saved to: "@ + path,
        None => "\n  not saved to a file"@,
    }) + (if record.diagnostic.len() > 0 {
        "\n  [note] "@ + record.diagnostic
    } else {
        Seq::empty()
    })
}

/// The lines of the report for the first `n` records.
pub open spec fn records_lines(records: Seq<SavedImageInfoView>, n: int) -> Seq<char>
    decreases n,
{
    if n <= 0 {
        Seq::empty()
    } else {
        records_lines(records, n - 1) + record_lines(n as nat, records[n - 1])
    }
}

/// The part of the report on the images: empty for a reply without
/// images, else their number and the lines of each record.
pub open spec fn images_section(count: nat, records: Seq<SavedImageInfoView>) -> Seq<char> {
    if count == 0 {
        Seq::empty()
    } else {
        "\n\n**Generated images:** "@ + decimal(count) + " images"@ + records_lines(
            records,
            records.len() as int,
        )
    }
}

/// The part of the report on the token usage.
pub open spec fn usage_section(usage: Option<TokenUsage>) -> Seq<char> {
    match usage {
        Some(u) => "\n\n**Usage:**\n- prompt tokens: "@ + decimal(u.prompt_tokens as nat)
            + "\n- completion tokens: "@ + decimal(u.completion_tokens as nat)
            + "\n- total tokens: "@ + decimal(u.total_tokens as nat),
        None => Seq::empty(),
    }
}

/// A report: its first lines, the images, the token usage.
pub open spec fn report_text(
    header: Seq<char>,
    count: nat,
    records: Seq<SavedImageInfoView>,
    usage: Option<TokenUsage>,
) -> Seq<char> {
    header + images_section(count, records) + usage_section(usage)
}

impl EditImageArgs {
    /// An edit needs at least one image.
    pub fn check(&self) -> (r: Result<(), ToolError>)
        ensures
            self.images@.len() == 0 <==> r is Err,
            r matches Err(e) ==> e@ == ToolErrorView::Usage,
    {
        if self.images.len() == 0 {
            Err(ToolError::Usage)
        } else {
            Ok(())
        }
    }

    /// The name under which the results of the edit are stored.
    pub fn base_name(&self) -> (r: Option<String>)
        ensures
            match r {
                Some(b) => edit_base_name(strings_view(self.images@)) == Some(b@),
                None => edit_base_name(strings_view(self.images@)) is None,
            },
    {
        base_name_of(&self.images)
    }
}

/// The name under which the results of an edit of `images` are stored.
pub fn base_name_of(images: &Vec<String>) -> (r: Option<String>)
    ensures
        match r {
            Some(b) => edit_base_name(strings_view(images@)) == Some(b@),
            None => edit_base_name(strings_view(images@)) is None,
        },
{
    if images.len() == 0 {
        return None;
    }
    let first = chars_of(images[0].as_str());
    if source_is_remote(&first) || source_is_data_image(&first) {
        None
    } else {
        Some(string_of(&stem_of_path(&first)))
    }
}

impl ChatRequest {
    /// A second value of the same request.
    pub fn duplicate(&self) -> (r: ChatRequest)
        ensures
            r@ == self@,
    {
        let mut content: Vec<ContentPart> = Vec::new();
        let mut i: usize = 0;
        assert(parts_view(content@) =~= parts_view(self.content@).take(0));
        while i < self.content.len()
            invariant
                i <= self.content.len(),
                parts_view(content@) == parts_view(self.content@).take(i as int),
            decreases self.content.len() - i,
        {
            let ghost before = parts_view(content@);
            let part = match &self.content[i] {
                ContentPart::Text { text } => ContentPart::Text { text: text.clone() },
                ContentPart::ImageUrl { url } => ContentPart::ImageUrl { url: url.clone() },
            };
            content.push(part);
            assert(parts_view(content@) =~= before.push(part@));
            assert(parts_view(self.content@)[i as int] == part@);
            assert(parts_view(self.content@).take(i + 1) =~= parts_view(self.content@).take(
                i as int,
            ).push(part@));
            i = i + 1;
        }
        assert(parts_view(self.content@).take(self.content.len() as int) =~= parts_view(
            self.content@,
        ));
        ChatRequest { model: self.model.clone(), content, max_tokens: self.max_tokens }
    }

    /// The request of a generation.
    pub fn for_generate(model: &str, prompt: &str) -> (r: ChatRequest)
        ensures
            r@ == generate_request(model@, prompt@),
    {
        let mut content: Vec<ContentPart> = Vec::new();
        content.push(ContentPart::Text { text: prompt.to_owned() });
        let r = ChatRequest { model: model.to_owned(), content, max_tokens: MAX_TOKENS };
        assert(r@.content =~= generate_request(model@, prompt@).content);
        r
    }

    /// The request of an edit of the images at `urls`.
    pub fn for_edit(model: &str, instruction: &str, urls: &Vec<String>) -> (r: ChatRequest)
        ensures
            r@ == edit_request(model@, instruction@, strings_view(urls@)),
    {
        let ghost wanted = edit_request(model@, instruction@, strings_view(urls@)).content;
        let mut content: Vec<ContentPart> = Vec::new();
        content.push(ContentPart::Text { text: instruction.to_owned() });
        let mut i: usize = 0;
        assert(parts_view(content@) =~= wanted.take(1));
        while i < urls.len()
            invariant
                i <= urls.len(),
                wanted == edit_request(model@, instruction@, strings_view(urls@)).content,
                parts_view(content@) == wanted.take(i + 1),
            decreases urls.len() - i,
        {
            let ghost before = parts_view(content@);
            let part = ContentPart::ImageUrl { url: urls[i].clone() };
            content.push(part);
            assert(parts_view(content@) =~= before.push(part@));
            assert(strings_view(urls@)[i as int] == urls@[i as int]@);
            assert(wanted[i + 1] == part@);
            assert(wanted.take(i + 2) =~= wanted.take(i + 1).push(wanted[i + 1]));
            i = i + 1;
        }
        assert(wanted.take(urls.len() + 1) =~= wanted);
        ChatRequest { model: model.to_owned(), content, max_tokens: MAX_TOKENS }
    }
}

/// Where requests are posted to, for an endpoint at `base_url`.
pub fn endpoint(base_url: &str) -> (r: String)
    ensures
        r@ == endpoint_of(base_url@),
{
    let mut out: Vec<char> = Vec::new();
    push_str(&mut out, base_url);
    push_str(&mut out, "/chat/completions");
    string_of(&out)
}

/// The token usage that a reply reports.
pub fn read_usage(reply: &serde_json::Value) -> (r: Option<TokenUsage>)
    ensures
        r == usage_of(json_of(*reply)),
{
    match member(reply, "usage") {
        Some(u) => {
            let prompt_tokens = unsigned_member(u, "prompt_tokens");
            let completion_tokens = unsigned_member(u, "completion_tokens");
            let total_tokens = unsigned_member(u, "total_tokens");
            match (prompt_tokens, completion_tokens, total_tokens) {
                (Some(prompt_tokens), Some(completion_tokens), Some(total_tokens)) => Some(
                    TokenUsage { prompt_tokens, completion_tokens, total_tokens },
                ),
                _ => None,
            }
        },
        None => None,
    }
}

/// Reads text, images and token usage out of a reply.
pub fn read_reply(reply: &serde_json::Value) -> (r: Result<Reply, ToolError>)
    ensures
        match r {
            Ok(ok) => reply_of(json_of(*reply)) == Ok::<ReplyView, ToolErrorView>(ok@),
            Err(e) => reply_of(json_of(*reply)) == Err::<ReplyView, ToolErrorView>(e@),
        },
{
    match extract_text_and_images(reply) {
        Ok((text, images)) => Ok(Reply { text, images, usage: read_usage(reply) }),
        Err(e) => Err(e),
    }
}

/// Says what an answer of the endpoint with the given status and body
/// means.
pub fn interpret_reply(status: u16, body: &str) -> (r: Result<Reply, ToolError>)
    ensures
        match r {
            Ok(ok) => interpreted(status, body@) == Ok::<ReplyView, ToolErrorView>(ok@),
            Err(e) => interpreted(status, body@) == Err::<ReplyView, ToolErrorView>(e@),
        },
{
    if status < 200 || status > 299 {
        return Err(ToolError::UpstreamHttp { status, body: body.to_owned() });
    }
    match parse(body) {
        None => Err(ToolError::MalformedResponse { reason: Malformed::NotJson }),
        Some(value) => read_reply(&value),
    }
}

/// Appends the lines of the report for image number `number`.
fn push_record(out: &mut Vec<char>, number: u64, record: &SavedImageInfo)
    ensures
        final(out)@ == old(out)@ + record_lines(number as nat, record@),
{
    let ghost start = out@;
    push_str(out, "\n- image ");
    push_decimal(out, number);
    push_str(out, ": ");
    push_str(out, record.source_preview.as_str());
    push_str(out, "...");
    match &record.saved_path {
        Some(path) => {
            push_str(out, "\n  saved to: ");
            push_str(out, path.as_str());
        },
        None => {
            push_str(out, "\n  not saved to a file");
        },
    }
    if !record.diagnostic.as_str().is_empty() {
        push_str(out, "\n  [note] ");
        push_str(out, record.diagnostic.as_str());
    }
    assert(out@ =~= start + record_lines(number as nat, record@));
}

/// Appends the part of the report on the images.
fn push_images_section(out: &mut Vec<char>, count: usize, records: &Vec<SavedImageInfo>)
    ensures
        final(out)@ == old(out)@ + images_section(count as nat, records_view(records@)),
{
    let ghost start = out@;
    let ghost all = records_view(records@);
    if count == 0 {
        assert(out@ =~= start + Seq::<char>::empty());
        return ;
    }
    push_str(out, "\n\n**Generated images:** ");
    push_decimal(out, count as u64);
    push_str(out, " images");
    let ghost head = out@;
    assert(head =~= start + ("\n\n**Generated images:** "@ + decimal(count as nat) + " images"@));
    let mut i: usize = 0;
    assert(out@ =~= head + records_lines(all, 0));
    while i < records.len()
        invariant
            i <= records.len(),
            all == records_view(records@),
            out@ == head + records_lines(all, i as int),
        decreases records.len() - i,
    {
        let ghost before = out@;
        push_record(out, i as u64 + 1, &records[i]);
        assert(out@ =~= head + (records_lines(all, i as int) + record_lines(
            (i + 1) as nat,
            all[i as int],
        )));
        i = i + 1;
    }
    assert(out@ =~= start + images_section(count as nat, all));
}

/// Appends the part of the report on the token usage.
fn push_usage_section(out: &mut Vec<char>, usage: Option<TokenUsage>)
    ensures
        final(out)@ == old(out)@ + usage_section(usage),
{
    let ghost start = out@;
    match usage {
        Some(u) => {
            push_str(out, "\n\n**Usage:**\n- prompt tokens: ");
            push_decimal(out, u.prompt_tokens);
            push_str(out, "\n- completion tokens: ");
            push_decimal(out, u.completion_tokens);
            push_str(out, "\n- total tokens: ");
            push_decimal(out, u.total_tokens);
            assert(out@ =~= start + usage_section(usage));
        },
        None => {
            assert(out@ =~= start + Seq::<char>::empty());
        },
    }
}

/// The report of a generation that answered with `reply_text` and `count`
/// images, of which `records` tell what became.
pub fn generate_report(
    model: &str,
    prompt: &str,
    save_dir: &str,
    reply_text: &str,
    count: usize,
    records: &Vec<SavedImageInfo>,
    usage: Option<TokenUsage>,
) -> (r: String)
    ensures
        r@ == report_text(
            generate_header(model@, prompt@, save_dir@, reply_text@),
            count as nat,
            records_view(records@),
            usage,
        ),
{
    let mut out: Vec<char> = Vec::new();
    push_str(&mut out, "**Model:** ");
    push_str(&mut out, model);
    push_str(&mut out, "\n**Prompt:** ");
    push_str(&mut out, prompt);
    push_str(&mut out, "\n**Save directory:** ");
    push_str(&mut out, save_dir);
    push_str(&mut out, "\n**Response:** ");
    push_str(&mut out, reply_text);
    assert(out@ =~= generate_header(model@, prompt@, save_dir@, reply_text@));
    push_images_section(&mut out, count, records);
    push_usage_section(&mut out, usage);
    string_of(&out)
}

/// The report of an edit of `inputs` images that answered with
/// `reply_text` and `count` images, of which `records` tell what became.
pub fn edit_report(
    model: &str,
    instruction: &str,
    inputs: usize,
    reply_text: &str,
    count: usize,
    records: &Vec<SavedImageInfo>,
    usage: Option<TokenUsage>,
) -> (r: String)
    ensures
        r@ == report_text(
            edit_header(model@, instruction@, inputs as nat, reply_text@),
            count as nat,
            records_view(records@),
            usage,
        ),
{
    let mut out: Vec<char> = Vec::new();
    push_str(&mut out, "**Model:** ");
    push_str(&mut out, model);
    push_str(&mut out, "\n**Instruction:** ");
    push_str(&mut out, instruction);
    push_str(&mut out, "\n**Input images:** ");
    push_decimal(&mut out, inputs as u64);
    push_str(&mut out, " images");
    push_str(&mut out, "\n**Response:** ");
    push_str(&mut out, reply_text);
    assert(out@ =~= edit_header(model@, instruction@, inputs as nat, reply_text@));
    push_images_section(&mut out, count, records);
    push_usage_section(&mut out, usage);
    string_of(&out)
}

} // verus!
