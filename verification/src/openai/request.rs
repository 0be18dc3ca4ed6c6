//! Building Responses requests from conversation history.
use vstd::prelude::*;

use super::agent::{clone_item, item_view as output_view, AgentResumeRequest, ItemView as OutputView};
use super::models::{effort_wire, wire_value};
use super::wire::OutputItem;
use crate::storage::attachments::image_type_spec;
use crate::codec::{base64_standard, base64_standard_of};
use crate::domain::{AgentRequest, AgentToolDefinition, AgentToolOutput, Attachment, EffortLevel, Message, MessageRole};
use crate::text::{append_str, is_blank, opt_view, str_is, trim_is_empty};

verus! {

pub const MAX_IMAGES_PER_MESSAGE: usize = 4;

pub const MAX_IMAGE_REQUEST_BYTES: u64 = 33554432;

pub const TOO_MANY_IMAGES: &'static str = "a message can contain at most four images";

pub const UNSUPPORTED_IMAGE: &'static str = "an attached image has an unsupported file type";

pub const SIZE_OVERFLOW: &'static str = "attached images exceed Magenta's request limit";

pub const OVER_LIMIT: &'static str = "attached images exceed Magenta's 32 MiB request limit";

pub const IMAGE_MISSING: &'static str = "an attached image is no longer available locally";

pub const IMAGE_CHANGED: &'static str = "an attached image changed after it was saved";

pub const NO_USER_MESSAGE: &'static str = "the generation request did not contain a user message";

/// One content part of an input message.
#[derive(Clone, Debug, PartialEq, Eq)]
pub enum InputContent {
    InputText { text: String },
    OutputText { text: String },
    InputImage { image_url: String },
}

/// One input item of a request: a message of the history; an item carried over from
/// an agent step's request as its JSON text; an output item of that step; or what a
/// tool answered to one of its calls.
#[derive(Clone, Debug, PartialEq, Eq)]
pub enum InputItem {
    Message { role: String, content: Vec<InputContent>, status: Option<String> },
    Raw { json: String },
    Continued { item: OutputItem },
    FunctionCallOutput { call_id: String, output: String },
}

/// A workspace tool as the request offers it: a strict function whose `parameters`
/// is the JSON text of its schema.
#[derive(Clone, Debug, PartialEq, Eq)]
pub struct FunctionTool {
    pub kind: &'static str,
    pub name: String,
    pub description: String,
    pub parameters: String,
    pub strict: bool,
}

/// The reasoning settings of a request.
#[derive(Clone, Debug, PartialEq, Eq)]
pub struct Reasoning {
    pub effort: String,
    pub summary: &'static str,
}

/// A chat request to the Responses endpoint.
#[derive(Clone, Debug, PartialEq, Eq)]
pub struct ResponsesRequest {
    pub model: String,
    pub input: Vec<InputItem>,
    pub stream: bool,
    pub store: bool,
    pub reasoning: Reasoning,
    pub instructions: Option<String>,
    pub tools: Vec<FunctionTool>,
    pub tool_choice: Option<&'static str>,
}

pub enum ContentView {
    InputText(Seq<char>),
    OutputText(Seq<char>),
    InputImage(Seq<char>),
}

pub enum ItemView {
    Message { role: Seq<char>, content: Seq<ContentView>, status: Option<Seq<char>> },
    Raw(Seq<char>),
    Continued(OutputView),
    FunctionCallOutput { call_id: Seq<char>, output: Seq<char> },
}

pub open spec fn content_view(c: InputContent) -> ContentView {
    match c {
        InputContent::InputText { text } => ContentView::InputText(text@),
        InputContent::OutputText { text } => ContentView::OutputText(text@),
        InputContent::InputImage { image_url } => ContentView::InputImage(image_url@),
    }
}

pub open spec fn contents_view(v: Seq<InputContent>) -> Seq<ContentView> {
    v.map_values(|c: InputContent| content_view(c))
}

pub open spec fn item_view(i: InputItem) -> ItemView {
    match i {
        InputItem::Message { role, content, status } => ItemView::Message {
            role: role@,
            content: contents_view(content@),
            status: opt_view(status),
        },
        InputItem::Raw { json } => ItemView::Raw(json@),
        InputItem::Continued { item } => ItemView::Continued(output_view(item)),
        InputItem::FunctionCallOutput { call_id, output } => ItemView::FunctionCallOutput {
            call_id: call_id@,
            output: output@,
        },
    }
}

pub open spec fn items_view(v: Seq<InputItem>) -> Seq<ItemView> {
    v.map_values(|i: InputItem| item_view(i))
}

/// The image types the provider accepts.
pub open spec fn supported_image(mime: Seq<char>) -> bool {
    mime == "image/png"@ || mime == "image/jpeg"@ || mime == "image/webp"@ || mime == "image/gif"@
}

/// The progress through a request's attachments: the bytes counted so far and how
/// many files have been consumed.
pub struct ImageProgress {
    pub total: u64,
    pub used: nat,
}

/// The data URL of an image.
pub open spec fn data_url(mime: Seq<char>, bytes: Seq<u8>) -> Seq<char> {
    "data:"@ + mime + ";base64,"@ + base64_standard_of(bytes)
}

/// The file read for the next attachment, if the caller supplied it.
pub open spec fn file_at(files: Seq<Option<Vec<u8>>>, k: nat) -> Option<Seq<u8>> {
    if k < files.len() {
        match files[k as int] {
            Some(b) => Some(b@),
            None => None,
        }
    } else {
        None
    }
}

/// One attachment: its type must be supported, the running total must stay within
/// the request limit, the file must still exist with the recorded size; it then
/// becomes an image part with a data URL.
pub open spec fn attachment_step(
    att: Attachment,
    progress: ImageProgress,
    files: Seq<Option<Vec<u8>>>,
) -> Result<(ContentView, ImageProgress), Seq<char>> {
    if !supported_image(att.mime_type@) {
        Err(UNSUPPORTED_IMAGE@)
    } else if progress.total + att.byte_size > u64::MAX {
        Err(SIZE_OVERFLOW@)
    } else if progress.total + att.byte_size > MAX_IMAGE_REQUEST_BYTES {
        Err(OVER_LIMIT@)
    } else {
        match file_at(files, progress.used) {
            None => Err(IMAGE_MISSING@),
            Some(bytes) => if bytes.len() != att.byte_size {
                Err(IMAGE_CHANGED@)
            } else {
                Ok(
                    (
                        ContentView::InputImage(data_url(att.mime_type@, bytes)),
                        ImageProgress { total: (progress.total + att.byte_size) as u64, used: progress.used + 1 },
                    ),
                )
            },
        }
    }
}

/// The image parts of a message's attachments, in order; the first failure wins.
pub open spec fn attachments_spec(
    atts: Seq<Attachment>,
    progress: ImageProgress,
    files: Seq<Option<Vec<u8>>>,
) -> Result<(Seq<ContentView>, ImageProgress), Seq<char>>
    decreases atts.len(),
{
    if atts.len() == 0 {
        Ok((Seq::empty(), progress))
    } else {
        match attachments_spec(atts.drop_last(), progress, files) {
            Err(e) => Err(e),
            Ok((parts, p)) => match attachment_step(atts.last(), p, files) {
                Err(e) => Err(e),
                Ok((part, p2)) => Ok((parts.push(part), p2)),
            },
        }
    }
}

/// Whether a message takes part in the request: it has text or attachments.
pub open spec fn message_counts(m: Message) -> bool {
    !is_blank(m.content@) || m.attachments@.len() > 0
}

/// The input item of one message, or the failure it causes.
pub open spec fn message_step(
    m: Message,
    progress: ImageProgress,
    files: Seq<Option<Vec<u8>>>,
) -> Result<(ItemView, ImageProgress), Seq<char>> {
    match m.role {
        MessageRole::User => if m.attachments@.len() > MAX_IMAGES_PER_MESSAGE {
            Err(TOO_MANY_IMAGES@)
        } else {
            match attachments_spec(m.attachments@, progress, files) {
                Err(e) => Err(e),
                Ok((images, p)) => Ok(
                    (
                        ItemView::Message {
                            role: "user"@,
                            content: if is_blank(m.content@) {
                                images
                            } else {
                                seq![ContentView::InputText(m.content@)] + images
                            },
                            status: None,
                        },
                        p,
                    ),
                ),
            }
        },
        MessageRole::Assistant => Ok(
            (
                ItemView::Message {
                    role: "assistant"@,
                    content: seq![ContentView::OutputText(m.content@)],
                    status: Some("completed"@),
                },
                progress,
            ),
        ),
    }
}

/// The input items of a history with whether it holds a user message, or the first failure.
pub open spec fn history_spec(
    messages: Seq<Message>,
    files: Seq<Option<Vec<u8>>>,
) -> Result<(Seq<ItemView>, bool, ImageProgress), Seq<char>>
    decreases messages.len(),
{
    if messages.len() == 0 {
        Ok((Seq::empty(), false, ImageProgress { total: 0, used: 0 }))
    } else {
        match history_spec(messages.drop_last(), files) {
            Err(e) => Err(e),
            Ok((items, has_user, p)) => {
                let m = messages.last();
                if !message_counts(m) {
                    Ok((items, has_user, p))
                } else {
                    match message_step(m, p, files) {
                        Err(e) => Err(e),
                        Ok((item, p2)) => Ok((items.push(item), has_user || m.role == MessageRole::User, p2)),
                    }
                }
            },
        }
    }
}

/// The request for a history: every message with text or attachments in order, user
/// text followed by its images, assistant text as completed output; a history
/// without a user message is refused.
pub open spec fn from_request_spec(
    messages: Seq<Message>,
    files: Seq<Option<Vec<u8>>>,
) -> Result<Seq<ItemView>, Seq<char>> {
    match history_spec(messages, files) {
        Err(e) => Err(e),
        Ok((items, has_user, _)) => if has_user {
            Ok(items)
        } else {
            Err(NO_USER_MESSAGE@)
        },
    }
}

fn owned(s: &str) -> (r: String)
    ensures
        r@ == s@,
{
    let mut r = String::new();
    append_str(&mut r, s);
    r
}

fn is_supported_image(mime: &str) -> (b: bool)
    ensures
        b == supported_image(mime@),
{
    str_is(mime, "image/png") || str_is(mime, "image/jpeg") || str_is(mime, "image/webp") || str_is(mime, "image/gif")
}

fn attachment_content(
    att: &Attachment,
    total: u64,
    used: usize,
    files: &Vec<Option<Vec<u8>>>,
) -> (r: Result<(InputContent, u64, usize), String>)
    ensures
        match (r, attachment_step(*att, ImageProgress { total, used: used as nat }, files@)) {
            (Ok((c, t, u)), Ok((cv, p))) => content_view(c) == cv && t == p.total && u as nat == p.used,
            (Err(e), Err(ev)) => e@ == ev,
            _ => false,
        },
{
    if !is_supported_image(att.mime_type.as_str()) {
        return Err(owned(UNSUPPORTED_IMAGE));
    }
    let next = match total.checked_add(att.byte_size) {
        Some(n) => n,
        None => {
            return Err(owned(SIZE_OVERFLOW));
        },
    };
    if next > MAX_IMAGE_REQUEST_BYTES {
        return Err(owned(OVER_LIMIT));
    }
    if used >= files.len() {
        return Err(owned(IMAGE_MISSING));
    }
    match &files[used] {
        None => Err(owned(IMAGE_MISSING)),
        Some(bytes) => {
            if bytes.len() as u64 != att.byte_size {
                return Err(owned(IMAGE_CHANGED));
            }
            let mut url = owned("data:");
            append_str(&mut url, att.mime_type.as_str());
            append_str(&mut url, ";base64,");
            let encoded = base64_standard(bytes.as_slice());
            append_str(&mut url, encoded.as_str());
            assert(url@ =~= data_url(att.mime_type@, bytes@));
            Ok((InputContent::InputImage { image_url: url }, next, used + 1))
        },
    }
}

fn attachments_content(
    atts: &Vec<Attachment>,
    total: u64,
    used: usize,
    files: &Vec<Option<Vec<u8>>>,
) -> (r: Result<(Vec<InputContent>, u64, usize), String>)
    requires
        used <= files@.len(),
    ensures
        match (r, attachments_spec(atts@, ImageProgress { total, used: used as nat }, files@)) {
            (Ok((c, t, u)), Ok((cv, p))) => contents_view(c@) == cv && t == p.total && u as nat == p.used
                && u <= files@.len(),
            (Err(e), Err(ev)) => e@ == ev,
            _ => false,
        },
{
    let mut parts: Vec<InputContent> = Vec::new();
    let mut t = total;
    let mut u = used;
    let mut i: usize = 0;
    assert(atts@.take(0) =~= Seq::<Attachment>::empty());
    assert(contents_view(parts@) =~= Seq::<ContentView>::empty());
    while i < atts.len()
        invariant
            i <= atts@.len(),
            u <= files@.len(),
            attachments_spec(atts@.take(i as int), ImageProgress { total, used: used as nat }, files@)
                == Ok::<(Seq<ContentView>, ImageProgress), Seq<char>>(
                (contents_view(parts@), ImageProgress { total: t, used: u as nat }),
            ),
        decreases atts.len() - i,
    {
        proof {
            assert(atts@.take(i + 1).drop_last() =~= atts@.take(i as int));
            assert(atts@.take(i + 1).last() == atts@[i as int]);
        }
        match attachment_content(&atts[i], t, u, files) {
            Err(e) => {
                proof {
                    assert(attachments_spec(atts@.take(i + 1), ImageProgress { total, used: used as nat }, files@) is Err);
                    lemma_attachments_err_extends(atts@, i + 1, ImageProgress { total, used: used as nat }, files@);
                    assert(atts@.take(atts@.len() as int) =~= atts@);
                }
                return Err(e);
            },
            Ok((part, t2, u2)) => {
                let ghost before = parts@;
                parts.push(part);
                proof {
                    assert(contents_view(parts@) =~= contents_view(before).push(content_view(part)));
                }
                t = t2;
                u = u2;
            },
        }
        i += 1;
    }
    assert(atts@.take(atts@.len() as int) =~= atts@);
    Ok((parts, t, u))
}

proof fn lemma_attachments_err_extends(
    atts: Seq<Attachment>,
    k: int,
    progress: ImageProgress,
    files: Seq<Option<Vec<u8>>>,
)
    requires
        0 <= k <= atts.len(),
        attachments_spec(atts.take(k), progress, files) is Err,
    ensures
        attachments_spec(atts, progress, files) == attachments_spec(atts.take(k), progress, files),
    decreases atts.len() - k,
{
    if k < atts.len() {
        assert(atts.take(k + 1).drop_last() =~= atts.take(k));
        lemma_attachments_err_extends(atts, k + 1, progress, files);
    } else {
        assert(atts.take(k) =~= atts);
    }
}

proof fn lemma_history_err_extends(messages: Seq<Message>, k: int, files: Seq<Option<Vec<u8>>>)
    requires
        0 <= k <= messages.len(),
        history_spec(messages.take(k), files) is Err,
    ensures
        history_spec(messages, files) == history_spec(messages.take(k), files),
    decreases messages.len() - k,
{
    if k < messages.len() {
        assert(messages.take(k + 1).drop_last() =~= messages.take(k));
        lemma_history_err_extends(messages, k + 1, files);
    } else {
        assert(messages.take(k) =~= messages);
    }
}

/// The input items of a history; `files` holds, in order, the contents read for the
/// attachments that `image_reads` counts (`None` where a read failed).
pub fn input_items(messages: &Vec<Message>, files: &Vec<Option<Vec<u8>>>) -> (r: Result<Vec<InputItem>, String>)
    ensures
        match (r, from_request_spec(messages@, files@)) {
            (Ok(items), Ok(v)) => items_view(items@) == v,
            (Err(e), Err(ev)) => e@ == ev,
            _ => false,
        },
{
    let mut items: Vec<InputItem> = Vec::new();
    let mut has_user = false;
    let mut total: u64 = 0;
    let mut used: usize = 0;
    let mut i: usize = 0;
    assert(messages@.take(0) =~= Seq::<Message>::empty());
    assert(items_view(items@) =~= Seq::<ItemView>::empty());
    while i < messages.len()
        invariant
            i <= messages@.len(),
            used <= files@.len(),
            history_spec(messages@.take(i as int), files@) == Ok::<(Seq<ItemView>, bool, ImageProgress), Seq<char>>(
                (items_view(items@), has_user, ImageProgress { total, used: used as nat }),
            ),
        decreases messages.len() - i,
    {
        proof {
            assert(messages@.take(i + 1).drop_last() =~= messages@.take(i as int));
            assert(messages@.take(i + 1).last() == messages@[i as int]);
        }
        let m = &messages[i];
        let blank = trim_is_empty(m.content.as_str());
        let ghost p0 = ImageProgress { total, used: used as nat };
        let ghost h0 = has_user;
        if !blank || m.attachments.len() > 0 {
            let ghost before = items@;
            match m.role {
                MessageRole::User => {
                    if m.attachments.len() > MAX_IMAGES_PER_MESSAGE {
                        proof {
                            lemma_history_err_extends(messages@, i + 1, files@);
                        }
                        return Err(owned(TOO_MANY_IMAGES));
                    }
                    match attachments_content(&m.attachments, total, used, files) {
                        Err(e) => {
                            proof {
                                lemma_history_err_extends(messages@, i + 1, files@);
                            }
                            return Err(e);
                        },
                        Ok((images, t, u)) => {
                            let mut content: Vec<InputContent> = Vec::new();
                            if !blank {
                                content.push(InputContent::InputText { text: m.content.clone() });
                            }
                            let ghost prefix = contents_view(content@);
                            let mut images = images;
                            let ghost image_views = contents_view(images@);
                            content.append(&mut images);
                            proof {
                                assert(contents_view(content@) =~= prefix + image_views);
                                if blank {
                                    assert(prefix =~= Seq::<ContentView>::empty());
                                    assert(contents_view(content@) =~= image_views);
                                }
                            }
                            let ghost cv = contents_view(content@);
                            items.push(InputItem::Message { role: owned("user"), content, status: None });
                            has_user = true;
                            total = t;
                            used = u;
                            proof {
                                assert(item_view(items@.last())->content == cv);
                                assert(item_view(items@.last())->role == "user"@);
                                assert(attachments_spec(m.attachments@, p0, files@) matches Ok((iv, p)) && iv == image_views && p == ImageProgress { total, used: used as nat });
                            }
                        },
                    }
                },
                MessageRole::Assistant => {
                    let content = vec![InputContent::OutputText { text: m.content.clone() }];
                    proof {
                        assert(contents_view(content@) =~= seq![ContentView::OutputText(m.content@)]);
                    }
                    items.push(InputItem::Message { role: owned("assistant"), content, status: Some(owned("completed")) });
                },
            }
            proof {
                assert(items_view(items@) =~= items_view(before).push(item_view(items@.last())));
                assert(message_counts(*m));
                assert(message_step(*m, p0, files@) matches Ok((iv, p)) && iv->role == item_view(items@.last())->role
                    && iv->content =~= item_view(items@.last())->content && iv->status == item_view(items@.last())->status
                    && p == ImageProgress { total, used: used as nat });
                assert(has_user == (h0 || m.role == MessageRole::User));
            }
        } else {
            proof {
                assert(!message_counts(*m));
            }
        }
        i += 1;
    }
    assert(messages@.take(messages@.len() as int) =~= messages@);
    if !has_user {
        return Err(owned(NO_USER_MESSAGE));
    }
    Ok(items)
}

/// The reading plan of a history: which attachments pass the count, type and size
/// checks before the first that fails them. Only these files need reading, in order;
/// an attachment that fails a check is never read.
pub open spec fn read_plan_spec(messages: Seq<Message>) -> (Seq<Seq<u8>>, int, bool)
    decreases messages.len(),
{
    if messages.len() == 0 {
        (Seq::empty(), 0, false)
    } else {
        let (paths, total, stopped) = read_plan_spec(messages.drop_last());
        let m = messages.last();
        if stopped || !message_counts(m) || m.role != MessageRole::User {
            (paths, total, stopped)
        } else if m.attachments@.len() > MAX_IMAGES_PER_MESSAGE {
            (paths, total, true)
        } else {
            plan_attachments(m.attachments@, paths, total)
        }
    }
}

pub open spec fn plan_attachments(atts: Seq<Attachment>, paths: Seq<Seq<u8>>, total: int) -> (Seq<Seq<u8>>, int, bool)
    decreases atts.len(),
{
    if atts.len() == 0 {
        (paths, total, false)
    } else {
        let (p, t, stopped) = plan_attachments(atts.drop_last(), paths, total);
        let a = atts.last();
        if stopped {
            (p, t, true)
        } else if !supported_image(a.mime_type@) || t + a.byte_size > MAX_IMAGE_REQUEST_BYTES {
            (p, t, true)
        } else {
            (p.push(a.path@), t + a.byte_size, false)
        }
    }
}

/// The paths of the attachment files to read for a history, in the order the
/// request consumes them.
pub fn read_plan(messages: &Vec<Message>) -> (paths: Vec<Vec<u8>>)
    ensures
        paths@.map_values(|p: Vec<u8>| p@) == read_plan_spec(messages@).0,
{
    let mut paths: Vec<Vec<u8>> = Vec::new();
    let mut total: u64 = 0;
    let mut stopped = false;
    let mut i: usize = 0;
    while i < messages.len()
        invariant
            i <= messages@.len(),
            total <= MAX_IMAGE_REQUEST_BYTES,
            read_plan_spec(messages@.take(i as int)) == (paths@.map_values(|p: Vec<u8>| p@), total as int, stopped),
        decreases messages.len() - i,
    {
        proof {
            assert(messages@.take(i + 1).drop_last() =~= messages@.take(i as int));
            assert(messages@.take(i + 1).last() == messages@[i as int]);
        }
        let m = &messages[i];
        let counts = !trim_is_empty(m.content.as_str()) || m.attachments.len() > 0;
        if !stopped && counts && m.role == MessageRole::User {
            if m.attachments.len() > MAX_IMAGES_PER_MESSAGE {
                stopped = true;
            } else {
                let ghost start_paths = paths@.map_values(|p: Vec<u8>| p@);
                let ghost start_total = total as int;
                let mut j: usize = 0;
                let mut inner_stopped = false;
                while j < m.attachments.len()
                    invariant
                        j <= m.attachments@.len(),
                        total <= MAX_IMAGE_REQUEST_BYTES,
                        plan_attachments(m.attachments@.take(j as int), start_paths, start_total) == (
                            paths@.map_values(|p: Vec<u8>| p@),
                            total as int,
                            inner_stopped,
                        ),
                    decreases m.attachments.len() - j,
                {
                    proof {
                        assert(m.attachments@.take(j + 1).drop_last() =~= m.attachments@.take(j as int));
                        assert(m.attachments@.take(j + 1).last() == m.attachments@[j as int]);
                    }
                    let a = &m.attachments[j];
                    if !inner_stopped {
                        if !is_supported_image(a.mime_type.as_str()) || a.byte_size > MAX_IMAGE_REQUEST_BYTES - total {
                            inner_stopped = true;
                        } else {
                            let ghost before = paths@;
                            paths.push(a.path.clone());
                            total = total + a.byte_size;
                            proof {
                                assert(paths@.map_values(|p: Vec<u8>| p@) =~= before.map_values(|p: Vec<u8>| p@).push(a.path@));
                            }
                        }
                    }
                    j += 1;
                }
                assert(m.attachments@.take(m.attachments@.len() as int) =~= m.attachments@);
                stopped = inner_stopped;
            }
        }
        i += 1;
    }
    assert(messages@.take(messages@.len() as int) =~= messages@);
    paths
}

/// Builds a streaming chat request for `model` at `effort` from a history.
pub fn from_request(
    model: &str,
    effort: EffortLevel,
    messages: &Vec<Message>,
    files: &Vec<Option<Vec<u8>>>,
) -> (r: Result<ResponsesRequest, String>)
    ensures
        match (r, from_request_spec(messages@, files@)) {
            (Ok(req), Ok(v)) => items_view(req.input@) == v && req.model@ == model@ && req.stream
                && !req.store && req.reasoning.effort@ == effort_wire(effort) && req.reasoning.summary@
                == "auto"@ && req.instructions is None && req.tools@.len() == 0 && req.tool_choice is None,
            (Err(e), Err(ev)) => e@ == ev,
            _ => false,
        },
{
    let input = input_items(messages, files)?;
    Ok(ResponsesRequest {
        model: owned(model),
        input,
        stream: true,
        store: false,
        reasoning: Reasoning { effort: owned(wire_value(effort)), summary: "auto" },
        instructions: None,
        tools: Vec::new(),
        tool_choice: None,
    })
}

/// The tool a definition offers: a strict function with the definition's name,
/// description and parameter schema.
pub open spec fn tool_offers(t: FunctionTool, d: AgentToolDefinition) -> bool {
    &&& t.kind@ == "function"@
    &&& t.name@ == d.name@
    &&& t.description@ == d.description@
    &&& t.parameters@ == d.parameters@
    &&& t.strict
}

/// The tools offered for a list of definitions, one for each, in order.
pub open spec fn tools_offer(tools: Seq<FunctionTool>, definitions: Seq<AgentToolDefinition>) -> bool {
    &&& tools.len() == definitions.len()
    &&& forall|i: int| 0 <= i < definitions.len() ==> tool_offers(#[trigger] tools[i], definitions[i])
}

/// The tool choice of a first agent step: a model offered tools is required to call one.
pub open spec fn first_step_choice(choice: Option<&'static str>, offered: bool) -> bool {
    if offered {
        choice matches Some(c) && c@ == "required"@
    } else {
        choice is None
    }
}

impl FunctionTool {
    fn from_definition(definition: &AgentToolDefinition) -> (tool: FunctionTool)
        ensures
            tool_offers(tool, *definition),
    {
        FunctionTool {
            kind: "function",
            name: definition.name.clone(),
            description: definition.description.clone(),
            parameters: definition.parameters.clone(),
            strict: true,
        }
    }
}

fn offered_tools(definitions: &Vec<AgentToolDefinition>) -> (tools: Vec<FunctionTool>)
    ensures
        tools_offer(tools@, definitions@),
{
    let mut tools: Vec<FunctionTool> = Vec::new();
    let mut i: usize = 0;
    while i < definitions.len()
        invariant
            i <= definitions@.len(),
            tools@.len() == i,
            forall|k: int| 0 <= k < i ==> tool_offers(#[trigger] tools@[k], definitions@[k]),
        decreases definitions.len() - i,
    {
        tools.push(FunctionTool::from_definition(&definitions[i]));
        i += 1;
    }
    tools
}

/// Builds the request of an agent run's first step: the chat request for its history,
/// with its instructions and its tools; a model offered tools must call one.
pub fn from_agent_request(request: &AgentRequest, files: &Vec<Option<Vec<u8>>>) -> (r: Result<ResponsesRequest, String>)
    ensures
        match (r, from_request_spec(request.messages@, files@)) {
            (Ok(req), Ok(v)) => items_view(req.input@) == v && req.model@ == request.generation.model@
                && req.stream && !req.store && req.reasoning.effort@ == effort_wire(request.generation.effort)
                && req.reasoning.summary@ == "auto"@ && opt_view(req.instructions) == Some(request.instructions@)
                && tools_offer(req.tools@, request.tools@)
                && first_step_choice(req.tool_choice, request.tools@.len() > 0),
            (Err(e), Err(ev)) => e@ == ev,
            _ => false,
        },
{
    let mut wire = from_request(request.generation.model.as_str(), request.generation.effort, &request.messages, files)?;
    wire.instructions = Some(request.instructions.clone());
    wire.tools = offered_tools(&request.tools);
    wire.tool_choice = if wire.tools.len() > 0 { Some("required") } else { None };
    Ok(wire)
}

/// The input of a resumed agent step: the items the step before sent, the items it
/// answered, then each tool output as a function call output, in order.
pub open spec fn resumed_items(request: AgentResumeRequest) -> Seq<ItemView> {
    request.continuation.input@.map_values(|json: String| ItemView::Raw(json@))
        + request.continuation.output@.map_values(|item: OutputItem| ItemView::Continued(output_view(item)))
        + request.outputs@.map_values(
        |o: AgentToolOutput| ItemView::FunctionCallOutput { call_id: o.call_id@, output: o.output@ },
    )
}

/// Builds the request that resumes an agent run after its tools answered: the step's
/// continuation, already parsed, followed by the tool outputs, with the instructions
/// and tools again and the choice of tool left to the model.
pub fn from_resume(request: &AgentResumeRequest, model: &str, effort: EffortLevel) -> (req: ResponsesRequest)
    ensures
        items_view(req.input@) == resumed_items(*request),
        req.model@ == model@,
        req.stream,
        !req.store,
        req.reasoning.effort@ == effort_wire(effort),
        req.reasoning.summary@ == "auto"@,
        opt_view(req.instructions) == Some(request.instructions@),
        tools_offer(req.tools@, request.tools@),
        req.tool_choice is None,
{
    let ghost raws = request.continuation.input@.map_values(|json: String| ItemView::Raw(json@));
    let ghost continued = request.continuation.output@.map_values(
        |item: OutputItem| ItemView::Continued(output_view(item)),
    );
    let ghost answers = request.outputs@.map_values(
        |o: AgentToolOutput| ItemView::FunctionCallOutput { call_id: o.call_id@, output: o.output@ },
    );
    let mut input: Vec<InputItem> = Vec::new();
    let mut i: usize = 0;
    while i < request.continuation.input.len()
        invariant
            i <= request.continuation.input@.len(),
            raws == request.continuation.input@.map_values(|json: String| ItemView::Raw(json@)),
            items_view(input@) == raws.take(i as int),
        decreases request.continuation.input.len() - i,
    {
        let ghost before = input@;
        input.push(InputItem::Raw { json: request.continuation.input[i].clone() });
        assert(items_view(input@) =~= items_view(before).push(raws[i as int]));
        assert(raws.take(i + 1) =~= raws.take(i as int).push(raws[i as int]));
        i += 1;
    }
    assert(raws.take(i as int) =~= raws);
    let mut j: usize = 0;
    while j < request.continuation.output.len()
        invariant
            j <= request.continuation.output@.len(),
            continued == request.continuation.output@.map_values(
                |item: OutputItem| ItemView::Continued(output_view(item)),
            ),
            items_view(input@) == raws + continued.take(j as int),
        decreases request.continuation.output.len() - j,
    {
        let ghost before = input@;
        input.push(InputItem::Continued { item: clone_item(&request.continuation.output[j]) });
        assert(items_view(input@) =~= items_view(before).push(continued[j as int]));
        assert(continued.take(j + 1) =~= continued.take(j as int).push(continued[j as int]));
        j += 1;
    }
    assert(continued.take(j as int) =~= continued);
    let mut k: usize = 0;
    while k < request.outputs.len()
        invariant
            k <= request.outputs@.len(),
            answers == request.outputs@.map_values(
                |o: AgentToolOutput| ItemView::FunctionCallOutput { call_id: o.call_id@, output: o.output@ },
            ),
            items_view(input@) == raws + continued + answers.take(k as int),
        decreases request.outputs.len() - k,
    {
        let ghost before = input@;
        let o = &request.outputs[k];
        input.push(InputItem::FunctionCallOutput { call_id: o.call_id.clone(), output: o.output.clone() });
        assert(items_view(input@) =~= items_view(before).push(answers[k as int]));
        assert(answers.take(k + 1) =~= answers.take(k as int).push(answers[k as int]));
        k += 1;
    }
    assert(answers.take(k as int) =~= answers);
    ResponsesRequest {
        model: owned(model),
        input,
        stream: true,
        store: false,
        reasoning: Reasoning { effort: owned(wire_value(effort)), summary: "auto" },
        instructions: Some(request.instructions.clone()),
        tools: offered_tools(&request.tools),
        tool_choice: None,
    }
}

/// Every image the attachment importer accepts can be sent: an attachment whose MIME
/// type is one the importer gives for some bytes, within the request's size limit and
/// present with its recorded size, becomes an input image part with its data URL.
pub proof fn lemma_imported_images_are_sendable(
    att: Attachment,
    progress: ImageProgress,
    files: Seq<Option<Vec<u8>>>,
    imported: Seq<u8>,
)
    requires
        image_type_spec(imported) matches Ok((mime, _)) && mime == att.mime_type@,
        progress.total + att.byte_size <= MAX_IMAGE_REQUEST_BYTES,
        file_at(files, progress.used) matches Some(bytes) && bytes.len() == att.byte_size,
    ensures
        attachment_step(att, progress, files) == Ok::<(ContentView, ImageProgress), Seq<char>>(
            (
                ContentView::InputImage(data_url(att.mime_type@, file_at(files, progress.used)->0)),
                ImageProgress { total: (progress.total + att.byte_size) as u64, used: progress.used + 1 },
            ),
        ),
{
}

} // verus!
