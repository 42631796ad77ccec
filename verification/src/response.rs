//! What a stub answers with, and how a file-backed body is rendered.

use vstd::prelude::*;

use crate::json::{compact, json_compact_form};
use crate::text::{copy_pairs, same};

verus! {

/// A body together with the content type it is served under.
pub enum Payload {
    /// JSON, served as `application/json`.
    Json(String),
    /// Plain text, served as `text/plain`.
    Text(String),
}

/// A body as contracts see it.
pub enum PayloadView {
    Json(Seq<char>),
    Text(Seq<char>),
}

impl View for Payload {
    type V = PayloadView;

    open spec fn view(&self) -> PayloadView {
        match self {
            Payload::Json(text) => PayloadView::Json(text@),
            Payload::Text(text) => PayloadView::Text(text@),
        }
    }
}

/// A concrete response: what the dispatch engine sends back.
pub struct Reply {
    pub status: u16,
    pub headers: Vec<(String, String)>,
    pub body: Option<Payload>,
    /// How long to wait before answering, in milliseconds.
    pub delay_ms: Option<u64>,
}

/// A response as contracts see it.
pub struct ReplyView {
    pub status: u16,
    pub headers: Seq<(Seq<char>, Seq<char>)>,
    pub body: Option<PayloadView>,
    pub delay_ms: Option<u64>,
}

impl View for Reply {
    type V = ReplyView;

    open spec fn view(&self) -> ReplyView {
        ReplyView {
            status: self.status,
            headers: self.headers.deep_view(),
            body: match self.body {
                Some(payload) => Some(payload@),
                None => None,
            },
            delay_ms: self.delay_ms,
        }
    }
}

/// The status of the response that stands in for a body that cannot be
/// rendered.
pub const FAILED_STATUS: u16 = 500;

/// The response that stands in for a body that cannot be rendered: the
/// failure status, no header, no body, no delay.
pub open spec fn failure() -> ReplyView {
    ReplyView { status: FAILED_STATUS, headers: Seq::empty(), body: None, delay_ms: None }
}

/// How rendering ended: with the response as declared, or failed closed.
pub enum Rendering {
    Rendered(Reply),
    Synthetic500,
}

/// The outcome of rendering as contracts see it.
pub enum RenderingView {
    Rendered(ReplyView),
    Synthetic500,
}

impl View for Rendering {
    type V = RenderingView;

    open spec fn view(&self) -> RenderingView {
        match self {
            Rendering::Rendered(reply) => RenderingView::Rendered(reply@),
            Rendering::Synthetic500 => RenderingView::Synthetic500,
        }
    }
}

impl RenderingView {
    /// The response that is sent.
    pub open spec fn reply(self) -> ReplyView {
        match self {
            RenderingView::Rendered(reply) => reply,
            RenderingView::Synthetic500 => failure(),
        }
    }
}

impl Rendering {
    /// The response that is sent: the rendered one, or the synthetic failure.
    pub fn into_reply(self) -> (reply: Reply)
        ensures
            reply@ == self@.reply(),
    {
        match self {
            Rendering::Rendered(reply) => reply,
            Rendering::Synthetic500 => {
                let reply = Reply {
                    status: FAILED_STATUS,
                    headers: Vec::new(),
                    body: None,
                    delay_ms: None,
                };
                assert(reply.headers.deep_view() =~= Seq::empty());
                reply
            },
        }
    }

    /// The status of the response that is sent.
    pub fn status(&self) -> (status: u16)
        ensures
            status == self@.reply().status,
    {
        match self {
            Rendering::Rendered(reply) => reply.status,
            Rendering::Synthetic500 => FAILED_STATUS,
        }
    }
}

/// A body file as it was found and read before rendering.
#[derive(Debug, Default, Eq, PartialEq, Hash)]
pub struct BodyFile {
    pub path_exists: bool,
    pub path: String,
    pub extension: Option<String>,
    pub content: String,
}

/// A body file as contracts see it.
pub struct BodyFileView {
    pub path_exists: bool,
    pub path: Seq<char>,
    pub extension: Option<Seq<char>>,
    pub content: Seq<char>,
}

impl View for BodyFile {
    type V = BodyFileView;

    open spec fn view(&self) -> BodyFileView {
        BodyFileView {
            path_exists: self.path_exists,
            path: self.path@,
            extension: self.extension.deep_view(),
            content: self.content@,
        }
    }
}

/// The extension of a file that holds JSON.
pub open spec fn json_extension() -> Seq<char> {
    "json"@
}

/// The extension of a file that holds plain text.
pub open spec fn text_extension() -> Seq<char> {
    "txt"@
}

impl BodyFileView {
    /// The file's extension is that of JSON files.
    pub open spec fn is_json(self) -> bool {
        self.extension == Some(json_extension())
    }

    /// The file's extension is that of text files.
    pub open spec fn is_text(self) -> bool {
        self.extension == Some(text_extension())
    }

    /// The outcome of rendering this file into `reply` with `content` as the
    /// file's text. A missing file, an extension other than the two known
    /// ones and a JSON file whose text is not JSON all fail closed; otherwise
    /// `reply` gets the body and keeps its status and headers.
    pub open spec fn rendering(self, reply: ReplyView, content: Seq<char>) -> RenderingView {
        if !self.path_exists {
            RenderingView::Synthetic500
        } else if self.is_json() {
            match json_compact_form(content) {
                Some(written) => RenderingView::Rendered(
                    ReplyView { body: Some(PayloadView::Json(written)), ..reply },
                ),
                None => RenderingView::Synthetic500,
            }
        } else if self.is_text() {
            RenderingView::Rendered(ReplyView { body: Some(PayloadView::Text(content)), ..reply })
        } else {
            RenderingView::Synthetic500
        }
    }
}

/// Puts the JSON that was read from `content` into `reply`, or fails closed
/// where none was read.
pub fn with_json(reply: Reply, written: Option<String>) -> (outcome: Rendering)
    ensures
        outcome@ == match written {
            Some(text) => RenderingView::Rendered(
                ReplyView { body: Some(PayloadView::Json(text@)), ..reply@ },
            ),
            None => RenderingView::Synthetic500,
        },
{
    match written {
        Some(text) => Rendering::Rendered(
            Reply {
                status: reply.status,
                headers: reply.headers,
                body: Some(Payload::Json(text)),
                delay_ms: reply.delay_ms,
            },
        ),
        None => Rendering::Synthetic500,
    }
}

impl BodyFile {
    /// The file's text as JSON in compact form, where the file is a JSON file
    /// and its text is JSON.
    pub fn maybe_as_json(&self) -> (written: Option<String>)
        ensures
            written.deep_view() == if self@.is_json() {
                json_compact_form(self@.content)
            } else {
                None
            },
    {
        if self.is_json() {
            compact(self.content.as_str())
        } else {
            None
        }
    }

    /// The file's text, where the file is a text file.
    pub fn maybe_as_text(&self) -> (text: Option<String>)
        ensures
            text.deep_view() == if self@.is_text() {
                Some(self@.content)
            } else {
                None
            },
    {
        if self.is_text() {
            Some(self.content.clone())
        } else {
            None
        }
    }

    /// Tells whether the file's extension is that of JSON files.
    pub fn is_json(&self) -> (json: bool)
        ensures
            json == self@.is_json(),
    {
        match &self.extension {
            Some(extension) => same(extension.as_str(), "json"),
            None => false,
        }
    }

    /// Tells whether the file's extension is that of text files.
    pub fn is_text(&self) -> (text: bool)
        ensures
            text == self@.is_text(),
    {
        match &self.extension {
            Some(extension) => same(extension.as_str(), "txt"),
            None => false,
        }
    }

    /// Renders the file into `resp`, with `content` as the file's text once
    /// its templates were filled in.
    pub fn render_templated(&self, resp: Reply, content: String) -> (outcome: Rendering)
        ensures
            outcome@ == self@.rendering(resp@, content@),
    {
        if !self.path_exists {
            Rendering::Synthetic500
        } else if self.is_json() {
            with_json(resp, compact(content.as_str()))
        } else if self.is_text() {
            Rendering::Rendered(
                Reply {
                    status: resp.status,
                    headers: resp.headers,
                    body: Some(Payload::Text(content)),
                    delay_ms: resp.delay_ms,
                },
            )
        } else {
            Rendering::Synthetic500
        }
    }

    /// Renders the file into `resp` with the text it was read with.
    pub fn add(&self, resp: Reply) -> (outcome: Rendering)
        ensures
            outcome@ == self@.rendering(resp@, self@.content),
    {
        if !self.path_exists {
            Rendering::Synthetic500
        } else if self.is_json() {
            with_json(resp, self.maybe_as_json())
        } else {
            match self.maybe_as_text() {
                Some(text) => Rendering::Rendered(
                    Reply {
                        status: resp.status,
                        headers: resp.headers,
                        body: Some(Payload::Text(text)),
                        delay_ms: resp.delay_ms,
                    },
                ),
                None => Rendering::Synthetic500,
            }
        }
    }
}

impl BodyFile {
    /// A copy of the file.
    pub fn duplicate(&self) -> (copy: BodyFile)
        ensures
            copy@ == self@,
    {
        BodyFile {
            path_exists: self.path_exists,
            path: self.path.clone(),
            extension: match &self.extension {
                Some(extension) => Some(extension.clone()),
                None => None,
            },
            content: self.content.clone(),
        }
    }
}

/// The body that a stub declares: at most one of the three kinds.
pub enum ResponseBody {
    /// No body.
    Empty,
    /// A JSON value, written in the stub itself.
    InlineJson(String),
    /// A text, written in the stub itself.
    InlineText(String),
    /// A file that holds the body.
    File(BodyFile),
}

/// A declared body as contracts see it.
pub enum ResponseBodyView {
    Empty,
    InlineJson(Seq<char>),
    InlineText(Seq<char>),
    File(BodyFileView),
}

impl View for ResponseBody {
    type V = ResponseBodyView;

    open spec fn view(&self) -> ResponseBodyView {
        match self {
            ResponseBody::Empty => ResponseBodyView::Empty,
            ResponseBody::InlineJson(text) => ResponseBodyView::InlineJson(text@),
            ResponseBody::InlineText(text) => ResponseBodyView::InlineText(text@),
            ResponseBody::File(file) => ResponseBodyView::File(file@),
        }
    }
}

/// What a stub answers with.
pub struct ResponseStub {
    pub status: u16,
    pub headers: Vec<(String, String)>,
    pub body: ResponseBody,
    /// How long to wait before answering, in milliseconds.
    pub delay_ms: Option<u64>,
}

/// The response part of a stub as contracts see it.
pub struct ResponseStubView {
    pub status: u16,
    pub headers: Seq<(Seq<char>, Seq<char>)>,
    pub body: ResponseBodyView,
    pub delay_ms: Option<u64>,
}

impl View for ResponseStub {
    type V = ResponseStubView;

    open spec fn view(&self) -> ResponseStubView {
        ResponseStubView {
            status: self.status,
            headers: self.headers.deep_view(),
            body: self.body@,
            delay_ms: self.delay_ms,
        }
    }
}

impl ResponseStubView {
    /// The response before its body is rendered: status, headers and delay.
    pub open spec fn head(self) -> ReplyView {
        ReplyView { status: self.status, headers: self.headers, body: None, delay_ms: self.delay_ms }
    }

    /// The outcome of rendering the stub's response. Exactly one kind of
    /// body is realised; inline JSON is written back in compact form and
    /// fails closed like a JSON file where it is not JSON.
    pub open spec fn rendering(self) -> RenderingView {
        match self.body {
            ResponseBodyView::Empty => RenderingView::Rendered(self.head()),
            ResponseBodyView::InlineJson(text) => match json_compact_form(text) {
                Some(written) => RenderingView::Rendered(
                    ReplyView { body: Some(PayloadView::Json(written)), ..self.head() },
                ),
                None => RenderingView::Synthetic500,
            },
            ResponseBodyView::InlineText(text) => RenderingView::Rendered(
                ReplyView { body: Some(PayloadView::Text(text)), ..self.head() },
            ),
            ResponseBodyView::File(file) => file.rendering(self.head(), file.content),
        }
    }
}

impl ResponseStub {
    /// A copy of the response.
    pub fn duplicate(&self) -> (copy: ResponseStub)
        ensures
            copy@ == self@,
    {
        ResponseStub {
            status: self.status,
            headers: copy_pairs(&self.headers),
            body: match &self.body {
                ResponseBody::Empty => ResponseBody::Empty,
                ResponseBody::InlineJson(text) => ResponseBody::InlineJson(text.clone()),
                ResponseBody::InlineText(text) => ResponseBody::InlineText(text.clone()),
                ResponseBody::File(file) => ResponseBody::File(file.duplicate()),
            },
            delay_ms: self.delay_ms,
        }
    }

    /// The response before its body is rendered.
    pub fn head(&self) -> (reply: Reply)
        ensures
            reply@ == self@.head(),
    {
        Reply {
            status: self.status,
            headers: copy_pairs(&self.headers),
            body: None,
            delay_ms: self.delay_ms,
        }
    }

    /// Renders the response.
    pub fn render(&self) -> (outcome: Rendering)
        ensures
            outcome@ == self@.rendering(),
    {
        let head = self.head();
        match &self.body {
            ResponseBody::Empty => Rendering::Rendered(head),
            ResponseBody::InlineJson(text) => with_json(head, compact(text.as_str())),
            ResponseBody::InlineText(text) => Rendering::Rendered(
                Reply {
                    status: head.status,
                    headers: head.headers,
                    body: Some(Payload::Text(text.clone())),
                    delay_ms: head.delay_ms,
                },
            ),
            ResponseBody::File(file) => file.add(head),
        }
    }
}

/// A JSON file whose text is not JSON renders the failure status whether or
/// not the file was found, and a file that was not found renders it whatever
/// its extension and text.
pub proof fn lemma_unreadable_file_fails_closed(
    file: BodyFileView,
    reply: ReplyView,
    content: Seq<char>,
)
    ensures
        file.is_json() && json_compact_form(content) is None ==> file.rendering(
            reply,
            content,
        ).reply().status == FAILED_STATUS,
        !file.path_exists ==> file.rendering(reply, content).reply().status == FAILED_STATUS,
        file.rendering(reply, content) is Rendered ==> file.path_exists && (file.is_json()
            || file.is_text()),
{
}

} // verus!
