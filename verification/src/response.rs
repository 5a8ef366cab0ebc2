//! Responses, and what remains to be done before one can be sent.

use vstd::prelude::*;

verus! {

/// The status of a response.
#[derive(Debug, Clone, Copy, PartialEq, Eq)]
pub enum Status {
    /// 200: the page or file asked for is in the body.
    Success,
    /// 400
    BadRequest,
    /// 404
    NotFound,
}

/// The content type of a response.
#[derive(Debug, Clone, Copy, PartialEq, Eq)]
pub enum ContentType {
    /// `text/html; charset=utf-8`: every page rendered from the template.
    Html,
    /// `text/css`
    Css,
    /// `image/svg+xml`
    Svg,
    /// `text/plain`
    Plain,
}

/// Why a request could not be answered with the page or file it asked for.
#[derive(Debug, Clone, Copy, PartialEq, Eq)]
pub enum RequestError {
    /// The path holds a malformed escape, or does not decode to UTF-8.
    DecodeError,
    /// The title holds a character that no title may hold.
    BadTitle,
    /// There is no file for the title or the path.
    NotFound,
    /// The file is there, but could not be read.
    IOError,
}

/// A response, ready to be sent.
#[derive(Debug, Clone, PartialEq, Eq)]
pub struct Response {
    pub status: Status,
    pub content_type: ContentType,
    pub body: Vec<u8>,
}

/// A response as plain values.
pub struct ResponseView {
    pub status: Status,
    pub content_type: ContentType,
    pub body: Seq<u8>,
}

/// What has to happen next for a request.
#[derive(Debug, Clone, PartialEq, Eq)]
pub enum Plan {
    /// Read the markdown file at `path`; the answer is the page `title`
    /// made from it.
    ReadPage { title: String, path: String },
    /// List the files in the directory `dir`; the answer is the page index.
    ListPages { dir: String },
    /// Read the file at `path`; the answer is its bytes.
    ReadStatic { path: String },
    /// Nothing is left to read: send this.
    Reply(Response),
}

/// A plan as plain values.
pub enum PlanView {
    ReadPage { title: Seq<char>, path: Seq<char> },
    ListPages { dir: Seq<char> },
    ReadStatic { path: Seq<char> },
    Reply(ResponseView),
}

impl View for Response {
    type V = ResponseView;

    open spec fn view(&self) -> ResponseView {
        ResponseView { status: self.status, content_type: self.content_type, body: self.body@ }
    }
}

impl View for Plan {
    type V = PlanView;

    open spec fn view(&self) -> PlanView {
        match *self {
            Plan::ReadPage { title, path } => PlanView::ReadPage { title: title@, path: path@ },
            Plan::ListPages { dir } => PlanView::ListPages { dir: dir@ },
            Plan::ReadStatic { path } => PlanView::ReadStatic { path: path@ },
            Plan::Reply(response) => PlanView::Reply(response@),
        }
    }
}

impl ContentType {
    /// The value of the content-type header.
    pub open spec fn mime(self) -> Seq<char> {
        match self {
            ContentType::Html => "text/html; charset=utf-8"@,
            ContentType::Css => "text/css"@,
            ContentType::Svg => "image/svg+xml"@,
            ContentType::Plain => "text/plain"@,
        }
    }

    /// The value of the content-type header.
    pub fn as_str(&self) -> (value: &'static str)
        ensures
            value@ == self.mime(),
    {
        match self {
            ContentType::Html => "text/html; charset=utf-8",
            ContentType::Css => "text/css",
            ContentType::Svg => "image/svg+xml",
            ContentType::Plain => "text/plain",
        }
    }
}

impl Response {
    /// The value of the content-length header: the length of the body in
    /// bytes.
    pub fn content_length(&self) -> (length: usize)
        ensures
            length == self@.body.len(),
    {
        self.body.len()
    }
}

} // verus!
