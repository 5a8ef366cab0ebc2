//! The server's decisions: from a request to what has to be read, and from
//! what was read to the response.
//!
//! Nothing here touches a socket or a file. `handle` turns a request into a
//! `Plan`; whoever runs the server reads what the plan names and hands the
//! outcome to `page_response`, `index_response` or `static_response`.

use vstd::prelude::*;
use vstd::string::{StrSliceExecFns, StringExecFns};
use vstd::utf8::encode_utf8;
use crate::cmark::{markdown_html, to_html};
use crate::fetched::Fetched;
use crate::jinja2::{context_of, render, Template};
use crate::pages::listing_html;
use crate::percent::{percent_decoded, PercentDecoder};
use crate::response::{ContentType, Plan, PlanView, RequestError, Response, ResponseView, Status};
use crate::router::{dispatch, route, route_table, routes, Route};
use crate::text::{chars_of, str_eq};
use crate::title::is_bad;

verus! {

/// What the template is rendered with.
pub struct Ctx {
    pub content: String,
    pub title: String,
}

/// Where the server listens.
#[derive(Debug, Clone, Copy, PartialEq, Eq)]
pub struct SocketAddr {
    pub ip: (u8, u8, u8, u8),
    pub port: u16,
}

/// How the server is to be set up.
#[derive(Debug, Clone, Copy, PartialEq, Eq)]
pub struct Config {
    pub bind_address: SocketAddr,
}

/// The site: where its documents and static files lie, and the template
/// that every page is rendered with.
#[derive(Debug, Clone)]
pub struct RustKrServer {
    pub port: u16,
    pub doc_dir: String,
    pub static_dir: String,
    pub template: Template,
}

/// Whether the file that `path` names has the extension `ext`: the name
/// ends in a `.` and `ext`, and something stands before that `.`.
pub open spec fn has_extension(path: Seq<char>, ext: Seq<char>) -> bool {
    let dot = path.len() - ext.len() - 1;
    &&& dot >= 1
    &&& path.skip(dot + 1) == ext
    &&& path[dot] == '.'
    &&& path[dot - 1] != '/'
}

/// The content type of a static file, by its extension.
pub open spec fn content_type_for(path: Seq<char>) -> ContentType {
    if has_extension(path, "css"@) {
        ContentType::Css
    } else if has_extension(path, "svg"@) {
        ContentType::Svg
    } else {
        ContentType::Plain
    }
}

/// Whether the file that `path` names has the extension `ext`.
fn ends_with_extension(path: &Vec<char>, ext: &str) -> (has: bool)
    ensures
        has == has_extension(path@, ext@),
{
    let suffix = chars_of(ext);
    let n = path.len();
    let k = suffix.len();
    if n < 2 || k > n - 2 {
        return false;
    }
    let dot = n - k - 1;
    if path[dot] != '.' || path[dot - 1] == '/' {
        return false;
    }
    let mut i: usize = 0;
    while i < k
        invariant
            i <= k,
            k == suffix.len(),
            suffix@ == ext@,
            n == path.len(),
            dot + 1 + k == n,
            forall|j: int| 0 <= j < i ==> path@[dot + 1 + j] == suffix@[j],
        decreases k - i,
    {
        if path[dot + 1 + i] != suffix[i] {
            assert(path@.skip(dot + 1)[i as int] != suffix@[i as int]);
            return false;
        }
        i += 1;
    }
    assert(path@.skip(dot + 1) == suffix@);
    true
}

/// The content type of the static file at `path`.
pub fn content_type_of(path: &str) -> (content_type: ContentType)
    ensures
        content_type == content_type_for(path@),
{
    let chars = chars_of(path);
    if ends_with_extension(&chars, "css") {
        ContentType::Css
    } else if ends_with_extension(&chars, "svg") {
        ContentType::Svg
    } else {
        ContentType::Plain
    }
}

impl RustKrServer {
    /// What the template gives for a title and a content.
    pub open spec fn rendered(&self, title: Seq<char>, content: Seq<char>) -> Seq<char> {
        render(self.template@, seq![("title"@, title), ("content"@, content)])
    }

    /// The response that shows a title and a content in the template.
    pub open spec fn page(&self, title: Seq<char>, content: Seq<char>, status: Status)
        -> ResponseView {
        ResponseView {
            status,
            content_type: ContentType::Html,
            body: encode_utf8(self.rendered(title, content)),
        }
    }

    /// The response to a request for what is not there.
    pub open spec fn not_found(&self) -> ResponseView {
        self.page("Not Found"@, "헐"@, Status::NotFound)
    }

    /// The response to a request that cannot be understood.
    pub open spec fn bad_request(&self) -> ResponseView {
        self.page("Bad request"@, "헐"@, Status::BadRequest)
    }

    /// The response that reports `error`.
    pub open spec fn error_page(&self, error: RequestError) -> ResponseView {
        match error {
            RequestError::DecodeError | RequestError::BadTitle => self.bad_request(),
            RequestError::NotFound | RequestError::IOError => self.not_found(),
        }
    }

    /// The file that holds the page `title`.
    pub open spec fn page_path(&self, title: Seq<char>) -> Seq<char> {
        self.doc_dir@ + "/"@ + title + ".md"@
    }

    /// The plan for the page `title`: a bad title is refused, `_pages` is
    /// the page index, any other title is looked up in the document root.
    pub open spec fn page_plan(&self, title: Seq<char>) -> PlanView {
        if is_bad(title) {
            PlanView::Reply(self.error_page(RequestError::BadTitle))
        } else if title == "_pages"@ {
            PlanView::ListPages { dir: self.doc_dir@ }
        } else {
            PlanView::ReadPage { title, path: self.page_path(title) }
        }
    }

    /// The plan for what follows `/`: the page `index` where nothing
    /// follows, and no page otherwise.
    pub open spec fn index_plan(&self, remaining: Seq<char>) -> PlanView {
        if remaining.len() > 0 {
            PlanView::Reply(self.not_found())
        } else {
            self.page_plan("index"@)
        }
    }

    /// The plan for what follows `/static/`.
    pub open spec fn static_plan(&self, loc: Seq<char>) -> PlanView {
        PlanView::ReadStatic { path: self.static_dir@ + "/"@ + loc }
    }

    /// The plan for a request path: decode it, route it, and let the route's
    /// handler decide.
    pub open spec fn request_plan(&self, raw_path: Seq<char>) -> PlanView {
        match percent_decoded(raw_path) {
            None => PlanView::Reply(self.error_page(RequestError::DecodeError)),
            Some(path) => match dispatch(routes(), path) {
                Some((Route::Static, rest)) => self.static_plan(rest),
                Some((Route::Page, rest)) => self.page_plan(rest),
                Some((Route::Index, rest)) => self.index_plan(rest),
                None => PlanView::Reply(self.bad_request()),
            },
        }
    }

    /// A server for the documents in `doc_dir` and the static files in
    /// `static_dir`, which renders every page with `template`.
    pub fn new(doc_dir: String, port: u16, static_dir: String, template: Template) -> (server:
        RustKrServer)
        ensures
            server.doc_dir == doc_dir,
            server.port == port,
            server.static_dir == static_dir,
            server.template == template,
    {
        RustKrServer { port, doc_dir, static_dir, template }
    }

    /// The server listens on the loopback address, at its port.
    pub fn get_config(&self) -> (config: Config)
        ensures
            config.bind_address.ip == (127u8, 0u8, 0u8, 1u8),
            config.bind_address.port == self.port,
    {
        Config { bind_address: SocketAddr { ip: (127, 0, 0, 1), port: self.port } }
    }

    /// Whether `title` holds a character outside `[A-Za-z0-9_-]`.
    pub fn is_bad_title(&self, title: &str) -> (bad: bool)
        ensures
            bad == is_bad(title@),
    {
        crate::title::is_bad_title(title)
    }

    /// The HTML of a page from what its file gave.
    pub fn read_page(&self, file: &Fetched<String>) -> (page: Result<String, RequestError>)
        ensures
            match *file {
                Fetched::Found(text) => page matches Ok(html) && html@ == markdown_html(text@),
                Fetched::Missing => page == Err::<String, RequestError>(RequestError::NotFound),
                Fetched::Unreadable => page == Err::<String, RequestError>(RequestError::IOError),
            },
    {
        match file {
            Fetched::Found(text) => Ok(to_html(text.as_str())),
            Fetched::Missing => Err(RequestError::NotFound),
            Fetched::Unreadable => Err(RequestError::IOError),
        }
    }

    /// The page index from what the document root gave.
    pub fn list_pages(&self, listing: &Fetched<Vec<String>>) -> (html: String)
        ensures
            html@ == listing_html(*listing),
    {
        crate::pages::list_pages(listing)
    }

    /// Renders the template with `ctx` into a response.
    pub fn show_template(&self, ctx: &Ctx, status: Status) -> (response: Response)
        ensures
            response@ == self.page(ctx.title@, ctx.content@, status),
    {
        let mut values: Vec<(&str, &str)> = Vec::new();
        values.push(("title", ctx.title.as_str()));
        values.push(("content", ctx.content.as_str()));
        assert(context_of(values@) == seq![("title"@, ctx.title@), ("content"@, ctx.content@)]);
        let output = self.template.replace(values.as_slice());
        Response {
            status,
            content_type: ContentType::Html,
            body: output.as_str().as_bytes_vec(),
        }
    }

    /// The page that answers a request for what is not there.
    pub fn show_not_found(&self) -> (response: Response)
        ensures
            response@ == self.not_found(),
    {
        let ctx = Ctx { title: String::from_str("Not Found"), content: String::from_str("헐") };
        self.show_template(&ctx, Status::NotFound)
    }

    /// The page that answers a request that cannot be understood.
    pub fn show_bad_request(&self) -> (response: Response)
        ensures
            response@ == self.bad_request(),
    {
        let ctx = Ctx { title: String::from_str("Bad request"), content: String::from_str("헐") };
        self.show_template(&ctx, Status::BadRequest)
    }

    /// The response that reports `error`: a bad request for a path or a
    /// title that cannot be accepted, not found for a file that is missing
    /// or cannot be read.
    pub fn error_response(&self, error: RequestError) -> (response: Response)
        ensures
            response@ == self.error_page(error),
    {
        match error {
            RequestError::DecodeError | RequestError::BadTitle => self.show_bad_request(),
            RequestError::NotFound | RequestError::IOError => self.show_not_found(),
        }
    }

    /// Handles a request: only `GET` of an absolute path is served.
    pub fn handle(&self, get: bool, uri: Option<&str>) -> (plan: Plan)
        ensures
            plan@ == match uri {
                Some(raw_path) if get => self.request_plan(raw_path@),
                _ => PlanView::Reply(self.bad_request()),
            },
    {
        match uri {
            Some(raw_path) if get => self.handle_request(raw_path),
            _ => Plan::Reply(self.show_bad_request()),
        }
    }

    /// Decodes the path of a request and hands what follows the first
    /// matching route prefix to that route's handler.
    pub fn handle_request(&self, raw_path: &str) -> (plan: Plan)
        ensures
            plan@ == self.request_plan(raw_path@),
    {
        let url = match raw_path.decode_percent() {
            Some(url) => url,
            None => {
                return Plan::Reply(self.error_response(RequestError::DecodeError));
            },
        };
        let table = route_table();
        match route(table.as_slice(), url.as_str()) {
            Some((Route::Static, remaining)) => self.handle_static_file(remaining.as_str()),
            Some((Route::Page, remaining)) => self.handle_page(remaining.as_str()),
            Some((Route::Index, remaining)) => self.handle_index_page(remaining.as_str()),
            None => Plan::Reply(self.show_bad_request()),
        }
    }

    /// What follows `/` in the path: nothing for the page `index`, and
    /// anything else is not found.
    pub fn handle_index_page(&self, remaining: &str) -> (plan: Plan)
        ensures
            plan@ == self.index_plan(remaining@),
    {
        if !remaining.is_empty() {
            return Plan::Reply(self.show_not_found());
        }
        self.handle_page("index")
    }

    /// What follows `/pages/` in the path is a title: a bad one is a bad
    /// request, `_pages` asks for the page index, any other names the
    /// markdown file to read.
    pub fn handle_page(&self, title: &str) -> (plan: Plan)
        ensures
            plan@ == self.page_plan(title@),
    {
        if self.is_bad_title(title) {
            return Plan::Reply(self.error_response(RequestError::BadTitle));
        }
        if str_eq(title, "_pages") {
            return Plan::ListPages { dir: self.doc_dir.clone() };
        }
        let mut path = self.doc_dir.clone();
        path.append("/");
        path.append(title);
        path.append(".md");
        Plan::ReadPage { title: String::from_str(title), path }
    }

    /// What follows `/static/` in the path names a file under the static
    /// root.
    pub fn handle_static_file(&self, loc: &str) -> (plan: Plan)
        ensures
            plan@ == self.static_plan(loc@),
    {
        let mut path = self.static_dir.clone();
        path.append("/");
        path.append(loc);
        Plan::ReadStatic { path }
    }

    /// The response for the page `title`, from what its file gave: the page
    /// rendered in the template, or not found where the file is missing or
    /// cannot be read.
    pub fn page_response(&self, title: &str, file: &Fetched<String>) -> (response: Response)
        ensures
            response@ == match *file {
                Fetched::Found(text) => self.page(title@, markdown_html(text@), Status::Success),
                _ => self.not_found(),
            },
    {
        match self.read_page(file) {
            Ok(content) => {
                let ctx = Ctx { title: String::from_str(title), content };
                self.show_template(&ctx, Status::Success)
            },
            Err(error) => self.error_response(error),
        }
    }

    /// The response for the page index, from what the document root gave.
    pub fn index_response(&self, listing: &Fetched<Vec<String>>) -> (response: Response)
        ensures
            response@ == self.page("모든 문서"@, listing_html(*listing), Status::Success),
    {
        let ctx = Ctx { title: String::from_str("모든 문서"), content: self.list_pages(listing) };
        self.show_template(&ctx, Status::Success)
    }

    /// The response for the static file at `path`, from what the file gave:
    /// its bytes with the content type of its extension, or not found where
    /// the file is missing or cannot be read.
    pub fn static_response(&self, path: &str, file: Fetched<Vec<u8>>) -> (response: Response)
        ensures
            response@ == match file {
                Fetched::Found(bytes) => (ResponseView {
                    status: Status::Success,
                    content_type: content_type_for(path@),
                    body: bytes@,
                }),
                _ => self.not_found(),
            },
    {
        match file {
            Fetched::Found(bytes) => Response {
                status: Status::Success,
                content_type: content_type_of(path),
                body: bytes,
            },
            _ => self.show_not_found(),
        }
    }
}

} // verus!
