//! What a request is answered with, and how the answer is written on the wire.

use vstd::prelude::*;
use vstd::string::StringExecFns;

verus! {

/// The outcome of handling one request.
#[derive(Debug, Clone, PartialEq, Eq)]
pub enum HttpResult {
    /// The file was read; the payload is its contents.
    HttpOk(String),
    /// No rule covers the requested path; the payload is the message.
    HttpNotFound(String),
    /// A rule covers the path but its file could not be read.
    HttpServerError(String),
}

/// An [`HttpResult`] with its texts as sequences of characters.
pub enum HttpResultView {
    HttpOk(Seq<char>),
    HttpNotFound(Seq<char>),
    HttpServerError(Seq<char>),
}

impl View for HttpResult {
    type V = HttpResultView;

    open spec fn view(&self) -> HttpResultView {
        match self {
            HttpResult::HttpOk(body) => HttpResultView::HttpOk(body@),
            HttpResult::HttpNotFound(message) => HttpResultView::HttpNotFound(message@),
            HttpResult::HttpServerError(error) => HttpResultView::HttpServerError(error@),
        }
    }
}

impl HttpResultView {
    /// The status line of the response, with the blank line that ends the head.
    pub open spec fn head(self) -> Seq<char> {
        match self {
            HttpResultView::HttpOk(_) => "HTTP/1.1 200 Ok\r\n\r\n"@,
            HttpResultView::HttpNotFound(_) => "HTTP/1.1 404 Not Found\r\n\r\n"@,
            HttpResultView::HttpServerError(_) => "HTTP/1.1 500 Server Error\r\n\r\n"@,
        }
    }

    /// The text that follows the head.
    pub open spec fn body(self) -> Seq<char> {
        match self {
            HttpResultView::HttpOk(body) => body,
            HttpResultView::HttpNotFound(message) => message,
            HttpResultView::HttpServerError(error) => error,
        }
    }

    /// The whole response: head, then body, and no header in between.
    pub open spec fn rendered(self) -> Seq<char> {
        self.head() + self.body()
    }
}

/// Writes a result as the text of an HTTP/1.1 response.
pub fn render_result(result: HttpResult) -> (response: String)
    ensures
        response@ == result@.rendered(),
{
    match result {
        HttpResult::HttpOk(body) => {
            String::from_str("HTTP/1.1 200 Ok\r\n\r\n").concat(body.as_str())
        },
        HttpResult::HttpNotFound(message) => {
            String::from_str("HTTP/1.1 404 Not Found\r\n\r\n").concat(message.as_str())
        },
        HttpResult::HttpServerError(error) => {
            String::from_str("HTTP/1.1 500 Server Error\r\n\r\n").concat(error.as_str())
        },
    }
}

/// What is said of a file that could not be read.
pub open spec fn missing_file_message(file: Seq<char>) -> Seq<char> {
    "File "@ + file + " not found!"@
}

/// The result of serving a file, given what reading it brought: its
/// contents, or nothing where it could not be read.
pub open spec fn file_result(file: Seq<char>, contents: Option<Seq<char>>) -> HttpResultView {
    match contents {
        Some(body) => HttpResultView::HttpOk(body),
        None => HttpResultView::HttpServerError(missing_file_message(file)),
    }
}

/// Answers a request that a rule sends to the file at `path`. The caller
/// has tried to read that file and passes what it got: the contents, or
/// `None` where the file is missing or unreadable.
pub fn serve_file(path: &str, contents: Option<String>) -> (result: HttpResult)
    ensures
        result@ == file_result(path@, contents.deep_view()),
{
    match contents {
        Some(body) => HttpResult::HttpOk(body),
        None => HttpResult::HttpServerError(
            String::from_str("File ").concat(path).concat(" not found!"),
        ),
    }
}

/// A file that was read is answered with status 200 and its contents, a
/// file that could not be read with status 500 and a message that names it.
pub proof fn law_file_answers(file: Seq<char>, contents: Seq<char>)
    ensures
        file_result(file, Some(contents)).rendered() == "HTTP/1.1 200 Ok\r\n\r\n"@ + contents,
        file_result(file, None).rendered() == "HTTP/1.1 500 Server Error\r\n\r\n"@ + ("File "@
            + file + " not found!"@),
{
}

} // verus!
