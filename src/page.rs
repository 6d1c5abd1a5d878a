//! What one run reports for one watched page, from its previous and its new
//! response.

use vstd::prelude::*;
use crate::report::{diff_report, line_diff, lines_view, report, DiffLine};
use crate::response::{body_label, decoded, label_known, parsed_charset, Response, ResponseError};

verus! {

#[verifier::external_type_specification]
#[verifier::external_body]
pub struct ExIoError(std::io::Error);

/// The Markdown that htmd renders an HTML text to, or `None` where it fails.
pub uninterp spec fn markdown_of(html: Seq<char>) -> Option<Seq<char>>;

/// Relies on `htmd::convert`: renders HTML as Markdown, with default options.
#[verifier::external_body]
fn html_to_markdown(html: &str) -> (r: Result<String, std::io::Error>)
    ensures
        r is Err <==> markdown_of(html@) is None,
        r matches Ok(m) ==> markdown_of(html@) == Some(m@),
{
    htmd::convert(html)
}

/// Render HTML as Markdown. The result depends on the HTML alone.
pub fn render_html(html: &str, _base_url: &str) -> (r: Result<String, std::io::Error>)
    ensures
        r is Err <==> markdown_of(html@) is None,
        r matches Ok(m) ==> markdown_of(html@) == Some(m@),
{
    html_to_markdown(html)
}

/// Errors resulting from reporting on one page.
#[derive(Debug)]
pub enum PageError {
    /// The response's body could not be decoded.
    Response(ResponseError),
    /// The response's body could not be rendered.
    Render(std::io::Error),
}

/// What is reported for one page.
#[derive(Debug)]
pub enum PageReport {
    /// Nothing changed: no output.
    Unchanged,
    /// The full rendering of the new response.
    Full(String),
    /// The report of the changes from the previous rendering.
    Diff(Vec<DiffLine>),
}

/// The rendering of a response's body, where decoding and rendering succeed.
pub open spec fn rendered(r: Response) -> Option<Seq<char>> {
    match parsed_charset(r.headers@) {
        None => None,
        Some(c) => if label_known(body_label(c)) {
            markdown_of(decoded(body_label(c), r.body@))
        } else {
            None
        },
    }
}

/// The rendering that a new response is compared with: that of the previous
/// response, or an empty text where there is none.
pub open spec fn baseline(old: Option<Response>) -> Option<Seq<char>> {
    match old {
        Some(o) => rendered(o),
        None => Some(Seq::empty()),
    }
}

/// Whether two byte strings are the same.
fn same_bytes(a: &Vec<u8>, b: &Vec<u8>) -> (r: bool)
    ensures
        r == (a@ == b@),
{
    if a.len() != b.len() {
        return false;
    }
    let mut i: usize = 0;
    while i < a.len()
        invariant
            a@.len() == b@.len(),
            i <= a@.len(),
            forall|k: int| 0 <= k < i ==> a@[k] == b@[k],
        decreases a.len() - i,
    {
        if a[i] != b[i] {
            return false;
        }
        i = i + 1;
    }
    assert(a@ =~= b@);
    true
}

/// Decodes and renders a response's body.
pub fn render_response(resp: &Response) -> (r: Result<String, PageError>)
    ensures
        r is Err <==> rendered(*resp) is None,
        r matches Ok(m) ==> rendered(*resp) == Some(m@),
{
    let text = match resp.text() {
        Ok(t) => t,
        Err(e) => return Err(PageError::Response(e)),
    };
    match render_html(text.as_str(), resp.url.as_str()) {
        Ok(m) => Ok(m),
        Err(e) => Err(PageError::Render(e)),
    }
}

/// Decides what to report for a page: nothing where the bodies are the same
/// bytes (without rendering either); else the new rendering in full where
/// `no_diff` asks for it, or else the report of its diff from the previous
/// rendering (empty where there was no previous response), or nothing where
/// the two renderings are equal.
pub fn page_report(old: Option<&Response>, new: &Response, no_diff: bool) -> (r: Result<PageReport, PageError>)
    ensures
        old matches Some(o) && o.body@ == new.body@ ==> r matches Ok(PageReport::Unchanged),
        !(old matches Some(o) && o.body@ == new.body@) ==> {
            let before = baseline(match old { Some(o) => Some(*o), None => None });
            let after = rendered(*new);
            &&& (r is Err <==> before is None || after is None)
            &&& r is Ok ==> {
                if no_diff {
                    r matches Ok(PageReport::Full(t)) && after == Some(t@)
                } else if before == after {
                    r matches Ok(PageReport::Unchanged)
                } else {
                    r matches Ok(PageReport::Diff(d))
                        && lines_view(d@) == report(line_diff(before.unwrap(), after.unwrap()))
                }
            }
        },
{
    let old_md = match old {
        Some(o) => {
            if same_bytes(&o.body, &new.body) {
                return Ok(PageReport::Unchanged);
            }
            match render_response(o) {
                Ok(m) => m,
                Err(e) => return Err(e),
            }
        },
        None => String::new(),
    };
    let new_md = match render_response(new) {
        Ok(m) => m,
        Err(e) => return Err(e),
    };
    if no_diff {
        Ok(PageReport::Full(new_md))
    } else if new_md == old_md {
        Ok(PageReport::Unchanged)
    } else {
        Ok(PageReport::Diff(diff_report(old_md.as_str(), new_md.as_str())))
    }
}

} // verus!
