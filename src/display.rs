//! How an entry is laid out for the terminal.

use vstd::prelude::*;
use html2text::from_read;
use crate::feed::Entry;

verus! {

/// The text that html2text renders from an HTML body, wrapped to `width`
/// columns, if it can render it at that width.
pub uninterp spec fn html_text_of(html: Seq<char>, width: int) -> Option<Seq<char>>;

/// Relies on html2text's `from_read`, which renders HTML as plain text
/// wrapped to `width` columns, or fails; the outcome depends on the HTML and
/// the width alone. It fails at width zero.
#[verifier::external_body]
fn html_to_text(html: &str, width: usize) -> (r: Option<String>)
    ensures
        width == 0 ==> r is None,
        r is None <==> html_text_of(html@, width as int) is None,
        r matches Some(t) ==> html_text_of(html@, width as int) == Some(t@),
{
    match from_read(html.as_bytes(), width) {
        Ok(t) => Some(t),
        Err(_) => None,
    }
}

/// The body of an entry as it is shown: its raw HTML when `html_raw` is set,
/// else the text rendered from it at `width` columns, falling back to the
/// raw HTML where it cannot be rendered.
pub fn rendered_body(entry: &Entry, html_raw: bool, width: usize) -> (r: String)
    ensures
        r@ == if html_raw {
            entry.body@
        } else {
            match html_text_of(entry.body@, width as int) {
                Some(t) => t,
                None => entry.body@,
            }
        },
{
    if html_raw {
        entry.body.clone()
    } else {
        match html_to_text(entry.body.as_str(), width) {
            Some(t) => t,
            None => entry.body.clone(),
        }
    }
}

/// The room left on a line of `width` columns beside a title and the four
/// characters set around it, counting the title in bytes; none if it does
/// not fit.
pub fn title_padding(width: usize, title: &str) -> (r: usize)
    ensures
        r == if width >= title.len() + 4 {
            width - title.len() - 4
        } else {
            0
        },
{
    let n = title.len();
    if n <= width && width - n >= 4 {
        width - n - 4
    } else {
        0
    }
}

} // verus!
