use vstd::prelude::*;

use crate::error::Error;
use crate::text::{
    contains, contains_str, find_from, first_from, lemma_first_from_occurs, occurs_at, regex_removed, remove_matches,
    trim_end, trimmed_end,
};

verus! {

/// The pattern of the `version` and `xmlns` attributes, with the whitespace
/// before them, that an inlined SVG document drops.
pub open spec fn svg_attributes() -> Seq<char> {
    "\\s+(version|xmlns)=\"[^\"]+\""@
}

/// The element inserted into an SVG document to give it a title.
pub open spec fn title_element(title: Seq<char>) -> Seq<char> {
    "<title>"@ + title + "</title>"@
}

/// An SVG document, whose attributes are already stripped, with `title`
/// inserted right after the closing bracket of its first `<svg` tag.
/// It is unchanged when the title is empty or it already holds a
/// `<title>`; there is no result when the tag cannot be found.
pub open spec fn svg_with_title(svg: Seq<char>, title: Seq<char>) -> Option<Seq<char>> {
    if title.len() == 0 || contains(svg, "<title>"@) {
        Some(svg)
    } else {
        match first_from(svg, "<svg"@, 0) {
            None => None,
            Some(open) => match first_from(svg, ">"@, open + 4) {
                None => None,
                Some(close) => Some(
                    svg.subrange(0, close + 1) + title_element(title) + svg.subrange(
                        close + 1,
                        svg.len() as int,
                    ),
                ),
            },
        }
    }
}

/// The markup of an SVG file once inlined: trailing whitespace trimmed and
/// the versioning attributes removed, before a title is added.
pub open spec fn svg_stripped(content: Seq<char>) -> Seq<char> {
    regex_removed(svg_attributes(), trimmed_end(content))
}

/// Inserts `title` into an SVG document whose attributes are already
/// stripped, see [`svg_with_title`].
pub fn titled_svg(svg: &str, title: &str) -> (r: Result<String, Error>)
    ensures
        match svg_with_title(svg@, title@) {
            Some(v) => r matches Ok(s) && s@ == v,
            None => r == Err::<String, Error>(Error::NotFound),
        },
{
    proof {
        reveal_strlit("<title>");
        reveal_strlit("</title>");
        reveal_strlit("<svg");
        reveal_strlit(">");
    }
    if title.unicode_len() == 0 || contains_str(svg, "<title>") {
        return Ok(svg.to_owned());
    }
    let n = svg.unicode_len();
    let open = match find_from(svg, "<svg", 0) {
        Some(i) => i,
        None => return Err(Error::NotFound),
    };
    assert(occurs_at(svg@, "<svg"@, open as int));
    let close = match find_from(svg, ">", open + 4) {
        Some(i) => i,
        None => return Err(Error::NotFound),
    };
    assert(occurs_at(svg@, ">"@, close as int));
    let mut r = svg.substring_char(0, close + 1).to_owned();
    r.append("<title>");
    r.append(title);
    r.append("</title>");
    r.append(svg.substring_char(close + 1, n));
    assert(r@ =~= svg@.subrange(0, close + 1) + title_element(title@) + svg@.subrange(
        close + 1,
        n as int,
    ));
    Ok(r)
}

/// Inlines the SVG file `content` with the title `title`: trailing
/// whitespace and versioning attributes go, then the title is inserted.
pub fn inline_svg(content: &str, title: &str) -> (r: Result<String, Error>)
    ensures
        match svg_with_title(svg_stripped(content@), title@) {
            Some(v) => r matches Ok(s) && s@ == v,
            None => r == Err::<String, Error>(Error::NotFound),
        },
{
    let trimmed = trim_end(content);
    let stripped = match remove_matches("\\s+(version|xmlns)=\"[^\"]+\"", trimmed.as_str()) {
        Ok(s) => s,
        Err(m) => return Err(Error::Regex(m)),
    };
    titled_svg(stripped.as_str(), title)
}

/// A title is only added where one is given and none is present: otherwise
/// the stripped document comes back unchanged.
pub proof fn lemma_svg_kept(svg: Seq<char>, title: Seq<char>)
    requires
        title.len() == 0 || contains(svg, "<title>"@),
    ensures
        svg_with_title(svg, title) == Some(svg),
{
}

/// Where no `<title>` is present and the title is not empty, the title
/// element stands right after the closing bracket of the first `<svg` tag,
/// with the document unchanged around it.
pub proof fn lemma_svg_titled(svg: Seq<char>, title: Seq<char>, open: int, close: int)
    requires
        title.len() > 0,
        !contains(svg, "<title>"@),
        first_from(svg, "<svg"@, 0) == Some(open),
        first_from(svg, ">"@, open + 4) == Some(close),
    ensures
        svg_with_title(svg, title) matches Some(r) && {
            let at = close + 1;
            let t = title_element(title);
            &&& svg[close] == '>'
            &&& r.subrange(0, at) == svg.subrange(0, at)
            &&& r.subrange(at, at + t.len()) == t
            &&& r.subrange(at + t.len(), r.len() as int) == svg.subrange(at, svg.len() as int)
        },
{
    lemma_first_from_occurs(svg, ">"@, open + 4);
    reveal_strlit(">");
    assert(svg.subrange(close, close + 1)[0] == '>');
    let at = close + 1;
    let t = title_element(title);
    let r = svg.subrange(0, at) + t + svg.subrange(at, svg.len() as int);
    assert(r.subrange(0, at) =~= svg.subrange(0, at));
    assert(r.subrange(at, at + t.len()) =~= t);
    assert(r.subrange(at + t.len(), r.len() as int) =~= svg.subrange(at, svg.len() as int));
}

} // verus!
