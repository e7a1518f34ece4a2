use vstd::prelude::*;

use crate::assets::{file_index, find_file, has_file, StaticFile};
use crate::config::Config;
use crate::css::{css_tokens, import_pattern, import_urls, scan_imports};
use crate::error::Error;
use crate::markdown::is_local;
use crate::preload::{http_preload, is_header_text, preload_value};
use crate::text::{regex_removed, texts_of, trim_end, trimmed_end};

verus! {

/// The markup that links a stylesheet.
pub open spec fn link_markup(url: Seq<char>) -> Seq<char> {
    "<link rel=stylesheet href=\""@ + url + "\">\n"@
}

/// The style preload hint of a linked stylesheet: one where preloading is
/// on and the reference is absolute, none otherwise.
pub open spec fn style_hints(cfg: Config, url: Seq<char>) -> Seq<Seq<char>> {
    if !cfg.disable_preload && is_local(url) {
        seq![preload_value(url, "style"@)]
    } else {
        seq![]
    }
}

/// The style preload hint of `url`, if it has one, is a legal header value.
pub open spec fn style_ok(cfg: Config, url: Seq<char>) -> bool {
    cfg.disable_preload || !is_local(url) || is_header_text(preload_value(url, "style"@))
}

/// The markup that links each of `urls`, in order.
pub open spec fn links_markup(urls: Seq<Seq<char>>) -> Seq<char>
    decreases urls.len(),
{
    if urls.len() == 0 {
        seq![]
    } else {
        links_markup(urls.drop_last()) + link_markup(urls.last())
    }
}

/// The style hints of `urls`, each put in front of those before it: the
/// last one first.
pub open spec fn links_hints(cfg: Config, urls: Seq<Seq<char>>) -> Seq<Seq<char>>
    decreases urls.len(),
{
    if urls.len() == 0 {
        seq![]
    } else {
        style_hints(cfg, urls.last()) + links_hints(cfg, urls.drop_last())
    }
}

/// The stylesheet of a page: `{page}.css` where the static files hold it,
/// `main.css` otherwise.
pub open spec fn css_file_name(files: Seq<StaticFile>, page: Seq<char>) -> Seq<char> {
    if has_file(files, page + ".css"@) {
        page + ".css"@
    } else {
        "main.css"@
    }
}

/// The inline `<style>` block of a stylesheet whose imports are removed.
pub open spec fn style_markup(css: Seq<char>) -> Seq<char> {
    "<style>"@ + trimmed_end(regex_removed(import_pattern(), css)) + "</style>\n"@
}

/// Links the stylesheet `url`: its markup is appended to `output` and, where
/// preloading is on and the reference is absolute, its preload hint is put
/// in front of `hints`.
pub fn write_stylesheet(cfg: &Config, url: &str, output: &mut String, hints: &mut Vec<String>) -> (r:
    Result<(), Error>)
    ensures
        style_ok(*cfg, url@) <==> r is Ok,
        r is Err ==> r == Err::<(), Error>(Error::HeaderValue),
        r is Ok ==> final(output)@ == old(output)@ + link_markup(url@) && texts_of(final(hints)@)
            == style_hints(*cfg, url@) + texts_of(old(hints)@),
{
    output.append("<link rel=stylesheet href=\"");
    output.append(url);
    output.append("\">\n");
    if !cfg.disable_preload && url.unicode_len() > 0 && url.get_char(0) == '/' {
        let h = http_preload(url, "style")?;
        hints.insert(0, h);
        assert(texts_of(hints@) =~= style_hints(*cfg, url@) + texts_of(old(hints)@));
    } else {
        assert(texts_of(hints@) =~= style_hints(*cfg, url@) + texts_of(old(hints)@));
    }
    Ok(())
}

/// Links each of `urls` in order, see [`write_stylesheet`].
pub fn write_stylesheets(
    cfg: &Config,
    urls: &Vec<String>,
    output: &mut String,
    hints: &mut Vec<String>,
) -> (r: Result<(), Error>)
    ensures
        (forall|i: int| 0 <= i < urls@.len() ==> style_ok(*cfg, #[trigger] urls@[i]@)) <==> r is Ok,
        r is Err ==> r == Err::<(), Error>(Error::HeaderValue),
        r is Ok ==> final(output)@ == old(output)@ + links_markup(texts_of(urls@)) && texts_of(
            final(hints)@,
        ) == links_hints(*cfg, texts_of(urls@)) + texts_of(old(hints)@),
{
    let mut i: usize = 0;
    while i < urls.len()
        invariant
            i <= urls@.len(),
            forall|j: int| 0 <= j < i ==> style_ok(*cfg, #[trigger] urls@[j]@),
            output@ == old(output)@ + links_markup(texts_of(urls@.subrange(0, i as int))),
            texts_of(hints@) == links_hints(*cfg, texts_of(urls@.subrange(0, i as int)))
                + texts_of(old(hints)@),
        decreases urls@.len() - i,
    {
        let ghost out0 = output@;
        let ghost hints0 = texts_of(hints@);
        let ghost pre = texts_of(urls@.subrange(0, i as int));
        let ghost next = texts_of(urls@.subrange(0, i + 1));
        assert(next.drop_last() =~= pre);
        assert(next.last() == urls@[i as int]@);
        match write_stylesheet(cfg, urls[i].as_str(), output, hints) {
            Ok(()) => {},
            Err(e) => {
                return Err(e);
            },
        }
        assert(output@ =~= old(output)@ + links_markup(next));
        assert(texts_of(hints@) =~= links_hints(*cfg, next) + texts_of(old(hints)@));
        i = i + 1;
    }
    assert(urls@.subrange(0, urls@.len() as int) =~= urls@);
    Ok(())
}

/// The stylesheet text of an inlined file, trailing whitespace trimmed.
pub open spec fn css_text(files: Seq<StaticFile>, name: Seq<char>) -> Option<Seq<char>> {
    match file_index(files, name) {
        Some(k) => match files[k].text {
            Some(t) => Some(trimmed_end(t@)),
            None => None,
        },
        None => None,
    }
}

/// `markup` and `css` are the stylesheet markup and the style hints of the
/// page `page`: a link to its stylesheet where inlining is off or the file
/// is too large; otherwise a link for each import of the file, followed by
/// the file without its imports in a `<style>` block.
pub open spec fn stylesheet_written(
    cfg: Config,
    files: Seq<StaticFile>,
    page: Seq<char>,
    markup: Seq<char>,
    css: Seq<Seq<char>>,
) -> bool {
    let name = css_file_name(files, page);
    if !cfg.enable_inline_css || (file_index(files, name) matches Some(k) && files[k].size
        > cfg.max_inline_size) {
        markup == link_markup(name) && css == style_hints(cfg, name)
    } else {
        css_text(files, name) matches Some(t) && {
            let scan = scan_imports(css_tokens(t), css_tokens(t).len());
            &&& scan.error is None
            &&& markup == links_markup(scan.urls) + style_markup(t)
            &&& css == links_hints(cfg, scan.urls)
        }
    }
}

/// The stylesheet of the page `page` can be written: a linked one has a
/// legal hint, an inlined one is found, is text, tokenizes and its imports
/// have legal hints.
pub open spec fn stylesheet_ok(cfg: Config, files: Seq<StaticFile>, page: Seq<char>) -> bool {
    let name = css_file_name(files, page);
    if !cfg.enable_inline_css || (file_index(files, name) matches Some(k) && files[k].size
        > cfg.max_inline_size) {
        style_ok(cfg, name)
    } else {
        css_text(files, name) matches Some(t) && {
            let scan = scan_imports(css_tokens(t), css_tokens(t).len());
            &&& scan.error is None
            &&& forall|i: int| 0 <= i < scan.urls.len() ==> style_ok(cfg, #[trigger] scan.urls[i])
        }
    }
}

/// `e` is the error that writing the stylesheet of the page `page` gives.
pub open spec fn stylesheet_error(
    cfg: Config,
    files: Seq<StaticFile>,
    page: Seq<char>,
    e: Error,
) -> bool {
    let name = css_file_name(files, page);
    if !cfg.enable_inline_css || (file_index(files, name) matches Some(k) && files[k].size
        > cfg.max_inline_size) {
        e == Error::HeaderValue
    } else if file_index(files, name) is None {
        e is Io
    } else {
        match css_text(files, name) {
            None => e == Error::Utf8,
            Some(t) => match scan_imports(css_tokens(t), css_tokens(t).len()).error {
                Some(m) => e matches Error::CssParse(x) && x@ == m,
                None => e == Error::HeaderValue,
            },
        }
    }
}

/// Writes the stylesheet markup of the page `page`, see [`css_file_name`]:
/// a link to the file where inlining is off or the file is too large,
/// otherwise a link for each import that it holds, followed by the file,
/// without its imports, in a `<style>` block. The style hints are put in
/// front of `hints`.
#[verifier::rlimit(40)]
pub fn stylesheet(
    cfg: &Config,
    files: &Vec<StaticFile>,
    page: &str,
    output: &mut String,
    hints: &mut Vec<String>,
) -> (r: Result<(), Error>)
    ensures
        r is Ok <==> stylesheet_ok(*cfg, files@, page@),
        r matches Err(e) ==> stylesheet_error(*cfg, files@, page@, e),
        r is Ok ==> exists|markup: Seq<char>, css: Seq<Seq<char>>|
            final(output)@ == old(output)@ + markup && texts_of(final(hints)@) == css + texts_of(
                old(hints)@,
            ) && #[trigger] stylesheet_written(*cfg, files@, page@, markup, css),
        ({
            let name = css_file_name(files@, page@);
            if !cfg.enable_inline_css || (file_index(files@, name) matches Some(k) && files@[k].size
                > cfg.max_inline_size) {
                &&& style_ok(*cfg, name) <==> r is Ok
                &&& r is Err ==> r == Err::<(), Error>(Error::HeaderValue)
                &&& r is Ok ==> final(output)@ == old(output)@ + link_markup(name) && texts_of(
                    final(hints)@,
                ) == style_hints(*cfg, name) + texts_of(old(hints)@)
            } else if file_index(files@, name) is None {
                r matches Err(Error::Io(_))
            } else {
                match css_text(files@, name) {
                    None => r == Err::<(), Error>(Error::Utf8),
                    Some(t) => {
                        let scan = scan_imports(css_tokens(t), css_tokens(t).len());
                        match scan.error {
                            Some(m) => r matches Err(Error::CssParse(e)) && e@ == m,
                            None => {
                                &&& (forall|i: int|
                                    0 <= i < scan.urls.len() ==> style_ok(*cfg, #[trigger] scan.urls[i]))
                                    <==> r is Ok
                                &&& r is Err ==> r == Err::<(), Error>(Error::HeaderValue)
                                &&& r is Ok ==> final(output)@ == old(output)@ + links_markup(
                                    scan.urls,
                                ) + style_markup(t) && texts_of(final(hints)@) == links_hints(
                                    *cfg,
                                    scan.urls,
                                ) + texts_of(old(hints)@)
                            },
                        }
                    },
                }
            }
        }),
{
    proof {
        reveal_strlit(".css");
        reveal_strlit("main.css");
    }
    let mut own = page.to_owned();
    own.append(".css");
    let name = if find_file(files, own.as_str()).is_some() {
        own
    } else {
        "main.css".to_owned()
    };
    assert(name@ == css_file_name(files@, page@));
    let found = find_file(files, name.as_str());
    if !cfg.enable_inline_css {
        let r = write_stylesheet(cfg, name.as_str(), output, hints);
        assert(r is Ok ==> stylesheet_written(*cfg, files@, page@, link_markup(name@), style_hints(*cfg, name@)));
        return r;
    }
    let k = match found {
        Some(k) => k,
        None => {
            let mut m = "file not found: ".to_owned();
            m.append(name.as_str());
            return Err(Error::Io(m));
        },
    };
    if files[k].size > cfg.max_inline_size {
        let r = write_stylesheet(cfg, name.as_str(), output, hints);
        assert(r is Ok ==> stylesheet_written(*cfg, files@, page@, link_markup(name@), style_hints(*cfg, name@)));
        return r;
    }
    let text = match &files[k].text {
        Some(t) => trim_end(t.as_str()),
        None => return Err(Error::Utf8),
    };
    let (css, urls) = import_urls(text.as_str())?;
    let ghost scan_urls = texts_of(urls@);
    match write_stylesheets(cfg, &urls, output, hints) {
        Ok(()) => {
            assert forall|i: int| 0 <= i < scan_urls.len() implies style_ok(*cfg, #[trigger] scan_urls[i]) by {
                assert(scan_urls[i] == urls@[i]@);
            }
        },
        Err(e) => {
            proof {
                let i = choose|i: int| 0 <= i < urls@.len() && !style_ok(*cfg, #[trigger] urls@[i]@);
                assert(scan_urls[i] == urls@[i]@);
            }
            return Err(e);
        },
    }
    output.append("<style>");
    let body = trim_end(css.as_str());
    output.append(body.as_str());
    output.append("</style>\n");
    proof {
        let t = trimmed_end(files@[k as int].text->0@);
        let scan = scan_imports(css_tokens(t), css_tokens(t).len());
        assert(output@ =~= old(output)@ + (links_markup(scan.urls) + style_markup(t)));
        assert(stylesheet_written(*cfg, files@, page@, links_markup(scan.urls) + style_markup(t), links_hints(*cfg, scan.urls)));
    }
    Ok(())
}

} // verus!
