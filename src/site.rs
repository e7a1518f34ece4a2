use vstd::prelude::*;

use crate::assets::{contains_file, has_file, StaticFile};
use crate::config::Config;
use crate::error::Error;
use crate::markdown::{
    actions_fit, images_error, images_of, images_ok, lemma_actions_unique, lemma_document_image_hints,
    lemma_pass_hints_same, local_image,
    local_image_hints, image_src, not_inlined, pass, rewrite_events, Action, Emitted, ImageRef, MdEvent, Out, outs_view,
};
use crate::preload::{http_preload, is_header_text, preload_value};
use crate::stylesheet::{stylesheet, stylesheet_error, stylesheet_ok, stylesheet_written};
use crate::text::{ends_with, ends_with_str, joined, path_append, texts_of, trim_end, trimmed_end};

verus! {

/// Declares `pulldown_cmark::Event`, which the rewriting pass carries
/// through without reading it.
#[verifier::external_type_specification]
#[verifier::external_body]
pub struct ExMarkdownEvent<'a>(pulldown_cmark::Event<'a>);

/// A markdown source file, as read before compilation.
#[derive(Clone, Debug)]
pub struct MarkdownFile {
    /// Its path, under the markdown directory.
    pub path: String,
    /// Its content, where that is valid UTF-8.
    pub text: Option<String>,
}

/// One compiled page: the path it is served at, its minified document, and
/// its preload header values in order.
#[derive(Clone, Debug)]
pub struct CompiledRoute {
    pub path: String,
    pub body: Vec<u8>,
    pub preload_headers: Vec<String>,
}

/// A markdown to HTML website.
#[derive(Clone, Debug)]
pub struct Website {
    config: Config,
}

/// The images that the events of a markdown document start: for each
/// event, the source and title of its image, if it starts one.
pub uninterp spec fn markdown_images(markdown: Seq<char>) -> Seq<Option<(Seq<char>, Seq<char>)>>;

/// Relies on `pulldown_cmark::Parser`: the events of the document, each
/// with the source and title of the image that an image start event holds.
#[verifier::external_body]
fn markdown_events<'a>(markdown: &'a str) -> (r: Vec<MdEvent<pulldown_cmark::Event<'a>>>)
    ensures
        images_of(r@) == markdown_images(markdown@),
{
    pulldown_cmark::Parser::new(markdown).map(|event| {
        let image = match &event {
            pulldown_cmark::Event::Start(pulldown_cmark::Tag::Image(_, src, title)) => Some(
                ImageRef { src: src.to_string(), title: title.to_string() },
            ),
            _ => None,
        };
        MdEvent { event, image }
    }).collect()
}

/// Relies on `pulldown_cmark::html::push_html`, which appends the HTML of
/// the events to the string and keeps what it held.
#[verifier::external_body]
fn push_html<'a>(output: &mut String, events: Vec<Emitted<pulldown_cmark::Event<'a>>>)
    ensures
        final(output)@.len() >= old(output)@.len(),
        final(output)@.subrange(0, old(output)@.len() as int) == old(output)@,
{
    pulldown_cmark::html::push_html(output, events.into_iter().map(|e| match e {
        Emitted::Event(event) => event,
        Emitted::Html(html) => pulldown_cmark::Event::Html(html.into()),
    }));
}

/// The bytes of a document once minified.
pub uninterp spec fn minified(html: Seq<char>) -> Seq<u8>;

/// Relies on `html5minify::Minify::minify`, which parses the document as
/// HTML5 and writes it out minified; it fails only where reading its input
/// or writing its output fails, and it reads from a byte slice and writes
/// into a `Vec`, which do not fail.
#[verifier::external_body]
fn minify_html(html: &str) -> (r: Result<Vec<u8>, String>)
    ensures
        r is Ok,
        r matches Ok(b) ==> b@ == minified(html@),
{
    html5minify::Minify::minify(&html).map_err(|e| e.to_string())
}

/// `s` without `suffix`, where it ends with it.
pub open spec fn without_suffix(s: Seq<char>, suffix: Seq<char>) -> Seq<char> {
    if ends_with(s, suffix) {
        s.subrange(0, s.len() - suffix.len())
    } else {
        s
    }
}

/// `s` without `prefix`, where it starts with it.
pub open spec fn without_prefix(s: Seq<char>, prefix: Seq<char>) -> Seq<char> {
    if prefix.len() <= s.len() && s.subrange(0, prefix.len() as int) == prefix {
        s.subrange(prefix.len() as int, s.len() as int)
    } else {
        s
    }
}

/// `s` without any number of leading copies of `prefix`.
pub open spec fn trim_prefixes(s: Seq<char>, prefix: Seq<char>) -> Seq<char>
    decreases s.len(),
{
    if prefix.len() > 0 && prefix.len() <= s.len() && s.subrange(0, prefix.len() as int) == prefix {
        trim_prefixes(s.subrange(prefix.len() as int, s.len() as int), prefix)
    } else {
        s
    }
}

/// The name of the page of the markdown file at `path` in the directory
/// `prefix`: the path without its `.md` suffix, without the directory, and
/// without leading slashes.
pub open spec fn page_name(path: Seq<char>, prefix: Seq<char>) -> Seq<char> {
    trim_prefixes(without_prefix(without_suffix(path, ".md"@), prefix), "/"@)
}

/// The path a page is served at: `/` for the `index` page, its name for
/// the others.
pub open spec fn route_key(name: Seq<char>) -> Seq<char> {
    if name == "index"@ {
        "/"@
    } else {
        name
    }
}

/// The markup that loads the script `file` asynchronously, inserting it
/// before the first script of the document.
pub open spec fn js_markup(file: Seq<char>) -> Seq<char> {
    "<script>(function(d,src){var e=d.createElement('script'),s=d.getElementsByTagName('script')[0];e.src=src;e.async=1;s.parentNode.insertBefore(e,s);})(document,'"@
        + file + "');</script>\n"@
}

/// Removes `suffix` from the end of `s`, where it stands there.
pub fn strip_suffix(s: &str, suffix: &str) -> (r: String)
    ensures
        r@ == without_suffix(s@, suffix@),
{
    if ends_with_str(s, suffix) {
        let n = s.unicode_len();
        s.substring_char(0, n - suffix.unicode_len()).to_owned()
    } else {
        s.to_owned()
    }
}

/// Removes `prefix` from the start of `s`, where it stands there.
pub fn strip_prefix(s: &str, prefix: &str) -> (r: String)
    ensures
        r@ == without_prefix(s@, prefix@),
{
    let n = s.unicode_len();
    let m = prefix.unicode_len();
    if m <= n && crate::text::matches_at(s, prefix, 0) {
        assert(s@.subrange(0, m as int) == prefix@);
        s.substring_char(m, n).to_owned()
    } else {
        proof {
            if m <= n && s@.subrange(0, m as int) == prefix@ {
                assert(crate::text::occurs_at(s@, prefix@, 0));
            }
        }
        s.to_owned()
    }
}

/// Removes every leading copy of `prefix`.
pub fn trim_start_matches(s: &str, prefix: &str) -> (r: String)
    ensures
        r@ == trim_prefixes(s@, prefix@),
{
    let m = prefix.unicode_len();
    let mut cur = s.to_owned();
    if m == 0 {
        return cur;
    }
    loop
        invariant
            m == prefix@.len(),
            m > 0,
            trim_prefixes(cur@, prefix@) == trim_prefixes(s@, prefix@),
        decreases cur@.len(),
    {
        let n = cur.unicode_len();
        if m > n || !crate::text::matches_at(cur.as_str(), prefix, 0) {
            return cur;
        }
        assert(cur@.subrange(0, m as int) == prefix@);
        cur = cur.as_str().substring_char(m, n).to_owned();
    }
}

/// The name of the page of the markdown file at `path` in the directory
/// `prefix`, see [`page_name`].
pub fn route_path(path: &str, prefix: &str) -> (r: String)
    ensures
        r@ == page_name(path@, prefix@),
{
    let a = strip_suffix(path, ".md");
    let b = strip_prefix(a.as_str(), prefix);
    trim_start_matches(b.as_str(), "/")
}

/// Appends the markup that loads the script `file_name` asynchronously.
pub fn write_js(buf: &mut String, file_name: &str)
    ensures
        final(buf)@ == old(buf)@ + js_markup(file_name@),
{
    buf.append(
        "<script>(function(d,src){var e=d.createElement('script'),s=d.getElementsByTagName('script')[0];e.src=src;e.async=1;s.parentNode.insertBefore(e,s);})(document,'",
    );
    buf.append(file_name);
    buf.append("');</script>\n");
}

/// The content security policy of every page: any source in a debug build,
/// HTTPS sources only otherwise.
pub fn content_security_policy(debug: bool) -> (r: &'static str)
    ensures
        debug ==> r@
            == "default-src * 'unsafe-inline'; object-src 'none'; frame-ancestors 'none'; base-uri 'none'"@,
        !debug ==> r@
            == "default-src https: 'unsafe-inline'; object-src 'none'; frame-ancestors 'none'; base-uri 'none'"@,
{
    if debug {
        "default-src * 'unsafe-inline'; object-src 'none'; frame-ancestors 'none'; base-uri 'none'"
    } else {
        "default-src https: 'unsafe-inline'; object-src 'none'; frame-ancestors 'none'; base-uri 'none'"
    }
}

/// The script preload hint of a page: where its script exists and
/// preloading is on.
pub open spec fn js_hints(cfg: Config, files: Seq<StaticFile>, name: Seq<char>) -> Seq<Seq<char>> {
    if has_file(files, name + ".js"@) && !cfg.disable_preload {
        seq![preload_value(name + ".js"@, "script"@)]
    } else {
        seq![]
    }
}

/// The script loader markup of a page: where its script exists.
pub open spec fn js_part(files: Seq<StaticFile>, name: Seq<char>) -> Seq<char> {
    if has_file(files, name + ".js"@) {
        js_markup(name + ".js"@)
    } else {
        seq![]
    }
}

/// The favicon preload hint: where the static files hold a favicon.
pub open spec fn favicon_hints(files: Seq<StaticFile>) -> Seq<Seq<char>> {
    if has_file(files, "favicon.ico"@) {
        seq![preload_value("favicon.ico"@, "image"@)]
    } else {
        seq![]
    }
}

/// `hints` are the image preload hints of the markdown document, and `out`
/// its rewritten events: those of a rewriting pass over the document's
/// events, with each local image's action.
pub open spec fn markdown_rewritten<E>(
    cfg: Config,
    files: Seq<StaticFile>,
    markdown: Seq<char>,
    out: Seq<Out<E>>,
    hints: Seq<Seq<char>>,
) -> bool {
    exists|events: Seq<MdEvent<E>>, acts: Seq<Option<Action>>|
        #[trigger] images_of(events) == markdown_images(markdown) && #[trigger] actions_fit(
            cfg,
            files,
            events,
            acts,
        ) && pass(events, acts, events.len()).out == out && pass(events, acts, events.len()).hints
            == hints
}

/// `body` and `hints` are the document and the preload hints of the page
/// `name` whose markdown is `markdown`: the minified document holds the
/// doctype, the stylesheet markup, the rendered markdown `html` and the
/// script loader; the hints are the script hint, the style hints, the image
/// hints of the markdown and the favicon hint, in this order.
pub open spec fn page_parts(
    cfg: Config,
    files: Seq<StaticFile>,
    name: Seq<char>,
    markdown: Seq<char>,
    markup: Seq<char>,
    html: Seq<char>,
    css: Seq<Seq<char>>,
    images: Seq<Seq<char>>,
    body: Seq<u8>,
    hints: Seq<Seq<char>>,
) -> bool {
    &&& stylesheet_written(cfg, files, name, markup, css)
    &&& body == minified("<!doctype html>\n"@ + markup + html + js_part(files, name))
    &&& hints == js_hints(cfg, files, name) + css + images + favicon_hints(files)
    &&& exists|out: Seq<Out<pulldown_cmark::Event>>| markdown_rewritten(cfg, files, markdown, out, images)
}

/// `body` and `hints` are the document and the preload hints of the page
/// `name` whose markdown is `markdown`, for some stylesheet markup, rendered
/// markdown and hints of each kind, see [`page_parts`].
pub open spec fn page_built(
    cfg: Config,
    files: Seq<StaticFile>,
    name: Seq<char>,
    markdown: Seq<char>,
    body: Seq<u8>,
    hints: Seq<Seq<char>>,
) -> bool {
    exists|markup: Seq<char>, html: Seq<char>, css: Seq<Seq<char>>, images: Seq<Seq<char>>|
        #[trigger] page_parts(cfg, files, name, markdown, markup, html, css, images, body, hints)
}

/// The markdown file `file` compiles: it is text, its local images can be
/// handled, its stylesheet can be written, and its script and favicon
/// hints, where it gets them, are legal header values.
pub open spec fn route_ok(cfg: Config, files: Seq<StaticFile>, file: MarkdownFile, prefix: Seq<char>) -> bool {
    let name = page_name(file.path@, prefix);
    &&& file.text is Some
    &&& images_ok(cfg, files, markdown_images(trimmed_end(file.text->0@)))
    &&& stylesheet_ok(cfg, files, name)
    &&& (has_file(files, name + ".js"@) && !cfg.disable_preload ==> is_header_text(
        preload_value(name + ".js"@, "script"@),
    ))
    &&& (has_file(files, "favicon.ico"@) ==> is_header_text(
        preload_value("favicon.ico"@, "image"@),
    ))
}

/// `e` is an error of one of the steps that compiling the markdown file
/// `file` takes.
pub open spec fn route_error(
    cfg: Config,
    files: Seq<StaticFile>,
    file: MarkdownFile,
    prefix: Seq<char>,
    e: Error,
) -> bool {
    let name = page_name(file.path@, prefix);
    match file.text {
        None => e == Error::Utf8,
        Some(t) => {
            ||| images_error(cfg, files, markdown_images(trimmed_end(t@)), e)
            ||| stylesheet_error(cfg, files, name, e)
            ||| e == Error::HeaderValue && has_file(files, name + ".js"@) && !cfg.disable_preload
                && !is_header_text(preload_value(name + ".js"@, "script"@))
            ||| e == Error::HeaderValue && has_file(files, "favicon.ico"@) && !is_header_text(
                preload_value("favicon.ico"@, "image"@),
            )
        },
    }
}

/// With preloading on and none of its local images inlined, the image
/// preload hints of a rewritten markdown document are exactly one for each
/// local image, in document order.
pub proof fn lemma_markdown_image_hints<E>(
    cfg: Config,
    files: Seq<StaticFile>,
    markdown: Seq<char>,
    out: Seq<Out<E>>,
    hints: Seq<Seq<char>>,
)
    requires
        markdown_rewritten(cfg, files, markdown, out, hints),
        !cfg.disable_preload,
        forall|i: int|
            0 <= i < markdown_images(markdown).len() && local_image(
                #[trigger] markdown_images(markdown)[i],
            ) ==> not_inlined(cfg, files, image_src(markdown_images(markdown)[i])),
    ensures
        hints == local_image_hints(markdown_images(markdown), markdown_images(markdown).len()),
{
    let (events, acts) = choose|events: Seq<MdEvent<E>>, acts: Seq<Option<Action>>|
        #[trigger] images_of(events) == markdown_images(markdown) && #[trigger] actions_fit(
            cfg,
            files,
            events,
            acts,
        ) && pass(events, acts, events.len()).out == out && pass(events, acts, events.len()).hints
            == hints;
    lemma_document_image_hints(cfg, files, markdown_images(markdown), events, acts);
}

/// The preload hints of a page are fixed by the settings, the static files,
/// the page's name and its markdown: two compilations of the same page give
/// the same hints.
pub proof fn lemma_page_hints_determined(
    cfg: Config,
    files: Seq<StaticFile>,
    name: Seq<char>,
    markdown: Seq<char>,
    body1: Seq<u8>,
    hints1: Seq<Seq<char>>,
    body2: Seq<u8>,
    hints2: Seq<Seq<char>>,
)
    requires
        page_built(cfg, files, name, markdown, body1, hints1),
        page_built(cfg, files, name, markdown, body2, hints2),
    ensures
        hints1 == hints2,
{
    let (m1, h1, c1, i1) = choose|m: Seq<char>, h: Seq<char>, c: Seq<Seq<char>>, i: Seq<Seq<char>>|
        #[trigger] page_parts(cfg, files, name, markdown, m, h, c, i, body1, hints1);
    let (m2, h2, c2, i2) = choose|m: Seq<char>, h: Seq<char>, c: Seq<Seq<char>>, i: Seq<Seq<char>>|
        #[trigger] page_parts(cfg, files, name, markdown, m, h, c, i, body2, hints2);
    let o1 = choose|out: Seq<Out<pulldown_cmark::Event>>|
        markdown_rewritten(cfg, files, markdown, out, i1);
    let o2 = choose|out: Seq<Out<pulldown_cmark::Event>>|
        markdown_rewritten(cfg, files, markdown, out, i2);
    let (ev1, a1) = choose|events: Seq<MdEvent<pulldown_cmark::Event>>, acts: Seq<Option<Action>>|
        #[trigger] images_of(events) == markdown_images(markdown) && #[trigger] actions_fit(
            cfg,
            files,
            events,
            acts,
        ) && pass(events, acts, events.len()).out == o1 && pass(events, acts, events.len()).hints
            == i1;
    let (ev2, a2) = choose|events: Seq<MdEvent<pulldown_cmark::Event>>, acts: Seq<Option<Action>>|
        #[trigger] images_of(events) == markdown_images(markdown) && #[trigger] actions_fit(
            cfg,
            files,
            events,
            acts,
        ) && pass(events, acts, events.len()).out == o2 && pass(events, acts, events.len()).hints
            == i2;
    lemma_actions_unique(cfg, files, ev1, a1, ev2, a2);
    assert(ev1.len() == images_of(ev1).len());
    assert(ev2.len() == images_of(ev2).len());
    lemma_pass_hints_same(ev1, ev2, a1, ev1.len());
}

/// With preloading on and none of its local images inlined, a compiled
/// page's hints are its script hint, its style hints, one image hint for
/// each local image of its markdown in document order, and its favicon
/// hint.
pub proof fn lemma_page_image_hints(
    cfg: Config,
    files: Seq<StaticFile>,
    name: Seq<char>,
    markdown: Seq<char>,
    body: Seq<u8>,
    hints: Seq<Seq<char>>,
)
    requires
        page_built(cfg, files, name, markdown, body, hints),
        !cfg.disable_preload,
        forall|i: int|
            0 <= i < markdown_images(markdown).len() && local_image(
                #[trigger] markdown_images(markdown)[i],
            ) ==> not_inlined(cfg, files, image_src(markdown_images(markdown)[i])),
    ensures
        exists|markup: Seq<char>, css: Seq<Seq<char>>|
            #[trigger] stylesheet_written(cfg, files, name, markup, css) && hints == js_hints(
                cfg,
                files,
                name,
            ) + css + local_image_hints(markdown_images(markdown), markdown_images(markdown).len())
                + favicon_hints(files),
{
    let (m, h, c, i) = choose|m: Seq<char>, h: Seq<char>, c: Seq<Seq<char>>, i: Seq<Seq<char>>|
        #[trigger] page_parts(cfg, files, name, markdown, m, h, c, i, body, hints);
    let o = choose|out: Seq<Out<pulldown_cmark::Event>>|
        markdown_rewritten(cfg, files, markdown, out, i);
    lemma_markdown_image_hints(cfg, files, markdown, o, i);
    assert(stylesheet_written(cfg, files, name, m, c));
}

/// A path of a markdown file: its name ends in `.md` with something before.
pub open spec fn is_markdown_path(path: Seq<char>) -> bool {
    ends_with(path, ".md"@) && path.len() > 3 && path[path.len() - 4] != '/'
}

/// The paths that the markdown files among the first `n` files are served
/// at, in order.
pub open spec fn route_keys(files: Seq<MarkdownFile>, prefix: Seq<char>, n: nat) -> Seq<Seq<char>>
    decreases n,
{
    if n == 0 {
        seq![]
    } else if is_markdown_path(files[n - 1].path@) {
        route_keys(files, prefix, (n - 1) as nat).push(
            route_key(page_name(files[n - 1].path@, prefix)),
        )
    } else {
        route_keys(files, prefix, (n - 1) as nat)
    }
}

/// `route` is the compiled page of the markdown file `file`.
pub open spec fn compiled_from(
    cfg: Config,
    files: Seq<StaticFile>,
    prefix: Seq<char>,
    file: MarkdownFile,
    route: CompiledRoute,
) -> bool {
    &&& route.path@ == route_key(page_name(file.path@, prefix))
    &&& file.text is Some
    &&& page_built(
        cfg,
        files,
        page_name(file.path@, prefix),
        trimmed_end(file.text->0@),
        route.body@,
        texts_of(route.preload_headers@),
    )
}

/// The file, where it is a markdown file, compiles.
pub open spec fn page_ok(cfg: Config, files: Seq<StaticFile>, prefix: Seq<char>, file: MarkdownFile) -> bool {
    is_markdown_path(file.path@) ==> route_ok(cfg, files, file, prefix)
}

/// The positions of the markdown files among the first `n` files, in
/// order.
pub open spec fn markdown_indices(markdown: Seq<MarkdownFile>, n: nat) -> Seq<int>
    decreases n,
{
    if n == 0 {
        seq![]
    } else if is_markdown_path(markdown[n - 1].path@) {
        markdown_indices(markdown, (n - 1) as nat).push(n - 1)
    } else {
        markdown_indices(markdown, (n - 1) as nat)
    }
}

/// `routes` are the compiled pages of the markdown files among the first
/// `n` files, one for each, in the same order.
pub open spec fn routes_compiled(
    cfg: Config,
    files: Seq<StaticFile>,
    prefix: Seq<char>,
    markdown: Seq<MarkdownFile>,
    n: nat,
    routes: Seq<CompiledRoute>,
) -> bool {
    &&& routes.len() == markdown_indices(markdown, n).len()
    &&& forall|j: int|
        0 <= j < routes.len() ==> compiled_from(
            cfg,
            files,
            prefix,
            markdown[markdown_indices(markdown, n)[j]],
            #[trigger] routes[j],
        )
}

/// One more file keeps the routes in step with the markdown files: a
/// markdown file adds its compiled page, another file adds nothing.
proof fn lemma_routes_step(
    cfg: Config,
    files: Seq<StaticFile>,
    prefix: Seq<char>,
    markdown: Seq<MarkdownFile>,
    n: nat,
    routes: Seq<CompiledRoute>,
    next: Seq<CompiledRoute>,
)
    requires
        n < markdown.len(),
        routes_compiled(cfg, files, prefix, markdown, n, routes),
        is_markdown_path(markdown[n as int].path@) ==> next.len() == routes.len() + 1
            && next.subrange(0, routes.len() as int) == routes && compiled_from(
            cfg,
            files,
            prefix,
            markdown[n as int],
            next.last(),
        ),
        !is_markdown_path(markdown[n as int].path@) ==> next == routes,
    ensures
        routes_compiled(cfg, files, prefix, markdown, n + 1, next),
{
    let idx = markdown_indices(markdown, n + 1);
    assert forall|j: int| 0 <= j < next.len() implies compiled_from(
        cfg,
        files,
        prefix,
        markdown[idx[j]],
        #[trigger] next[j],
    ) by {
        if j < routes.len() {
            assert(next[j] == next.subrange(0, routes.len() as int)[j]);
            assert(idx[j] == markdown_indices(markdown, n)[j]);
        }
    }
}

/// The paths of compiled routes.
pub open spec fn route_paths(routes: Seq<CompiledRoute>) -> Seq<Seq<char>> {
    routes.map_values(|r: CompiledRoute| r.path@)
}

impl Website {
    pub closed spec fn config_view(&self) -> Config {
        self.config
    }

    /// A website built with `config`.
    pub fn new(config: Config) -> (r: Website)
        ensures
            r.config_view() == config,
    {
        Website { config }
    }

    /// The configuration of the website.
    pub fn config(&self) -> (r: &Config)
        ensures
            *r == self.config_view(),
    {
        &self.config
    }

    /// Parses a markdown document and rewrites its events: small local SVG
    /// images are inlined and the other local images preloaded.
    pub fn parse_markdown<'a>(&self, files: &Vec<StaticFile>, markdown: &'a str) -> (r: Result<
        (Vec<Emitted<pulldown_cmark::Event<'a>>>, Vec<String>),
        Error,
    >)
        ensures
            r matches Ok((out, hints)) ==> markdown_rewritten(
                self.config_view(),
                files@,
                markdown@,
                outs_view(out@),
                texts_of(hints@),
            ),
            r matches Err(e) ==> images_error(self.config_view(), files@, markdown_images(markdown@), e),
            r is Ok <==> images_ok(self.config_view(), files@, markdown_images(markdown@)),
    {
        let events = markdown_events(markdown);
        let ghost evs = events@;
        let (out, hints) = rewrite_events(&self.config, files, events)?;
        proof {
            let acts = choose|acts: Seq<Option<Action>>|
                #[trigger] actions_fit(self.config, files@, evs, acts) && {
                    let st = pass(evs, acts, evs.len());
                    &&& outs_view(out@) == st.out
                    &&& texts_of(hints@) == st.hints
                };
            assert(images_of(evs) == markdown_images(markdown@));
        }
        Ok((out, hints))
    }

    /// Compiles one markdown file into its route.
    #[verifier::rlimit(60)]
    pub fn route(&self, files: &Vec<StaticFile>, file: &MarkdownFile, prefix: &str) -> (r: Result<
        CompiledRoute,
        Error,
    >)
        ensures
            r is Ok <==> route_ok(self.config_view(), files@, *file, prefix@),
            r matches Err(e) ==> route_error(self.config_view(), files@, *file, prefix@, e),
            r matches Ok(route) ==> route.path@ == route_key(page_name(file.path@, prefix@)),
            r matches Ok(route) ==> page_built(
                self.config_view(),
                files@,
                page_name(file.path@, prefix@),
                trimmed_end(file.text->0@),
                route.body@,
                texts_of(route.preload_headers@),
            ),
            r matches Ok(route) ==> (has_file(files@, page_name(file.path@, prefix@) + ".js"@)
                && !self.config_view().disable_preload ==> texts_of(route.preload_headers@)[0]
                == preload_value(page_name(file.path@, prefix@) + ".js"@, "script"@)),
    {
        proof {
            reveal_strlit(".js");
            reveal_strlit("favicon.ico");
            reveal_strlit("index");
            reveal_strlit("/");
        }
        let text = match &file.text {
            Some(t) => trim_end(t.as_str()),
            None => return Err(Error::Utf8),
        };
        let (events, mut hints) = self.parse_markdown(files, text.as_str())?;
        let ghost images = texts_of(hints@);
        let ghost outv = outs_view(events@);
        assert(markdown_rewritten(self.config, files@, text@, outv, images));
        let name = route_path(file.path.as_str(), prefix);
        let mut output = "<!doctype html>\n".to_owned();
        stylesheet(&self.config, files, name.as_str(), &mut output, &mut hints)?;
        let ghost (markup, css) = choose|markup: Seq<char>, css: Seq<Seq<char>>|
            output@ == "<!doctype html>\n"@ + markup && texts_of(hints@) == css + images
                && #[trigger] stylesheet_written(self.config, files@, name@, markup, css);
        let ghost before_html = output@;
        push_html(&mut output, events);
        let ghost html = output@.subrange(before_html.len() as int, output@.len() as int);
        assert(output@ =~= "<!doctype html>\n"@ + markup + html);
        let mut js = name.clone();
        js.append(".js");
        let ghost before_js = texts_of(hints@);
        if contains_file(files, js.as_str()) {
            write_js(&mut output, js.as_str());
            if !self.config.disable_preload {
                let h = http_preload(js.as_str(), "script")?;
                hints.insert(0, h);
            }
        }
        assert(texts_of(hints@) =~= js_hints(self.config, files@, name@) + before_js);
        assert(output@ =~= "<!doctype html>\n"@ + markup + html + js_part(files@, name@));
        let ghost before_favicon = texts_of(hints@);
        if contains_file(files, "favicon.ico") {
            let h = http_preload("favicon.ico", "image")?;
            hints.push(h);
        }
        assert(texts_of(hints@) =~= before_favicon + favicon_hints(files@));
        let body = match minify_html(output.as_str()) {
            Ok(b) => b,
            Err(m) => return Err(Error::Io(m)),
        };
        let path = if crate::assets::same_text(name.as_str(), "index") {
            "/".to_owned()
        } else {
            name
        };
        assert(texts_of(hints@) =~= js_hints(self.config, files@, name@) + css + images
            + favicon_hints(files@));
        assert(markdown_rewritten(self.config, files@, trimmed_end(file.text->0@), outv, images));
        let route = CompiledRoute { path, body, preload_headers: hints };
        assert(page_parts(
            self.config_view(),
            files@,
            page_name(file.path@, prefix@),
            trimmed_end(file.text->0@),
            markup,
            html,
            css,
            images,
            route.body@,
            texts_of(route.preload_headers@),
        ));
        Ok(route)
    }

    /// Compiles every markdown file among `markdown_files`, in order; the
    /// first failure stops the whole compilation.
    pub fn routes(&self, files: &Vec<StaticFile>, markdown_files: &Vec<MarkdownFile>) -> (r: Result<
        Vec<CompiledRoute>,
        Error,
    >)
        ensures
            r matches Ok(routes) ==> route_paths(routes@) == route_keys(
                markdown_files@,
                joined(self.config_view().assets_dir@, "md"@),
                markdown_files@.len(),
            ),
            r is Ok <==> forall|k: int|
                0 <= k < markdown_files@.len() ==> #[trigger] page_ok(
                    self.config_view(),
                    files@,
                    joined(self.config_view().assets_dir@, "md"@),
                    markdown_files@[k],
                ),
            r matches Err(e) ==> exists|k: int|
                0 <= k < markdown_files@.len() && is_markdown_path(markdown_files@[k].path@)
                    && #[trigger] route_error(
                    self.config_view(),
                    files@,
                    markdown_files@[k],
                    joined(self.config_view().assets_dir@, "md"@),
                    e,
                ),
            r matches Ok(routes) ==> routes_compiled(
                self.config_view(),
                files@,
                joined(self.config_view().assets_dir@, "md"@),
                markdown_files@,
                markdown_files@.len(),
                routes@,
            ),
    {
        let prefix = path_append(self.config.assets_dir.as_str(), "md");
        let mut routes: Vec<CompiledRoute> = Vec::new();
        let mut i: usize = 0;
        while i < markdown_files.len()
            invariant
                i <= markdown_files@.len(),
                prefix@ == joined(self.config.assets_dir@, "md"@),
                route_paths(routes@) == route_keys(markdown_files@, prefix@, i as nat),
                routes_compiled(self.config_view(), files@, prefix@, markdown_files@, i as nat, routes@),
                forall|k: int| 0 <= k < i ==> #[trigger] page_ok(
                    self.config_view(),
                    files@,
                    prefix@,
                    markdown_files@[k],
                ),
            decreases markdown_files@.len() - i,
        {
            let file = &markdown_files[i];
            let ghost before = routes@;
            let n = file.path.unicode_len();
            if ends_with_str(file.path.as_str(), ".md") && n > 3 && file.path.as_str().get_char(n - 4)
                != '/' {
                let route = match self.route(files, file, prefix.as_str()) {
                    Ok(route) => route,
                    Err(e) => {
                        assert(route_error(self.config_view(), files@, markdown_files@[i as int], prefix@, e));
                        assert(!page_ok(self.config_view(), files@, prefix@, markdown_files@[i as int]));
                        return Err(e);
                    },
                };
                assert(compiled_from(self.config_view(), files@, prefix@, markdown_files@[i as int], route));
                routes.push(route);
            }
            assert(route_paths(routes@) =~= route_keys(markdown_files@, prefix@, (i + 1) as nat));
            proof {
                if is_markdown_path(markdown_files@[i as int].path@) {
                    assert(routes@.subrange(0, before.len() as int) =~= before);
                }
                lemma_routes_step(self.config_view(), files@, prefix@, markdown_files@, i as nat, before, routes@);
            }
            i = i + 1;
        }
        assert forall|k: int| 0 <= k < markdown_files@.len() implies #[trigger] page_ok(
            self.config_view(),
            files@,
            prefix@,
            markdown_files@[k],
        ) by {
            assert(k < i);
        }
        Ok(routes)
    }
}

/// The fixed security headers of every page, after its `Link` headers.
pub open spec fn security_headers(debug: bool) -> Seq<(Seq<char>, Seq<char>)> {
    seq![
        ("Content-Security-Policy"@, csp(debug)),
        ("Referrer-Policy"@, "no-referrer, strict-origin-when-cross-origin"@),
        ("Strict-Transport-Security"@, "max-age=63072000"@),
        ("X-Content-Type-Options"@, "nosniff"@),
        ("X-Frame-Options"@, "SAMEORIGIN"@),
        ("X-XSS-Protection"@, "1; mode=block"@),
        ("Content-Type"@, "text/html; charset=utf-8"@),
    ]
}

/// The content security policy of a debug build or of a release build.
pub open spec fn csp(debug: bool) -> Seq<char> {
    if debug {
        "default-src * 'unsafe-inline'; object-src 'none'; frame-ancestors 'none'; base-uri 'none'"@
    } else {
        "default-src https: 'unsafe-inline'; object-src 'none'; frame-ancestors 'none'; base-uri 'none'"@
    }
}

/// The views of header pairs.
pub open spec fn pairs_view(v: Seq<(String, String)>) -> Seq<(Seq<char>, Seq<char>)> {
    v.map_values(|p: (String, String)| (p.0@, p.1@))
}

/// The `Link` header of each preload hint.
pub open spec fn link_headers(hints: Seq<Seq<char>>) -> Seq<(Seq<char>, Seq<char>)> {
    hints.map_values(|h: Seq<char>| ("Link"@, h))
}

/// The headers of a compiled page's response, in order: one `Link` header
/// for each preload hint, then the security headers and the content type.
pub fn response_headers(route: &CompiledRoute, debug: bool) -> (r: Vec<(String, String)>)
    ensures
        pairs_view(r@) == link_headers(texts_of(route.preload_headers@)) + security_headers(debug),
{
    let mut r: Vec<(String, String)> = Vec::new();
    let mut i: usize = 0;
    while i < route.preload_headers.len()
        invariant
            i <= route.preload_headers@.len(),
            pairs_view(r@) == link_headers(texts_of(route.preload_headers@.subrange(0, i as int))),
        decreases route.preload_headers@.len() - i,
    {
        let ghost prev = r@;
        let h = route.preload_headers[i].clone();
        let link = "Link".to_owned();
        r.push((link, h));
        assert(r@ == prev.push((link, h)));
        assert(pairs_view(r@) =~= pairs_view(prev).push(("Link"@, route.preload_headers@[i as int]@)));
        assert(texts_of(route.preload_headers@.subrange(0, i + 1)) =~= texts_of(
            route.preload_headers@.subrange(0, i as int),
        ).push(route.preload_headers@[i as int]@));
        assert(pairs_view(r@) =~= link_headers(texts_of(route.preload_headers@.subrange(0, i + 1))));
        i = i + 1;
    }
    assert(route.preload_headers@.subrange(0, i as int) =~= route.preload_headers@);
    let ghost links = pairs_view(r@);
    r.push(("Content-Security-Policy".to_owned(), content_security_policy(debug).to_owned()));
    r.push(("Referrer-Policy".to_owned(), "no-referrer, strict-origin-when-cross-origin".to_owned()));
    r.push(("Strict-Transport-Security".to_owned(), "max-age=63072000".to_owned()));
    r.push(("X-Content-Type-Options".to_owned(), "nosniff".to_owned()));
    r.push(("X-Frame-Options".to_owned(), "SAMEORIGIN".to_owned()));
    r.push(("X-XSS-Protection".to_owned(), "1; mode=block".to_owned()));
    r.push(("Content-Type".to_owned(), "text/html; charset=utf-8".to_owned()));
    assert(pairs_view(r@) =~= links + security_headers(debug));
    r
}

} // verus!
