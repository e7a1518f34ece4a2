use mdsite::assets::StaticFile;
use mdsite::config::Config;
use mdsite::error::Error;
use mdsite::markdown::{image_action, rewrite_events, Emitted, ImageAction, ImageRef, MdEvent};
use mdsite::site::{
    content_security_policy, response_headers, route_path, write_js, CompiledRoute, MarkdownFile, Website,
};

fn config(assets: &str, max: u64, disable_preload: bool, inline_css: bool, inline_svg: bool) -> Config {
    Config::new("127.0.0.1:8080".to_string(), assets.to_string(), max, disable_preload, inline_css, inline_svg)
}

fn file(name: &str, text: &str) -> StaticFile {
    StaticFile { name: name.to_string(), size: text.len() as u64, text: Some(text.to_string()) }
}

fn page(path: &str, text: &str) -> MarkdownFile {
    MarkdownFile { path: path.to_string(), text: Some(text.to_string()) }
}

fn event(id: u32, src: Option<&str>) -> MdEvent<u32> {
    MdEvent {
        event: id,
        image: src.map(|s| ImageRef { src: s.to_string(), title: "T".to_string() }),
    }
}

const SVG: &str = "<svg xmlns=\"http://www.w3.org/2000/svg\" version=\"1.1\"><circle r=\"1\"/></svg>";

#[test]
fn route_paths_of_files() {
    assert_eq!(route_path("assets/md/index.md", "assets/md"), "index");
    assert_eq!(route_path("assets/md/foo/bar.md", "assets/md"), "foo/bar");
    assert_eq!(route_path("foo/bar.md", ""), "foo/bar");
    assert_eq!(route_path("a.md.md", ""), "a.md");
    assert_eq!(route_path("assets/md/index.md.md", "assets/md"), "index.md");
}

#[test]
fn index_served_at_root() {
    let site = Website::new(config("assets", 12288, false, false, false));
    let routes = site
        .routes(&vec![file("main.css", "p{}")], &vec![page("assets/md/index.md", "# Hi"), page("assets/md/about.md", "x")])
        .unwrap();
    assert_eq!(routes.len(), 2);
    assert_eq!(routes[0].path, "/");
    assert_eq!(routes[1].path, "about");
}

#[test]
fn non_markdown_files_skipped() {
    let site = Website::new(config("assets", 12288, false, false, false));
    let routes = site
        .routes(&vec![], &vec![page("assets/md/notes.txt", "x"), page("assets/md/.md", "x"), page("assets/md/a.md", "y")])
        .unwrap();
    assert_eq!(routes.len(), 1);
    assert_eq!(routes[0].path, "a");
}

#[test]
fn parse_markdown_preloads_local_images() {
    let site = Website::new(config("assets", 12288, false, false, false));
    let md = "![a](/img/a.png)\n\n![b](http://x/b.png)\n\n![c](/img/c.jpg)";
    let (events, hints) = site.parse_markdown(&vec![], md).expect("Failed to parse markdown");
    assert_ne!(0, events.len());
    assert_eq!(
        hints,
        vec!["</img/a.png>; rel=preload; as=image".to_string(), "</img/c.jpg>; rel=preload; as=image".to_string()]
    );
}

#[test]
fn no_image_hints_when_preload_disabled() {
    let site = Website::new(config("assets", 12288, true, false, false));
    let (_, hints) = site.parse_markdown(&vec![], "![a](/a.png)").unwrap();
    assert!(hints.is_empty());
}

#[test]
fn pending_svg_replaces_next_event() {
    let cfg = config("assets", 12288, false, false, true);
    let files = vec![file("logo.svg", SVG)];
    let events = vec![event(1, None), event(2, Some("/logo.svg")), event(3, None), event(4, None), event(5, Some("/x.png"))];
    let (out, hints) = rewrite_events(&cfg, &files, events).unwrap();
    assert_eq!(out.len(), 4);
    assert!(matches!(out[0], Emitted::Event(1)));
    match &out[1] {
        Emitted::Html(h) => assert_eq!(h, "<svg><title>T</title><circle r=\"1\"/></svg>"),
        _ => panic!("expected inlined SVG"),
    }
    assert!(matches!(out[2], Emitted::Event(4)));
    assert!(matches!(out[3], Emitted::Event(5)));
    assert_eq!(hints, vec!["</x.png>; rel=preload; as=image".to_string()]);
}

#[test]
fn large_svg_preloaded() {
    let cfg = config("assets", 4, false, false, true);
    let files = vec![file("logo.svg", SVG)];
    let a = image_action(&cfg, &files, "/logo.svg", "").unwrap();
    assert!(matches!(a, ImageAction::Preload(ref h) if h == "</logo.svg>; rel=preload; as=image"));
}

#[test]
fn percent_encoded_svg_source_decoded() {
    let cfg = config("assets", 12288, false, false, true);
    let files = vec![file("my logo.svg", SVG)];
    let a = image_action(&cfg, &files, "/my%20logo.svg", "").unwrap();
    assert!(matches!(a, ImageAction::Inline(_)));
}

#[test]
fn missing_svg_is_io_error() {
    let cfg = config("assets", 12288, false, false, true);
    assert!(matches!(image_action(&cfg, &vec![], "/none.svg", ""), Err(Error::Io(_))));
}

#[test]
fn invalid_utf8_source_is_error() {
    let cfg = config("assets", 12288, false, false, true);
    assert_eq!(image_action(&cfg, &vec![], "/%FF.svg", "").err(), Some(Error::Utf8));
    let files = vec![StaticFile { name: "b.svg".to_string(), size: 3, text: None }];
    assert_eq!(image_action(&cfg, &files, "/b.svg", "").err(), Some(Error::Utf8));
}

#[test]
fn svg_without_tag_is_not_found() {
    let cfg = config("assets", 12288, false, false, true);
    let files = vec![file("x.svg", "<g/>")];
    assert_eq!(image_action(&cfg, &files, "/x.svg", "T").err(), Some(Error::NotFound));
}

#[test]
fn end_to_end_small_svg_inlined() {
    let site = Website::new(config("assets", 12288, false, false, true));
    let files = vec![file("main.css", "p{}"), file("logo.svg", SVG)];
    let routes = site.routes(&files, &vec![page("assets/md/index.md", "![logo](/logo.svg)")]).unwrap();
    let body = String::from_utf8(routes[0].body.clone()).unwrap();
    assert!(body.contains("<svg"));
    assert!(!routes[0].preload_headers.iter().any(|h| h.ends_with("as=image")));
}

#[test]
fn end_to_end_large_svg_linked() {
    let site = Website::new(config("assets", 8, false, false, true));
    let files = vec![file("main.css", "p{}"), file("logo.svg", SVG)];
    let routes = site.routes(&files, &vec![page("assets/md/index.md", "![logo](/logo.svg)")]).unwrap();
    let body = String::from_utf8(routes[0].body.clone()).unwrap();
    assert!(body.contains("<img"));
    let images: Vec<&String> = routes[0].preload_headers.iter().filter(|h| h.ends_with("as=image")).collect();
    assert_eq!(images, vec!["</logo.svg>; rel=preload; as=image"]);
}

#[test]
fn script_hint_comes_first() {
    let site = Website::new(config("assets", 12288, false, true, false));
    let files = vec![
        file("p.js", "x()"),
        file("p.css", "@import url(\"/a.css\");\n@import url(\"/b.css\");\nbody{}"),
        file("favicon.ico", "ico"),
    ];
    let routes = site.routes(&files, &vec![page("assets/md/p.md", "![i](/i.png)")]).unwrap();
    assert_eq!(
        routes[0].preload_headers,
        vec![
            "</p.js>; rel=preload; as=script".to_string(),
            "<//b.css>; rel=preload; as=style".to_string(),
            "<//a.css>; rel=preload; as=style".to_string(),
            "</i.png>; rel=preload; as=image".to_string(),
            "</favicon.ico>; rel=preload; as=image".to_string(),
        ]
    );
    let body = String::from_utf8(routes[0].body.clone()).unwrap();
    assert!(body.contains("body{}"));
    assert!(body.contains("p.js"));
}

#[test]
fn linked_stylesheet_when_inline_off() {
    let site = Website::new(config("assets", 12288, false, false, false));
    let files = vec![file("main.css", "@import url(\"/a.css\");")];
    let routes = site.routes(&files, &vec![page("assets/md/q.md", "text")]).unwrap();
    let body = String::from_utf8(routes[0].body.clone()).unwrap();
    assert!(body.contains("main.css"));
    assert!(routes[0].preload_headers.is_empty());
}

#[test]
fn missing_stylesheet_with_inline_css_is_io_error() {
    let site = Website::new(config("assets", 12288, false, true, false));
    let r = site.routes(&vec![], &vec![page("assets/md/q.md", "text")]);
    assert!(matches!(r, Err(Error::Io(_))));
}

#[test]
fn markdown_not_utf8_is_error() {
    let site = Website::new(config("assets", 12288, false, false, false));
    let r = site.routes(&vec![], &vec![MarkdownFile { path: "assets/md/a.md".to_string(), text: None }]);
    assert_eq!(r.err(), Some(Error::Utf8));
}

#[test]
fn script_loader_markup() {
    let mut buf = String::from("x");
    write_js(&mut buf, "p.js");
    assert_eq!(
        buf,
        "x<script>(function(d,src){var e=d.createElement('script'),s=d.getElementsByTagName('script')[0];e.src=src;e.async=1;s.parentNode.insertBefore(e,s);})(document,'p.js');</script>\n"
    );
}

#[test]
fn security_policy_variants() {
    assert!(content_security_policy(true).starts_with("default-src * "));
    assert!(content_security_policy(false).starts_with("default-src https: "));
    assert!(content_security_policy(false).ends_with("object-src 'none'; frame-ancestors 'none'; base-uri 'none'"));
}

#[test]
fn response_headers_in_order() {
    let route = CompiledRoute {
        path: "/".to_string(),
        body: vec![],
        preload_headers: vec!["</a.js>; rel=preload; as=script".to_string(), "</b.png>; rel=preload; as=image".to_string()],
    };
    let h = response_headers(&route, false);
    let names: Vec<&str> = h.iter().map(|(n, _)| n.as_str()).collect();
    assert_eq!(
        names,
        vec![
            "Link",
            "Link",
            "Content-Security-Policy",
            "Referrer-Policy",
            "Strict-Transport-Security",
            "X-Content-Type-Options",
            "X-Frame-Options",
            "X-XSS-Protection",
            "Content-Type",
        ]
    );
    assert_eq!(h[0].1, "</a.js>; rel=preload; as=script");
    assert_eq!(h[1].1, "</b.png>; rel=preload; as=image");
    assert_eq!(h[2].1, content_security_policy(false));
    assert_eq!(h[3].1, "no-referrer, strict-origin-when-cross-origin");
    assert_eq!(h[4].1, "max-age=63072000");
    assert_eq!(h[7].1, "1; mode=block");
    assert_eq!(h[8].1, "text/html; charset=utf-8");
}

#[test]
fn body_is_minified() {
    let site = Website::new(config("assets", 12288, false, false, false));
    let routes = site.routes(&vec![], &vec![page("assets/md/a.md", "# Title\n\nSome   text.\n")]).unwrap();
    let body = String::from_utf8(routes[0].body.clone()).unwrap();
    assert!(body.contains("Title"));
    assert!(!body.starts_with("<!doctype html>\n"));
}

#[test]
fn test_parse_markdown() {
    let config = config("assets", 12288, false, false, false);
    let markdown = "# Home\n\n![logo](/logo.png \"Logo\")\n\nSome text.";
    let (events, preload_headers) = Website::new(config)
        .parse_markdown(&vec![], markdown)
        .expect("Failed to parse markdown");

    assert_ne!(0, events.len());
    assert_ne!(0, preload_headers.len());
}

#[test]
fn double_md_suffix_is_not_index() {
    let site = Website::new(config("assets", 12288, false, false, false));
    let routes = site.routes(&vec![], &vec![page("assets/md/index.md.md", "x")]).unwrap();
    assert_eq!(routes[0].path, "index.md");
}

#[test]
fn bad_script_hint_is_header_error() {
    let site = Website::new(config("assets", 12288, false, false, false));
    let files = vec![file("q\u{7f}.js", "x()")];
    let r = site.routes(&files, &vec![page("assets/md/q\u{7f}.md", "text")]);
    assert_eq!(r.err(), Some(Error::HeaderValue));
}

#[test]
fn bad_import_hint_is_header_error() {
    let site = Website::new(config("assets", 12288, false, true, false));
    let files = vec![file("main.css", "@import url(\"/a\u{1}.css\");")];
    let r = site.routes(&files, &vec![page("assets/md/q.md", "text")]);
    assert_eq!(r.err(), Some(Error::HeaderValue));
}

#[test]
fn one_failing_page_aborts_all() {
    let site = Website::new(config("assets", 12288, false, false, false));
    let r = site.routes(
        &vec![],
        &vec![page("assets/md/a.md", "x"), MarkdownFile { path: "assets/md/b.md".to_string(), text: None }],
    );
    assert_eq!(r.err(), Some(Error::Utf8));
}
