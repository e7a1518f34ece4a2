use mdsite::error::Error;
use mdsite::svg::{inline_svg, titled_svg};

#[test]
fn title_inserted_after_svg_tag() {
    let r = titled_svg("<?xml?><svg width=\"1\"><path/></svg>", "Logo").unwrap();
    assert_eq!(r, "<?xml?><svg width=\"1\"><title>Logo</title><path/></svg>");
}

#[test]
fn existing_title_kept() {
    let svg = "<svg><title>Old</title></svg>";
    assert_eq!(titled_svg(svg, "New").unwrap(), svg);
}

#[test]
fn empty_title_kept() {
    let svg = "<svg><path/></svg>";
    assert_eq!(titled_svg(svg, "").unwrap(), svg);
}

#[test]
fn missing_svg_tag_not_found() {
    assert_eq!(titled_svg("<g></g>", "T"), Err(Error::NotFound));
    assert_eq!(titled_svg("<svg", "T"), Err(Error::NotFound));
}

#[test]
fn inline_svg_strips_attributes_and_trims() {
    let content = "<svg version=\"1.1\" xmlns=\"http://www.w3.org/2000/svg\" width=\"2\"><path/></svg>\n\n";
    let r = inline_svg(content, "").unwrap();
    assert_eq!(r, "<svg width=\"2\"><path/></svg>");
    let r = inline_svg(content, "Hi").unwrap();
    assert_eq!(r, "<svg width=\"2\"><title>Hi</title><path/></svg>");
}

#[test]
fn inline_svg_with_title_present_only_strips() {
    let content = "<svg xmlns=\"x\"><title>A</title></svg>";
    assert_eq!(inline_svg(content, "B").unwrap(), "<svg><title>A</title></svg>");
}
