use mdsite::error::Error;
use mdsite::preload::http_preload;

#[test]
fn preload_value_format() {
    assert_eq!(http_preload("img/a.png", "image").unwrap(), "</img/a.png>; rel=preload; as=image");
}

#[test]
fn preload_value_rejects_control_characters() {
    assert_eq!(http_preload("a\nb", "image"), Err(Error::HeaderValue));
    assert!(http_preload("a\tb", "style").is_ok());
}
