use mdsite::text::path_append;
use mdsite::config::{default_address, default_assets_dir, default_max_inline_size, Config};

#[test]
fn test_new_config() {
    const ADDRESS: &str = "127.0.0.1:8080";
    const ASSETS_DIR: &str = "/home/me/files";
    const MAX_INLINE_SIZE: u64 = 32 * 1024;
    const DISABLE_PRELOAD: bool = true;
    const ENABLE_INLINE_CSS: bool = true;
    const ENABLE_INLINE_SVG: bool = true;

    let yaml = format!(
        r#"
address: {}
assets_dir: {}
max_inline_size: {}
disable_preload: {}
enable_inline_css: {}
enable_inline_svg: {}
        "#,
        ADDRESS, ASSETS_DIR, MAX_INLINE_SIZE, DISABLE_PRELOAD, ENABLE_INLINE_CSS, ENABLE_INLINE_SVG,
    );
    let source = config::Config::builder()
        .add_source(config::File::from_str(yaml.as_str(), config::FileFormat::Yaml))
        .build()
        .expect("Failed to get config");
    let config = Config::new(
        source.get_string("address").expect("Failed to get config"),
        source.get_string("assets_dir").expect("Failed to get config"),
        source.get_int("max_inline_size").expect("Failed to get config") as u64,
        source.get_bool("disable_preload").expect("Failed to get config"),
        source.get_bool("enable_inline_css").expect("Failed to get config"),
        source.get_bool("enable_inline_svg").expect("Failed to get config"),
    );

    assert_eq!(ADDRESS, config.address);
    assert_eq!(ASSETS_DIR, config.assets_dir);
    assert_eq!(MAX_INLINE_SIZE, config.max_inline_size);
    assert_eq!(DISABLE_PRELOAD, config.disable_preload);
    assert_eq!(ENABLE_INLINE_CSS, config.enable_inline_css);
    assert_eq!(ENABLE_INLINE_SVG, config.enable_inline_svg);
    assert_eq!(format!("{}/{}", ASSETS_DIR, "static"), config.static_dir);
}

#[test]
fn defaults() {
    assert_eq!(default_address(), "0.0.0.0:80");
    assert_eq!(default_assets_dir(), "assets");
    assert_eq!(default_max_inline_size(), 12288);
}

#[test]
fn static_dir_is_derived() {
    let c = Config::new(default_address(), "site/".to_string(), 10, false, false, false);
    assert_eq!(c.static_dir, "site/static");
    let c = Config::new(default_address(), String::new(), 10, false, false, false);
    assert_eq!(c.static_dir, "static");
}

#[test]
fn path_append_joins() {
    assert_eq!(path_append("assets", "md"), "assets/md");
    assert_eq!(path_append("assets/", "md"), "assets/md");
    assert_eq!(path_append("assets", "/abs"), "/abs");
}

#[test]
fn trim_end_matches_std() {
    use_trim("a b \t\r\n\u{85}\u{a0}\u{1680}\u{2000}\u{200a}\u{2028}\u{2029}\u{202f}\u{205f}\u{3000}");
    use_trim("x\u{200b}");
    use_trim("   ");
    use_trim("");
    use_trim("\u{1f600} ");
}

fn use_trim(s: &str) {
    assert_eq!(mdsite::text::trim_end(s), s.trim_end());
}
