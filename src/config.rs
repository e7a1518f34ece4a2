use vstd::prelude::*;

use crate::text::{joined, path_append};

verus! {

/// The settings of one site build.
///
/// `static_dir` is always derived from `assets_dir` by [`Config::new`]; it is
/// never an input of its own.
#[derive(Clone, Debug)]
pub struct Config {
    pub address: String,
    pub assets_dir: String,
    pub static_dir: String,
    pub max_inline_size: u64,
    pub disable_preload: bool,
    pub enable_inline_css: bool,
    pub enable_inline_svg: bool,
}

/// The directory of static assets inside an assets directory.
pub open spec fn static_dir_of(assets_dir: Seq<char>) -> Seq<char> {
    joined(assets_dir, "static"@)
}

impl Config {
    /// The configuration is well formed: its static directory is the one
    /// derived from its assets directory.
    pub open spec fn wf(&self) -> bool {
        self.static_dir@ == static_dir_of(self.assets_dir@)
    }

    /// Builds a configuration from its settings, deriving the static
    /// directory from the assets directory.
    pub fn new(
        address: String,
        assets_dir: String,
        max_inline_size: u64,
        disable_preload: bool,
        enable_inline_css: bool,
        enable_inline_svg: bool,
    ) -> (r: Config)
        ensures
            r.wf(),
            r.address@ == address@,
            r.assets_dir@ == assets_dir@,
            r.max_inline_size == max_inline_size,
            r.disable_preload == disable_preload,
            r.enable_inline_css == enable_inline_css,
            r.enable_inline_svg == enable_inline_svg,
    {
        let static_dir = path_append(assets_dir.as_str(), "static");
        Config {
            address,
            assets_dir,
            static_dir,
            max_inline_size,
            disable_preload,
            enable_inline_css,
            enable_inline_svg,
        }
    }
}

/// The address the server binds to when none is configured.
pub fn default_address() -> (r: String)
    ensures
        r@ == "0.0.0.0:80"@,
{
    "0.0.0.0:80".to_owned()
}

/// The assets directory when none is configured.
pub fn default_assets_dir() -> (r: String)
    ensures
        r@ == "assets"@,
{
    "assets".to_owned()
}

/// The size in bytes up to which a stylesheet or an SVG image is inlined.
pub fn default_max_inline_size() -> (r: u64)
    ensures
        r == 12288,
{
    12 * 1024
}

} // verus!
