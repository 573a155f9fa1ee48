use vstd::prelude::*;

verus! {

/// Settings read from `~/.config/wlsnip/config.toml`; every field is optional.
#[derive(Debug)]
pub struct Config {
    pub allow_upload: bool,
    pub padding: Option<u32>,
    pub shadow: Option<bool>,
    pub selection_color: Option<String>,
    pub ignore_apps: Option<Vec<String>>,
    pub format: Option<String>,
    pub clipboard: Option<bool>,
    pub no_cursor: Option<bool>,
    pub jpeg_quality: Option<u8>,
}

impl Default for Config {
    fn default() -> (c: Self)
        ensures
            !c.allow_upload,
            c.padding is None,
            c.shadow is None,
            c.selection_color is None,
            c.ignore_apps is None,
            c.format is None,
            c.clipboard is None,
            c.no_cursor is None,
            c.jpeg_quality is None,
    {
        Config {
            allow_upload: false,
            padding: None,
            shadow: None,
            selection_color: None,
            ignore_apps: None,
            format: None,
            clipboard: None,
            no_cursor: None,
            jpeg_quality: None,
        }
    }
}

} // verus!
