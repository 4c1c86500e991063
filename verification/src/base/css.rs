//! Which style sheets a widget loads, and in what order.

use vstd::prelude::*;
use crate::text::push_str;

verus! {

/// A style sheet to load.
#[derive(Debug, Clone)]
pub enum CssSource {
    /// Style text built into the widget.
    Text(String),
    /// A file, by its path.
    File(String),
}

/// The style sheets for a widget: its built-in style first, then the
/// user's file over it, when a path is given and the file exists.
pub fn load_css_with_fallback(default_css: &str, user_path: Option<&str>, user_file_exists: bool) -> (r: Vec<CssSource>)
    ensures
        r@.len() == (if user_path is Some && user_file_exists { 2int } else { 1int }),
        r@[0] matches CssSource::Text(t) && t@ == default_css@,
        r@.len() == 2 ==> (r@[1] matches CssSource::File(p) && user_path matches Some(u) && p@ == u@),
{
    let mut r: Vec<CssSource> = Vec::new();
    r.push(CssSource::Text(default_css.to_string()));
    match user_path {
        Some(p) => {
            if user_file_exists {
                r.push(CssSource::File(p.to_string()));
            }
        },
        None => {},
    }
    r
}

/// A style file is loaded only when it exists; a missing one is reported
/// and skipped.
pub fn load_css(path: &str, exists: bool) -> (r: Option<CssSource>)
    ensures
        exists ==> (r matches Some(CssSource::File(p)) && p@ == path@),
        !exists ==> r is None,
{
    if exists {
        Some(CssSource::File(path.to_string()))
    } else {
        None
    }
}

/// The one style sheet of a widget whose user file replaces its built-in
/// style: the file where it exists, else the built-in text.
pub fn replacing_css(default_css: &str, path: &str, exists: bool) -> (r: CssSource)
    ensures
        exists ==> (r matches CssSource::File(p) && p@ == path@),
        !exists ==> (r matches CssSource::Text(t) && t@ == default_css@),
{
    match load_css(path, exists) {
        Some(file) => file,
        None => CssSource::Text(default_css.to_string()),
    }
}

/// The theme file, relative to the configuration directory.
pub open spec fn theme_file(theme: Seq<char>) -> Seq<char> {
    "themes/"@ + theme + ".css"@
}

/// The path of a theme's style sheet under the configuration directory.
pub fn theme_path(theme: &str) -> (r: String)
    ensures
        r@ == theme_file(theme@),
{
    let mut r = "themes/".to_string();
    push_str(&mut r, theme);
    push_str(&mut r, ".css");
    r
}

} // verus!
