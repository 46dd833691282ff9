use vstd::prelude::*;

verus! {

/// The theme icon shown when nothing better is found.
pub const DEFAULT_ICON: &'static str = "notifications";

/// Where the small icon of a pop-up comes from.
#[derive(Debug)]
pub enum IconChoice {
    /// The icon theme's icon of this name.
    Theme(String),
    /// The icon of the application described by this desktop file.
    DesktopFile(String),
    /// The generic notification icon of the theme.
    Default,
}

/// The characters of `s` in lower case.
pub uninterp spec fn lower_of(s: Seq<char>) -> Seq<char>;

/// Relies on str::to_lowercase: the result depends on the characters alone.
#[verifier::external_body]
fn lowercase(s: &String) -> (r: String)
    ensures
        r@ == lower_of(s@),
{
    s.to_lowercase()
}

/// The name under which the icon theme is asked for the icon of `desktop_entry`.
pub fn icon_lookup_name(desktop_entry: &String) -> (r: String)
    ensures
        r@ == lower_of(desktop_entry@),
{
    lowercase(desktop_entry)
}

/// Where the desktop file of `entry` lies.
pub open spec fn desktop_file_path_of(entry: Seq<char>) -> Seq<char> {
    "/usr/share/applications/"@ + entry + ".desktop"@
}

/// The path of the desktop file of `desktop_entry`.
pub fn desktop_file_path(desktop_entry: &String) -> (r: String)
    ensures
        r@ == desktop_file_path_of(desktop_entry@),
{
    let mut p = "/usr/share/applications/".to_string();
    p.append(desktop_entry.as_str());
    p.append(".desktop");
    proof {
        reveal_strlit("/usr/share/applications/");
        reveal_strlit(".desktop");
    }
    p
}

/// Resolves the small icon of `desktop_entry`. `lowered` is its lookup name (see
/// `icon_lookup_name`), `theme_has_icon` whether the icon theme has an icon of that name,
/// and `desktop_file_exists` whether the file at `desktop_file_path` exists.
pub fn find_icon(
    desktop_entry: &String,
    lowered: String,
    theme_has_icon: bool,
    desktop_file_exists: bool,
) -> (r: IconChoice)
    ensures
        theme_has_icon ==> r == IconChoice::Theme(lowered),
        !theme_has_icon && desktop_file_exists ==> (r matches IconChoice::DesktopFile(p) && p@
            == desktop_file_path_of(desktop_entry@)),
        !theme_has_icon && !desktop_file_exists ==> r == IconChoice::Default,
{
    if theme_has_icon {
        IconChoice::Theme(lowered)
    } else if desktop_file_exists {
        IconChoice::DesktopFile(desktop_file_path(desktop_entry))
    } else {
        IconChoice::Default
    }
}

/// Resolves the small icon of a pop-up whose lookup name is `icon_name`: without a name
/// the generic icon; with one as `find_icon` does, where `lowered` is the name's lookup
/// form and the two flags are the outcomes of the lookups under it.
pub fn content_icon(
    icon_name: &Option<String>,
    lowered: String,
    theme_has_icon: bool,
    desktop_file_exists: bool,
) -> (r: IconChoice)
    ensures
        icon_name is None ==> r == IconChoice::Default,
        icon_name is Some && theme_has_icon ==> r == IconChoice::Theme(lowered),
        icon_name is Some && !theme_has_icon && desktop_file_exists ==> (r matches IconChoice::DesktopFile(
            p,
        ) && p@ == desktop_file_path_of(icon_name->Some_0@)),
        icon_name is Some && !theme_has_icon && !desktop_file_exists ==> r == IconChoice::Default,
{
    match icon_name {
        Some(name) => find_icon(name, lowered, theme_has_icon, desktop_file_exists),
        None => IconChoice::Default,
    }
}

} // verus!
