//! Presentation helpers shared by the pages.

use vstd::prelude::*;

verus! {

/// The colour variants of the stylesheet.
#[derive(Clone, Copy, Debug, PartialEq, Eq, Structural)]
pub enum Color {
    Primary,
    Info,
    Link,
    Success,
    Warning,
    Danger,
    Default,
}

/// The CSS class of a colour variant; none for the default.
pub open spec fn color_class(color: Color) -> Seq<char> {
    match color {
        Color::Default => ""@,
        Color::Primary => "is-primary"@,
        Color::Link => "is-link"@,
        Color::Info => "is-info"@,
        Color::Success => "is-success"@,
        Color::Warning => "is-warning"@,
        Color::Danger => "is-danger"@,
    }
}

pub fn get_color(color: Color) -> (r: &'static str)
    ensures
        r@ == color_class(color),
{
    match color {
        Color::Default => "",
        Color::Primary => "is-primary",
        Color::Link => "is-link",
        Color::Info => "is-info",
        Color::Success => "is-success",
        Color::Warning => "is-warning",
        Color::Danger => "is-danger",
    }
}

} // verus!
