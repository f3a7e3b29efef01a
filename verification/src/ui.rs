//! The small UI vocabulary the widget layer shares with the logic: the
//! icon set, the button kinds, and the mapping from icon to asset file
//! name. The widget layer resolves the file name to bytes.

use vstd::prelude::*;

verus! {

/// Every icon the interface uses.
#[derive(Debug, Clone, Copy, PartialEq, Eq, Structural)]
pub enum Icons {
    Enter,
    Plus,
    Escape,
    Duplicate,
    Delete,
    Left,
    Right,
    Check,
    Close,
    Format,
}

/// Every button style the interface uses.
#[derive(Debug, Clone, Copy, PartialEq, Eq, Structural)]
pub enum ButtonType {
    Primary,
    Text,
    Danger,
    Outlined,
    PrimaryInline,
    Inline,
    OutlinedInline,
}

/// The asset file name of each icon.
pub open spec fn icon_file(ic: Icons) -> Seq<char> {
    match ic {
        Icons::Enter => "enter.svg"@,
        Icons::Plus => "add.svg"@,
        Icons::Escape => "escape.svg"@,
        Icons::Duplicate => "copy.svg"@,
        Icons::Delete => "delete.svg"@,
        Icons::Left => "arrow-left.svg"@,
        Icons::Right => "arrow-right.svg"@,
        Icons::Check => "check.svg"@,
        Icons::Close => "close.svg"@,
        Icons::Format => "format.svg"@,
    }
}

/// The asset file an icon is drawn from.
pub fn match_icon(ic: Icons) -> (r: String)
    ensures
        r@ == icon_file(ic),
{
    match ic {
        Icons::Enter => String::from_str("enter.svg"),
        Icons::Plus => String::from_str("add.svg"),
        Icons::Escape => String::from_str("escape.svg"),
        Icons::Duplicate => String::from_str("copy.svg"),
        Icons::Delete => String::from_str("delete.svg"),
        Icons::Left => String::from_str("arrow-left.svg"),
        Icons::Right => String::from_str("arrow-right.svg"),
        Icons::Check => String::from_str("check.svg"),
        Icons::Close => String::from_str("close.svg"),
        Icons::Format => String::from_str("format.svg"),
    }
}

} // verus!
