//! The closed set of chat colors and style codes, each with a one
//! character formatting code and a wire name.

use crate::strutil::str_eq;
use vstd::prelude::*;

verus! {

#[derive(Clone, Copy, Debug, PartialEq, Eq, Structural)]
pub enum ChatColor {
    Black,
    DarkBlue,
    DarkGreen,
    DarkCyan,
    DarkRed,
    Purple,
    Gold,
    Gray,
    DarkGray,
    Blue,
    BrightGreen,
    Cyan,
    Red,
    Pink,
    Yellow,
    White,
    Obfuscated,
    Bold,
    Strikethrough,
    Underline,
    Italic,
    Reset,
}

impl ChatColor {
    /// The single-character formatting code of each color.
    pub open spec fn spec_code(self) -> char {
        match self {
            ChatColor::Black => '0',
            ChatColor::DarkBlue => '1',
            ChatColor::DarkGreen => '2',
            ChatColor::DarkCyan => '3',
            ChatColor::DarkRed => '4',
            ChatColor::Purple => '5',
            ChatColor::Gold => '6',
            ChatColor::Gray => '7',
            ChatColor::DarkGray => '8',
            ChatColor::Blue => '9',
            ChatColor::BrightGreen => 'a',
            ChatColor::Cyan => 'b',
            ChatColor::Red => 'c',
            ChatColor::Pink => 'd',
            ChatColor::Yellow => 'e',
            ChatColor::White => 'f',
            ChatColor::Obfuscated => 'k',
            ChatColor::Bold => 'l',
            ChatColor::Strikethrough => 'm',
            ChatColor::Underline => 'n',
            ChatColor::Italic => 'o',
            ChatColor::Reset => 'r',
        }
    }

    /// The wire name of each color.
    pub open spec fn spec_name(self) -> Seq<char> {
        match self {
            ChatColor::Black => "black"@,
            ChatColor::DarkBlue => "dark_blue"@,
            ChatColor::DarkGreen => "dark_green"@,
            ChatColor::DarkCyan => "dark_cyan"@,
            ChatColor::DarkRed => "dark_red"@,
            ChatColor::Purple => "dark_purple"@,
            ChatColor::Gold => "gold"@,
            ChatColor::Gray => "gray"@,
            ChatColor::DarkGray => "dark_gray"@,
            ChatColor::Blue => "blue"@,
            ChatColor::BrightGreen => "green"@,
            ChatColor::Cyan => "cyan"@,
            ChatColor::Red => "red"@,
            ChatColor::Pink => "pink"@,
            ChatColor::Yellow => "yellow"@,
            ChatColor::White => "white"@,
            ChatColor::Obfuscated => "obfuscated"@,
            ChatColor::Bold => "bold"@,
            ChatColor::Strikethrough => "strikethrough"@,
            ChatColor::Underline => "underline"@,
            ChatColor::Italic => "italic"@,
            ChatColor::Reset => "reset"@,
        }
    }

    pub fn get_code(self) -> (r: char)
        ensures
            r == self.spec_code(),
    {
        match self {
            ChatColor::Black => '0',
            ChatColor::DarkBlue => '1',
            ChatColor::DarkGreen => '2',
            ChatColor::DarkCyan => '3',
            ChatColor::DarkRed => '4',
            ChatColor::Purple => '5',
            ChatColor::Gold => '6',
            ChatColor::Gray => '7',
            ChatColor::DarkGray => '8',
            ChatColor::Blue => '9',
            ChatColor::BrightGreen => 'a',
            ChatColor::Cyan => 'b',
            ChatColor::Red => 'c',
            ChatColor::Pink => 'd',
            ChatColor::Yellow => 'e',
            ChatColor::White => 'f',
            ChatColor::Obfuscated => 'k',
            ChatColor::Bold => 'l',
            ChatColor::Strikethrough => 'm',
            ChatColor::Underline => 'n',
            ChatColor::Italic => 'o',
            ChatColor::Reset => 'r',
        }
    }

    pub fn to_str(self) -> (r: &'static str)
        ensures
            r@ == self.spec_name(),
    {
        match self {
            ChatColor::Black => "black",
            ChatColor::DarkBlue => "dark_blue",
            ChatColor::DarkGreen => "dark_green",
            ChatColor::DarkCyan => "dark_cyan",
            ChatColor::DarkRed => "dark_red",
            ChatColor::Purple => "dark_purple",
            ChatColor::Gold => "gold",
            ChatColor::Gray => "gray",
            ChatColor::DarkGray => "dark_gray",
            ChatColor::Blue => "blue",
            ChatColor::BrightGreen => "green",
            ChatColor::Cyan => "cyan",
            ChatColor::Red => "red",
            ChatColor::Pink => "pink",
            ChatColor::Yellow => "yellow",
            ChatColor::White => "white",
            ChatColor::Obfuscated => "obfuscated",
            ChatColor::Bold => "bold",
            ChatColor::Strikethrough => "strikethrough",
            ChatColor::Underline => "underline",
            ChatColor::Italic => "italic",
            ChatColor::Reset => "reset",
        }
    }

    /// Which names denote a color.
    pub open spec fn spec_from(s: Seq<char>) -> Option<ChatColor> {
        if s == "black"@ {
            Some(ChatColor::Black)
        } else if s == "dark_blue"@ {
            Some(ChatColor::DarkBlue)
        } else if s == "dark_green"@ {
            Some(ChatColor::DarkGreen)
        } else if s == "dark_cyan"@ {
            Some(ChatColor::DarkCyan)
        } else if s == "dark_red"@ {
            Some(ChatColor::DarkRed)
        } else if s == "dark_purple"@ {
            Some(ChatColor::Purple)
        } else if s == "gold"@ {
            Some(ChatColor::Gold)
        } else if s == "gray"@ {
            Some(ChatColor::Gray)
        } else if s == "dark_gray"@ {
            Some(ChatColor::DarkGray)
        } else if s == "blue"@ {
            Some(ChatColor::Blue)
        } else if s == "green"@ {
            Some(ChatColor::BrightGreen)
        } else if s == "cyan"@ {
            Some(ChatColor::Cyan)
        } else if s == "red"@ {
            Some(ChatColor::Red)
        } else if s == "pink"@ {
            Some(ChatColor::Pink)
        } else if s == "yellow"@ {
            Some(ChatColor::Yellow)
        } else if s == "white"@ {
            Some(ChatColor::White)
        } else if s == "obfuscated"@ {
            Some(ChatColor::Obfuscated)
        } else if s == "bold"@ {
            Some(ChatColor::Bold)
        } else if s == "strikethrough"@ {
            Some(ChatColor::Strikethrough)
        } else if s == "underline"@ {
            Some(ChatColor::Underline)
        } else if s == "italic"@ {
            Some(ChatColor::Italic)
        } else if s == "reset"@ {
            Some(ChatColor::Reset)
        } else {
            None
        }
    }

    /// Parse a wire name back into its color.
    pub fn parse_name(value: &str) -> (r: Option<ChatColor>)
        ensures
            r == ChatColor::spec_from(value@),
    {
        if str_eq(value, "black") {
            Some(ChatColor::Black)
        } else if str_eq(value, "dark_blue") {
            Some(ChatColor::DarkBlue)
        } else if str_eq(value, "dark_green") {
            Some(ChatColor::DarkGreen)
        } else if str_eq(value, "dark_cyan") {
            Some(ChatColor::DarkCyan)
        } else if str_eq(value, "dark_red") {
            Some(ChatColor::DarkRed)
        } else if str_eq(value, "dark_purple") {
            Some(ChatColor::Purple)
        } else if str_eq(value, "gold") {
            Some(ChatColor::Gold)
        } else if str_eq(value, "gray") {
            Some(ChatColor::Gray)
        } else if str_eq(value, "dark_gray") {
            Some(ChatColor::DarkGray)
        } else if str_eq(value, "blue") {
            Some(ChatColor::Blue)
        } else if str_eq(value, "green") {
            Some(ChatColor::BrightGreen)
        } else if str_eq(value, "cyan") {
            Some(ChatColor::Cyan)
        } else if str_eq(value, "red") {
            Some(ChatColor::Red)
        } else if str_eq(value, "pink") {
            Some(ChatColor::Pink)
        } else if str_eq(value, "yellow") {
            Some(ChatColor::Yellow)
        } else if str_eq(value, "white") {
            Some(ChatColor::White)
        } else if str_eq(value, "obfuscated") {
            Some(ChatColor::Obfuscated)
        } else if str_eq(value, "bold") {
            Some(ChatColor::Bold)
        } else if str_eq(value, "strikethrough") {
            Some(ChatColor::Strikethrough)
        } else if str_eq(value, "underline") {
            Some(ChatColor::Underline)
        } else if str_eq(value, "italic") {
            Some(ChatColor::Italic)
        } else if str_eq(value, "reset") {
            Some(ChatColor::Reset)
        } else {
            None
        }
    }
}

} // verus!
