//! The rich-text chat document model: a recursive tree of styled
//! components. The codec carries a document as length-prefixed UTF-8
//! text; the conversion between a document value and that text is the
//! business of the external document serializer at the crate boundary.

use crate::chat_color::ChatColor;
use vstd::prelude::*;

verus! {

#[derive(Clone, Copy, Debug, PartialEq, Eq, Structural)]
pub enum ChatMessageType {
    Chat,
    System,
    GameInfo,
}

#[derive(Clone, Copy, Debug, PartialEq, Eq, Structural)]
pub enum ChatSetting {
    Full,
    System,
    Disabled,
}

#[derive(Clone, Debug, PartialEq)]
pub struct ChatClickEvent {
    pub open_url: Option<String>,
    pub run_command: Option<String>,
    pub suggest_command: Option<String>,
    pub change_page: Option<i32>,
}

impl ChatClickEvent {
    pub fn default() -> (r: ChatClickEvent)
        ensures
            r.open_url is None,
            r.run_command is None,
            r.suggest_command is None,
            r.change_page is None,
    {
        ChatClickEvent { open_url: None, run_command: None, suggest_command: None, change_page: None }
    }
}

pub struct ChatHoverEvent {
    pub show_text_raw: Option<String>,
    pub show_text_chat: Option<Box<Chat>>,
    pub show_item_chat: Option<Box<Chat>>,
    pub show_item_nbt: Option<bool>,
    pub show_entity: Option<bool>,
}

impl ChatHoverEvent {
    pub fn default() -> (r: ChatHoverEvent)
        ensures
            r.show_text_raw is None,
            r.show_text_chat is None,
            r.show_item_chat is None,
            r.show_item_nbt is None,
            r.show_entity is None,
    {
        ChatHoverEvent {
            show_text_raw: None,
            show_text_chat: None,
            show_item_chat: None,
            show_item_nbt: None,
            show_entity: None,
        }
    }
}

#[derive(Clone, Debug, PartialEq)]
pub struct ChatComponentString {
    pub text: String,
}

#[derive(Clone, Debug, PartialEq)]
pub struct ChatComponentTranslation {
    pub translate: String,
}

#[derive(Clone, Debug, PartialEq)]
pub struct ChatComponentKeybind {
    pub keybind: String,
}

#[derive(Clone, Debug, PartialEq)]
pub struct ChatComponentScore {
    pub score: String,
    pub name: String,
    pub objective: String,
    pub value: Option<String>,
}

#[derive(Clone, Debug, PartialEq)]
pub struct ChatComponentSelector {
    pub selector: String,
}

/// One node of the chat document tree.
pub struct Chat {
    pub bold: bool,
    pub italic: bool,
    pub underlined: bool,
    pub strikethrough: bool,
    pub obfuscated: bool,
    pub color: Option<ChatColor>,
    pub insertion: Option<String>,
    pub click_event: Option<ChatClickEvent>,
    pub hover_event: Option<ChatHoverEvent>,
    pub extra: Option<Vec<Chat>>,
    pub component_string: Option<ChatComponentString>,
    pub component_translation: Option<ChatComponentTranslation>,
    pub component_keybind: Option<ChatComponentKeybind>,
    pub component_score: Option<ChatComponentScore>,
    pub component_selector: Option<ChatComponentSelector>,
}

impl Chat {
    /// A plain unstyled text node.
    pub fn new_text(text: &str) -> (r: Chat)
        ensures
            !r.bold && !r.italic && !r.underlined && !r.strikethrough && !r.obfuscated,
            r.color is None,
            r.insertion is None,
            r.click_event is None,
            r.hover_event is None,
            r.extra is None,
            r.component_string matches Some(c) && c.text@ == text@,
            r.component_translation is None,
            r.component_keybind is None,
            r.component_score is None,
            r.component_selector is None,
    {
        Chat {
            bold: false,
            italic: false,
            underlined: false,
            strikethrough: false,
            obfuscated: false,
            color: None,
            insertion: None,
            click_event: None,
            hover_event: None,
            extra: None,
            component_string: Some(ChatComponentString { text: text.to_owned() }),
            component_translation: None,
            component_keybind: None,
            component_score: None,
            component_selector: None,
        }
    }
}

} // verus!
