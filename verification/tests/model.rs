use minecrate::chat::{Chat, ChatClickEvent, ChatHoverEvent};
use minecrate::chat_color::ChatColor;
use minecrate::game::{Difficulty, Dimension, Gamemode, LevelType};
use minecrate::vector::{Vector2, Vector3};

#[test]
fn difficulty_values_round_trip() {
    for d in [Difficulty::Peaceful, Difficulty::Easy, Difficulty::Normal, Difficulty::Hard] {
        assert_eq!(Difficulty::from_u8(d.as_u8()), Some(d));
    }
    assert_eq!(Difficulty::from_u8(4), None);
}

#[test]
fn gamemode_values_round_trip() {
    for g in [Gamemode::Survival, Gamemode::Creative, Gamemode::Adventure, Gamemode::Spectator] {
        assert_eq!(Gamemode::from_u8(g.as_u8()), Some(g));
    }
    assert_eq!(Gamemode::from_u8(9), None);
}

#[test]
fn dimension_values_round_trip() {
    assert_eq!(Dimension::from_i32(0), Dimension::Overworld);
    assert_eq!(Dimension::from_i32(-1), Dimension::Nether);
    assert_eq!(Dimension::from_i32(1), Dimension::End);
    assert_eq!(Dimension::from_i32(7), Dimension::Custom(7));
    for d in [Dimension::Overworld, Dimension::Nether, Dimension::End, Dimension::Custom(-9)] {
        assert_eq!(Dimension::from_i32(d.as_i32()), d);
    }
}

#[test]
fn dimension_canonicalization() {
    // a Custom value aliasing a named dimension reduces to it
    assert_eq!(Dimension::Custom(0).canonicalize(), Dimension::Overworld);
    assert_eq!(Dimension::Custom(-1).canonicalize(), Dimension::Nether);
    assert_eq!(Dimension::Custom(1).canonicalize(), Dimension::End);
    assert_eq!(Dimension::Custom(5).canonicalize(), Dimension::Custom(5));
}

#[test]
fn level_type_names_round_trip() {
    for t in [
        LevelType::Default,
        LevelType::Flat,
        LevelType::LargeBiomes,
        LevelType::Amplified,
        LevelType::Customized,
        LevelType::Buffet,
        LevelType::Default1_1,
    ] {
        assert_eq!(LevelType::from_string(t.to_string()), Some(t));
    }
    assert_eq!(LevelType::from_string("DEFAULT"), None);
    assert_eq!(LevelType::from_string(""), None);
}

#[test]
fn chat_color_codes_and_names() {
    assert_eq!(ChatColor::Black.get_code(), '0');
    assert_eq!(ChatColor::Reset.get_code(), 'r');
    assert_eq!(ChatColor::BrightGreen.to_str(), "green");
    assert_eq!(ChatColor::Purple.to_str(), "dark_purple");
    assert_eq!(ChatColor::parse_name("green"), Some(ChatColor::BrightGreen));
    assert_eq!(ChatColor::parse_name("lilac"), None);
    for c in [ChatColor::Black, ChatColor::Gold, ChatColor::Italic, ChatColor::Reset] {
        assert_eq!(ChatColor::parse_name(c.to_str()), Some(c));
    }
}

#[test]
fn chat_text_node() {
    let c = Chat::new_text("hello");
    assert_eq!(c.component_string.unwrap().text, "hello");
    assert!(c.color.is_none());
    assert!(c.extra.is_none());
    let click = ChatClickEvent::default();
    assert!(click.open_url.is_none() && click.change_page.is_none());
    let hover = ChatHoverEvent::default();
    assert!(hover.show_text_raw.is_none() && hover.show_entity.is_none());
}

#[test]
fn vectors_carry_components() {
    let v2 = Vector2::new(1, 2);
    assert_eq!(v2, Vector2(1, 2));
    let v3 = Vector3::new(4i32, 5, 6);
    assert_eq!((v3.0, v3.1, v3.2), (4, 5, 6));
}
