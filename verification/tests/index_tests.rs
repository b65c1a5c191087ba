use emoji_picker::catalog::CatalogEntry;
use emoji_picker::index::{
    build_descriptor, describe, describe_all, keyword_string, keyword_text, EmojiDescriptor,
};

#[test]
fn keyword_text_is_name_then_aliases() {
    assert_eq!(keyword_text("Grinning Face", &vec!["grin"]), "Grinning Face grin");
}

#[test]
fn keyword_text_without_aliases_is_the_name_alone() {
    assert_eq!(keyword_text("Rocket", &vec![]), "Rocket");
}

#[test]
fn keyword_text_puts_one_space_between_neighbours() {
    assert_eq!(
        keyword_text("grinning squinting face", &vec!["laughing", "satisfied"]),
        "grinning squinting face laughing satisfied"
    );
}

#[test]
fn keyword_text_keeps_empty_items_and_their_separators() {
    assert_eq!(keyword_text("", &vec![]), "");
    assert_eq!(keyword_text("", &vec!["a"]), " a");
    assert_eq!(keyword_text("a", &vec!["", "b"]), "a  b");
}

#[test]
fn keyword_string_is_lowercased_and_space_joined() {
    assert_eq!(keyword_string("Grinning Face", &vec!["grin"]), "grinning face grin");
}

#[test]
fn keyword_string_lists_every_alias_in_order() {
    assert_eq!(
        keyword_string("grinning squinting face", &vec!["laughing", "satisfied"]),
        "grinning squinting face laughing satisfied"
    );
}

#[test]
fn keyword_string_lowercases_aliases_too() {
    assert_eq!(keyword_string("OK Hand", &vec!["OK_Hand"]), "ok hand ok_hand");
}

#[test]
fn keyword_string_without_aliases_is_the_lowercase_name() {
    assert_eq!(keyword_string("Rocket", &vec![]), "rocket");
}

#[test]
fn keyword_string_lowercases_beyond_ascii() {
    assert_eq!(keyword_string("flag: Åland Islands", &vec![]), "flag: åland islands");
}

#[test]
fn keyword_string_of_a_named_emoji_is_not_empty() {
    assert!(!keyword_string("x", &vec![]).is_empty());
    assert!(!keyword_string("x", &vec![""]).is_empty());
}

#[test]
fn keyword_string_of_nothing_is_empty() {
    assert_eq!(keyword_string("", &vec![]), "");
}

#[test]
fn new_keeps_glyph_and_keywords() {
    let descriptor = EmojiDescriptor::new("🚀", String::from("rocket"));
    assert_eq!(descriptor.glyph, "🚀");
    assert_eq!(descriptor.keywords, "rocket");
}

#[test]
fn matches_is_substring_containment() {
    let descriptor = EmojiDescriptor::new("😀", String::from("grinning face grinning"));
    assert!(descriptor.matches("grinning"));
    assert!(descriptor.matches("face"));
    assert!(descriptor.matches("inn"));
    assert!(descriptor.matches("g face g"));
    assert!(descriptor.matches("grinning face grinning"));
    assert!(!descriptor.matches("grinning face grinning "));
    assert!(!descriptor.matches("faces"));
    assert!(!descriptor.matches("ecaf"));
    assert!(!descriptor.matches("rocket"));
}

#[test]
fn matches_finds_the_empty_query_everywhere() {
    assert!(EmojiDescriptor::new("🚀", String::from("rocket")).matches(""));
    assert!(EmojiDescriptor::new("🚀", String::new()).matches(""));
}

#[test]
fn matches_compares_characters_as_they_are() {
    let descriptor = EmojiDescriptor::new("🚀", String::from("rocket"));
    assert!(!descriptor.matches("ROCKET"));
    assert!(!descriptor.matches("Rocket"));
}

#[test]
fn matches_nothing_longer_than_the_keywords() {
    let descriptor = EmojiDescriptor::new("🚀", String::from("ab"));
    assert!(!descriptor.matches("abc"));
    assert!(!EmojiDescriptor::new("🚀", String::new()).matches("a"));
}

#[test]
fn describe_pairs_the_glyph_with_its_keywords() {
    let entry = CatalogEntry { glyph: "😀", name: "Grinning Face", shortcodes: vec!["grin"] };
    let descriptor = describe(&entry);
    assert_eq!(descriptor.glyph, "😀");
    assert_eq!(descriptor.keywords, "grinning face grin");
}

#[test]
fn describe_all_keeps_catalog_order() {
    let entries = vec![
        CatalogEntry { glyph: "😀", name: "Grinning Face", shortcodes: vec!["grin"] },
        CatalogEntry { glyph: "🚀", name: "rocket", shortcodes: vec!["rocket"] },
        CatalogEntry { glyph: "🏁", name: "chequered flag", shortcodes: vec![] },
    ];
    let descriptors = describe_all(&entries);
    assert_eq!(descriptors.len(), 3);
    assert_eq!(descriptors[0].glyph, "😀");
    assert_eq!(descriptors[0].keywords, "grinning face grin");
    assert_eq!(descriptors[1].glyph, "🚀");
    assert_eq!(descriptors[1].keywords, "rocket rocket");
    assert_eq!(descriptors[2].glyph, "🏁");
    assert_eq!(descriptors[2].keywords, "chequered flag");
}

#[test]
fn describe_all_of_an_empty_catalog_is_empty() {
    assert!(describe_all(&vec![]).is_empty());
}

#[test]
fn build_descriptor_has_one_descriptor_per_catalog_emoji() {
    let descriptors = build_descriptor();
    let catalog: Vec<&'static emojis::Emoji> = emojis::iter().collect();
    assert!(!descriptors.is_empty());
    assert_eq!(descriptors.len(), catalog.len());
    for (descriptor, emoji) in descriptors.iter().zip(catalog) {
        assert_eq!(descriptor.glyph, emoji.as_str());
        let mut items = vec![emoji.name()];
        items.extend(emoji.shortcodes());
        assert_eq!(descriptor.keywords, items.join(" ").to_lowercase());
    }
}

#[test]
fn build_descriptor_starts_with_the_first_faces() {
    let descriptors = build_descriptor();
    let first: Vec<&str> = descriptors.iter().take(5).map(|d| d.glyph).collect();
    assert_eq!(first, ["😀", "😃", "😄", "😁", "😆"]);
}

#[test]
fn build_descriptor_describes_the_rocket() {
    let descriptors = build_descriptor();
    let rocket = descriptors.iter().find(|d| d.glyph == "🚀");
    match rocket {
        Some(descriptor) => assert_eq!(descriptor.keywords, "rocket rocket"),
        None => panic!("the catalog holds no rocket"),
    }
}

#[test]
fn build_descriptor_lists_all_shortcodes() {
    let descriptors = build_descriptor();
    let laughing = descriptors.iter().find(|d| d.glyph == "😆");
    match laughing {
        Some(descriptor) => {
            assert_eq!(descriptor.keywords, "grinning squinting face laughing satisfied")
        }
        None => panic!("the catalog holds no grinning squinting face"),
    }
}

#[test]
fn describe_of_an_entry_without_alias_has_no_trailing_space() {
    let entry = CatalogEntry { glyph: "🚀", name: "Rocket", shortcodes: vec![] };
    let descriptor = describe(&entry);
    assert_eq!(descriptor.keywords, "rocket");
    assert!(!descriptor.matches("rocket "));
    assert!(descriptor.matches("rocket"));
}

#[test]
fn build_descriptor_keeps_alias_free_emoji_free_of_a_trailing_space() {
    let descriptors = build_descriptor();
    let mut alias_free = 0;
    for (descriptor, emoji) in descriptors.iter().zip(emojis::iter()) {
        if emoji.shortcodes().next().is_none() {
            alias_free += 1;
            assert_eq!(descriptor.keywords, emoji.name().to_lowercase());
            assert!(!descriptor.keywords.ends_with(' '));
        }
    }
    assert!(alias_free > 0);
}

#[test]
fn build_descriptor_gives_lowercase_nonempty_keywords() {
    for descriptor in build_descriptor() {
        assert!(!descriptor.keywords.is_empty());
        assert_eq!(descriptor.keywords, descriptor.keywords.to_lowercase());
    }
}

#[test]
fn build_descriptor_gives_the_same_index_every_time() {
    let first = build_descriptor();
    let second = build_descriptor();
    assert_eq!(first.len(), second.len());
    for (a, b) in first.iter().zip(second.iter()) {
        assert_eq!(a.glyph, b.glyph);
        assert_eq!(a.keywords, b.keywords);
    }
}
