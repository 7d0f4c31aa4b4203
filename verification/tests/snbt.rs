use steel_core::snbt::snbt_parse_ends_on;
use text_components::TextComponent;

#[test]
fn snbt_texts_the_parser_returns_on() {
    assert!(snbt_parse_ends_on(""));
    assert!(snbt_parse_ends_on("Banned: griefing"));
    assert!(snbt_parse_ends_on("\"quoted: text\""));
    assert!(snbt_parse_ends_on("{text: \"a\", color: \"red\"}"));
    assert!(snbt_parse_ends_on("{text: \"a\", extra: [{text: \"b\"}]}"));
    assert!(snbt_parse_ends_on("{text:\"a\",click_event:{action:'open_url',url:'x'}}"));
    assert!(snbt_parse_ends_on(" {a:{b:\tc}}"));
    assert!(snbt_parse_ends_on("{shadow_color:[0,0,0,255]}"));
    let shallow = "[".repeat(64);
    assert!(snbt_parse_ends_on(&shallow));
}

#[test]
fn snbt_texts_left_out() {
    assert!(!snbt_parse_ends_on("{click_event:{action: 'open_url'}}"));
    assert!(!snbt_parse_ends_on("{text:\"a\",\"sco\\xre\":{name: 'x'}}"));
    assert!(!snbt_parse_ends_on("{player:{name: 'x'}}"));
    assert!(!snbt_parse_ends_on("{shadow_color:[0,0,0,99999999]}"));
    let deep = "[".repeat(65);
    assert!(!snbt_parse_ends_on(&deep));
}

#[test]
fn admitted_texts_parse() {
    for text in [
        "{text: \"a\", extra: [{text: \"b\"}]}",
        "{text:\"a\",click_event:{action:'open_url',url:'x'}}",
        "{shadow_color:[0,0,0,255], text:'x'}",
        " {a:{b:\tc}}",
    ] {
        assert!(snbt_parse_ends_on(text));
        let _ = TextComponent::from_snbt(text);
    }
    assert!(TextComponent::from_snbt("{text: \"a\", extra: [{text: \"b\"}]}").is_ok());
}
