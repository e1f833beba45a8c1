use mineserv::props::{get_property, initial_properties, parse_properties, parse_property_line,
    render_properties, set_property, split_lines};
use mineserv::types::Property;

fn prop(key: &str, value: &str) -> Property {
    Property { key: key.to_string(), value: value.to_string() }
}

#[test]
fn rendering_writes_one_line_per_entry() {
    let props = vec![prop("server-port", "25565"), prop("motd", "hello world")];
    assert_eq!(render_properties(&props), "server-port=25565\nmotd=hello world\n");
    assert_eq!(render_properties(&Vec::new()), "");
}

#[test]
fn splitting_cuts_at_every_newline() {
    assert_eq!(split_lines("a=1\nb=2"), vec!["a=1".to_string(), "b=2".to_string()]);
    assert_eq!(
        split_lines("a=1\n\nb=2\n"),
        vec!["a=1".to_string(), "".to_string(), "b=2".to_string(), "".to_string()]
    );
    assert_eq!(split_lines(""), vec!["".to_string()]);
}

#[test]
fn lines_parse_at_the_first_separator() {
    let p = parse_property_line("motd=a=b").unwrap();
    assert_eq!(p.key, "motd");
    assert_eq!(p.value, "a=b");
    assert!(parse_property_line("").is_none());
    assert!(parse_property_line("#comment=1").is_none());
    assert!(parse_property_line("no separator").is_none());
    let empty_value = parse_property_line("gamemode=").unwrap();
    assert_eq!(empty_value.key, "gamemode");
    assert_eq!(empty_value.value, "");
}

#[test]
fn a_rendered_record_reads_back() {
    let props = vec![prop("server-port", "25565"), prop("motd", "hi"), prop("pvp", "true")];
    let text = render_properties(&props);
    let parsed = parse_properties(&split_lines(&text));
    assert_eq!(parsed.len(), 3);
    for (a, b) in props.iter().zip(parsed.iter()) {
        assert_eq!(a.key, b.key);
        assert_eq!(a.value, b.value);
    }
}

#[test]
fn comments_and_blanks_are_skipped() {
    let text = "#Minecraft server properties\n\nserver-port=25565\nbad line\nmotd=hi\n";
    let parsed = parse_properties(&split_lines(text));
    assert_eq!(parsed.len(), 2);
    assert_eq!(parsed[0].key, "server-port");
    assert_eq!(parsed[1].key, "motd");
}

#[test]
fn setting_a_key_replaces_or_appends() {
    let mut props = vec![prop("level-name", "world"), prop("pvp", "true")];
    set_property(&mut props, "level-name".to_string(), "creative".to_string());
    assert_eq!(props.len(), 2);
    assert_eq!(props[0].value, "creative");
    set_property(&mut props, "motd".to_string(), "hi".to_string());
    assert_eq!(props.len(), 3);
    assert_eq!(props[2].key, "motd");
    assert_eq!(
        get_property(&props, &"motd".to_string()).map(|s| s.as_str()),
        Some("hi")
    );
    assert!(get_property(&props, &"absent".to_string()).is_none());
}

#[test]
fn fresh_instances_start_with_port_and_player_cap() {
    let props = initial_properties(25565, 20);
    assert_eq!(props.len(), 2);
    assert_eq!(props[0].key, "server-port");
    assert_eq!(props[0].value, "25565");
    assert_eq!(props[1].key, "max-players");
    assert_eq!(props[1].value, "20");
}
