use login_items::parser::clean_name;
use login_items::parser::hex_value;
use login_items::parser::is_item_start;
use login_items::parser::parse_field;
use login_items::parser::parse_login_items;
use login_items::parser::parse_url;
use login_items::parser::percent_decode;
use login_items::parser::ItemState;
use login_items::parser::LoginItem;

const SAMPLE: &str = "\
#1:
    Name: Battery Toolkit
    URL: file:///Applications/Battery%20Toolkit.app/
#2:
    Name: iStat Menus Helper
    URL: file:///Users/swizzer/Library/LaunchAgents/com.bjango.istatmenus.agent.plist
#3:
    Name: 天气
";

#[test]
fn parses_known_items() {
    let items = parse_login_items(SAMPLE);

    assert!(items.iter().any(|item| {
        item.name == "Battery Toolkit"
            && item
                .path
                .as_deref()
                .is_some_and(|path| path == "/Applications/Battery Toolkit.app/")
    }));

    assert!(items.iter().any(|item| {
        item.name == "iStat Menus Helper"
            && item.path.as_deref().is_some_and(|path| {
                path == "/Users/swizzer/Library/LaunchAgents/com.bjango.istatmenus.agent.plist"
            })
    }));

    assert!(items.iter().any(|item| item.name == "天气"));
}

#[test]
fn boundary_with_fields_yields_one_entry() {
    // One boundary line followed by a name and a percent-encoded location.
    let input = "# 0:\n  Name: Battery Toolkit\n  URL: file:///Applications/Battery%20Toolkit.app/\n";
    let items = parse_login_items(input);
    assert_eq!(items.len(), 1);
    assert_eq!(items[0].name, "Battery Toolkit");
    let path = items[0].path.as_deref().expect("entry should have a location");
    assert!(path.ends_with("Battery Toolkit.app/"));
    assert_eq!(path, "/Applications/Battery Toolkit.app/");
}

#[test]
fn null_name_and_no_url_yields_fallback_entry() {
    let input = "# 1:\n  Name: (null)\n";
    let items = parse_login_items(input);
    assert_eq!(items.len(), 1);
    assert_eq!(items[0].name, "未命名");
    assert_eq!(items[0].path, None);
}

#[test]
fn entry_count_matches_records_with_fields() {
    // Three boundaries; only the first and third are followed by a field.
    let input = "#a:\nName: one\n#b:\n#c:\nName: three\n";
    let items = parse_login_items(input);
    assert_eq!(items.len(), 2);
    assert_eq!(items[0].name, "one");
    assert_eq!(items[1].name, "three");
}

#[test]
fn fields_before_first_boundary_accumulate() {
    let input = "Name: early\n#1:\nName: late\n";
    let items = parse_login_items(input);
    assert_eq!(items.len(), 2);
    assert_eq!(items[0].name, "early");
    assert_eq!(items[1].name, "late");
}

#[test]
fn boundary_without_fields_yields_nothing() {
    let items = parse_login_items("#1:\n#2:\n\n#3:\n");
    assert!(items.is_empty());
    assert!(parse_login_items("").is_empty());
}

#[test]
fn url_null_overwrites_earlier_location() {
    // A later location field overwrites the earlier one, even with nothing.
    let input = "#1:\nURL: file:///tmp/a\nURL: (null)\n";
    let items = parse_login_items(input);
    assert!(items.is_empty());
}

#[test]
fn unrecognized_lines_are_skipped() {
    let input = "#1:\nBogus: value\n  Name: kept\nanother stray line\n";
    let items = parse_login_items(input);
    assert_eq!(items.len(), 1);
    assert_eq!(items[0].name, "kept");
}

#[test]
fn crlf_lines_parse_like_lf_lines() {
    let input = "#1:\r\nName: one\r\n";
    let items = parse_login_items(input);
    assert_eq!(items.len(), 1);
    assert_eq!(items[0].name, "one");
}

#[test]
fn is_item_start_recognizes_trimmed_shape() {
    assert!(is_item_start(b"# 0:"));
    assert!(is_item_start(b"   #12 (com.example.agent):   "));
    assert!(!is_item_start(b"#"));
    assert!(!is_item_start(b":"));
    assert!(!is_item_start(b"Name: x"));
    assert!(!is_item_start(b""));
}

#[test]
fn parse_field_strips_label_and_trims() {
    assert_eq!(parse_field(b"Name:  hello  ", b"Name:"), Some(b"hello".to_vec()));
    assert_eq!(parse_field(b"URL:x", b"URL:"), Some(b"x".to_vec()));
    assert_eq!(parse_field(b"Name:", b"Name:"), Some(b"".to_vec()));
    assert_eq!(parse_field(b"name: hello", b"Name:"), None);
    assert_eq!(parse_field(b"URL: y", b"Name:"), None);
}

#[test]
fn clean_name_normalizes_placeholders() {
    assert_eq!(clean_name(b""), "未命名");
    assert_eq!(clean_name(b"   "), "未命名");
    assert_eq!(clean_name(b"(null)"), "未命名");
    assert_eq!(clean_name(b"  (null)  "), "未命名");
    assert_eq!(clean_name(b"Battery Toolkit"), "Battery Toolkit");
    assert_eq!(clean_name("天气".as_bytes()), "天气");
}

#[test]
fn parse_url_placeholder_and_empty_yield_none() {
    assert_eq!(parse_url(b""), None);
    assert_eq!(parse_url(b"   "), None);
    assert_eq!(parse_url(b"(null)"), None);
}

#[test]
fn parse_url_strips_scheme_and_host() {
    assert_eq!(parse_url(b"file:///tmp/x"), Some("/tmp/x".to_string()));
    assert_eq!(parse_url(b"file://localhost/tmp/x"), Some("tmp/x".to_string()));
    assert_eq!(parse_url(b"/plain/path"), Some("/plain/path".to_string()));
    assert_eq!(
        parse_url(b"file:///Applications/Battery%20Toolkit.app/"),
        Some("/Applications/Battery Toolkit.app/".to_string())
    );
}

#[test]
fn percent_decode_well_formed_escapes() {
    assert_eq!(percent_decode(b"a%20b"), b"a b".to_vec());
    assert_eq!(percent_decode(b"%41%42%43"), b"ABC".to_vec());
    assert_eq!(percent_decode(b"%2f%2F"), b"//".to_vec());
    assert_eq!(percent_decode(b"no escapes"), b"no escapes".to_vec());
    assert_eq!(percent_decode(b""), b"".to_vec());
    // multi-byte text written as escapes decodes to its bytes
    assert_eq!(percent_decode(b"%E5%A4%A9%E6%B0%94"), "天气".as_bytes().to_vec());
}

#[test]
fn percent_decode_malformed_escape_kept_literally() {
    assert_eq!(percent_decode(b"%zz"), b"%zz".to_vec());
    assert_eq!(percent_decode(b"%4x"), b"%4x".to_vec());
    assert_eq!(percent_decode(b"100%25 sure"), b"100% sure".to_vec());
}

#[test]
fn percent_decode_trailing_escape_kept_literally() {
    // a trailing `%` with fewer than two bytes after it loses nothing
    assert_eq!(percent_decode(b"%"), b"%".to_vec());
    assert_eq!(percent_decode(b"%4"), b"%4".to_vec());
    assert_eq!(percent_decode(b"abc%"), b"abc%".to_vec());
}

#[test]
fn hex_value_digits() {
    assert_eq!(hex_value(b'0'), Some(0));
    assert_eq!(hex_value(b'9'), Some(9));
    assert_eq!(hex_value(b'a'), Some(10));
    assert_eq!(hex_value(b'f'), Some(15));
    assert_eq!(hex_value(b'A'), Some(10));
    assert_eq!(hex_value(b'F'), Some(15));
    assert_eq!(hex_value(b'g'), None);
    assert_eq!(hex_value(b' '), None);
}

#[test]
fn item_state_finish_flushes_and_clears() {
    let mut state = ItemState { name: None, path: None };
    assert_eq!(state.finish(), None);

    let mut state = ItemState { name: Some("x".to_string()), path: None };
    assert_eq!(
        state.finish(),
        Some(LoginItem { name: "x".to_string(), path: None })
    );
    assert_eq!(state.finish(), None);

    let mut state = ItemState { name: None, path: Some("/p".to_string()) };
    assert_eq!(
        state.finish(),
        Some(LoginItem { name: "未命名".to_string(), path: Some("/p".to_string()) })
    );
}
