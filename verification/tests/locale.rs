use oh_tray::locale::{is_zh, is_zh_tag, lang_text};

fn zh(tag: &str) -> bool {
    is_zh_tag(Some(tag.to_string()))
}

#[test]
fn chinese_tags_are_recognised_in_any_case() {
    assert!(zh("zh"));
    assert!(zh("zh-CN"));
    assert!(zh("ZH-TW"));
    assert!(zh("Zh_Hans"));
    assert!(zh("zha"));
}

#[test]
fn other_tags_are_not_chinese() {
    assert!(!zh(""));
    assert!(!zh("z"));
    assert!(!zh("Z-h"));
    assert!(!zh("en-US"));
    assert!(!zh("nzh"));
    assert!(!zh("ｚｈ"));
}

#[test]
fn a_system_without_a_tag_is_not_chinese() {
    assert!(!is_zh_tag(None));
}

#[test]
fn the_system_decides() {
    assert_eq!(is_zh(), is_zh_tag(sys_locale::get_locale()));
}

#[test]
fn text_follows_the_language() {
    assert_eq!(lang_text(true, "启动", "Start"), "启动");
    assert_eq!(lang_text(false, "启动", "Start"), "Start");
}
