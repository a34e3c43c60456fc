use roper_redux::config::{conf_path, trim_end};

fn trimmed(text: &str) -> String {
    let mut bytes = text.as_bytes().to_vec();
    trim_end(&mut bytes);
    String::from_utf8(bytes).unwrap()
}

#[test]
fn test_read_conf() {
    assert_eq!(
        conf_path(b"/home/me", b".roper_config/", b".config_test"),
        b"/home/me/.roper_config//.config_test".to_vec()
    );
    assert_eq!(trimmed("IT WORKS\n"), "IT WORKS");
    assert_eq!(trimmed("IT WORKS"), "IT WORKS");
    assert_eq!(trimmed("IT WORKS \t\n\n  "), "IT WORKS");
}

#[test]
fn only_the_end_is_trimmed() {
    assert_eq!(trimmed("  a b\tc\nd \n"), "  a b\tc\nd");
    assert_eq!(trimmed("\n"), "");
    assert_eq!(trimmed(" \t\n"), "");
    assert_eq!(trimmed(""), "");
}

#[test]
fn other_white_space_stays() {
    assert_eq!(trimmed("a\r\n"), "a\r");
    assert_eq!(trimmed("a\u{b}"), "a\u{b}");
    assert_eq!(trimmed("a\u{a0}\n"), "a\u{a0}");
}

#[test]
fn trimming_twice_changes_nothing_more() {
    for text in ["x \n", "\t", "a b ", "é \n"] {
        let once = trimmed(text);
        assert_eq!(trimmed(&once), once);
    }
}

#[test]
fn paths_of_configuration_files() {
    assert_eq!(conf_path(b"", b"", b""), b"//".to_vec());
    assert_eq!(conf_path(b"/root", b"conf", b"seed.txt"), b"/root/conf/seed.txt".to_vec());
}
