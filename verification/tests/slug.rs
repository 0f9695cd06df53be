use shapes::slug::{file_name_for, slugify};

#[test]
fn slug_lowercases_and_hyphenates() {
    assert_eq!(slugify("Hello World!"), "hello-world");
    assert_eq!(slugify("  --A__b--  "), "a-b");
    assert_eq!(slugify("Auth & Sessions: v2"), "auth-sessions-v2");
}

#[test]
fn slug_keeps_unicode_letters() {
    assert_eq!(slugify("Ünïcode Name"), "ünïcode-name");
}

#[test]
fn slug_falls_back_to_node() {
    assert_eq!(slugify("!!!"), "node");
    assert_eq!(slugify(""), "node");
}

#[test]
fn file_name_joins_id_and_slug() {
    assert_eq!(file_name_for(3, "My Shape"), "3-my-shape.yaml");
    assert_eq!(file_name_for(12, "software starter profile"), "12-software-starter-profile.yaml");
}
