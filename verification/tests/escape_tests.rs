use krun::escape::escape_for_socat;

#[test]
fn escape_listed_characters_only() {
    assert_eq!(
        escape_for_socat(String::from("a:b,c!d")),
        String::from("a\\:b\\,c\\!d")
    );
}

#[test]
fn escape_every_structural_character() {
    assert_eq!(
        escape_for_socat(String::from(":,!\"'\\([{")),
        String::from("\\:\\,\\!\\\"\\'\\\\\\(\\[\\{")
    );
}

#[test]
fn escape_leaves_plain_text_alone() {
    assert_eq!(
        escape_for_socat(String::from("/bin/echo hello-world_1.2")),
        String::from("/bin/echo hello-world_1.2")
    );
}

#[test]
fn escape_empty_string() {
    assert_eq!(escape_for_socat(String::new()), String::new());
}
