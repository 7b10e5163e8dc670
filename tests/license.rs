use subchunker::license::{accept_minecraft_eula, write_eula};

#[test]
fn only_the_license_line_changes() {
    let before = "#By changing the setting below to TRUE you are indicating your agreement.\n#Mon Jan 01 00:00:00 UTC 2024\neula=false\nother=value\n";
    let after = accept_minecraft_eula(before);
    let lines_before: Vec<&str> = before.lines().collect();
    let lines_after: Vec<&str> = after.lines().collect();
    assert_eq!(lines_before.len(), lines_after.len());
    for (i, (a, b)) in lines_before.iter().zip(lines_after.iter()).enumerate() {
        if i == 2 {
            assert_eq!(*b, "eula=true");
        } else {
            assert_eq!(a, b);
        }
    }
    assert_eq!(
        after,
        "#By changing the setting below to TRUE you are indicating your agreement.\n#Mon Jan 01 00:00:00 UTC 2024\neula=true\nother=value"
    );
}

#[test]
fn only_lines_beginning_with_the_key_change() {
    assert_eq!(accept_minecraft_eula("a\n  eula=false\nb"), "a\n  eula=false\nb");
    assert_eq!(accept_minecraft_eula("eula=false\n eula=false"), "eula=true\n eula=false");
}

#[test]
fn generated_file_is_joined_without_final_newline() {
    let before = "#By changing the setting below to TRUE you are indicating your agreement to our EULA.\n#Mon Oct 19 12:00:00 UTC 2026\neula=false\n";
    assert_eq!(
        accept_minecraft_eula(before),
        "#By changing the setting below to TRUE you are indicating your agreement to our EULA.\n#Mon Oct 19 12:00:00 UTC 2026\neula=true"
    );
}

#[test]
fn carriage_returns_before_newlines_are_dropped() {
    assert_eq!(accept_minecraft_eula("a\r\neula=false\r\n"), "a\neula=true");
}

#[test]
fn lines_that_a_plain_join_would_lose_are_kept() {
    let after = accept_minecraft_eula("eula=\n\n");
    assert_eq!(after, "eula=true\n\n");
    assert_eq!(after.lines().collect::<Vec<_>>(), vec!["eula=true", ""]);
    let kept = accept_minecraft_eula("a\r\r\nb");
    assert_eq!(kept.lines().collect::<Vec<_>>(), "a\r\r\nb".lines().collect::<Vec<_>>());
}

#[test]
fn accepting_twice_changes_nothing() {
    let once = accept_minecraft_eula("a\n\neula=false\r\n  eula=no");
    assert_eq!(once, "a\n\neula=true\n  eula=no");
    assert_eq!(accept_minecraft_eula(&once), once);
}

#[test]
fn file_without_license_line_is_unchanged() {
    assert_eq!(accept_minecraft_eula("x=1\ny=2"), "x=1\ny=2");
}

#[test]
fn empty_file_stays_empty() {
    assert_eq!(accept_minecraft_eula(""), "");
}

#[test]
fn no_file_nothing_to_write() {
    assert_eq!(write_eula(None), None);
    assert_eq!(write_eula(Some("eula=false".to_string())), Some("eula=true".to_string()));
}
