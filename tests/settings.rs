use jj_status::config::{choose_description, describe, shown_counts, JujutsuCommitConfig, JujutsuDiffConfig};

#[test]
fn commit_defaults() {
    let config = JujutsuCommitConfig::default();
    assert_eq!(config.change_id_length, 8);
    assert_eq!(
        config.format,
        "[$prefix]($style_prefix)[$rest]($style_rest) [$description]($style_description)"
    );
    assert_eq!(config.description_empty, "(no description)");
    assert_eq!(config.style_prefix, "bold purple");
    assert_eq!(config.style_rest, "bright-black");
    assert_eq!(config.style_description, "");
    assert_eq!(config.style_description_empty, "green");
}

#[test]
fn diff_defaults() {
    let config = JujutsuDiffConfig::default();
    assert_eq!(config.added_style, "bold green");
    assert_eq!(config.deleted_style, "bold red");
    assert!(config.only_nonzero_diffs);
    assert_eq!(config.format, "([+$added]($added_style) )([-$deleted]($deleted_style) )");
}

#[test]
fn zero_count_is_left_out_when_only_nonzero_are_shown() {
    let config = JujutsuDiffConfig::default();
    assert_eq!(shown_counts(&config, 5, 0), (Some(5), None));
    assert_eq!(shown_counts(&config, 0, 0), (None, None));
}

#[test]
fn zero_count_is_shown_when_asked_for() {
    let config = JujutsuDiffConfig { only_nonzero_diffs: false, ..JujutsuDiffConfig::default() };
    assert_eq!(shown_counts(&config, 0, 7), (Some(0), Some(7)));
}

#[test]
fn description_is_first_line_trimmed() {
    let config = JujutsuCommitConfig::default();
    assert_eq!(describe(&config, "  fix the parser \n\nlonger text"), ("fix the parser", ""));
}

#[test]
fn empty_description_uses_placeholder() {
    let config = JujutsuCommitConfig::default();
    assert_eq!(describe(&config, ""), ("(no description)", "green"));
    assert_eq!(describe(&config, "   \nsecond line"), ("(no description)", "green"));
}

#[test]
fn chosen_description_follows_the_given_line() {
    let config = JujutsuCommitConfig::default();
    assert_eq!(choose_description(&config, Some("add tests")), ("add tests", ""));
    assert_eq!(choose_description(&config, Some("")), ("(no description)", "green"));
    assert_eq!(choose_description(&config, None), ("(no description)", "green"));
}
