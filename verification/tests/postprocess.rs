use voca::stt::postprocess::clean;

#[test]
fn strips_artifact() {
    let raw = "  [BLANK_AUDIO] hello world  ";
    assert_eq!(clean(raw, false), "hello world");
}

#[test]
fn capitalizes_first_letter() {
    assert_eq!(clean("hello there", true), "Hello there");
}

#[test]
fn empty_string_stays_empty() {
    assert_eq!(clean("", true), "");
}

#[test]
fn strips_artifact_only_becomes_empty() {
    assert_eq!(clean("[BLANK_AUDIO]", false), "");
}

#[test]
fn collapses_runs_of_spaces() {
    assert_eq!(clean("a   b    c", false), "a b c");
}

#[test]
fn trims_unicode_whitespace() {
    assert_eq!(clean("\t\u{3000} hi \n\u{a0}", false), "hi");
}

#[test]
fn removes_every_artifact_kind() {
    let raw = "[BLANK_AUDIO](music)(Music)[Music][MUSIC](crowd noise)(background noise)(silence)[inaudible][Inaudible]ok";
    assert_eq!(clean(raw, false), "ok");
}

#[test]
fn artifact_in_the_middle_leaves_one_space() {
    assert_eq!(clean("so (music) yes", false), "so yes");
}

#[test]
fn capitalizes_non_ascii_letters() {
    assert_eq!(clean("élan", true), "Élan");
    assert_eq!(clean("straße", true), "Straße");
    assert_eq!(clean("ßa", true), "SSa");
}

#[test]
fn capitalize_keeps_the_rest() {
    assert_eq!(clean("  hello World  ", true), "Hello World");
    assert_eq!(clean("1 apple", true), "1 apple");
}

#[test]
fn clean_text_passes_through() {
    assert_eq!(clean("already clean text", false), "already clean text");
}

#[test]
fn artifact_formed_by_collapsing_stays() {
    // spaces are collapsed after artifacts are removed
    assert_eq!(clean("(crowd  noise)", false), "(crowd noise)");
}

#[test]
fn artifact_formed_by_removal_stays() {
    assert_eq!(clean("[BLANK[BLANK_AUDIO]_AUDIO]", false), "[BLANK_AUDIO]");
}

#[test]
fn capitalize_first_character_only() {
    assert_eq!(voca::stt::postprocess::capitalize_first(&['h', 'i']), vec!['H', 'i']);
    assert_eq!(voca::stt::postprocess::capitalize_first(&['ß', 'a']), vec!['S', 'S', 'a']);
    assert_eq!(voca::stt::postprocess::capitalize_first(&['1', 'a']), vec!['1', 'a']);
    assert!(voca::stt::postprocess::capitalize_first(&[]).is_empty());
}
