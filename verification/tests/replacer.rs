use imgstruct::replacer::batch_replace;

#[test]
fn test_basic_replacement() {
    let res = batch_replace("hello world".into(), "world -> there".into()).unwrap();
    assert_eq!(res.replaced_content, "hello there");
    assert_eq!(res.original_highlights.len(), 1);
    assert_eq!(res.original_highlights[0].start, 6);
    assert_eq!(res.original_highlights[0].end, 11);
    assert_eq!(res.original_highlights[0].rule_index, 0);
    assert_eq!(res.replaced_highlights.len(), 1);
    assert_eq!(res.replaced_highlights[0].start, 6);
    assert_eq!(res.replaced_highlights[0].end, 11);
}

#[test]
fn test_first_matching_rule_wins() {
    let res = batch_replace("aab".into(), "ab -> X\na -> Y".into()).unwrap();
    assert_eq!(res.replaced_content, "YX");
    assert_eq!(res.original_highlights.len(), 2);
    assert_eq!(res.original_highlights[0].rule_index, 1);
    assert_eq!(res.original_highlights[1].rule_index, 0);
    assert_eq!(res.original_highlights[1].start, 1);
    assert_eq!(res.original_highlights[1].end, 3);
    assert_eq!(res.replaced_highlights[1].start, 1);
    assert_eq!(res.replaced_highlights[1].end, 2);
}

#[test]
fn test_malformed_lines_are_ignored() {
    let rules = "no arrow here\nx -> y\na -> b -> c\n -> z";
    let res = batch_replace("xaz".into(), rules.into()).unwrap();
    // only `x -> y` is a rule: one arrow, non-empty pattern
    assert_eq!(res.replaced_content, "yaz");
    assert_eq!(res.original_highlights.len(), 1);
}

#[test]
fn test_crlf_rule_lines() {
    let res = batch_replace("ac".into(), "a -> b\r\nc -> d".into()).unwrap();
    assert_eq!(res.replaced_content, "bd");
    assert_eq!(res.original_highlights.len(), 2);
}

#[test]
fn test_positions_count_characters() {
    let res = batch_replace("中中a".into(), "a -> bb".into()).unwrap();
    assert_eq!(res.replaced_content, "中中bb");
    assert_eq!(res.original_highlights[0].start, 2);
    assert_eq!(res.original_highlights[0].end, 3);
    assert_eq!(res.replaced_highlights[0].start, 2);
    assert_eq!(res.replaced_highlights[0].end, 4);
}

#[test]
fn test_no_rules_leaves_text_unchanged() {
    let res = batch_replace("anything".into(), "".into()).unwrap();
    assert_eq!(res.replaced_content, "anything");
    assert!(res.original_highlights.is_empty());
    assert!(res.replaced_highlights.is_empty());
}

#[test]
fn test_replacement_may_be_empty() {
    let res = batch_replace("a-b-c".into(), "- ->".into()).unwrap();
    assert_eq!(res.replaced_content, "abc");
    assert_eq!(res.original_highlights.len(), 2);
    let h = &res.replaced_highlights[0];
    assert_eq!(h.start, h.end);
}
