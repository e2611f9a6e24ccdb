use ktesio::git::{
    branch_from_symbolic_ref, parse_git_progress, progress_update, skill_dir, summarize_git_failure, take_progress_lines,
    GitProgressStage,
};

#[test]
fn test_skill_dir() {
    let root = "/project";
    let dir = skill_dir(root, "my-skill");
    assert_eq!(dir, "/project/.agents/skills/my-skill");
}

#[test]
fn test_skill_dir_joins_like_paths() {
    assert_eq!(skill_dir("/project/", "docs"), "/project/.agents/skills/docs");
    assert_eq!(skill_dir("", "docs"), ".agents/skills/docs");
}

#[test]
fn test_parse_git_progress_from_remote_line() {
    let parsed = parse_git_progress("remote: Counting objects: 42% (42/100)");
    assert_eq!(parsed, Some((GitProgressStage::Counting, 42)));
}

#[test]
fn test_parse_git_progress_from_carriage_return_line() {
    let parsed = parse_git_progress("Receiving objects:  7% (7/100)\r");
    assert_eq!(parsed, Some((GitProgressStage::Receiving, 7)));
}

#[test]
fn test_git_progress_stage_labels_and_positions() {
    assert_eq!(GitProgressStage::Counting.label(), "Counting objects");
    assert_eq!(GitProgressStage::Compressing.label(), "Compressing objects");
    assert_eq!(GitProgressStage::Receiving.label(), "Receiving objects");
    assert_eq!(GitProgressStage::Resolving.label(), "Resolving deltas");
    assert_eq!(GitProgressStage::Updating.label(), "Writing files");

    assert_eq!(GitProgressStage::Counting.mapped_position(100), 20);
    assert_eq!(GitProgressStage::Compressing.mapped_position(100), 40);
    assert_eq!(GitProgressStage::Receiving.mapped_position(100), 75);
    assert_eq!(GitProgressStage::Resolving.mapped_position(100), 90);
    assert_eq!(GitProgressStage::Updating.mapped_position(100), 95);
    assert_eq!(GitProgressStage::Updating.mapped_position(250), 95);
}

#[test]
fn test_parse_git_progress_all_stage_prefixes() {
    assert_eq!(
        parse_git_progress("Compressing objects: 10% (1/10)"),
        Some((GitProgressStage::Compressing, 10))
    );
    assert_eq!(
        parse_git_progress("Resolving deltas: 55% (11/20)"),
        Some((GitProgressStage::Resolving, 55))
    );
    assert_eq!(
        parse_git_progress("Updating files: 100% (3/3)"),
        Some((GitProgressStage::Updating, 100))
    );
    assert_eq!(parse_git_progress("Counting objects: % (0/0)"), None);
    assert_eq!(parse_git_progress("fatal: repository not found"), None);
}

#[test]
fn test_summarize_git_failure_skips_progress_noise() {
    let stderr = b"Cloning into 'repo'...\nReceiving objects: 100% (1/1)\nfatal: repository not found\n";
    assert_eq!(summarize_git_failure(stderr), "fatal: repository not found");
}

#[test]
fn test_summarize_git_failure_without_detail() {
    assert_eq!(summarize_git_failure(b"\r\n  \n"), "git exited without a detailed error");
    assert_eq!(summarize_git_failure(b"first\rsecond\r"), "second");
}

#[test]
fn test_progress_update_maps_line_to_position_and_message() {
    let (position, message) = progress_update("remote: Resolving deltas: 80% (8/10)\n").unwrap();
    assert_eq!(position, 87);
    assert_eq!(message, "Resolving deltas 80%");
    assert!(progress_update("x".repeat(4097).as_str()).is_none());
}

#[test]
fn test_branch_from_symbolic_ref() {
    assert_eq!(branch_from_symbolic_ref("refs/remotes/origin/main\n").as_deref(), Some("main"));
    assert!(branch_from_symbolic_ref("HEAD").is_none());
}

#[test]
fn test_observe_progress_updates_progress_and_flushes_large_buffer() {
    let mut buffer = String::new();

    let lines = take_progress_lines(&mut buffer, b"remote: Resolving deltas: 80% (8/10)\n");
    assert_eq!(lines.len(), 1);
    assert_eq!(progress_update(&lines[0]).map(|(position, _)| position), Some(87));
    assert!(buffer.is_empty());

    let lines = take_progress_lines(&mut buffer, "x".repeat(4097).as_bytes());
    assert_eq!(lines.len(), 1);
    assert!(buffer.is_empty());
}

#[test]
fn test_take_progress_lines_keeps_partial_lines_until_they_end() {
    let mut buffer = String::new();
    assert!(take_progress_lines(&mut buffer, b"Receiving objects:  1").is_empty());
    assert_eq!(buffer, "Receiving objects:  1");
    let lines = take_progress_lines(&mut buffer, b"0% (1/10)\rReceiving objects:  20%");
    assert_eq!(lines, vec!["Receiving objects:  10% (1/10)\r".to_string()]);
    assert_eq!(buffer, "Receiving objects:  20%");
    let lines = take_progress_lines(&mut buffer, b"\n\n");
    assert_eq!(lines, vec!["Receiving objects:  20%\n".to_string(), "\n".to_string()]);
    assert!(buffer.is_empty());
    // The limit counts bytes: 2049 two-byte characters are over it.
    let lines = take_progress_lines(&mut buffer, "é".repeat(2049).as_bytes());
    assert_eq!(lines.len(), 1);
    assert!(buffer.is_empty());
    assert!(take_progress_lines(&mut buffer, "é".repeat(2048).as_bytes()).is_empty());
    assert_eq!(buffer.len(), 4096);
}

#[test]
fn test_progress_lines_over_chunks_match_the_whole_text() {
    let text: &[u8] = b"Cloning\rReceiving objects:  50% (5/10)\rResolving deltas: 100% (3/3)\ndone";
    let mut whole = String::new();
    let at_once = take_progress_lines(&mut whole, text);
    for cut in 0..text.len() {
        let mut buffer = String::new();
        let mut lines = take_progress_lines(&mut buffer, &text[..cut]);
        lines.extend(take_progress_lines(&mut buffer, &text[cut..]));
        assert_eq!(lines, at_once);
        assert_eq!(buffer, whole);
    }
    assert_eq!(whole, "done");
    assert_eq!(at_once.len(), 3);
}
