use blankstop::sanitize::sanitize_text;
use blankstop::shell::detect::looks_shell_like;
use blankstop::shell::heredoc::repair_indented_terminators;

#[test]
fn looks_shell_like_detects_heredoc_without_prompts() {
    let snippet = "cat <<'EOF'\necho hello\nEOF\n";
    assert!(looks_shell_like(snippet));
}

#[test]
fn repair_indented_terminator_moves_delimiter_to_column_one() {
    let input = "cat <<'EOF'\n  echo hello\n  EOF\n";
    let output = repair_indented_terminators(input);
    assert_eq!(output, "cat <<'EOF'\n  echo hello\nEOF\n");
}

#[test]
fn power_shell_wrapped_path_literal_is_unwrapped_without_spaces() {
    let input = "PS> wsl.exe -e bash -lc \"cd /home/johnf/code/\n  textureportal && ls\"\n";
    let result = sanitize_text(input);
    assert!(result.output.contains("/home/johnf/code/textureportal"));
    assert!(!result.output.contains("/home/johnf/code/ textureportal"));
}

#[test]
fn power_shell_wrapped_unc_path_is_unwrapped() {
    let input = "PS> cd \"\\\\wsl$\n    \\\\Ubuntu\\\\home\\\\johnf\"\n";
    let result = sanitize_text(input);
    assert_eq!(
        result.output.trim_end(),
        "PS> cd \"\\\\wsl$\\\\Ubuntu\\\\home\\\\johnf\""
    );
}

#[test]
fn cmd_caret_tokens_are_removed_at_token_start() {
    let input = "cmd /c powershell -Command ^\n  \"Write-Host 'hi';\" ^\n  \"[Environment]::Exit(0)\"\n";
    let result = sanitize_text(input);
    assert!(!result.output.contains('^'));
    assert!(result
        .output
        .contains("-Command \"Write-Host 'hi';\" \"[Environment]::Exit(0)\""));
}

#[test]
fn heredoc_terminator_is_repaired_and_body_preserved() {
    let input = "cat > /tmp/x <<'EOF'\n  echo hi\n  EOF\n";
    let result = sanitize_text(input);
    assert!(result.output.contains("\nEOF\n"));
    assert!(result.output.contains("\n  echo hi\n"));
}

#[test]
fn multiple_heredoc_terminators_are_repaired_independently() {
    let input = "cat > /tmp/a <<'ONE'\n  echo a\n  ONE\ncat > /tmp/b <<CLIP\n  echo b\n  CLIP\n";
    let result = sanitize_text(input);
    assert!(result.output.contains("\nONE\n"));
    assert!(result.output.contains("\nCLIP\n"));
}

#[test]
fn quoted_path_trailing_backslash_is_preserved() {
    let input = "echo \"\\\\wsl$\\\\Ubuntu\\\\home\\\\johnf\\\\code\\\\\n  textureportal\"\n";
    let result = sanitize_text(input);
    assert!(result
        .output
        .contains("\"\\\\wsl$\\\\Ubuntu\\\\home\\\\johnf\\\\code\\\\textureportal\""));
}

#[test]
fn cmd_caret_inside_quotes_is_preserved() {
    let input = "cmd /c echo \"caret ^ literal\"\n";
    let result = sanitize_text(input);
    assert!(result.output.contains("caret ^ literal"));
}

#[test]
fn shell_wrapped_path_tokens_are_stitched_without_spaces() {
    let input = "PS> ls assets/\n  organized/procedural/seamless_void.png\n";
    let result = sanitize_text(input);
    assert!(result
        .output
        .contains("assets/organized/procedural/seamless_void.png"));
    assert_eq!(result.summary.unwrapped_lines, 1);
}

#[test]
fn repairing_twice_changes_nothing_more() {
    let text = "cat <<'EOF'\n  echo hello\n  EOF\nls <<X\n";
    let once = blankstop::shell::heredoc::repair_indented_terminators(text);
    let twice = blankstop::shell::heredoc::repair_indented_terminators(&once);
    assert_eq!(once, "cat <<'EOF'\n  echo hello\nEOF\nls <<X\n");
    assert_eq!(twice, once);
}

#[test]
fn powershell_signal_counts_switches_and_executable() {
    let score = |s: &str| {
        let chars: Vec<char> = s.chars().collect();
        blankstop::shell::detect_helpers::powershell_signal_score(&chars)
    };
    assert_eq!(score("pwsh -NoProfile -Command Get-Date"), 7);
    assert_eq!(score("C:\\Tools\\powershell.exe -noprofile"), 5);
    assert_eq!(score("echo '-Command'"), 2);
    assert_eq!(score("ls -la"), 0);
}

#[test]
fn quote_state_past_the_end_is_taken_at_the_end() {
    let chars: Vec<char> = "echo 'open".chars().collect();
    assert!(blankstop::shell::continuation::is_in_quotes_at(&chars, 100, false, false));
    assert!(!blankstop::shell::continuation::is_in_quotes_at(&chars, 5, false, false));
}
