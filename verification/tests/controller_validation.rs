use turn_control::controller_validation::build_validation_repair_prompt;
use turn_control::controller_validation::compact_validation_failure_summary;
use turn_control::controller_validation::controller_validation_command_completion_message;
use turn_control::controller_validation::controller_validation_command_start_message;
use turn_control::controller_validation::is_checklist_line;
use turn_control::controller_validation::parse_controller_validation_packet;
use turn_control::controller_validation::transform_packet_for_controller_validation;
use turn_control::controller_validation::transform_user_inputs_for_controller_validation;
use turn_control::controller_validation::validation_success_message;
use turn_control::controller_validation::ControllerValidationState;
use turn_control::controller_validation::MAX_FAILURE_OUTPUT_CHARS;
use turn_control::user_input::ByteRange;
use turn_control::user_input::TextElement;
use turn_control::user_input::UserInput;

#[test]
fn missing_build_test_section_is_noop() {
    let text = "Hello\nSummary checklist:\n- done";
    let transform = transform_packet_for_controller_validation(text);
    assert_eq!(transform.model_visible_text, text);
    assert_eq!(transform.commands, Vec::<String>::new());
    assert!(!transform.validation_pending);
}

#[test]
fn empty_build_test_section_is_noop() {
    let text = "Build/test commands:\n\nSummary checklist:\n- done";
    let transform = transform_packet_for_controller_validation(text);
    assert_eq!(transform.model_visible_text, text);
    assert_eq!(transform.commands, Vec::<String>::new());
    assert!(!transform.validation_pending);
}

#[test]
fn bullet_commands_are_extracted_in_order() {
    let text = "Build/test commands:\n- cargo check -p codex-core\n- cargo test -p codex-core\nSummary checklist:\n- done";
    let transform = transform_packet_for_controller_validation(text);
    assert_eq!(
        transform.commands,
        vec![
            "cargo check -p codex-core".to_owned(),
            "cargo test -p codex-core".to_owned(),
        ]
    );
    assert!(transform.validation_pending);
    assert!(
        transform
            .model_visible_text
            .contains("Validation is controller-managed.")
    );
    assert!(
        transform
            .model_visible_text
            .contains("Controller-managed validation is pending.")
    );
    assert!(
        !transform
            .model_visible_text
            .contains("cargo check -p codex-core")
    );
    assert!(
        !transform
            .model_visible_text
            .contains("cargo test -p codex-core")
    );
    assert!(!transform.model_visible_text.contains("Summary checklist:"));
    assert!(!transform.model_visible_text.contains("- done"));
}

#[test]
fn fenced_commands_are_extracted_in_order() {
    let text = "Build/test commands:\n```sh\ncargo check -p codex-core\ncargo test -p codex-core\n```\nSummary checklist:\n- done";
    let transform = transform_packet_for_controller_validation(text);
    assert_eq!(
        transform.commands,
        vec![
            "cargo check -p codex-core".to_owned(),
            "cargo test -p codex-core".to_owned(),
        ]
    );
    assert!(transform.validation_pending);
}

#[test]
fn section_stops_before_summary_checklist() {
    let text = "Build/test commands:\n- cargo check -p codex-core\nSummary checklist:\n- make sure\n- verify output";
    let transform = transform_packet_for_controller_validation(text);
    assert_eq!(
        transform.commands,
        vec!["cargo check -p codex-core".to_owned()]
    );
    assert!(!transform.model_visible_text.contains("make sure"));
    assert!(!transform.model_visible_text.contains("verify output"));
}

#[test]
fn transformed_prompt_hides_command_list_and_checklist_items() {
    let text = "Before\nBuild/test commands:\n- cargo check -p codex-core\n- cargo test -p codex-core\nSummary checklist:\n- item one\n- item two\nAfter";
    let transform = transform_packet_for_controller_validation(text);
    assert!(transform.model_visible_text.contains("Before"));
    assert!(transform.model_visible_text.contains("After"));
    assert!(
        transform
            .model_visible_text
            .contains("Validation is controller-managed.")
    );
    assert!(
        transform
            .model_visible_text
            .contains("Controller-managed validation is pending.")
    );
    assert!(
        !transform
            .model_visible_text
            .contains("cargo check -p codex-core")
    );
    assert!(
        !transform
            .model_visible_text
            .contains("cargo test -p codex-core")
    );
    assert!(!transform.model_visible_text.contains("Summary checklist:"));
    assert!(!transform.model_visible_text.contains("item one"));
    assert!(!transform.model_visible_text.contains("item two"));
}

#[test]
fn transforms_only_first_text_item_with_valid_commands() {
    let items = vec![
        UserInput::Text {
            text: "Before\nBuild/test commands:\n- cargo check -p codex-core\nSummary checklist:\n- done"
                .to_string(),
            text_elements: vec![TextElement::new(
                ByteRange { start: 0, end: 6 },
                Some("Before".to_string()),
            )],
        },
        UserInput::Image {
            image_url: "data:image/png;base64,abc".to_string(),
        },
        UserInput::Text {
            text: "Build/test commands:\n- cargo test -p codex-core\nSummary checklist:\n- done"
                .to_string(),
            text_elements: Vec::new(),
        },
    ];

    let (transformed_items, controller_validation) =
        transform_user_inputs_for_controller_validation(items);

    assert_eq!(
        transformed_items,
        vec![
            UserInput::Text {
                text: "Before\nBuild/test commands:\nValidation is controller-managed.\nController-managed validation is pending. Make the required edits only. Do not output a final answer, summary, checklist, or validation report. When edits are complete, end the turn silently."
                    .to_string(),
                text_elements: Vec::new(),
            },
            UserInput::Image {
                image_url: "data:image/png;base64,abc".to_string(),
            },
            UserInput::Text {
                text: "Build/test commands:\n- cargo test -p codex-core\nSummary checklist:\n- done"
                    .to_string(),
                text_elements: Vec::new(),
            },
        ]
    );
    assert_eq!(
        controller_validation,
        Some(ControllerValidationState {
            commands: vec!["cargo check -p codex-core".to_string()],
            attempt: 0,
        })
    );
}

#[test]
fn no_valid_section_leaves_inputs_unchanged() {
    let items = vec![
        UserInput::Text {
            text: "Hello".to_string(),
            text_elements: Vec::new(),
        },
        UserInput::Skill {
            name: "skill".to_string(),
            path: "/tmp/SKILL.md".to_string(),
        },
    ];

    let (transformed_items, controller_validation) =
        transform_user_inputs_for_controller_validation(items.clone());

    assert_eq!(transformed_items, items);
    assert_eq!(controller_validation, None);
}

#[test]
fn silent_final_instruction_is_only_present_when_pending() {
    let pending = transform_packet_for_controller_validation(
        "Build/test commands:\n- cargo check -p codex-core\nSummary checklist:\n- done",
    );
    assert!(pending.validation_pending);
    assert!(
        pending
            .model_visible_text
            .contains("Controller-managed validation is pending.")
    );

    let noop = transform_packet_for_controller_validation("Hello");
    assert!(!noop.validation_pending);
    assert!(
        !noop
            .model_visible_text
            .contains("Controller-managed validation is pending.")
    );
}

#[test]
fn state_helpers() {
    let mut state = ControllerValidationState {
        commands: vec!["c1".to_string(), "c2".to_string()],
        attempt: 0,
    };

    assert_eq!(state.commands(), &["c1", "c2"]);
    assert_eq!(state.attempt(), 0);
    assert!(state.has_attempts_remaining(2));

    state.increment_attempt();
    assert_eq!(state.attempt(), 1);
    assert!(state.has_attempts_remaining(2));

    state.increment_attempt();
    assert_eq!(state.attempt(), 2);
    assert!(!state.has_attempts_remaining(2));

    // Test saturating increment
    let mut max_state = ControllerValidationState {
        commands: vec![],
        attempt: u8::MAX,
    };
    max_state.increment_attempt();
    assert_eq!(max_state.attempt(), u8::MAX);
}

#[test]
fn failed_command_first() {
    let mut state = ControllerValidationState {
        commands: vec!["c1".to_string(), "c2".to_string(), "c3".to_string()],
        attempt: 0,
    };

    state.failed_command_first("c2");
    assert_eq!(state.commands(), &["c2", "c1", "c3"]);

    state.failed_command_first("nonexistent");
    assert_eq!(state.commands(), &["c2", "c1", "c3"]);
}

#[test]
fn formatting_helpers() {
    assert_eq!(validation_success_message(), "All checks passed.");

    let summary = compact_validation_failure_summary("cmd", 1, "out", 10);
    assert!(summary.contains("`cmd`"));
    assert!(summary.contains("Exit code: 1"));
    assert!(summary.contains("out"));

    let capped_lines = compact_validation_failure_summary("cmd", 1, "l1\nl2\nl3", 2);
    assert!(capped_lines.contains("...\nl2\nl3"));
    assert!(!capped_lines.contains("l1\nl2\nl3"));

    // Test huge single line capping
    let huge_line = "a".repeat(MAX_FAILURE_OUTPUT_CHARS + 100);
    let capped_huge = compact_validation_failure_summary("cmd", 1, &huge_line, 10);
    assert!(capped_huge.contains("...\n"));
    // It should contain the last characters of the huge line.
    let output_start = capped_huge.find("Output:\n").unwrap() + 8;
    let output_content = &capped_huge[output_start..];
    assert!(output_content.starts_with("...\n"));
    assert_eq!(output_content.len() - 4, MAX_FAILURE_OUTPUT_CHARS);

    // Test UTF-8 safe truncation
    let multi_byte = "🚀".repeat(MAX_FAILURE_OUTPUT_CHARS);
    let capped_utf8 = compact_validation_failure_summary("cmd", 1, &multi_byte, 10);
    assert!(capped_utf8.contains("...\n"));
    // Ensure no panic and output is valid UTF-8.
    let output_start_utf8 = capped_utf8.find("Output:\n").unwrap() + 8;
    let output_content_utf8 = &capped_utf8[output_start_utf8..];
    assert!(output_content_utf8.starts_with("...\n"));

    let repair = build_validation_repair_prompt("some failure");
    assert!(repair.contains("some failure"));
    assert!(repair.contains("Fix this validation failure only"));
    assert!(repair.contains("Do not output a final summary"));
}

#[test]
fn controller_validation_status_messages_include_command_and_exit_code() {
    let command = "cargo test -p codex-core";
    assert_eq!(
        controller_validation_command_start_message(command),
        "Running build/test command: cargo test -p codex-core".to_string()
    );
    assert_eq!(
        controller_validation_command_completion_message(command, 0),
        "Build/test command passed: cargo test -p codex-core (exit code 0)".to_string()
    );
    assert_eq!(
        controller_validation_command_completion_message(command, 7),
        "Build/test command failed: cargo test -p codex-core (exit code 7)".to_string()
    );
}

#[test]
fn exit_codes_are_written_in_decimal() {
    for code in [i32::MIN, -101, -1, 1, 9, 10, 100, 255, i32::MAX] {
        let expected = format!("Build/test command failed: c (exit code {code})");
        assert_eq!(
            controller_validation_command_completion_message("c", code),
            expected
        );
    }
}

#[test]
fn packet_is_found_by_its_lines() {
    let text = "Intro\n  Build/test commands:\t\nmake\n\n* make check \nSummary checklist:\n\n* [ ] one\n```\n- two\nRest\nMore";
    let packet = parse_controller_validation_packet(text).unwrap();
    assert_eq!(packet.build_start, 1);
    assert_eq!(packet.build_end, Some(5));
    assert_eq!(packet.summary_start, Some(5));
    assert_eq!(packet.summary_end, Some(10));
    assert_eq!(packet.commands, vec!["make", "make check"]);

    assert!(parse_controller_validation_packet("Build/test commands: make").is_none());

    let open = parse_controller_validation_packet("Build/test commands:\nmake").unwrap();
    assert_eq!(open.build_end, Some(2));
    assert_eq!(open.summary_start, None);
    assert_eq!(open.summary_end, None);
}

#[test]
fn fenced_lines_keep_their_markers() {
    let text = "Build/test commands:\n- a\n```\n- b\n  * c\n\n```\n* d\n-\ne";
    let transform = transform_packet_for_controller_validation(text);
    assert_eq!(
        transform.commands,
        vec!["a", "- b", "* c", "d", "-", "e"]
    );
}

#[test]
fn summary_heading_ends_an_open_fence() {
    let text = "Build/test commands:\n```\na\nSummary checklist:\n- x\ny";
    let transform = transform_packet_for_controller_validation(text);
    assert_eq!(transform.commands, vec!["a"]);
    assert!(transform.model_visible_text.ends_with("silently.\ny"));
}

#[test]
fn visible_text_holds_the_lines_around_the_packet() {
    let text = "A\nB\nBuild/test commands:\nmake\nSummary checklist:\n- x\n\nC\n- D\n";
    let transform = transform_packet_for_controller_validation(text);
    let lines: Vec<&str> = transform.model_visible_text.split('\n').collect();
    assert_eq!(lines[0], "A");
    assert_eq!(lines[1], "B");
    assert_eq!(lines[2], "Build/test commands:");
    assert_eq!(lines[3], "Validation is controller-managed.");
    assert!(lines[4].starts_with("Controller-managed validation is pending."));
    assert_eq!(&lines[5..], &["C", "- D", ""]);
}

#[test]
fn lines_behind_commands_without_a_checklist_are_hidden() {
    let text = "Build/test commands:\nmake\nthe end";
    let transform = transform_packet_for_controller_validation(text);
    assert_eq!(transform.commands, vec!["make", "the end"]);
    assert!(transform.model_visible_text.ends_with("silently."));
}

#[test]
fn unicode_white_space_is_trimmed() {
    let text = "\u{2003}Build/test commands:\u{a0}\r\n\u{3000}-\u{20}\u{2009}make \u{2028}";
    let transform = transform_packet_for_controller_validation(text);
    assert_eq!(transform.commands, vec!["make"]);
    // A zero width space is no white space.
    assert!(!transform_packet_for_controller_validation("\u{200b}Build/test commands:\nmake").validation_pending);
}

#[test]
fn white_space_is_that_of_std() {
    for value in 0..=0x10ffffu32 {
        if let Some(c) = char::from_u32(value) {
            if c == '\n' || (value > 0x3100 && value % 97 != 0) {
                continue;
            }
            let text = format!("Build/test commands:\n{c}x{c}");
            let commands = transform_packet_for_controller_validation(&text).commands;
            let line = format!("{c}x{c}");
            assert_eq!(commands, vec![line.trim().to_string()]);
        }
    }
}

#[test]
fn checklist_lines_begin_with_a_marker() {
    assert!(is_checklist_line("- a"));
    assert!(is_checklist_line("* a"));
    assert!(is_checklist_line("- [ ] a"));
    assert!(is_checklist_line("- [x]"));
    assert!(is_checklist_line("- [X] b"));
    assert!(!is_checklist_line("-a"));
    assert!(!is_checklist_line(""));
    assert!(!is_checklist_line("+ a"));
}

#[test]
fn commands_are_trimmed_single_lines() {
    let text = "Build/test commands:\n  a b \n- \tc\n\n";
    for command in transform_packet_for_controller_validation(text).commands {
        assert!(!command.is_empty());
        assert_eq!(command, command.trim());
        assert!(!command.contains('\n'));
    }
}

#[test]
fn moving_a_failed_command_keeps_all_commands() {
    let mut state = ControllerValidationState {
        commands: vec!["a".to_string(), "b".to_string(), "b".to_string(), "c".to_string()],
        attempt: 3,
    };
    state.failed_command_first("b");
    assert_eq!(state.commands(), &["b", "a", "b", "c"]);
    state.failed_command_first("b");
    assert_eq!(state.commands(), &["b", "a", "b", "c"]);
    state.failed_command_first("c");
    assert_eq!(state.commands(), &["c", "b", "a", "b"]);
    assert_eq!(state.attempt(), 3);
}

#[test]
fn default_state_has_nothing_to_run() {
    let state = ControllerValidationState::default();
    assert!(state.commands().is_empty());
    assert_eq!(state.attempt(), 0);
    assert_eq!(state.clone(), state);
}

#[test]
fn failure_summary_reads_exactly() {
    assert_eq!(
        compact_validation_failure_summary("make", 2, "a\nb\n", 2),
        "Validation failed for command: `make`\nExit code: 2\nOutput:\na\nb\n"
    );
    assert_eq!(
        compact_validation_failure_summary("make", -1, "a\r\nb\r\nc", 2),
        "Validation failed for command: `make`\nExit code: -1\nOutput:\n...\nb\nc"
    );
    assert_eq!(
        compact_validation_failure_summary("make", 1, "a\n\n", 1),
        "Validation failed for command: `make`\nExit code: 1\nOutput:\n...\n"
    );
    assert_eq!(
        compact_validation_failure_summary("make", 1, "a\nb\r", 1),
        "Validation failed for command: `make`\nExit code: 1\nOutput:\n...\nb\r"
    );
    assert_eq!(
        compact_validation_failure_summary("make", 1, "", 0),
        "Validation failed for command: `make`\nExit code: 1\nOutput:\n"
    );
    assert_eq!(
        compact_validation_failure_summary("make", 1, "a", 0),
        "Validation failed for command: `make`\nExit code: 1\nOutput:\n...\n"
    );
}

#[test]
fn long_output_is_cut_at_a_character() {
    let head = "Validation failed for command: `c`\nExit code: 1\nOutput:\n";
    let exact = "a".repeat(MAX_FAILURE_OUTPUT_CHARS);
    assert_eq!(
        compact_validation_failure_summary("c", 1, &exact, 1),
        format!("{head}{exact}")
    );
    // Three bytes each, so the cut falls inside a character.
    let wide = "\u{20ac}".repeat(3000);
    let shown = "\u{20ac}".repeat(MAX_FAILURE_OUTPUT_CHARS / 3);
    assert_eq!(
        compact_validation_failure_summary("c", 1, &wide, 1),
        format!("{head}...\n{shown}")
    );
    let mixed = format!("\u{1f680}{}", "b".repeat(MAX_FAILURE_OUTPUT_CHARS - 2));
    assert_eq!(
        compact_validation_failure_summary("c", 1, &mixed, 1),
        format!("{head}...\n{}", "b".repeat(MAX_FAILURE_OUTPUT_CHARS - 2))
    );
}

#[test]
fn repair_prompt_reads_exactly() {
    assert_eq!(
        build_validation_repair_prompt("some failure"),
        "some failure\n\nFix this validation failure only. Do not output a final summary. Validation remains controller-managed."
    );
}

#[test]
fn items_that_are_no_text_are_carried() {
    let items = vec![
        UserInput::Other { number: 7 },
        UserInput::Text {
            text: "Build/test commands:\nmake".to_string(),
            text_elements: Vec::new(),
        },
        UserInput::Other { number: 8 },
    ];
    let (transformed, state) = transform_user_inputs_for_controller_validation(items);
    assert_eq!(transformed.len(), 3);
    assert_eq!(transformed[0], UserInput::Other { number: 7 });
    assert_eq!(transformed[2], UserInput::Other { number: 8 });
    assert_eq!(state.unwrap().commands, vec!["make"]);
}
