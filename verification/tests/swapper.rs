use tmux_thumbs::executor::{Executor, ScriptedExecutor};
use tmux_thumbs::options::translate_options;
use tmux_thumbs::strutil::{fmt_i64, parse_i32};
use tmux_thumbs::pane::parse_pane_listing;
use tmux_thumbs::selection::{build_command, decode_selection};
use tmux_thumbs::swapper::Swapper;
use tmux_thumbs::SwapError;

fn swapper_with(
    outputs: Vec<String>,
    dir: &str,
    command: &str,
    upcase_command: &str,
    osc52: bool,
) -> Swapper<ScriptedExecutor> {
    let executor = ScriptedExecutor::new(outputs);
    Swapper::new(
        executor,
        dir.to_string(),
        command.to_string(),
        upcase_command.to_string(),
        osc52,
    )
}

#[test]
fn retrieve_active_pane() {
    let last_command_outputs =
        vec!["%97:100:24:1:active\n%106:100:24:1:nope\n%107:100:24:1:nope\n".to_string()];
    let executor = ScriptedExecutor::new(last_command_outputs);
    let mut swapper = Swapper::new(
        executor,
        "".to_string(),
        "".to_string(),
        "".to_string(),
        false,
    );

    swapper.capture_active_pane().unwrap();

    assert_eq!(swapper.active_pane_id.unwrap(), "%97");
}

#[test]
fn swap_panes() {
    let last_command_outputs = vec![
        "".to_string(),
        "%100".to_string(),
        "".to_string(),
        "%106:100:24:1:nope\n%98:100:24:1:active\n%107:100:24:1:nope\n".to_string(),
    ];
    let executor = ScriptedExecutor::new(last_command_outputs);
    let mut swapper = Swapper::new(
        executor,
        "".to_string(),
        "".to_string(),
        "".to_string(),
        false,
    );

    swapper.capture_active_pane().unwrap();
    swapper.execute_thumbs();
    swapper.swap_panes();

    let expectation = vec!["tmux", "swap-pane", "-d", "-s", "%98", "-t", "%100"];

    assert_eq!(swapper.executor.last_executed().unwrap(), expectation);
}

#[test]
fn active_pane_found_regardless_of_row_order() {
    let first = parse_pane_listing("%2:0:30:0:active\n%1:0:24:0:nope\n%3:0:10:0:nope").unwrap();
    assert_eq!(first.id, "%2");

    let middle = parse_pane_listing("%1:0:24:0:nope\n%2:0:30:0:active\n%3:0:10:0:nope").unwrap();
    assert_eq!(middle.id, "%2");

    let last = parse_pane_listing("%1:0:24:0:nope\n%3:0:10:0:nope\n%2:0:30:0:active").unwrap();
    assert_eq!(last.id, "%2");
}

#[test]
fn copy_mode_pane_populates_height_and_scroll() {
    let pane = parse_pane_listing("%5:1:24:3:active").unwrap();
    assert_eq!(pane.in_copy_mode, "1");
    assert_eq!(pane.height, Some(24));
    assert_eq!(pane.scroll_position, Some(3));
}

#[test]
fn live_pane_leaves_height_and_scroll_unset() {
    let pane = parse_pane_listing("%5:0:24:3:active").unwrap();
    assert_eq!(pane.in_copy_mode, "0");
    assert_eq!(pane.height, None);
    assert_eq!(pane.scroll_position, None);
}

#[test]
fn missing_active_marker_is_fatal() {
    let err = parse_pane_listing("%1:0:24:0:nope\n%2:0:30:0:nope").unwrap_err();
    assert_eq!(err, SwapError::NoActivePane);
}

#[test]
fn short_row_is_fatal() {
    let err = parse_pane_listing("%1:0:24\n%2:0:30:0:active").unwrap_err();
    assert_eq!(err, SwapError::MalformedPaneRow);
}

#[test]
fn bad_copy_mode_number_is_fatal() {
    let err = parse_pane_listing("%5:1:tall:3:active").unwrap_err();
    assert_eq!(err, SwapError::MalformedNumber);

    let err = parse_pane_listing("%5:1:24:deep:active").unwrap_err();
    assert_eq!(err, SwapError::MalformedNumber);
}

#[test]
fn decode_splits_on_first_colon_only() {
    let (flag, text) = decode_selection("false:hello world").unwrap();
    assert_eq!(flag, "false");
    assert_eq!(text, "hello world");

    let (flag, text) = decode_selection("true:abc:def").unwrap();
    assert_eq!(flag, "true");
    assert_eq!(text, "abc:def");
}

#[test]
fn payload_without_colon_decodes_to_nothing() {
    assert_eq!(decode_selection("nothing here"), None);
    assert_eq!(decode_selection(""), None);
}

#[test]
fn build_command_picks_template_and_substitutes() {
    let copied = build_command("false:hello world", "echo {}", "paste {}").unwrap();
    assert_eq!(copied, "echo hello world");

    let pasted = build_command("true:abc:def", "echo {}", "paste {} and {}").unwrap();
    assert_eq!(pasted, "paste abc:def and abc:def");

    let trimmed = build_command("true :abc \n", "echo {}", "paste {}").unwrap();
    assert_eq!(trimmed, "paste abc");

    assert_eq!(build_command("no separator", "echo {}", "paste {}"), None);
}

#[test]
fn scenario_live_pane_launch_has_no_scroll_range() {
    let outputs = vec![
        "%100".to_string(),
        "".to_string(),
        "%97:0:24:0:active\n%106:0:24:0:nope\n".to_string(),
    ];
    let mut swapper = swapper_with(outputs, "/dir", "echo {}", "paste {}", false);

    swapper.capture_active_pane().unwrap();
    assert_eq!(swapper.active_pane_id.clone().unwrap(), "%97");
    assert_eq!(swapper.active_pane_in_copy_mode.clone().unwrap(), "0");
    assert_eq!(swapper.active_pane_height, None);

    swapper.execute_thumbs();
    let launch = swapper.executor.last_executed().unwrap();
    assert_eq!(&launch[..6], ["tmux", "new-window", "-P", "-d", "-n", "[thumbs]"]);
    let pipeline = &launch[6];
    assert!(pipeline.starts_with(
        "tmux capture-pane -t %97 -p | /dir/target/release/thumbs -f '%U:%H' -t /tmp/thumbs-last ; tmux swap-pane -t %97; tmux wait-for -S thumbs-finished-"
    ));
    assert_eq!(swapper.thumbs_pane_id.unwrap(), "%100");
}

#[test]
fn scenario_copy_mode_pane_launch_carries_scroll_range() {
    let outputs = vec![
        "%100".to_string(),
        "".to_string(),
        "%98:1:24:3:active\n".to_string(),
    ];
    let mut swapper = swapper_with(outputs, "/dir", "echo {}", "paste {}", false);

    swapper.capture_active_pane().unwrap();
    assert_eq!(swapper.active_pane_id.clone().unwrap(), "%98");
    assert_eq!(swapper.active_pane_in_copy_mode.clone().unwrap(), "1");
    assert_eq!(swapper.active_pane_height, Some(24));
    assert_eq!(swapper.active_pane_scroll_position, Some(3));

    swapper.execute_thumbs();
    let launch = swapper.executor.last_executed().unwrap();
    let pipeline = &launch[6];
    assert!(pipeline.starts_with("tmux capture-pane -t %98 -p -S -3 -E 20 | "));
}

#[test]
fn scenario_launch_translates_options_in_order() {
    let outputs = vec![
        "%100".to_string(),
        "@thumbs-reverse true\n@thumbs-fg-color red\nstatus-style dim\n@thumbs-regexp-1 \"foobar\"".to_string(),
        "%97:0:24:0:active\n".to_string(),
    ];
    let mut swapper = swapper_with(outputs, "/dir", "echo {}", "paste {}", false);

    swapper.capture_active_pane().unwrap();
    swapper.execute_thumbs();
    let launch = swapper.executor.last_executed().unwrap();
    let pipeline = &launch[6];
    assert!(pipeline.contains(
        "/dir/target/release/thumbs -f '%U:%H' -t /tmp/thumbs-last --reverse --fg-color 'red' --regexp 'foobar'; tmux swap-pane"
    ));
}

#[test]
fn option_translation_matches_the_three_shapes() {
    assert_eq!(translate_options("@thumbs-reverse true"), vec!["--reverse"]);
    assert_eq!(translate_options("@thumbs-unique 1"), vec!["--unique"]);
    assert_eq!(
        translate_options("@thumbs-fg-color red"),
        vec!["--fg-color", "'red'"]
    );
    assert_eq!(
        translate_options("@thumbs-regexp-url \"https?://\\S+\""),
        vec!["--regexp", "'https'"]
    );
    assert_eq!(translate_options("status-style dim"), Vec::<String>::new());
    assert_eq!(translate_options("@thumbs-mystery red"), Vec::<String>::new());
}

#[test]
fn wait_blocks_on_the_construction_signal() {
    let outputs = vec!["".to_string()];
    let mut swapper = swapper_with(outputs, "/dir", "echo {}", "paste {}", false);
    let signal = swapper.signal.clone();
    assert!(signal.starts_with("thumbs-finished-"));
    assert!(signal.len() > "thumbs-finished-".len());
    assert!(signal["thumbs-finished-".len()..]
        .chars()
        .all(|c| c.is_ascii_digit()));

    swapper.wait_thumbs();
    let waited = swapper.executor.last_executed().unwrap();
    assert_eq!(waited, vec!["tmux".to_string(), "wait-for".to_string(), signal]);
}

#[test]
fn retrieve_reads_and_keeps_the_result_file() {
    let outputs = vec!["true:picked".to_string()];
    let mut swapper = swapper_with(outputs, "/dir", "echo {}", "paste {}", false);

    swapper.retrieve_content();
    assert_eq!(swapper.content.clone().unwrap(), "true:picked");
    assert_eq!(
        swapper.executor.last_executed().unwrap(),
        vec!["cat", "/tmp/thumbs-last"]
    );
}

#[test]
fn destroying_twice_is_harmless() {
    let outputs = vec!["".to_string(), "".to_string()];
    let mut swapper = swapper_with(outputs, "/dir", "echo {}", "paste {}", false);

    swapper.destroy_content();
    swapper.destroy_content();
    assert_eq!(
        swapper.executor.last_executed().unwrap(),
        vec!["rm", "/tmp/thumbs-last"]
    );
    assert_eq!(swapper.executor.executed.len(), 2);
}

#[test]
fn scenario_paste_payload_dispatches_substituted_command() {
    let outputs = vec!["".to_string()];
    let mut swapper = swapper_with(
        outputs,
        "/dir",
        "tmux set-buffer {}",
        "tmux set-buffer {} && tmux paste-buffer",
        false,
    );

    swapper.content = Some("true:Some Text".to_string());
    swapper.execute_command();
    assert_eq!(
        swapper.executor.last_executed().unwrap(),
        vec![
            "bash",
            "-c",
            "tmux set-buffer Some Text && tmux paste-buffer"
        ]
    );
}

#[test]
fn copy_payload_uses_the_copy_template() {
    let outputs = vec!["".to_string()];
    let mut swapper = swapper_with(outputs, "/dir", "tmux set-buffer {}", "paste {}", false);

    swapper.content = Some("false:hello".to_string());
    swapper.execute_command();
    assert_eq!(
        swapper.executor.last_executed().unwrap(),
        vec!["bash", "-c", "tmux set-buffer hello"]
    );
}

#[test]
fn payload_without_text_segment_is_a_no_op() {
    let outputs = vec!["".to_string()];
    let mut swapper = swapper_with(outputs, "/dir", "echo {}", "paste {}", false);

    swapper.content = Some("aborted without a colon".to_string());
    swapper.execute_command();
    assert_eq!(swapper.executor.last_executed(), None);
    assert_eq!(swapper.executor.emissions.len(), 0);
}

#[test]
fn osc52_emission_wraps_doubled_escapes_around_base64() {
    let outputs = vec!["".to_string()];
    let mut swapper = swapper_with(outputs, "/dir", "echo {}", "paste {}", true);

    swapper.content = Some("false:hello".to_string());
    swapper.execute_command();
    assert_eq!(swapper.executor.emissions.len(), 1);
    assert_eq!(
        swapper.executor.emissions[0],
        "\x1bPtmux;\x1b\x1b]52;0;aGVsbG8=\x07\x1b\\"
    );
    assert_eq!(
        swapper.executor.last_executed().unwrap(),
        vec!["bash", "-c", "echo hello"]
    );
}

#[test]
fn osc52_disabled_emits_nothing() {
    let outputs = vec!["".to_string()];
    let mut swapper = swapper_with(outputs, "/dir", "echo {}", "paste {}", false);

    swapper.content = Some("false:hello".to_string());
    swapper.execute_command();
    assert_eq!(swapper.executor.emissions.len(), 0);
}

#[test]
fn number_parsing_and_formatting_are_exact() {
    assert_eq!(parse_i32("24"), Some(24));
    assert_eq!(parse_i32("-3"), Some(-3));
    assert_eq!(parse_i32("+7"), Some(7));
    assert_eq!(parse_i32("2147483647"), Some(2147483647));
    assert_eq!(parse_i32("-2147483648"), Some(-2147483648));
    assert_eq!(parse_i32("2147483648"), None);
    assert_eq!(parse_i32(""), None);
    assert_eq!(parse_i32("12x"), None);

    assert_eq!(fmt_i64(0), "0");
    assert_eq!(fmt_i64(-3), "-3");
    assert_eq!(fmt_i64(20), "20");
    assert_eq!(fmt_i64(1090), "1090");
}
