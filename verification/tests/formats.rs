use tepegoz_tui::docker::{display_name_for, DockerScope, DockerScopeState};
use tepegoz_tui::logs::LogsView;
use tepegoz_tui::proto::{DockerContainer, DockerPort, LogStream};
use tepegoz_tui::scene::docker::format_ports;
use tepegoz_tui::scene::format::{
    align_left, align_right, first_chars, format_bytes, format_uptime, short_source,
    truncate,
};
use tepegoz_tui::text::{
    contains, decimal_string, ends_with, join, leading_word, lines_of, parse_unsigned, split_text,
    starts_with, tail_after, trim,
};

fn container(names: &[&str], image: &str) -> DockerContainer {
    DockerContainer {
        id: "0123456789abcdef".into(),
        names: names.iter().map(|n| n.to_string()).collect(),
        image: image.into(),
        image_id: "sha256:1".into(),
        command: "cmd".into(),
        created_unix_secs: 0,
        state: "running".into(),
        status: "Up".into(),
        ports: Vec::new(),
        labels: Vec::new(),
    }
}

#[test]
fn numbers_are_written_in_decimal() {
    assert_eq!(decimal_string(0), "0");
    assert_eq!(decimal_string(7), "7");
    assert_eq!(decimal_string(1_234_567_890), "1234567890");
    assert_eq!(decimal_string(u64::MAX), format!("{}", u64::MAX));
}

#[test]
fn unsigned_numbers_are_read_like_the_standard_library_does() {
    for s in ["0", "+7", "65535", "65536", "", "+", "-1", "1 ", "007", "1_0", "99999999999"] {
        assert_eq!(
            parse_unsigned(s.as_bytes(), 65535),
            s.parse::<u16>().ok().map(u32::from),
            "{s:?}"
        );
    }
}

#[test]
fn bytes_are_shown_like_the_float_format_does() {
    let mut cases = vec![0u64, 1, 1023, 1024, 1025, 1075, 1076, 1126, 1127, 1536];
    cases.extend([1_048_575, 1_048_576, 1_572_864, 1_073_741_823, 1_073_741_824]);
    cases.extend([1_288_490_188, u64::MAX, u64::MAX - 1, 9_007_199_254_740_993]);
    for shift in 10..64 {
        for delta in [0u64, 1, 3, 51, 52, 511, 512, 513] {
            cases.push((1u64 << shift) + delta);
            cases.push((1u64 << shift) - delta);
        }
    }
    for bytes in cases {
        let gib = 1u64 << 30;
        let mib = 1u64 << 20;
        let expected = if bytes >= gib {
            format!("{:>6.1}G", bytes as f64 / gib as f64)
        } else if bytes >= mib {
            format!("{:>6.1}M", bytes as f64 / mib as f64)
        } else if bytes >= 1024 {
            format!("{:>6.1}K", bytes as f64 / 1024f64)
        } else {
            format!("{bytes:>6}B")
        };
        assert_eq!(format_bytes(bytes), expected, "{bytes}");
    }
}

#[test]
fn uptime_has_hours_only_when_there_are_any() {
    assert_eq!(format_uptime(0), "00:00");
    assert_eq!(format_uptime(65), "01:05");
    assert_eq!(format_uptime(3_599), "59:59");
    assert_eq!(format_uptime(3_600), "01:00:00");
    assert_eq!(format_uptime(360_000), "100:00:00");
}

#[test]
fn long_texts_end_in_an_ellipsis() {
    assert_eq!(truncate("abc", 3), "abc");
    assert_eq!(truncate("abcd", 3), "ab…");
    assert_eq!(truncate("äöüß", 3), "äö…");
    assert_eq!(truncate("abc", 1), "…");
    assert_eq!(truncate("ab", 0), "");
    assert_eq!(first_chars("äöü", 2), "äö");
    assert_eq!(align_right("1.5", 5), "  1.5");
    assert_eq!(align_left("ab", 4), "ab  ");
    assert_eq!(align_left("abcde", 4), "abcde");
}

#[test]
fn a_long_source_keeps_its_end() {
    assert_eq!(short_source("ssh_config", 60), "ssh_config");
    let long = "/home/someone/.config/tepegoz/config.toml and more text";
    assert_eq!(short_source(long, 40), "… more text");
    assert_eq!(short_source(long, 20), "/home/so");
    assert_eq!(short_source("aaaaaaaaaaaaaaaaaaaaaaaaaaaaaaaaaaéaaaaaaaaa", 40), "…aaaaaaaaa");
    assert_eq!(short_source("aaaaaaaaaaaaaaaaaaaaaaaaaaaaaaaaaaaéaaaaaaaa", 40), "…éaaaaaaaa");
}

#[test]
fn names_come_from_the_first_name_or_the_id() {
    assert_eq!(display_name_for(&container(&["/web", "/alias"], "nginx")), "web");
    assert_eq!(display_name_for(&container(&[], "nginx")), "0123456789ab");
}

#[test]
fn published_and_internal_ports_differ() {
    let ports = vec![
        DockerPort {
            ip: "0.0.0.0".into(),
            private_port: 8080,
            public_port: 80,
            protocol: "tcp".into(),
        },
        DockerPort { ip: "".into(), private_port: 53, public_port: 0, protocol: "udp".into() },
    ];
    let text = format_ports(&ports);
    assert!(text.contains("80") && text.contains("8080") && text.contains("53/udp"), "{text}");
    assert_eq!(format_ports(&Vec::new()), "");
}

#[test]
fn a_text_is_found_wherever_it_stands() {
    assert!(contains("größe", "öß") && contains("abc", "abc") && contains("abc", "c"));
    assert!(contains("", "") && contains("aab", "ab"));
    assert!(!contains("abc", "abcd") && !contains("abc", "ac") && !contains("", "a"));
}

#[test]
fn texts_are_split_trimmed_and_joined() {
    assert_eq!(split_text("a\n\nb", '\n'), vec!["a", "", "b"]);
    assert_eq!(trim(" \t\u{a0}x y\u{3000}\r\n"), "x y");
    assert_eq!(trim("\u{2003}\n"), "");
    assert_eq!(join(&vec!["a".to_string(), "b".to_string()], ", "), "a, b");
    assert!(starts_with("0.15.1", "0.15.") && !starts_with("0.1", "0.15."));
    assert!(ends_with("x-apple-darwin", "-apple-darwin") && !ends_with("darwin", "-apple-darwin"));
    assert_eq!(tail_after("[::]:49153", ':'), "49153");
    assert_eq!(tail_after("none", ':'), "none");
    assert_eq!(leading_word("  49153 rest"), "49153");
    assert_eq!(leading_word("   "), "");
}

#[test]
fn lines_are_those_of_the_standard_library() {
    for s in ["", "\n", "a", "a\n", "a\nb", "a\r\nb\r", "\r\n\r\n", "a\n\nb\n", "x\r"] {
        let expected: Vec<String> = s.lines().map(|l| l.to_string()).collect();
        assert_eq!(lines_of(s), expected, "{s:?}");
    }
}

#[test]
fn white_space_is_that_of_the_standard_library() {
    for n in 0..0x11_0000u32 {
        if let Some(c) = char::from_u32(n) {
            assert_eq!(tepegoz_tui::text::white(c), c.is_whitespace(), "{n:x}");
        }
    }
}

#[test]
fn container_filters_ignore_case() {
    let mut scope = DockerScope::new(1);
    scope.state = DockerScopeState::Available {
        containers: vec![container(&["/Web"], "nginx"), container(&["/db"], "Postgres:14")],
        engine_source: "test".into(),
    };
    for (filter, n) in [("", 2), ("WEB", 1), ("postGRES", 1), ("running", 0), ("e", 2)] {
        scope.filter = filter.to_string();
        assert_eq!(scope.visible_count(), n, "{filter:?}");
    }
}

#[test]
fn log_lines_replace_malformed_bytes() {
    let mut logs = LogsView::new("id".into(), "web".into(), 9);
    logs.ingest(LogStream::Stdout, b"caf\xc3\xa9 \xff!\n");
    assert_eq!(logs.lines[0].text, "café \u{fffd}!");
}

#[test]
fn log_chunks_may_be_cut_inside_a_character() {
    let mut logs = LogsView::new("id".into(), "web".into(), 9);
    logs.ingest(LogStream::Stdout, b"caf\xc3");
    logs.ingest(LogStream::Stderr, b"noise\n");
    logs.ingest(LogStream::Stdout, b"\xa9\r\n");
    let texts: Vec<&str> = logs.lines.iter().map(|l| l.text.as_str()).collect();
    assert_eq!(texts, vec!["noise", "café"]);
}

#[test]
fn any_upward_scroll_stops_following() {
    let mut logs = LogsView::new("id-web".into(), "web".into(), 6);
    logs.scroll_up(1);
    assert_eq!((logs.scroll_offset, logs.at_tail), (0, false));
    logs.ingest(LogStream::Stdout, b"one\n");
    logs.jump_to_tail();
    logs.scroll_up(1);
    assert_eq!((logs.scroll_offset, logs.at_tail), (0, false));
    logs.scroll_down(1);
    assert!(logs.at_tail);
}

#[test]
fn scrolling_down_undoes_scrolling_up() {
    let mut logs = LogsView::new("id".into(), "web".into(), 9);
    for i in 0..10 {
        logs.ingest(LogStream::Stdout, format!("{i}\n").as_bytes());
    }
    logs.scroll_up(4);
    assert_eq!((logs.scroll_offset, logs.at_tail), (4, false));
    logs.scroll_down(4);
    assert_eq!((logs.scroll_offset, logs.at_tail), (0, true));
    logs.scroll_up(3);
    logs.end_stream("gone".into());
    assert_eq!(logs.stream_ended.as_deref(), Some("gone"));
}
