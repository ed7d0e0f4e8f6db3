use openasr_cli::live_options::LiveMarkdownNoteOptions;
use openasr_cli::note::{
    append_note, escape_markdown_text, normalize_markdown_line, obs_content, render_markdown_note,
    timeline_order, HistoryEntry, SessionHistory,
};
use openasr_cli::session::{refreshes_obs, LiveEvent};
use openasr_cli::sinks::{
    case_probe_matters, implicit_partial_sidecar_path, resolved_paths_collide,
    validate_no_sink_path_collisions, ResolvedSink, Sink, SinkError, Sinks,
};

fn resolved(path: &str, parent_ignores_case: bool) -> ResolvedSink {
    let cut = path.rfind('/').unwrap();
    ResolvedSink {
        path: path.to_string(),
        parent: Some(path[..cut].to_string()),
        name: Some(path[cut + 1..].to_string()),
        parent_ignores_case,
    }
}

/// A sink whose spelling resolves to a path.
fn sink_at(path: &str, resolves_to: &str, parent_ignores_case: bool) -> Option<Sink> {
    Some(Sink {
        path: path.to_string(),
        resolved: Ok(resolved(resolves_to, parent_ignores_case)),
        resolved_partial: Ok(resolved(&format!("{resolves_to}.partial"), parent_ignores_case)),
    })
}

fn sink(path: &str) -> Option<Sink> {
    sink_at(path, path, false)
}

fn refused(save: Option<Sink>, obs: Option<Sink>, markdown: Option<Sink>) -> String {
    validate_no_sink_path_collisions(&Sinks { save, obs, markdown }).unwrap_err().message()
}

#[test]
fn rejects_overlapping_sink_output_paths() {
    let path = "/out/shared.txt";
    let error = refused(sink(path), sink(path), sink(path));
    assert!(error.contains("--save and --obs-text-file"));
}

#[test]
fn rejects_sink_paths_colliding_with_partial_sidecar() {
    let obs_error = refused(sink("/out/session.txt"), sink("/out/session.txt.partial"), None);
    assert!(obs_error.contains("implicit partial sidecar path"));
    let markdown_error = refused(sink("/out/session.txt"), None, sink("/out/session.txt.partial"));
    assert!(markdown_error.contains("implicit partial sidecar path"));
}

#[test]
fn rejects_path_alias_collisions() {
    let error = refused(
        sink("/out/session.txt"),
        sink_at("/out/./session.txt", "/out/session.txt", false),
        None,
    );
    assert!(error.contains("--save and --obs-text-file"));
}

#[test]
fn rejects_markdown_partial_sidecar_collisions() {
    let save_error = refused(sink("/out/session.md.partial"), None, sink("/out/session.md"));
    assert!(save_error.contains("--markdown-note's implicit partial sidecar path"));
    let obs_error = refused(None, sink("/out/session.md.partial"), sink("/out/session.md"));
    assert!(obs_error.contains("--markdown-note's implicit partial sidecar path"));
}

#[test]
fn handles_case_only_collisions_based_on_filesystem_behavior() {
    for ignores_case in [true, false] {
        let result = validate_no_sink_path_collisions(&Sinks {
            save: sink_at("/out/session.txt", "/out/session.txt", ignores_case),
            obs: sink_at("/out/SESSION.txt", "/out/SESSION.txt", ignores_case),
            markdown: None,
        });
        if ignores_case {
            let error = result.unwrap_err().message();
            assert!(error.contains("--save and --obs-text-file"));
        } else {
            result.unwrap();
        }
    }
}

#[test]
fn a_sidecar_stands_beside_its_file() {
    assert_eq!(implicit_partial_sidecar_path("/out/a.md"), "/out/a.md.partial");
    assert!(validate_no_sink_path_collisions(&Sinks {
        save: sink("/out/a.txt"),
        obs: sink("/out/b.txt"),
        markdown: sink("/out/c.md"),
    })
    .is_ok());
    let unresolved = Some(Sink {
        path: "x".to_string(),
        resolved: Err("gone".to_string()),
        resolved_partial: Err("gone".to_string()),
    });
    match validate_no_sink_path_collisions(&Sinks { save: unresolved, obs: None, markdown: None }) {
        Err(SinkError::Unresolved(message)) => assert_eq!(message, "gone"),
        other => panic!("{other:?}"),
    }
    let error = refused(sink("/out/a"), None, sink("/out/a"));
    assert!(error.contains("--save and --markdown-note"));
}

#[test]
fn case_is_probed_only_where_it_decides() {
    let left = resolved("/out/Unit.txt", true);
    let right = resolved("/out/uNIT.txt", true);
    assert!(case_probe_matters(&left, &right));
    assert!(resolved_paths_collide(Some(&left), Some(&right)));
    assert!(!resolved_paths_collide(Some(&left), None));
    let elsewhere = resolved("/other/uNIT.txt", true);
    assert!(!case_probe_matters(&left, &elsewhere));
    assert!(!resolved_paths_collide(Some(&left), Some(&elsewhere)));
}

fn note(title: Option<&str>, suggest_title: bool, append: bool) -> LiveMarkdownNoteOptions {
    LiveMarkdownNoteOptions {
        path: "/out/session.md".to_string(),
        append,
        title: title.map(str::to_string),
        suggest_title,
        created_at: "2026-05-10T00:00:00.000Z".to_string(),
        source_label: "microphone".to_string(),
        model_id: "whisper-large-v3-turbo".to_string(),
        backend: "mock".to_string(),
    }
}

fn entry(utterance_id: &str, start_ms: u64, end_ms: u64, seq: u64, text: &str) -> HistoryEntry {
    HistoryEntry {
        start_ms,
        end_ms,
        source_seq: Some(seq),
        utterance_id: utterance_id.to_string(),
        segment_id: "seg_1".to_string(),
        revision: 1,
        text: text.to_string(),
    }
}

fn history(text: &str, suggest_title: bool) -> SessionHistory {
    SessionHistory {
        suggested_title: if suggest_title { Some(text.to_string()) } else { None },
        lines: vec![text.to_string()],
        entries: vec![entry("utt_1", 0, 320, 1, text)],
        revision_count: 0,
    }
}

#[test]
fn markdown_note_supports_append_and_title_suggestion() {
    let first = render_markdown_note(&note(None, true, false), &history("hello world from openasr", true));
    assert!(first.contains("# hello world from openasr"));
    assert!(first.contains("- created_at: 2026-05-10T00:00:00.000Z"));
    assert!(first.contains("- source: microphone"));
    assert!(first.contains("- model: whisper-large-v3-turbo"));
    assert!(first.contains("- backend: mock"));
    assert!(first.contains("## Timeline"));
    assert!(first.contains("- 0-320 ms | seg_1 | rev 1 | hello world from openasr"));

    let existing = first.trim_end_matches('\n');
    let second =
        render_markdown_note(&note(Some("Explicit Title"), false, true), &history("second session", false));
    let appended = append_note(existing, &second);
    assert!(appended.contains("# hello world from openasr"));
    assert!(appended.contains("# Explicit Title"));
    assert!(appended.contains("\n\n# Explicit Title\n"));

    let third = render_markdown_note(&note(None, false, true), &history("append first write", false));
    let append_only = append_note("", &third);
    assert!(append_only.contains("# OpenASR Live Session"));
    assert!(append_only.contains("append first write"));
}

#[test]
fn markdown_timeline_normalizes_multiline_entry_text() {
    let rendered =
        render_markdown_note(&note(Some("Session"), false, false), &history("hello\nfrom\topenasr", false));
    assert!(rendered.contains("- 0-320 ms | seg_1 | rev 1 | hello from openasr"));
}

#[test]
fn markdown_note_escapes_transcript_markdown_syntax() {
    let rendered = render_markdown_note(
        &note(Some("Session"), false, false),
        &history("- todo > quote # heading `code`", false),
    );
    assert!(rendered.contains("- \\- todo \\> quote \\# heading \\`code\\`"));
    assert!(rendered.contains("| \\- todo \\> quote \\# heading \\`code\\`"));
}

#[test]
fn markdown_note_escapes_suggested_title_markdown_syntax() {
    let rendered = render_markdown_note(&note(None, true, false), &history("[release](v1) now", true));
    assert!(rendered.contains("# \\[release\\]\\(v1\\) now"));
}

#[test]
fn obs_sink_updates_only_on_final_or_revision_events() {
    assert!(!refreshes_obs(&LiveEvent::Partial));
    let spoken = |text: &str| LiveEvent::Final { speaker: None, text: text.to_string() };
    assert!(refreshes_obs(&spoken("hello")));
    assert!(refreshes_obs(&spoken("world")));
    let revision = LiveEvent::Revision { speaker: None, text: "hello there".to_string() };
    assert!(refreshes_obs(&revision));
    let lines = vec!["hello there".to_string(), "world".to_string()];
    assert_eq!(obs_content(&lines, 2), "hello there\nworld\n");
}

#[test]
fn obs_sink_truncates_to_max_lines() {
    let lines =
        vec!["line one".to_string(), "line two".to_string(), "line three".to_string()];
    assert_eq!(obs_content(&lines, 2), "line two\nline three\n");
    assert_eq!(obs_content(&lines, 9), "line one\nline two\nline three\n");
    assert_eq!(obs_content(&lines, 0), "");
    assert_eq!(obs_content(&vec![], 2), "");
}

#[test]
fn notes_are_kept_apart_by_an_empty_line() {
    assert_eq!(append_note("", "b\n"), "b\n");
    assert_eq!(append_note("a\n", "b\n"), "a\n\nb\n");
    assert_eq!(append_note("a", "b\n"), "a\n\nb\n");
}

#[test]
fn lines_are_joined_and_marks_escaped() {
    assert_eq!(normalize_markdown_line("  a \n\t b  "), "a b");
    assert_eq!(escape_markdown_text("a*b_c"), "a\\*b\\_c");
    assert_eq!(escape_markdown_text("plain"), "plain");
}

#[test]
fn the_timeline_is_in_order() {
    let entries = vec![
        entry("u2", 100, 200, 2, "b"),
        entry("u1", 0, 90, 3, "a"),
        entry("u3", 100, 150, 1, "c"),
    ];
    assert_eq!(timeline_order(&entries), vec![1, 2, 0]);
}

#[test]
fn one_line_keeps_the_words_of_a_text() {
    for text in ["", "  ", "one", "  a \n\t b  ", "hello\nfrom\topenasr", "x\u{3000}y \u{a0} z"] {
        let line = normalize_markdown_line(text);
        assert!(line.split_whitespace().eq(text.split_whitespace()));
        assert_eq!(line.trim(), line);
        assert!(!line.contains("  "));
        assert_eq!(normalize_markdown_line(&line), line);
    }
}
