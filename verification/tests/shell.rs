use pandia_shell::bridge::EventBridge;
use pandia_shell::bridge::OpenUrl;
use pandia_shell::filter::is_supported_file;
use pandia_shell::json::compress_json;
use pandia_shell::json::estimate_size;
use pandia_shell::json::format_json;
use pandia_shell::json::validate_json;
use pandia_shell::menu::CommandId;
use pandia_shell::menu::MenuRegistry;
use pandia_shell::menu::RecentFile;
use pandia_shell::menu::RecentRegion;
use pandia_shell::menu::RecentSlot;
use pandia_shell::queue::PendingQueue;

fn strings(xs: &[&str]) -> Vec<String> {
    xs.iter().map(|s| s.to_string()).collect()
}

#[test]
fn supported_extensions_accepted() {
    assert!(is_supported_file("notes.json"));
    assert!(is_supported_file("a/b/notes.jsonc"));
    assert!(is_supported_file("notes.json5"));
    assert!(is_supported_file("map.geojson"));
    assert!(is_supported_file("log.jsonl"));
    assert!(is_supported_file("log.ndjson"));
}

#[test]
fn extension_match_is_case_insensitive() {
    assert!(is_supported_file("NOTES.JSON"));
    assert!(is_supported_file("notes.Json5"));
    assert!(is_supported_file("/tmp/MAP.GeoJSON"));
}

#[test]
fn unsupported_paths_rejected() {
    assert!(!is_supported_file("image.png"));
    assert!(!is_supported_file("archive.json.gz"));
    assert!(!is_supported_file("noextension"));
    assert!(!is_supported_file(""));
    assert!(!is_supported_file("dir.json/file.txt"));
    assert!(!is_supported_file("trailing.txt"));
}

#[test]
fn hidden_files_have_no_extension() {
    assert!(!is_supported_file(".json"));
    assert!(!is_supported_file("a/.json5"));
    assert!(is_supported_file(".hidden.json"));
}

#[test]
fn trailing_separators_are_ignored() {
    assert!(is_supported_file("a.json/"));
    assert!(!is_supported_file("a.json/b"));
}

#[test]
fn enqueue_filters_and_keeps_order() {
    let mut q = PendingQueue::new();
    q.enqueue(strings(&["a.json", "b.png", "c.jsonl"]));
    q.enqueue(strings(&["--flag.json5"]));
    let drained = q.drain_all();
    assert_eq!(drained, strings(&["a.json", "c.jsonl", "--flag.json5"]));
}

#[test]
fn drain_leaves_queue_empty_and_second_drain_is_empty() {
    let mut q = PendingQueue::new();
    q.enqueue(strings(&["a.json"]));
    let first = q.drain_all();
    assert_eq!(first, strings(&["a.json"]));
    let second = q.drain_all();
    assert!(second.is_empty());
    assert_eq!(q.len(), 0);
}

#[test]
fn no_path_lost_or_duplicated_across_interleaving() {
    let mut q = PendingQueue::new();
    let mut drained: Vec<String> = Vec::new();
    q.enqueue(strings(&["a.json", "a.json", "skip.txt"]));
    drained.extend(q.drain_all());
    q.enqueue(strings(&["b.json5"]));
    q.enqueue(strings(&["c.ndjson", "d.geojson"]));
    drained.extend(q.drain_all());
    q.enqueue(strings(&["e.jsonc"]));
    let remaining = q.drain_all();
    let mut seen: Vec<String> = drained;
    seen.extend(remaining);
    seen.sort();
    let mut accepted = strings(&["a.json", "a.json", "b.json5", "c.ndjson", "d.geojson", "e.jsonc"]);
    accepted.sort();
    assert_eq!(seen, accepted);
}

#[test]
fn cli_seeding_drops_executable_flags_and_unsupported() {
    let mut b = EventBridge::new();
    b.seed_from_cli(&strings(&["/usr/bin/editor", "notes.json5", "--flag", "image.png"]));
    assert_eq!(b.pending_len(), 1);
    let first = b.drain_pending();
    assert_eq!(first, strings(&["notes.json5"]));
    let second = b.drain_pending();
    assert!(second.is_empty());
}

fn sample_urls() -> Vec<OpenUrl> {
    vec![
        OpenUrl { scheme: "file".to_string(), local_path: Some("/a.json".to_string()) },
        OpenUrl { scheme: "http".to_string(), local_path: Some("/x".to_string()) },
        OpenUrl { scheme: "file".to_string(), local_path: Some("/b.txt".to_string()) },
    ]
}

#[test]
fn open_event_without_surface_queues_only_supported_file_urls() {
    let mut b = EventBridge::new();
    let forwarded = b.handle_open_event(&sample_urls(), false);
    assert!(forwarded.is_none());
    let drained = b.drain_pending();
    assert_eq!(drained, strings(&["/a.json"]));
    // Once a surface is attached, the same event is forwarded live
    // rather than queued.
    let live = b.handle_open_event(&sample_urls(), true);
    assert_eq!(live, Some(strings(&["/a.json"])));
    assert_eq!(b.pending_len(), 0);
}

#[test]
fn open_event_with_surface_forwards_instead_of_queueing() {
    let mut b = EventBridge::new();
    let forwarded = b.handle_open_event(&sample_urls(), true);
    assert_eq!(forwarded, Some(strings(&["/a.json"])));
    assert_eq!(b.pending_len(), 0);
}

#[test]
fn open_event_with_nothing_honored_does_nothing() {
    let mut b = EventBridge::new();
    let urls = vec![
        OpenUrl { scheme: "https".to_string(), local_path: Some("/a.json".to_string()) },
        OpenUrl { scheme: "file".to_string(), local_path: None },
    ];
    let forwarded = b.handle_open_event(&urls, true);
    assert!(forwarded.is_none());
    assert_eq!(b.pending_len(), 0);
}

#[test]
fn scheme_comparison_is_exact() {
    // URL normalization lower-cases schemes before they reach the
    // bridge; anything else is not a `file` URL and is dropped.
    let mut b = EventBridge::new();
    let urls = vec![
        OpenUrl { scheme: "File".to_string(), local_path: Some("/a.json".to_string()) },
        OpenUrl { scheme: "file".to_string(), local_path: Some("/b.json".to_string()) },
    ];
    let forwarded = b.handle_open_event(&urls, false);
    assert!(forwarded.is_none());
    assert_eq!(b.drain_pending(), strings(&["/b.json"]));
}

#[test]
fn failed_resolution_drops_one_entry_not_the_batch() {
    let mut b = EventBridge::new();
    let urls = vec![
        OpenUrl { scheme: "file".to_string(), local_path: None },
        OpenUrl { scheme: "file".to_string(), local_path: Some("/ok.json".to_string()) },
    ];
    let forwarded = b.handle_open_event(&urls, false);
    assert!(forwarded.is_none());
    assert_eq!(b.drain_pending(), strings(&["/ok.json"]));
}

#[test]
fn replace_recent_with_no_entries_shows_placeholder() {
    let mut region = RecentRegion::new();
    region.replace_recent(&vec![
        RecentFile { path: "/a.json".to_string(), name: "a.json".to_string() },
    ]);
    region.replace_recent(&Vec::new());
    assert_eq!(region.slot_count(), 3);
    assert!(matches!(region.slot_at(0), RecentSlot::Placeholder));
    assert!(matches!(region.slot_at(1), RecentSlot::Separator));
    assert!(matches!(region.slot_at(2), RecentSlot::ClearAction));
}

#[test]
fn replace_recent_keeps_first_ten_in_order() {
    let mut region = RecentRegion::new();
    let mut entries: Vec<RecentFile> = Vec::new();
    for i in 0..15usize {
        entries.push(RecentFile {
            path: format!("/doc{}.json", i),
            name: format!("doc{}.json", i),
        });
    }
    region.replace_recent(&entries);
    assert_eq!(region.slot_count(), 12);
    for i in 0..10usize {
        match region.slot_at(i) {
            RecentSlot::Entry { index, name } => {
                assert_eq!(*index, i);
                assert_eq!(name, &format!("doc{}.json", i));
            }
            _ => panic!("expected an entry at {}", i),
        }
    }
    assert!(matches!(region.slot_at(10), RecentSlot::Separator));
    assert!(matches!(region.slot_at(11), RecentSlot::ClearAction));
}

#[test]
fn menu_build_has_six_menus_and_fresh_region() {
    let registry = MenuRegistry::build();
    assert_eq!(registry.menus.len(), 6);
    assert_eq!(registry.menus[0].label, "Pandia");
    assert_eq!(registry.menus[1].label, "File");
    assert_eq!(registry.menus[2].label, "Edit");
    assert_eq!(registry.menus[3].label, "View");
    assert_eq!(registry.menus[4].label, "Tools");
    assert_eq!(registry.menus[5].label, "Help");
    assert_eq!(registry.recent.slot_count(), 3);
}

#[test]
fn click_tokens_match_the_wire_identifiers() {
    assert_eq!(CommandId::About.token(), "about");
    assert_eq!(CommandId::CheckForUpdates.token(), "check_for_updates");
    assert_eq!(CommandId::ClearRecentFiles.token(), "clear_recent_files");
    assert_eq!(CommandId::NoRecent.token(), "no_recent");
    assert_eq!(CommandId::RecentEntry(0).token(), "recent_file_0");
    assert_eq!(CommandId::RecentEntry(3).token(), "recent_file_3");
    assert_eq!(CommandId::RecentEntry(9).token(), "recent_file_9");
}

#[test]
fn click_is_forwarded_only_with_a_surface() {
    let registry = MenuRegistry::build();
    let forwarded = registry.on_click(&CommandId::OpenFile, true);
    assert_eq!(forwarded, Some("open_file".to_string()));
    let dropped = registry.on_click(&CommandId::OpenFile, false);
    assert!(dropped.is_none());
}

#[test]
fn validate_accepts_and_rejects() {
    assert_eq!(validate_json("{}").unwrap(), true);
    assert_eq!(validate_json("[1, 2, {\"a\": null}]").unwrap(), true);
    let err = validate_json("{not json").unwrap_err();
    assert!(err.message.starts_with("Invalid JSON: "));
}

#[test]
fn compress_minifies() {
    let out = compress_json("{ \"a\": 1,  \"b\": [true, null] }").unwrap();
    assert_eq!(out, "{\"a\":1,\"b\":[true,null]}");
    assert!(compress_json("{oops").is_err());
}

#[test]
fn format_pretty_prints_at_native_width() {
    let out = format_json("{\"a\":1}", None).unwrap();
    assert_eq!(out, "{\n  \"a\": 1\n}");
    let same = format_json("{\"a\":1}", Some(2)).unwrap();
    assert_eq!(same, out);
}

#[test]
fn format_rescales_other_widths() {
    let out = format_json("{\"a\":{\"b\":1}}", Some(4)).unwrap();
    assert_eq!(out, "{\n    \"a\": {\n        \"b\": 1\n    }\n}");
    let odd = format_json("{\"a\":1}", Some(0)).unwrap();
    assert_eq!(odd, "{\n\"a\": 1\n}");
}

#[test]
fn format_after_compress_equals_format() {
    let x = " {\"b\": [1, 2, {\"c\": \"d\"}],  \"a\": 0.5} ";
    let compressed = compress_json(x).unwrap();
    let direct = format_json(x, None).unwrap();
    let via_compress = format_json(&compressed, None).unwrap();
    assert_eq!(via_compress, direct);
}

#[test]
fn estimate_of_empty_is_all_zero() {
    let e = estimate_size("");
    assert_eq!(e.raw, 0);
    assert_eq!(e.gzip_estimate, 0);
    assert_eq!(e.brotli_estimate, 0);
}

#[test]
fn estimate_uses_fixed_ratios_of_byte_length() {
    let e = estimate_size("0123456789");
    assert_eq!(e.raw, 10);
    assert_eq!(e.gzip_estimate, 7);
    assert_eq!(e.brotli_estimate, 6);
    let f = estimate_size("{\"k\":\"v\"}");
    assert_eq!(f.raw, 9);
    assert_eq!(f.gzip_estimate, 6);
    assert_eq!(f.brotli_estimate, 5);
    let g = estimate_size("é");
    assert_eq!(g.raw, 2);
}
