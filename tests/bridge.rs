use llamaman::config::{
    config_path, load_outcome, StoredConfig, UserConfig, DEFAULT_MAX_STEPS, DEFAULT_TOP_P_BITS,
};
use llamaman::credentials::credentials_path;
use llamaman::error::BridgeError;
use llamaman::files::write_confirmation;
use llamaman::process::{classify_decoded, command_result};
use llamaman::state::ConfigState;
use llamaman::stream::{relay_all, Relay, RelayAction, RelayEvent};
use llamaman::text::{text_or_encoding_error, utf8_text};
use llamaman::tree::{DirEntry, FileNode, TreeWalk};
use llamaman::workspace::resolve;

fn sample(model: &str, max_steps: u8) -> UserConfig {
    UserConfig {
        platform: "openai".to_string(),
        url: "https://example.org/v1".to_string(),
        model: model.to_string(),
        temperature_bits: 0.7f32.to_bits(),
        max_steps,
        top_p_bits: 0.95f32.to_bits(),
        workspace_dir: "/work".to_string(),
    }
}

fn assert_same(a: &UserConfig, b: &UserConfig) {
    assert_eq!(a.platform, b.platform);
    assert_eq!(a.url, b.url);
    assert_eq!(a.model, b.model);
    assert_eq!(a.temperature_bits, b.temperature_bits);
    assert_eq!(a.max_steps, b.max_steps);
    assert_eq!(a.top_p_bits, b.top_p_bits);
    assert_eq!(a.workspace_dir, b.workspace_dir);
}

fn assert_default(c: &UserConfig, home: &str) {
    assert_eq!(c.platform, "ollama");
    assert_eq!(c.url, "http://localhost:11434/api/generate");
    assert_eq!(c.model, "llama3.1");
    assert_eq!(f32::from_bits(c.temperature_bits), 0.0f32);
    assert_eq!(c.max_steps, 10);
    assert_eq!(f32::from_bits(c.top_p_bits), 0.9f32);
    assert_eq!(c.workspace_dir, format!("{}/.llamaman", home));
}

#[test]
fn resolve_joins_with_one_separator() {
    assert_eq!(resolve("/home/u/ws", "a.txt"), "/home/u/ws/a.txt");
    assert_eq!(resolve("/home/u/ws/", "a.txt"), "/home/u/ws/a.txt");
    assert_eq!(resolve("/home/u/ws", "d/g.txt"), "/home/u/ws/d/g.txt");
}

#[test]
fn resolve_edge_cases() {
    assert_eq!(resolve("/home/u/ws", "/etc/passwd"), "/etc/passwd");
    assert_eq!(resolve("", "a.txt"), "a.txt");
    assert_eq!(resolve("/ws", "../x"), "/ws/../x");
    assert_eq!(resolve("/ws", ""), "/ws/");
}

#[test]
fn default_record_values() {
    let c = UserConfig::default_for("/home/u");
    assert_default(&c, "/home/u");
    assert_eq!(c.max_steps, DEFAULT_MAX_STEPS);
    assert_eq!(c.top_p_bits, DEFAULT_TOP_P_BITS);
}

#[test]
fn settings_file_path() {
    assert_eq!(config_path("/home/u"), "/home/u/.llamaman/config.toml");
    assert_eq!(credentials_path("/home/u"), "/home/u/.aws/credentials");
}

#[test]
fn workspace_root_falls_back_to_default() {
    let mut c = sample("m", 3);
    assert_eq!(c.workspace_root("/home/u"), "/work");
    c.workspace_dir = String::new();
    assert_eq!(c.workspace_root("/home/u"), "/home/u/.llamaman");
}

#[test]
fn load_keeps_stored_record() {
    let stored = sample("llama3.2", 255);
    let out = load_outcome(StoredConfig::Parsed(stored.clone()), "/home/u");
    assert_same(&out.config, &stored);
    assert!(!out.persist);
}

#[test]
fn load_absent_file_yields_default_and_persists() {
    let out = load_outcome(StoredConfig::Absent, "/home/u");
    assert_default(&out.config, "/home/u");
    assert!(out.persist);
}

#[test]
fn load_unparseable_file_yields_default() {
    let out = load_outcome(StoredConfig::Unparseable, "/home/u");
    assert_default(&out.config, "/home/u");
    assert!(!out.persist);
}

#[test]
fn serial_updates_keep_one_whole_record() {
    let mut state = ConfigState::new(UserConfig::default_for("/home/u"));
    let first = sample("first", 1);
    let second = sample("second", 2);
    let persisted = state.set(first.clone());
    assert_same(&persisted, &first);
    let persisted = state.set(second.clone());
    assert_same(&persisted, &second);
    assert_same(&state.get(), &second);
}

#[test]
fn echo_output_is_returned() {
    let r = command_result(true, Some(0), b"hi\n".to_vec());
    assert_eq!(r, Ok("hi\n".to_string()));
}

#[test]
fn failing_command_reports_exit_code() {
    let r = command_result(false, Some(3), b"partial".to_vec());
    assert_eq!(r, Err(BridgeError::CommandFailed(Some(3))));
    let r = command_result(false, None, Vec::new());
    assert_eq!(r, Err(BridgeError::CommandFailed(None)));
}

#[test]
fn invalid_output_is_an_encoding_error() {
    let r = command_result(true, Some(0), vec![0xff, 0xfe]);
    assert_eq!(r, Err(BridgeError::Encoding));
}

#[test]
fn classify_from_decoded_output() {
    assert_eq!(classify_decoded(true, Some(0), Some("x".to_string())), Ok("x".to_string()));
    assert_eq!(classify_decoded(true, Some(0), None), Err(BridgeError::Encoding));
    assert_eq!(
        classify_decoded(false, Some(3), Some("x".to_string())),
        Err(BridgeError::CommandFailed(Some(3)))
    );
}

#[test]
fn file_text_round_trip() {
    assert_eq!(utf8_text("hello".as_bytes().to_vec()), Ok("hello".to_string()));
    assert_eq!(utf8_text("héllo".as_bytes().to_vec()), Ok("héllo".to_string()));
    assert_eq!(utf8_text(vec![b'a', 0xc3]), Err(BridgeError::Encoding));
    assert_eq!(text_or_encoding_error(None), Err(BridgeError::Encoding));
}

#[test]
fn confirmation_names_the_file() {
    assert_eq!(write_confirmation("a.txt"), "Contents were written to file a.txt.");
}

#[test]
fn tree_of_file_and_directory() {
    let g = FileNode::from_entry("g.txt".to_string(), "/r/d/g.txt".to_string(), false, Vec::new());
    let d = FileNode::from_entry("d".to_string(), "/r/d".to_string(), true, vec![g]);
    let f = FileNode::from_entry("f.txt".to_string(), "/r/f.txt".to_string(), false, Vec::new());
    let tree = vec![f, d];
    assert_eq!(tree.len(), 2);
    let d = tree.iter().find(|n| n.name == "d").unwrap();
    assert!(d.is_directory);
    assert_eq!(d.children.len(), 1);
    assert_eq!(d.children[0].name, "g.txt");
    assert!(d.children[0].is_leaf());
    assert!(tree.iter().filter(|n| !n.is_directory).all(|n| n.children.is_empty()));
}

#[test]
fn leaf_drops_listed_children() {
    let g = FileNode::from_entry("g".to_string(), "/g".to_string(), false, Vec::new());
    let n = FileNode::from_entry("f".to_string(), "/f".to_string(), false, vec![g]);
    assert!(n.is_leaf());
    assert!(n.children.is_empty());
}

#[test]
fn relay_three_chunks_then_close() {
    let events = vec![
        RelayEvent::Chunk(b"a".to_vec()),
        RelayEvent::Chunk(b"b".to_vec()),
        RelayEvent::Chunk(b"c".to_vec()),
        RelayEvent::Closed,
    ];
    assert_eq!(
        relay_all(&events),
        vec![
            RelayAction::Emit("a".to_string()),
            RelayAction::Emit("b".to_string()),
            RelayAction::Emit("c".to_string()),
            RelayAction::Succeed,
        ]
    );
}

#[test]
fn relay_failure_after_two_chunks() {
    let events = vec![
        RelayEvent::Chunk(b"a".to_vec()),
        RelayEvent::Chunk(b"b".to_vec()),
        RelayEvent::Failed("connection reset".to_string()),
        RelayEvent::Chunk(b"c".to_vec()),
    ];
    assert_eq!(
        relay_all(&events),
        vec![
            RelayAction::Emit("a".to_string()),
            RelayAction::Emit("b".to_string()),
            RelayAction::Fail("connection reset".to_string()),
        ]
    );
}

#[test]
fn relay_decodes_lossily() {
    let events = vec![RelayEvent::Chunk(vec![b'o', b'k', 0xff]), RelayEvent::Closed];
    assert_eq!(
        relay_all(&events),
        vec![RelayAction::Emit("ok\u{FFFD}".to_string()), RelayAction::Succeed]
    );
    assert_eq!(relay_all(&Vec::new()), Vec::<RelayAction>::new());
}

#[test]
fn relay_answers_nothing_after_end() {
    let mut relay = Relay::new();
    assert_eq!(relay.step(&RelayEvent::Closed), Some(RelayAction::Succeed));
    assert!(relay.finished());
    assert_eq!(relay.step(&RelayEvent::Chunk(b"x".to_vec())), None);
    assert_eq!(relay.on_text("y".to_string()), None);
}

fn entry(name: &str, path: &str, is_directory: bool) -> DirEntry {
    DirEntry { name: name.to_string(), path: path.to_string(), is_directory }
}

#[test]
fn walk_file_and_subdirectory() {
    let mut walk = TreeWalk::new("/r".to_string());
    assert_eq!(walk.next_request(), Some("/r".to_string()));
    walk.supply(vec![entry("f.txt", "/r/f.txt", false), entry("d", "/r/d", true)]);
    assert_eq!(walk.next_request(), Some("/r/d".to_string()));
    walk.supply(vec![entry("g.txt", "/r/d/g.txt", false)]);
    assert_eq!(walk.next_request(), None);
    let tree = walk.into_tree().unwrap();
    assert_eq!(tree.len(), 2);
    assert_eq!(tree[0].name, "f.txt");
    assert!(tree[0].is_leaf());
    assert_eq!(tree[1].name, "d");
    assert_eq!(tree[1].path, "/r/d");
    assert!(tree[1].is_directory);
    assert_eq!(tree[1].children.len(), 1);
    assert_eq!(tree[1].children[0].name, "g.txt");
    assert_eq!(tree[1].children[0].path, "/r/d/g.txt");
    assert!(tree[1].children[0].is_leaf());
}

#[test]
fn walk_keeps_listing_order_and_depth() {
    let mut walk = TreeWalk::new("/r".to_string());
    walk.supply(vec![
        entry("b", "/r/b", true),
        entry("a.txt", "/r/a.txt", false),
        entry("c", "/r/c", true),
    ]);
    assert_eq!(walk.next_request(), Some("/r/b".to_string()));
    walk.supply(vec![entry("e", "/r/b/e", true)]);
    assert_eq!(walk.next_request(), Some("/r/b/e".to_string()));
    walk.supply(Vec::new());
    assert_eq!(walk.next_request(), Some("/r/c".to_string()));
    walk.supply(vec![entry("z", "/r/c/z", false)]);
    let tree = walk.into_tree().unwrap();
    let names: Vec<&str> = tree.iter().map(|n| n.name.as_str()).collect();
    assert_eq!(names, vec!["b", "a.txt", "c"]);
    assert_eq!(tree[0].children.len(), 1);
    assert!(tree[0].children[0].is_directory);
    assert!(tree[0].children[0].children.is_empty());
    assert_eq!(tree[2].children[0].name, "z");
}

#[test]
fn walk_of_empty_directory() {
    let mut walk = TreeWalk::new("/empty".to_string());
    walk.supply(Vec::new());
    assert_eq!(walk.next_request(), None);
    assert!(walk.into_tree().unwrap().is_empty());
}

#[test]
fn walk_ignores_listing_not_asked_for() {
    let mut walk = TreeWalk::new("/r".to_string());
    walk.supply(vec![entry("f", "/r/f", false)]);
    walk.supply(vec![entry("x", "/r/x", false)]);
    let tree = walk.into_tree().unwrap();
    assert_eq!(tree.len(), 1);
    assert_eq!(tree[0].name, "f");
}

#[test]
fn unfinished_walk_has_no_tree() {
    let walk = TreeWalk::new("/r".to_string());
    assert!(walk.into_tree().is_none());
}

#[test]
fn relay_stops_when_emit_fails() {
    let mut relay = Relay::new();
    assert_eq!(
        relay.step(&RelayEvent::Chunk(b"a".to_vec())),
        Some(RelayAction::Emit("a".to_string()))
    );
    assert_eq!(
        relay.step(&RelayEvent::EmitFailed("window closed".to_string())),
        Some(RelayAction::Fail("window closed".to_string()))
    );
    assert!(relay.finished());
    let events = vec![
        RelayEvent::Chunk(b"a".to_vec()),
        RelayEvent::EmitFailed("gone".to_string()),
        RelayEvent::Chunk(b"b".to_vec()),
        RelayEvent::Closed,
    ];
    assert_eq!(
        relay_all(&events),
        vec![RelayAction::Emit("a".to_string()), RelayAction::Fail("gone".to_string())]
    );
}

#[test]
fn walk_asks_for_directory_without_listing_in_depth_first_order() {
    let mut walk = TreeWalk::new("/r".to_string());
    walk.supply(vec![entry("a", "/r/a", true), entry("b", "/r/b", true)]);
    assert_eq!(walk.next_request(), Some("/r/a".to_string()));
    walk.supply(vec![entry("x", "/r/a/x", true)]);
    assert_eq!(walk.next_request(), Some("/r/a/x".to_string()));
    walk.supply(Vec::new());
    assert_eq!(walk.next_request(), Some("/r/b".to_string()));
    walk.supply(vec![entry("y.txt", "/r/b/y.txt", false)]);
    assert_eq!(walk.next_request(), None);
    let tree = walk.into_tree().unwrap();
    assert_eq!(tree[0].children[0].path, "/r/a/x");
    assert_eq!(tree[1].children[0].path, "/r/b/y.txt");
}
