use zoop_core::error::{CoreError, CoreResult};
use zoop_core::mock::{MockDelay, MockProgress};
use zoop_core::network::portal::portal_request_ready;
use zoop_core::network::whisper::{transcribe_all, transcribe_note, HttpClient};
use zoop_core::paths::{note_path, INDEX_FILE, TAG_FILE};
use zoop_core::portal_fmt::{escapes_ok, format_export_text, ExportNote};
use zoop_core::qr::decode::{first_symbol, ScanOutcome, SymbolRead};
use zoop_core::qr::{DebounceOutcome, QrDebouncer};
use zoop_core::storage::index::{add_to_index, load_index, save_index, IndexStore};
use zoop_core::storage::mem::MemStorage;
use zoop_core::storage::tags::{add_custom_tag, load_tags, save_tags, tag_name_ok, TagStore};
use zoop_core::storage::FileStorage;
use zoop_core::transcribe::TranscriptionConfig;

/// Counts uploads and answers with a fixed transcript.
struct CountingHttp {
    sent: Vec<Vec<u8>>,
}

impl HttpClient for CountingHttp {
    fn post_multipart_wav(&mut self, _config: &TranscriptionConfig, wav: &[u8], _filename: &str) -> CoreResult<String> {
        self.sent.push(wav.to_vec());
        Ok(r#"{"text":"counted"}"#.to_string())
    }
}

/// Always fails, counting the calls.
struct OfflineHttp {
    calls: u32,
}

impl HttpClient for OfflineHttp {
    fn post_multipart_wav(&mut self, _config: &TranscriptionConfig, _wav: &[u8], _filename: &str) -> CoreResult<String> {
        self.calls += 1;
        Err(CoreError::Other("offline".into()))
    }
}

fn config() -> TranscriptionConfig {
    TranscriptionConfig::from_secrets("openai", "sk-test", "", None).expect("cfg")
}

#[test]
fn first_symbol_of_nothing_is_no_grid() {
    assert_eq!(first_symbol(vec![]), ScanOutcome::NoGrid);
}

#[test]
fn first_symbol_takes_the_first_reading() {
    let syms = vec![
        SymbolRead::Decoded { version: 2, ecc_level: 1, content: "upi://pay".to_string() },
        SymbolRead::Unreadable,
    ];
    assert_eq!(
        first_symbol(syms),
        ScanOutcome::Decoded { version: 2, ecc_level: 1, content: "upi://pay".to_string() }
    );
    assert_eq!(first_symbol(vec![SymbolRead::NotUtf8, SymbolRead::Unreadable]), ScanOutcome::NotUtf8);
    assert_eq!(first_symbol(vec![SymbolRead::Unreadable]), ScanOutcome::Unreadable);
}

#[test]
fn load_tags_writes_defaults_when_missing() {
    let mut storage = MemStorage::new();
    let mut tags = TagStore::new();
    load_tags(&mut storage, &mut tags).expect("load");
    assert_eq!(tags.tags().to_vec(), vec!["Note", "Work", "Idea", "Buy", "Private"]);
    assert!(storage.path_exists(TAG_FILE).expect("exists"));
    assert_eq!(add_custom_tag(&mut storage, &mut tags, "work").expect("add"), false);
    assert_eq!(tags.count(), 5);
}

#[test]
fn load_tags_reads_the_tag_file() {
    let mut storage = MemStorage::new();
    storage.write_bytes(TAG_FILE, b"Alpha\nBeta\n").expect("write");
    let mut tags = TagStore::new();
    load_tags(&mut storage, &mut tags).expect("load");
    assert_eq!(tags.tags().to_vec(), vec!["Alpha", "Beta"]);
}

#[test]
fn tags_save_then_load_gives_the_same_list() {
    let mut storage = MemStorage::new();
    let mut tags = TagStore::new();
    load_tags(&mut storage, &mut tags).expect("load");
    assert!(add_custom_tag(&mut storage, &mut tags, "Travel").expect("add"));
    save_tags(&mut storage, &tags).expect("save");
    let mut again = TagStore::new();
    load_tags(&mut storage, &mut again).expect("reload");
    assert_eq!(again.tags().to_vec(), tags.tags().to_vec());
}

#[test]
fn index_save_then_load_gives_the_same_rows() {
    let mut storage = MemStorage::new();
    let mut index = IndexStore::new();
    add_to_index(&mut storage, &mut index, 1, "Work", true).expect("add");
    add_to_index(&mut storage, &mut index, 2, "Idea", false).expect("add");
    save_index(&mut storage, &index).expect("save");
    assert!(storage.path_exists(INDEX_FILE).expect("exists"));
    let mut again = IndexStore::new();
    load_index(&mut storage, &mut again).expect("load");
    assert_eq!(again.entries.len(), 2);
    assert_eq!(again.find(1).unwrap().tag, "Work");
    assert!(again.find(1).unwrap().has_text);
    assert!(!again.find(2).unwrap().has_text);
}

#[test]
fn escapes_ok_examples() {
    assert!(escapes_ok("a%20b"));
    assert!(escapes_ok("plain"));
    assert!(escapes_ok("%é"));
    assert!(!escapes_ok("%aé"));
}

#[test]
fn tag_name_ok_examples() {
    assert!(tag_name_ok("Work"));
    assert!(tag_name_ok(&"a".repeat(40)));
    let mut long = "a".repeat(30);
    long.push('é');
    assert!(!tag_name_ok(&long));
}

#[test]
fn portal_request_ready_examples() {
    assert!(portal_request_ready("GET", "/"));
    assert!(portal_request_ready("GET", "/tag/add?name=Travel"));
    assert!(!portal_request_ready("GET", "/tag/add?name=%aé"));
    assert!(portal_request_ready("GET", "/nope?name=%aé"));
}

#[test]
fn transcribe_note_without_wav_sends_nothing() {
    let mut storage = MemStorage::new();
    let mut index = IndexStore::new();
    add_to_index(&mut storage, &mut index, 4, "Work", false).expect("add");
    let mut http = CountingHttp { sent: vec![] };
    let mut delay = MockDelay::default();
    let done = transcribe_note(&mut storage, &mut index, &config(), 4, &mut http, &mut delay).expect("tx");
    assert!(!done);
    assert!(http.sent.is_empty());
    assert!(!index.find(4).unwrap().has_text);
}

#[test]
fn transcribe_note_uploads_the_wav_bytes() {
    let mut storage = MemStorage::new();
    let mut index = IndexStore::new();
    add_to_index(&mut storage, &mut index, 5, "Work", false).expect("add");
    let wav = vec![7u8; 100];
    storage.write_bytes(&note_path(5, "wav"), &wav).expect("wav");
    let mut http = CountingHttp { sent: vec![] };
    let mut delay = MockDelay::default();
    assert!(transcribe_note(&mut storage, &mut index, &config(), 5, &mut http, &mut delay).expect("tx"));
    assert_eq!(http.sent, vec![wav]);
    let txt = storage.read_bytes(&note_path(5, "txt")).expect("read").expect("txt");
    assert_eq!(txt, b"counted".to_vec());
}

#[test]
fn transcribe_all_counts_only_notes_it_marked() {
    let mut storage = MemStorage::new();
    let mut index = IndexStore::new();
    add_to_index(&mut storage, &mut index, 1, "Work", false).expect("add");
    add_to_index(&mut storage, &mut index, 2, "Work", false).expect("add");
    storage.write_bytes(&note_path(2, "wav"), &[1u8; 32]).expect("wav");
    let mut http = CountingHttp { sent: vec![] };
    let mut delay = MockDelay::default();
    let mut progress = MockProgress::default();
    let done = transcribe_all(&mut storage, &mut index, &config(), &mut http, &mut delay, &mut progress).expect("all");
    assert_eq!(done, 1);
    assert_eq!(http.sent.len(), 1);
    assert_eq!(progress.reports, vec![(0, 2), (1, 2), (2, 2)]);
    assert!(!index.find(1).unwrap().has_text);
    assert!(index.find(2).unwrap().has_text);
}

#[test]
fn transcribe_all_offline_marks_nothing() {
    let mut storage = MemStorage::new();
    let mut index = IndexStore::new();
    add_to_index(&mut storage, &mut index, 1, "Work", false).expect("add");
    storage.write_bytes(&note_path(1, "wav"), &[1u8; 32]).expect("wav");
    let mut http = OfflineHttp { calls: 0 };
    let mut delay = MockDelay::default();
    let mut progress = MockProgress::default();
    let done = transcribe_all(&mut storage, &mut index, &config(), &mut http, &mut delay, &mut progress).expect("all");
    assert_eq!(done, 0);
    assert_eq!(http.calls, 3);
    assert!(!index.find(1).unwrap().has_text);
}

#[test]
fn export_stops_after_the_limit() {
    let big = ExportNote {
        num: 1,
        tag: "Work".to_string(),
        created_utc: None,
        transcript: "x".repeat(60_000),
        has_text: true,
    };
    let small = ExportNote {
        num: 2,
        tag: "Work".to_string(),
        created_utc: None,
        transcript: "later".to_string(),
        has_text: true,
    };
    let out = format_export_text("All", &[small, big]);
    assert!(out.starts_with("Zoop Export\nFilter: All\n"));
    assert!(out.contains("Export truncated"));
    assert!(!out.contains("later"));
}

#[test]
fn flicker_between_two_payloads_never_accepts() {
    let mut d = QrDebouncer::new(3);
    for i in 0..20 {
        let p = if i % 2 == 0 { "a" } else { "b" };
        let out = d.push(Some(p));
        assert!(!matches!(out, DebounceOutcome::Accepted(_)));
    }
    assert_eq!(d.push(None), DebounceOutcome::Cleared);
    assert_eq!(d.push(Some("a")), DebounceOutcome::Pending { matched: 1, need: 3 });
    assert_eq!(d.push(Some("a")), DebounceOutcome::Pending { matched: 2, need: 3 });
    assert_eq!(d.push(Some("a")), DebounceOutcome::Accepted("a".to_string()));
}

#[test]
fn transcribe_all_uploads_pending_wavs_in_order() {
    let mut storage = MemStorage::new();
    let mut index = IndexStore::new();
    add_to_index(&mut storage, &mut index, 1, "Work", false).expect("add");
    add_to_index(&mut storage, &mut index, 2, "Work", true).expect("add");
    add_to_index(&mut storage, &mut index, 3, "Idea", false).expect("add");
    storage.write_bytes(&note_path(1, "wav"), &[1u8; 8]).expect("wav");
    storage.write_bytes(&note_path(2, "wav"), &[2u8; 8]).expect("wav");
    storage.write_bytes(&note_path(3, "wav"), &[3u8; 8]).expect("wav");
    let mut http = CountingHttp { sent: vec![] };
    let mut delay = MockDelay::default();
    let mut progress = MockProgress::default();
    let done = transcribe_all(&mut storage, &mut index, &config(), &mut http, &mut delay, &mut progress).expect("all");
    assert_eq!(done, 2);
    assert_eq!(http.sent, vec![vec![1u8; 8], vec![3u8; 8]]);
}

fn request(path: &str) -> zoop_core::network::portal::HttpRequest {
    zoop_core::network::portal::HttpRequest { method: "GET".into(), path: path.into(), query: vec![] }
}

#[test]
fn portal_tag_add_on_a_full_list_is_refused() {
    let mut storage = MemStorage::new();
    let mut index = IndexStore::new();
    let mut tags = TagStore::new();
    for i in 0..20 {
        tags.tags.push(format!("T{}", i));
    }
    let r = zoop_core::network::portal::handle_portal_request(&mut storage, &mut index, &mut tags, &request("/tag/add?name=Extra"));
    assert!(matches!(r, Err(CoreError::TagLimitReached(20))));
    assert_eq!(tags.count(), 20);
    assert!(!storage.path_exists(TAG_FILE).expect("exists"));
}

#[test]
fn portal_tag_add_saves_the_tag_file() {
    let mut storage = MemStorage::new();
    let mut index = IndexStore::new();
    let mut tags = TagStore::new();
    load_tags(&mut storage, &mut tags).expect("load");
    let r = zoop_core::network::portal::handle_portal_request(&mut storage, &mut index, &mut tags, &request("/tag/add?name=Travel+Plans"))
        .expect("add");
    assert_eq!(r.redirect, Some("/tags?msg=added".into()));
    let text = storage.read_to_string(TAG_FILE).expect("read").expect("file");
    assert!(text.contains("Travel Plans"));
}

#[test]
fn portal_note_delete_removes_the_note_files() {
    let mut storage = MemStorage::new();
    let mut index = IndexStore::new();
    let mut tags = TagStore::new();
    add_to_index(&mut storage, &mut index, 3, "Work", false).expect("add");
    storage.write_bytes(&note_path(3, "wav"), &[9u8; 4]).expect("wav");
    let r = zoop_core::network::portal::handle_portal_request(&mut storage, &mut index, &mut tags, &request("/note/delete?num=3"))
        .expect("del");
    assert_eq!(r.redirect, Some("/".into()));
    assert!(!storage.path_exists(&note_path(3, "wav")).expect("exists"));
    assert!(index.find(3).is_none());
}

#[test]
fn pending_count_is_the_run_since_the_last_reset() {
    let mut d = QrDebouncer::new(2);
    assert_eq!(d.push(Some("a")), DebounceOutcome::Pending { matched: 1, need: 2 });
    assert_eq!(d.push(Some("a")), DebounceOutcome::Accepted("a".to_string()));
    assert_eq!(d.push(Some("a")), DebounceOutcome::Pending { matched: 1, need: 2 });
    assert_eq!(d.push(Some("b")), DebounceOutcome::Pending { matched: 1, need: 2 });
    assert_eq!(d.push(None), DebounceOutcome::Cleared);
    assert_eq!(d.push(Some("b")), DebounceOutcome::Pending { matched: 1, need: 2 });
}

/// A store whose writes always fail, holding its files in memory.
struct WriteFailingStore {
    files: std::collections::BTreeMap<String, Vec<u8>>,
    calls: Vec<String>,
}

impl FileStorage for WriteFailingStore {
    fn read_to_string(&self, path: &str) -> CoreResult<Option<String>> {
        Ok(self.files.get(path).map(|b| String::from_utf8_lossy(b).into_owned()))
    }
    fn read_bytes(&self, path: &str) -> CoreResult<Option<Vec<u8>>> {
        Ok(self.files.get(path).cloned())
    }
    fn write_bytes(&mut self, path: &str, _data: &[u8]) -> CoreResult<()> {
        self.calls.push(format!("write {}", path));
        Err(CoreError::Storage("disk full".into()))
    }
    fn path_exists(&self, path: &str) -> CoreResult<bool> {
        Ok(self.files.contains_key(path))
    }
    fn remove(&mut self, path: &str) -> CoreResult<()> {
        self.calls.push(format!("remove {}", path));
        self.files.remove(path);
        Ok(())
    }
    fn rename(&mut self, from: &str, to: &str) -> CoreResult<()> {
        self.calls.push(format!("rename {} {}", from, to));
        let d = self.files.remove(from).ok_or(CoreError::Storage("missing".into()))?;
        self.files.insert(to.to_string(), d);
        Ok(())
    }
}

#[test]
fn atomic_write_keeps_the_target_when_the_temp_write_fails() {
    let mut st = WriteFailingStore { files: Default::default(), calls: vec![] };
    st.files.insert("a.txt".into(), b"old".to_vec());
    st.files.insert("a.tmp".into(), b"stale".to_vec());
    let r = st.atomic_write("a.txt", "a.tmp", b"new");
    assert!(matches!(r, Err(CoreError::Storage(ref m)) if m == "disk full"));
    assert_eq!(st.calls, vec!["remove a.tmp".to_string(), "write a.tmp".to_string()]);
    assert_eq!(st.files.get("a.txt"), Some(&b"old".to_vec()));
}

#[test]
fn atomic_write_on_memory_replaces_the_target() {
    let mut st = MemStorage::new();
    st.write_bytes("a.txt", b"old").expect("write");
    st.atomic_write("a.txt", "a.tmp", b"new").expect("atomic");
    assert_eq!(st.read_bytes("a.txt").expect("read"), Some(b"new".to_vec()));
    assert!(!st.path_exists("a.tmp").expect("exists"));
}

#[test]
fn api_notes_is_a_json_list_newest_first() {
    let mut storage = MemStorage::new();
    let mut index = IndexStore::new();
    let mut tags = TagStore::new();
    add_to_index(&mut storage, &mut index, 1, "Work", true).expect("add");
    add_to_index(&mut storage, &mut index, 2, "Idea", false).expect("add");
    let r = zoop_core::network::portal::handle_portal_request(&mut storage, &mut index, &mut tags, &request("/api/notes"))
        .expect("api");
    assert_eq!(
        String::from_utf8(r.body).expect("utf8"),
        r#"[{"num":2,"tag":"Idea","hasText":false},{"num":1,"tag":"Work","hasText":true}]"#
    );
}

#[test]
fn root_page_cuts_a_long_title_between_characters() {
    let mut storage = MemStorage::new();
    let mut index = IndexStore::new();
    let mut tags = TagStore::new();
    add_to_index(&mut storage, &mut index, 1, "Work", true).expect("add");
    let mut text = "a".repeat(57);
    text.push('é');
    text.push_str(" and more words");
    storage.write_bytes(&note_path(1, "txt"), text.as_bytes()).expect("txt");
    let r = zoop_core::network::portal::handle_portal_request(&mut storage, &mut index, &mut tags, &request("/"))
        .expect("root");
    let body = String::from_utf8(r.body).expect("utf8");
    assert!(body.contains(&format!("<h2 class='title'>{}...</h2>", "a".repeat(57))));
}

#[test]
fn bmp_of_a_white_panel() {
    let buf = vec![0xFFu8; zoop_core::display::draw::BYTES];
    let bmp = zoop_core::display::bmp::bmp_bytes(&buf);
    assert_eq!(bmp.len(), 54 + 120_000);
    assert_eq!(&bmp[0..2], b"BM");
    assert_eq!(&bmp[2..6], &120_054u32.to_le_bytes());
    assert_eq!(&bmp[18..22], &200i32.to_le_bytes());
    assert!(bmp[54..].iter().all(|&b| b == 255));
}

#[test]
fn bmp_rows_run_from_the_bottom_up() {
    let mut buf = vec![0xFFu8; zoop_core::display::draw::BYTES];
    zoop_core::display::draw::set_pixel(&mut buf, 0, 199, zoop_core::display::draw::BLACK);
    let bmp = zoop_core::display::bmp::bmp_bytes(&buf);
    assert_eq!(&bmp[54..57], &[0, 0, 0]);
    assert_eq!(bmp[57], 255);
}

#[test]
fn whisper_text_inside_braces() {
    assert_eq!(zoop_core::whisper_parse::parse_whisper_text(r#"{"text":"hello there"}"#), Some("hello there".to_string()));
    assert_eq!(zoop_core::whisper_parse::parse_whisper_text(r#"{"text":""}"#), None);
    assert_eq!(zoop_core::whisper_parse::parse_whisper_text(r#"{"text":"abc"#), None);
    assert_eq!(zoop_core::whisper_parse::parse_whisper_text(r#"{"other":1}"#), None);
}

#[test]
fn debouncer_after_a_reset_starts_over() {
    let mut d = QrDebouncer::new(3);
    assert_eq!(d.push(Some("a")), DebounceOutcome::Pending { matched: 1, need: 3 });
    assert_eq!(d.push(Some("a")), DebounceOutcome::Pending { matched: 2, need: 3 });
    d.reset();
    assert_eq!(d.push(Some("a")), DebounceOutcome::Pending { matched: 1, need: 3 });
}
