use std::cell::RefCell;
use std::collections::BTreeMap;

use zoop_core::error::{CoreError, CoreResult};
use zoop_core::mock::{MockAudio, MockDelay, MockProgress};
use zoop_core::network::portal::{handle_portal_request, HttpRequest};
use zoop_core::network::whisper::{
    pending_transcription, transcribe_all, transcribe_note, HttpClient,
};
use zoop_core::paths::{note_path, DEFAULT_TAGS, INDEX_FILE, INDEX_TMP};
use zoop_core::record::{duration_ms_from_mono_bytes, RecordOutcome, RecordSession, MIN_MONO_BYTES};
use zoop_core::storage::index::{add_to_index, delete_note, load_index, next_note_number, save_index, IndexStore, NoteEntry};
use zoop_core::storage::meta::{read_note_meta_value, save_tag, utc_to_local_device_label, write_note_meta};
use zoop_core::storage::tags::{add_custom_tag, delete_tag, load_tags, TagStore};
use zoop_core::storage::mem::MemStorage;
use zoop_core::storage::FileStorage;
use zoop_core::transcribe::TranscriptionConfig;
use zoop_core::wav::parse_wav_header;

/// In-memory file store for tests.
#[derive(Debug, Default)]
struct MockStorage {
    files: RefCell<BTreeMap<String, Vec<u8>>>,
}

impl MockStorage {
    fn new() -> CoreResult<Self> {
        Ok(Self::default())
    }

    fn dump_files(&self) -> CoreResult<BTreeMap<String, String>> {
        Ok(self
            .files
            .borrow()
            .iter()
            .map(|(k, v)| (k.clone(), String::from_utf8_lossy(v).into_owned()))
            .collect())
    }
}

impl FileStorage for MockStorage {
    fn read_to_string(&self, path: &str) -> CoreResult<Option<String>> {
        match self.files.borrow().get(path) {
            Some(b) => String::from_utf8(b.clone())
                .map(Some)
                .map_err(|_| CoreError::Storage("not utf-8".into())),
            None => Ok(None),
        }
    }

    fn read_bytes(&self, path: &str) -> CoreResult<Option<Vec<u8>>> {
        Ok(self.files.borrow().get(path).cloned())
    }

    fn write_bytes(&mut self, path: &str, data: &[u8]) -> CoreResult<()> {
        self.files.borrow_mut().insert(path.to_string(), data.to_vec());
        Ok(())
    }

    fn path_exists(&self, path: &str) -> CoreResult<bool> {
        Ok(self.files.borrow().contains_key(path))
    }

    fn remove(&mut self, path: &str) -> CoreResult<()> {
        self.files.borrow_mut().remove(path);
        Ok(())
    }

    fn rename(&mut self, from: &str, to: &str) -> CoreResult<()> {
        let data = self
            .files
            .borrow_mut()
            .remove(from)
            .ok_or_else(|| CoreError::Storage("missing".into()))?;
        self.files.borrow_mut().insert(to.to_string(), data);
        Ok(())
    }
}

#[test]
fn mock_atomic_write_leaves_no_tmp() {
    let mut store = MockStorage::new().expect("temp dir");
    store
        .atomic_write_string("notes/index.csv", "notes/index.tmp", "1,Work,0\n")
        .expect("atomic write");
    assert!(store.path_exists("notes/index.csv").expect("exists"));
    assert!(!store.path_exists("notes/index.tmp").expect("exists"));
}

#[test]
fn load_save_roundtrip() {
    let mut storage = MockStorage::new().expect("storage");
    let mut store = IndexStore::new();
    add_to_index(&mut storage, &mut store, 1, "Work", true).expect("add");
    add_to_index(&mut storage, &mut store, 2, "Idea", false).expect("add");
    let mut reloaded = IndexStore::new();
    load_index(&mut storage, &mut reloaded).expect("load");
    assert_eq!(reloaded.entries().len(), 2);
    assert_eq!(reloaded.find(1).unwrap().tag, "Work");
    assert!(reloaded.find(1).unwrap().has_text);
}

#[test]
fn index_file_text_is_one_row_per_line() {
    let mut storage = MockStorage::new().expect("storage");
    let mut store = IndexStore::new();
    add_to_index(&mut storage, &mut store, 12, " Work ", true).expect("add");
    let files = storage.dump_files().expect("dump");
    assert_eq!(files.get(INDEX_FILE).map(String::as_str), Some("12,Work,1\n"));
}

#[test]
fn tag_with_comma_is_refused() {
    let mut storage = MockStorage::new().expect("storage");
    let mut store = IndexStore::new();
    let err = add_to_index(&mut storage, &mut store, 1, "a,b", false).unwrap_err();
    assert_eq!(err, CoreError::InvalidTag("tag must not contain comma".into()));
    assert!(store.entries().is_empty());
}

#[test]
fn next_note_number_increments() {
    let mut store = IndexStore::new();
    store.entries.push(NoteEntry { num: 3, tag: "A".into(), has_text: false });
    store.entries.push(NoteEntry { num: 7, tag: "B".into(), has_text: false });
    assert_eq!(next_note_number(&store), 8);
}

#[test]
fn delete_note_removes_files_and_row() {
    let mut storage = MockStorage::new().expect("storage");
    let mut store = IndexStore::new();
    add_to_index(&mut storage, &mut store, 5, "Note", false).expect("add");
    for ext in ["wav", "txt", "meta"] {
        storage.write_string(&note_path(5, ext), "x").expect("write");
    }
    delete_note(&mut storage, &mut store, 5).expect("delete");
    assert!(store.find(5).is_none());
    for ext in ["wav", "txt", "meta"] {
        assert!(!storage.path_exists(&note_path(5, ext)).expect("exists"));
    }
}

#[test]
fn atomic_index_write_uses_tmp() {
    let mut storage = MockStorage::new().expect("storage");
    let store = IndexStore::new();
    save_index(&mut storage, &store).expect("save empty");
    let files = storage.dump_files().expect("dump");
    assert!(files.contains_key(INDEX_FILE));
    assert!(!files.contains_key(INDEX_TMP));
}

#[test]
fn write_read_meta_roundtrip() {
    let mut storage = MockStorage::new().expect("storage");
    let mut index = IndexStore::new();
    add_to_index(&mut storage, &mut index, 1, "Work", false).expect("add");
    write_note_meta(&mut storage, &index, 1, Some("Work"), Some("2026-07-11T12:30:00Z")).expect("write");
    assert_eq!(read_note_meta_value(&mut storage, 1, "tag").expect("read"), Some("Work".to_string()));
    assert_eq!(
        read_note_meta_value(&mut storage, 1, "created_utc").expect("read"),
        Some("2026-07-11T12:30:00Z".to_string())
    );
}

#[test]
fn utc_to_local_applies_offset() {
    let label = utc_to_local_device_label("2026-07-11T10:00:00Z", 120);
    assert_eq!(label, "2026-07-11 12:00");
}

#[test]
fn utc_to_local_crosses_midnight_and_short_input() {
    assert_eq!(utc_to_local_device_label("2026-12-31T23:30:00Z", 60), "2027-01-01 00:30");
    assert_eq!(utc_to_local_device_label("2026-03-01T00:10:00Z", -20), "2026-02-28 23:50");
    assert_eq!(utc_to_local_device_label("2026-07", 0), "time not set");
}

#[test]
fn save_tag_writes_meta_and_index() {
    let mut storage = MockStorage::new().expect("storage");
    let mut index = IndexStore::new();
    save_tag(&mut storage, &mut index, 3, "Idea").expect("save");
    assert_eq!(index.find(3).unwrap().tag, "Idea");
    assert_eq!(read_note_meta_value(&mut storage, 3, "tag").expect("read"), Some("Idea".to_string()));
}

#[test]
fn default_tags_created_when_missing() {
    let mut storage = MockStorage::new().expect("storage");
    let mut tags = TagStore::new();
    load_tags(&mut storage, &mut tags).expect("load");
    assert_eq!(tags.count(), DEFAULT_TAGS.len());
    assert!(tags.contains_ignore_case("Work"));
}

#[test]
fn add_custom_tag_rejects_duplicate_case_insensitive() {
    let mut storage = MockStorage::new().expect("storage");
    let mut tags = TagStore::new();
    load_tags(&mut storage, &mut tags).expect("load");
    assert!(!add_custom_tag(&mut storage, &mut tags, "work").expect("add"));
    assert_eq!(tags.count(), DEFAULT_TAGS.len());
}

#[test]
fn add_custom_tag_strips_commas_and_newlines() {
    let mut storage = MockStorage::new().expect("storage");
    let mut tags = TagStore::new();
    load_tags(&mut storage, &mut tags).expect("load");
    assert!(add_custom_tag(&mut storage, &mut tags, "  Foo,Bar\n").expect("add"));
    assert!(tags.contains_ignore_case("Foo Bar"));
}

#[test]
fn custom_tags_persist_and_reload() {
    let mut storage = MockStorage::new().expect("storage");
    let mut tags = TagStore::new();
    load_tags(&mut storage, &mut tags).expect("load");
    assert!(add_custom_tag(&mut storage, &mut tags, "Travel   plans").expect("add"));
    let mut again = TagStore::new();
    load_tags(&mut storage, &mut again).expect("reload");
    assert_eq!(again.tags(), tags.tags());
    assert_eq!(again.index_of("Travel plans"), Some(5));
}

#[test]
fn tag_list_is_capped() {
    let mut storage = MockStorage::new().expect("storage");
    let mut tags = TagStore::new();
    load_tags(&mut storage, &mut tags).expect("load");
    for i in 0..15 {
        assert!(add_custom_tag(&mut storage, &mut tags, &format!("T{i}")).expect("add"));
    }
    assert_eq!(tags.count(), 20);
    assert_eq!(add_custom_tag(&mut storage, &mut tags, "One more"), Err(CoreError::TagLimitReached(20)));
}

#[test]
fn delete_tag_moves_notes_to_untagged() {
    let mut storage = MockStorage::new().expect("storage");
    let mut tags = TagStore::new();
    let mut index = IndexStore::new();
    load_tags(&mut storage, &mut tags).expect("load");
    add_to_index(&mut storage, &mut index, 1, "Work", false).expect("add");
    assert!(delete_tag(&mut storage, &mut tags, &mut index, "Work").expect("delete"));
    assert_eq!(index.find(1).unwrap().tag, "Untagged");
    assert!(!tags.contains_ignore_case("Work"));
}

#[test]
fn cannot_delete_untagged() {
    let mut storage = MockStorage::new().expect("storage");
    let mut tags = TagStore::new();
    let mut index = IndexStore::new();
    load_tags(&mut storage, &mut tags).expect("load");
    tags.tags.push("Untagged".to_string());
    assert!(!delete_tag(&mut storage, &mut tags, &mut index, "Untagged").expect("delete"));
}

struct MockHttp;

impl HttpClient for MockHttp {
    fn post_multipart_wav(&mut self, _config: &TranscriptionConfig, _wav: &[u8], _filename: &str) -> CoreResult<String> {
        Ok(r#"{"text":"Hello from mock Whisper"}"#.to_string())
    }
}

struct FailingHttp {
    calls: u32,
}

impl HttpClient for FailingHttp {
    fn post_multipart_wav(&mut self, _config: &TranscriptionConfig, _wav: &[u8], _filename: &str) -> CoreResult<String> {
        self.calls += 1;
        Err(CoreError::Other("offline".into()))
    }
}

#[test]
fn transcribe_writes_txt_and_updates_index() {
    let mut storage = MockStorage::new().expect("storage");
    let mut index = IndexStore::new();
    add_to_index(&mut storage, &mut index, 1, "Work", false).expect("add");
    storage.write_bytes(&note_path(1, "wav"), &[0u8; 2048]).expect("wav");
    let config = TranscriptionConfig::from_secrets("openai", "sk-test", "", None).expect("cfg");
    let mut http = MockHttp;
    let mut delay = MockDelay::default();
    assert!(transcribe_note(&mut storage, &mut index, &config, 1, &mut http, &mut delay).expect("tx"));
    assert!(index.find(1).unwrap().has_text);
    let txt = storage.read_to_string(&note_path(1, "txt")).expect("read").expect("txt");
    assert!(txt.contains("Hello from mock Whisper"));
    assert!(delay.waits.is_empty());
}

#[test]
fn failed_upload_retries_then_gives_up() {
    let mut storage = MockStorage::new().expect("storage");
    let mut index = IndexStore::new();
    add_to_index(&mut storage, &mut index, 1, "Work", false).expect("add");
    storage.write_bytes(&note_path(1, "wav"), &[0u8; 16]).expect("wav");
    let config = TranscriptionConfig::from_secrets("openai", "sk-test", "", None).expect("cfg");
    let mut http = FailingHttp { calls: 0 };
    let mut delay = MockDelay::default();
    assert!(!transcribe_note(&mut storage, &mut index, &config, 1, &mut http, &mut delay).expect("tx"));
    assert_eq!(http.calls, 3);
    assert_eq!(delay.waits, vec![3000, 3000]);
    assert!(!index.find(1).unwrap().has_text);
}

#[test]
fn transcribe_all_reports_each_step_then_the_total() {
    let mut storage = MockStorage::new().expect("storage");
    let mut index = IndexStore::new();
    add_to_index(&mut storage, &mut index, 1, "Work", false).expect("add");
    add_to_index(&mut storage, &mut index, 2, "Home", true).expect("add");
    add_to_index(&mut storage, &mut index, 3, "Work", false).expect("add");
    storage.write_bytes(&note_path(1, "wav"), &[0u8; 64]).expect("wav");
    storage.write_bytes(&note_path(3, "wav"), &[0u8; 64]).expect("wav");
    let config = TranscriptionConfig::from_secrets("openai", "sk-test", "", None).expect("cfg");
    let mut http = MockHttp;
    let mut delay = MockDelay::default();
    let mut progress = MockProgress::default();
    let done = transcribe_all(&mut storage, &mut index, &config, &mut http, &mut delay, &mut progress).expect("all");
    assert_eq!(done, 2);
    assert_eq!(progress.reports, vec![(0, 2), (1, 2), (2, 2)]);
    assert!(delay.waits.is_empty());
    assert!(index.find(1).unwrap().has_text);
    assert!(index.find(3).unwrap().has_text);
}

#[test]
fn transcribe_all_with_nothing_pending_reports_once() {
    let mut storage = MockStorage::new().expect("storage");
    let mut index = IndexStore::new();
    add_to_index(&mut storage, &mut index, 1, "Work", true).expect("add");
    let config = TranscriptionConfig::from_secrets("openai", "sk-test", "", None).expect("cfg");
    let mut http = FailingHttp { calls: 0 };
    let mut delay = MockDelay::default();
    let mut progress = MockProgress::default();
    let done = transcribe_all(&mut storage, &mut index, &config, &mut http, &mut delay, &mut progress).expect("all");
    assert_eq!(done, 0);
    assert_eq!(progress.reports, vec![(0, 0)]);
    assert_eq!(http.calls, 0);
}

#[test]
fn pending_lists_untranscribed_only() {
    let mut storage = MockStorage::new().unwrap();
    let mut index = IndexStore::new();
    add_to_index(&mut storage, &mut index, 1, "A", false).unwrap();
    add_to_index(&mut storage, &mut index, 2, "B", true).unwrap();
    assert_eq!(pending_transcription(&index), vec![1]);
}

#[test]
fn record_rejects_short_clip() {
    let mut storage = MockStorage::new().expect("storage");
    let mut audio = MockAudio::new();
    let mut session = RecordSession::start(1);
    session.begin(&mut audio, &mut storage, 0).expect("begin");
    session.mono_bytes = 500;
    let out = session.stop(&mut audio, &mut storage, 600);
    assert_eq!(out, RecordOutcome::TooShort);
}

#[test]
fn record_writes_valid_wav_header() {
    let mut storage = MockStorage::new().expect("storage");
    let mut audio = MockAudio::new();
    let mut session = RecordSession::start(2);
    session.begin(&mut audio, &mut storage, 0).expect("begin");
    for _ in 0..4 {
        session.pump(&mut audio, &mut storage).expect("pump");
    }
    let out = session.stop(&mut audio, &mut storage, 1000);
    match out {
        RecordOutcome::Success { num, .. } => assert_eq!(num, 2),
        other => panic!("expected success, got {other:?}"),
    }
    let bytes = storage.read_bytes(&session.path).expect("read").expect("file");
    let hdr = parse_wav_header(&bytes).expect("hdr");
    assert!(hdr.data_bytes > MIN_MONO_BYTES as u32);
}

#[test]
fn recording_duration_from_bytes() {
    assert_eq!(duration_ms_from_mono_bytes(32_000), 1000);
    assert_eq!(duration_ms_from_mono_bytes(48_000), 1500);
}

fn setup() -> (MockStorage, IndexStore, TagStore) {
    let mut storage = MockStorage::new().expect("storage");
    let mut index = IndexStore::new();
    let mut tags = TagStore::new();
    load_tags(&mut storage, &mut tags).expect("tags");
    add_to_index(&mut storage, &mut index, 1, "Work", true).expect("add");
    storage.write_string(&note_path(1, "txt"), "Hello portal").expect("txt");
    storage.write_bytes(&note_path(1, "wav"), &[0u8; 100]).expect("wav");
    (storage, index, tags)
}

fn get(path: &str) -> HttpRequest {
    HttpRequest { method: "GET".into(), path: path.into(), query: vec![] }
}

#[test]
fn root_returns_html_with_note() {
    let (mut storage, mut index, mut tags) = setup();
    let resp = handle_portal_request(&mut storage, &mut index, &mut tags, &get("/")).expect("handle");
    let body = String::from_utf8(resp.body).expect("utf8");
    assert!(body.contains("zoop"));
    assert!(body.contains("Hello portal"));
}

#[test]
fn api_notes_json() {
    let (mut storage, mut index, mut tags) = setup();
    let resp = handle_portal_request(&mut storage, &mut index, &mut tags, &get("/api/notes")).expect("handle");
    let body = String::from_utf8(resp.body).expect("utf8");
    assert!(body.contains("\"num\":1"));
    assert!(body.contains("\"tag\":\"Work\""));
}

#[test]
fn export_txt_attachment() {
    let (mut storage, mut index, mut tags) = setup();
    let resp = handle_portal_request(&mut storage, &mut index, &mut tags, &get("/export.txt")).expect("handle");
    assert_eq!(resp.attachment, Some("zoop_notes_export.txt".into()));
}

#[test]
fn tag_add_and_delete_via_redirect() {
    let (mut storage, mut index, mut tags) = setup();
    let add = handle_portal_request(
        &mut storage,
        &mut index,
        &mut tags,
        &HttpRequest {
            method: "GET".into(),
            path: "/tag/add?name=Travel".into(),
            query: vec![("name".into(), "Travel".into())],
        },
    )
    .expect("add");
    assert_eq!(add.redirect, Some("/tags?msg=added".into()));
    assert!(tags.contains_ignore_case("Travel"));
}

#[test]
fn portal_unknown_route_and_bad_num() {
    let (mut storage, mut index, mut tags) = setup();
    let nf = handle_portal_request(&mut storage, &mut index, &mut tags, &get("/nope")).expect("nf");
    assert_eq!(nf.status, 404);
    let bad = handle_portal_request(&mut storage, &mut index, &mut tags, &get("/txt?num=abc")).expect("bad");
    assert_eq!(bad.status, 400);
    assert_eq!(bad.body, b"Invalid num".to_vec());
    let file = handle_portal_request(&mut storage, &mut index, &mut tags, &get("/txt?num=1")).expect("file");
    assert_eq!(file.status, 200);
    assert_eq!(file.attachment, Some("note_001.txt".into()));
    assert_eq!(file.body, b"Hello portal".to_vec());
}

#[test]
fn portal_note_delete_redirects_home() {
    let (mut storage, mut index, mut tags) = setup();
    let resp = handle_portal_request(&mut storage, &mut index, &mut tags, &get("/note/delete?num=1")).expect("del");
    assert_eq!(resp.redirect, Some("/".into()));
    assert!(index.find(1).is_none());
}

#[test]
fn tags_page_lists_counts() {
    let (mut storage, mut index, mut tags) = setup();
    let resp = handle_portal_request(&mut storage, &mut index, &mut tags, &get("/tags?msg=added")).expect("tags");
    let body = String::from_utf8(resp.body).expect("utf8");
    assert!(body.contains("<span>Work</span> <span>1 notes</span>"));
    assert!(body.contains("<div class='msg'>added</div>"));
}

#[test]
fn root_and_export_on_an_empty_index_succeed() {
    let mut storage = MockStorage::new().expect("storage");
    let mut index = IndexStore::new();
    let mut tags = TagStore::new();
    let root = handle_portal_request(&mut storage, &mut index, &mut tags, &get("/")).expect("root");
    assert_eq!(root.status, 200);
    let export = handle_portal_request(&mut storage, &mut index, &mut tags, &get("/export.txt")).expect("export");
    assert_eq!(export.status, 200);
}

#[test]
fn root_with_an_unmatched_filter_shows_no_card() {
    let (mut storage, mut index, mut tags) = setup();
    let resp = handle_portal_request(&mut storage, &mut index, &mut tags, &get("/?tag=Nothing")).expect("root");
    assert_eq!(resp.status, 200);
    let body = String::from_utf8(resp.body).expect("utf8");
    assert!(!body.contains("Hello portal"));
}

#[test]
fn pump_counts_the_bytes_the_recorder_handed_out() {
    let mut storage = MockStorage::new().expect("storage");
    let mut audio = MockAudio::new();
    let mut session = RecordSession::start(3);
    session.pump(&mut audio, &mut storage).expect("idle pump");
    assert_eq!(session.mono_bytes, 0);
    session.begin(&mut audio, &mut storage, 0).expect("begin");
    for _ in 0..3 {
        session.pump(&mut audio, &mut storage).expect("pump");
    }
    assert_eq!(session.mono_bytes, 1536);
    assert_eq!(audio.record_chunks.len(), 3);
    let bytes = storage.read_bytes(&session.path).expect("read").expect("file");
    assert_eq!(bytes.len(), 44 + 1536);
}

#[test]
fn mem_storage_reads_back_writes_and_refuses_bad_text() {
    let mut st = MemStorage::new();
    st.write_bytes("a.bin", &[1, 2, 3]).unwrap();
    assert_eq!(st.read_bytes("a.bin").unwrap(), Some(vec![1, 2, 3]));
    st.write_bytes("a.bin", &[9]).unwrap();
    assert_eq!(st.read_bytes("a.bin").unwrap(), Some(vec![9]));
    assert_eq!(st.read_bytes("b.bin").unwrap(), None);
    st.write_bytes("bad.txt", &[0xff, 0xfe]).unwrap();
    assert!(st.read_to_string("bad.txt").is_err());
    st.write_string("ok.txt", "héllo").unwrap();
    assert_eq!(st.read_to_string("ok.txt").unwrap(), Some("héllo".to_string()));
    assert!(st.rename("missing", "x").is_err());
    st.atomic_write("final.txt", "final.tmp", b"data").unwrap();
    assert!(st.path_exists("final.txt").unwrap());
    assert!(!st.path_exists("final.tmp").unwrap());
    st.remove("final.txt").unwrap();
    st.remove("final.txt").unwrap();
    assert!(!st.path_exists("final.txt").unwrap());
}

#[test]
fn mem_storage_delete_note_removes_files_and_row() {
    let mut st = MemStorage::new();
    let mut s = IndexStore::new();
    add_to_index(&mut st, &mut s, 4, "Keep", false).unwrap();
    add_to_index(&mut st, &mut s, 5, "Note", false).unwrap();
    for ext in ["wav", "txt", "meta"] {
        st.write_string(&note_path(5, ext), "x").unwrap();
    }
    assert_eq!(delete_note(&mut st, &mut s, 5), Ok(()));
    assert!(s.find(5).is_none());
    assert!(s.find(4).is_some());
    for ext in ["wav", "txt", "meta"] {
        assert!(!st.path_exists(&note_path(5, ext)).unwrap());
    }
    let mut reloaded = IndexStore::new();
    load_index(&st, &mut reloaded).unwrap();
    assert_eq!(reloaded.entries.len(), 1);
    assert_eq!(read_note_meta_value(&st, 5, "tag"), Ok(None));
}

#[test]
fn stop_rewrites_the_header_and_restores_the_volume() {
    let mut storage = MemStorage::new();
    let mut audio = MockAudio::new();
    let mut session = RecordSession::start(7);
    session.begin(&mut audio, &mut storage, 0).expect("begin");
    assert_eq!(audio.volume, 0);
    assert!(audio.recording);
    for _ in 0..3 {
        session.pump(&mut audio, &mut storage).expect("pump");
    }
    let out = session.stop(&mut audio, &mut storage, 1000);
    assert_eq!(out, RecordOutcome::Success { num: 7, mono_bytes: 1536 });
    assert!(!audio.recording);
    assert_eq!(audio.volume, 85);
    let bytes = storage.read_bytes(&session.path).unwrap().unwrap();
    assert_eq!(parse_wav_header(&bytes).unwrap().data_bytes, 1536);
}

#[test]
fn a_short_clip_is_removed_from_the_store() {
    let mut storage = MemStorage::new();
    let mut audio = MockAudio::new();
    let mut session = RecordSession::start(8);
    session.begin(&mut audio, &mut storage, 0).expect("begin");
    assert!(storage.path_exists(&session.path).unwrap());
    assert_eq!(session.stop(&mut audio, &mut storage, 100), RecordOutcome::TooShort);
    assert!(!storage.path_exists(&session.path).unwrap());
}
