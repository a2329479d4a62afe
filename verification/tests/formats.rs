use zoop_core::payment::{parse_inr_paise, MerchantProfile, PaymentLedger, PaymentRequest, PriceCatalog};
use zoop_core::portal_fmt::{export_filename, format_export_text, html_escape, url_decode_simple, ExportNote};
use zoop_core::transcribe::{
    parse_transcription_response, TranscribeError, TranscriptionConfig, TranscriptionProvider,
    CURSOR_HOST, OPENAI_HOST,
};
use zoop_core::upi::{build_upi_uri, format_amount_label};
use zoop_core::wav::{build_wav_header, parse_wav_header, WavHeader, SAMPLE_RATE};
use zoop_core::whisper_parse::parse_whisper_text;
use zoop_core::network::whisper::transcript_from_body;

#[test]
fn request_builds_upi_uri() {
    let m = MerchantProfile::default();
    let req = PaymentRequest::new(&m, "100.00", "Order");
    assert!(req.uri.contains("pa=akash@oksbi"));
    assert!(req.uri.contains("am=100.00"));
    assert_eq!(req.amount_label(), "Rs 100");
}

#[test]
fn ledger_assigns_numbers() {
    let mut led = PaymentLedger::new();
    let a = led.push_paid("50.00", "a");
    let b = led.push_paid("75.00", "b");
    assert_eq!(a.num, 1);
    assert_eq!(b.num, 2);
    assert_eq!(led.len(), 2);
    assert_eq!(led.total_paid_label(), "Rs 125");
    assert_eq!(led.recent_labels(1), vec!["#002  Rs 75".to_string()]);
}

#[test]
fn parse_paise() {
    assert_eq!(parse_inr_paise("100.00"), 10000);
    assert_eq!(parse_inr_paise("50"), 5000);
    assert_eq!(parse_inr_paise(""), 0);
}

#[test]
fn parse_paise_single_decimal() {
    assert_eq!(parse_inr_paise("12.5"), 1250);
}

#[test]
fn price_catalog_defaults() {
    let c = PriceCatalog::from_defaults();
    assert_eq!(c.len(), 6);
    assert_eq!(c.get(1), Some("100.00"));
    assert!(c.labels()[0].starts_with("Rs "));
}

#[test]
fn builds_upi_uri() {
    let u = build_upi_uri("akash@upi", "Akash Soni", "250.00", "Zoop");
    assert!(u.starts_with("upi://pay?"));
    assert!(u.contains("pa=akash@upi"));
    assert!(u.contains("pn=Akash%20Soni"));
    assert!(u.contains("am=250.00"));
    assert!(u.contains("cu=INR"));
    assert!(u.contains("tn=Zoop"));
}

#[test]
fn formats_amount() {
    assert_eq!(format_amount_label("100.00"), "Rs 100");
    assert_eq!(format_amount_label(""), "any amount");
}

#[test]
fn formats_amount_single_zero() {
    assert_eq!(format_amount_label("12.0"), "Rs 12");
    assert_eq!(format_amount_label("12.50"), "Rs 12.50");
}

#[test]
fn build_parse_roundtrip() {
    let data_bytes = 32000;
    let header = build_wav_header(data_bytes);
    let parsed = parse_wav_header(&header).expect("parse");
    assert_eq!(parsed.sample_rate, SAMPLE_RATE);
    assert_eq!(parsed.channels, 1);
    assert_eq!(parsed.bits_per_sample, 16);
    assert_eq!(parsed.data_bytes, data_bytes);
}

#[test]
fn header_matches_record_cpp_layout() {
    let data_bytes = 16000u32;
    let h = build_wav_header(data_bytes);
    assert_eq!(&h[0..4], b"RIFF");
    assert_eq!(u32::from_le_bytes(h[4..8].try_into().unwrap()), data_bytes + 36);
    assert_eq!(&h[36..40], b"data");
    assert_eq!(u32::from_le_bytes(h[40..44].try_into().unwrap()), data_bytes);
}

#[test]
fn rejects_short_buffer() {
    assert!(parse_wav_header(&[0u8; 10]).is_err());
}

#[test]
fn wav_header_arithmetic() {
    let h = WavHeader::new_mono_pcm(1000);
    assert_eq!(h.byte_rate(), 32000);
    assert_eq!(h.block_align(), 2);
    assert_eq!(h.riff_chunk_size(), 1036);
    assert_eq!(h.total_file_bytes(), 1044);
}

#[test]
fn parses_simple_json() {
    let json = r#"{"text":"Hello world"}"#;
    assert_eq!(parse_whisper_text(json), Some("Hello world".to_string()));
}

#[test]
fn unescapes_quotes_and_newlines() {
    let json = r#"{"text":"Say \"hi\"\nand bye"}"#;
    assert_eq!(parse_whisper_text(json), Some("Say \"hi\" and bye".to_string()));
}

#[test]
fn returns_none_when_missing() {
    assert_eq!(parse_whisper_text(r#"{"error":"x"}"#), None);
}

#[test]
fn handles_whitespace_in_text() {
    let json = r#"{"text":"  meeting at three  "}"#;
    assert_eq!(parse_whisper_text(json), Some("  meeting at three  ".to_string()));
}

#[test]
fn transcript_falls_back_to_empty() {
    assert_eq!(transcript_from_body(r#"{"text":"ok"}"#), "ok");
    assert_eq!(transcript_from_body("not json"), "");
}

fn openai_config() -> TranscriptionConfig {
    TranscriptionConfig::from_secrets("openai", "sk-test-openai", "", None).unwrap()
}

fn cursor_config() -> TranscriptionConfig {
    TranscriptionConfig::from_secrets("cursor", "", "crsr_test_key", None).unwrap()
}

#[test]
fn resolves_openai_provider() {
    let cfg = openai_config();
    assert_eq!(cfg.provider, TranscriptionProvider::OpenAi);
    assert_eq!(cfg.host, OPENAI_HOST);
    assert_eq!(cfg.api_key, "sk-test-openai");
    assert_eq!(cfg.path, "/v1/audio/transcriptions");
    assert_eq!(cfg.model, "whisper-1");
}

#[test]
fn resolves_cursor_provider() {
    let cfg = cursor_config();
    assert_eq!(cfg.provider, TranscriptionProvider::Cursor);
    assert_eq!(cfg.host, CURSOR_HOST);
    assert_eq!(cfg.api_key, "crsr_test_key");
}

#[test]
fn base_host_override() {
    let cfg = TranscriptionConfig::from_secrets("cursor", "", "crsr_test", Some("localhost:8000")).unwrap();
    assert_eq!(cfg.host, "localhost:8000");
}

#[test]
fn rejects_unknown_provider() {
    assert!(matches!(
        TranscriptionConfig::from_secrets("azure", "k", "k", None),
        Err(TranscribeError::UnknownProvider(_))
    ));
}

#[test]
fn rejects_missing_key() {
    assert!(matches!(
        TranscriptionConfig::from_secrets("openai", "", "", None),
        Err(TranscribeError::MissingApiKey(TranscriptionProvider::OpenAi))
    ));
    assert!(matches!(
        TranscriptionConfig::from_secrets("cursor", "", "", None),
        Err(TranscribeError::MissingApiKey(TranscriptionProvider::Cursor))
    ));
}

#[test]
fn provider_names_ignore_case_and_space() {
    assert_eq!(TranscriptionProvider::parse("  OpenAI_Whisper "), Some(TranscriptionProvider::OpenAi));
    assert_eq!(TranscriptionProvider::parse("Cursor"), Some(TranscriptionProvider::Cursor));
    assert_eq!(TranscriptionProvider::parse("bing"), None);
}

#[test]
fn multipart_matches_pala_note_shape() {
    let cfg = openai_config();
    let pre = cfg.multipart_preamble("note.wav");
    assert!(pre.contains("name=\"model\""));
    assert!(pre.contains("whisper-1"));
    assert!(pre.contains("filename=\"note.wav\""));
    assert!(pre.contains("Content-Type: audio/wav"));
    assert!(pre.starts_with(&format!("--{}", cfg.boundary)));
    let post = cfg.multipart_epilogue();
    assert_eq!(post, format!("\r\n--{}--\r\n", cfg.boundary));
    assert_eq!(cfg.multipart_total_len(1024, "note.wav"), pre.len() + 1024 + post.len());
}

#[test]
fn http_head_has_bearer_and_host() {
    let cfg = cursor_config();
    let head = cfg.http_request_head(5000);
    assert!(head.contains("POST /v1/audio/transcriptions HTTP/1.1"));
    assert!(head.contains("Host: api.cursor.com"));
    assert!(head.contains("Authorization: Bearer crsr_test_key"));
    assert!(head.contains(&format!("boundary={}", cfg.boundary)));
    assert!(head.contains("Content-Length: 5000"));
}

#[test]
fn parses_response_text() {
    let body = r#"{"text":"Hello from Whisper"}"#;
    assert_eq!(parse_transcription_response(body), Some("Hello from Whisper".to_string()));
}

#[test]
fn html_escape_encodes_special_chars() {
    assert_eq!(
        html_escape(r#"<a href="x">&"y"</a>"#),
        "&lt;a href=&quot;x&quot;&gt;&amp;&quot;y&quot;&lt;/a&gt;"
    );
}

#[test]
fn export_includes_notes_newest_first() {
    let notes = vec![
        ExportNote {
            num: 1,
            tag: "Work".into(),
            created_utc: Some("2026-01-01T10:00:00Z".into()),
            transcript: "First".into(),
            has_text: true,
        },
        ExportNote { num: 2, tag: "Idea".into(), created_utc: None, transcript: "Second".into(), has_text: true },
    ];
    let text = format_export_text("All", &notes);
    assert!(text.contains("#002 · Idea"));
    assert!(text.contains("#001 · Work"));
    let pos2 = text.find("#002").expect("002");
    let pos1 = text.find("#001").expect("001");
    assert!(pos2 < pos1);
}

#[test]
fn export_truncates_at_limit() {
    let big = "x".repeat(60_000);
    let notes = vec![ExportNote { num: 1, tag: "Work".into(), created_utc: None, transcript: big, has_text: true }];
    let text = format_export_text("All", &notes);
    assert!(text.contains("Export truncated"));
}

#[test]
fn export_filters_by_tag() {
    let notes = vec![
        ExportNote { num: 1, tag: "Work".into(), created_utc: None, transcript: "A".into(), has_text: true },
        ExportNote { num: 2, tag: "Idea".into(), created_utc: None, transcript: "B".into(), has_text: true },
    ];
    let text = format_export_text("Work", &notes);
    assert!(text.contains("#001 · Work"));
    assert!(!text.contains("#002"));
}

#[test]
fn export_placeholders_and_filename() {
    let notes = vec![ExportNote { num: 7, tag: "Buy".into(), created_utc: None, transcript: String::new(), has_text: false }];
    let text = format_export_text("Buy", &notes);
    assert!(text.contains("Not transcribed yet."));
    assert_eq!(export_filename("All"), "zoop_notes_export.txt");
    assert_eq!(export_filename("Buy"), "zoop_notes_export_Buy.txt");
}

#[test]
fn url_decode_handles_plus_and_escapes() {
    assert_eq!(url_decode_simple("Foo+Bar%21"), "Foo Bar!");
    assert_eq!(url_decode_simple("100%"), "100%");
}

#[test]
fn url_decode_reads_back_upi_encoding() {
    let uri = build_upi_uri("shop@ok", "Ravi & Sons+Co", "10.50", "tea/coffee");
    assert!(uri.contains("pn=Ravi%20%26%20Sons%2BCo"));
    assert!(uri.contains("tn=tea%2Fcoffee"));
    assert_eq!(url_decode_simple("Ravi%20%26%20Sons%2BCo"), "Ravi & Sons+Co");
    assert_eq!(url_decode_simple("tea%2Fcoffee"), "tea/coffee");
    // Non-ASCII text comes back one character per UTF-8 byte.
    assert_eq!(url_decode_simple("%C3%A9"), "\u{c3}\u{a9}");
}

#[test]
fn html_escape_leaves_no_markup() {
    let out = html_escape("<a href=\"x\">&</a>");
    assert_eq!(out, "&lt;a href=&quot;x&quot;&gt;&amp;&lt;/a&gt;");
    assert!(!out.contains('<') && !out.contains('>') && !out.contains('"'));
}

#[test]
fn paise_of_an_amount_that_is_not_a_number_is_zero() {
    assert_eq!(parse_inr_paise("abc.50"), 0);
    assert_eq!(parse_inr_paise("1.5x"), 0);
    assert_eq!(parse_inr_paise("abc"), 0);
    assert_eq!(parse_inr_paise("  7.25 "), 725);
    assert_eq!(parse_inr_paise("3."), 300);
}

#[test]
fn upi_uri_matches_the_documented_example() {
    assert_eq!(
        build_upi_uri("merchant@upi", "Akash Soni", "100.00", "Order"),
        "upi://pay?pa=merchant@upi&pn=Akash%20Soni&am=100.00&cu=INR&tn=Order"
    );
    assert_eq!(build_upi_uri("a@b", "X", "", ""), "upi://pay?pa=a@b&pn=X&cu=INR");
}

#[test]
fn whisper_text_reads_back_escaped_quotes_and_backslashes() {
    assert_eq!(
        parse_whisper_text(r#"{"text":"a\"b\\c"}"#),
        Some("a\"b\\c".to_string())
    );
}

#[test]
fn export_lists_filtered_notes_newest_first_after_the_header() {
    let note = |num: i32, tag: &str, t: &str| ExportNote {
        num,
        tag: tag.to_string(),
        created_utc: None,
        transcript: t.to_string(),
        has_text: true,
    };
    let notes = vec![note(1, "Work", "first"), note(2, "Home", "second"), note(3, "Work", "third")];
    let text = format_export_text("Work", &notes);
    assert!(text.starts_with("Zoop Export\nFilter: Work\n------------------------------\n\n"));
    let third = text.find("third").unwrap();
    let first = text.find("first").unwrap();
    assert!(third < first);
    assert!(!text.contains("second"));
}
