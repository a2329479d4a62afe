//! Whisper-style transcription HTTP helpers.
//!
//! Provider selection is environment-based: dev uses Cursor API credentials,
//! production uses OpenAI. The same multipart format is used for both hosts.
use vstd::prelude::*;
use vstd::utf8::encode_utf8;

use crate::text::{
    chars_of, dec_digits, owned, push_dec, push_str, str_eq, string_from_chars, to_ascii_lower,
    trim, trim_chars, ascii_lower, utf8_len, lemma_utf8_len_concat,
};
use crate::whisper_parse::{parse_whisper_text, whisper_text_spec};

verus! {

pub const TRANSCRIPTION_PATH: &'static str = "/v1/audio/transcriptions";

pub const DEFAULT_MODEL: &'static str = "whisper-1";

pub const DEFAULT_BOUNDARY: &'static str = "----ZoopBoundary";

pub const OPENAI_HOST: &'static str = "api.openai.com";

pub const CURSOR_HOST: &'static str = "api.cursor.com";

/// Which upstream credentials and default host to use.
#[derive(Debug, Clone, Copy, PartialEq, Eq, Structural)]
pub enum TranscriptionProvider {
    OpenAi,
    Cursor,
}

/// Trimmed, ASCII-lower-cased form of a provider name.
pub open spec fn normalized(value: Seq<char>) -> Seq<char> {
    trim(value).map_values(|c: char| ascii_lower(c))
}

/// Provider named by a `secrets.toml` value.
pub open spec fn provider_spec(value: Seq<char>) -> Option<TranscriptionProvider> {
    let v = normalized(value);
    if v == "openai"@ || v == "openai_whisper"@ || v == "whisper"@ {
        Some(TranscriptionProvider::OpenAi)
    } else if v == "cursor"@ {
        Some(TranscriptionProvider::Cursor)
    } else {
        None
    }
}

impl TranscriptionProvider {
    /// Accepts `openai`, `openai_whisper`, `whisper` and `cursor`, ignoring
    /// surrounding white space and ASCII case.
    pub fn parse(value: &str) -> (p: Option<Self>)
        ensures
            p == provider_spec(value@),
    {
        let raw = chars_of(value);
        let t = trim_chars(&raw);
        let mut lower: Vec<char> = Vec::new();
        for i in 0..t.len()
            invariant
                lower@ == t@.take(i as int).map_values(|c: char| ascii_lower(c)),
        {
            lower.push(to_ascii_lower(t[i]));
            assert(lower@ =~= t@.take(i + 1).map_values(|c: char| ascii_lower(c)));
        }
        assert(t@.take(t@.len() as int) =~= t@);
        let v = string_from_chars(&lower);
        let s = v.as_str();
        if str_eq(s, "openai") || str_eq(s, "openai_whisper") || str_eq(s, "whisper") {
            Some(Self::OpenAi)
        } else if str_eq(s, "cursor") {
            Some(Self::Cursor)
        } else {
            None
        }
    }

    pub open spec fn name(self) -> Seq<char> {
        match self {
            TranscriptionProvider::OpenAi => "openai"@,
            TranscriptionProvider::Cursor => "cursor"@,
        }
    }

    pub open spec fn host(self) -> Seq<char> {
        match self {
            TranscriptionProvider::OpenAi => OPENAI_HOST@,
            TranscriptionProvider::Cursor => CURSOR_HOST@,
        }
    }

    pub fn as_str(self) -> (s: &'static str)
        ensures
            s@ == self.name(),
    {
        match self {
            Self::OpenAi => "openai",
            Self::Cursor => "cursor",
        }
    }

    pub fn default_host(self) -> (s: &'static str)
        ensures
            s@ == self.host(),
    {
        match self {
            Self::OpenAi => OPENAI_HOST,
            Self::Cursor => CURSOR_HOST,
        }
    }
}

#[derive(Debug, Clone, PartialEq, Eq)]
pub struct TranscriptionConfig {
    pub provider: TranscriptionProvider,
    pub host: String,
    pub path: String,
    pub api_key: String,
    pub model: String,
    pub boundary: String,
}

#[derive(Debug, Clone, PartialEq, Eq)]
pub enum TranscribeError {
    UnknownProvider(String),
    MissingApiKey(TranscriptionProvider),
}

/// `--B\r\n…name="model"…\r\n\r\nMODEL\r\n--B\r\n…filename="F"\r\nContent-Type: audio/wav\r\n\r\n`.
pub open spec fn preamble_spec(boundary: Seq<char>, model: Seq<char>, filename: Seq<char>) -> Seq<char> {
    "--"@ + boundary + "\r\nContent-Disposition: form-data; name=\"model\"\r\n\r\n"@ + model
        + "\r\n--"@ + boundary
        + "\r\nContent-Disposition: form-data; name=\"file\"; filename=\""@ + filename
        + "\"\r\nContent-Type: audio/wav\r\n\r\n"@
}

/// `\r\n--B--\r\n`.
pub open spec fn epilogue_spec(boundary: Seq<char>) -> Seq<char> {
    "\r\n--"@ + boundary + "--\r\n"@
}

/// The HTTP/1.1 request head for the multipart upload.
pub open spec fn request_head_spec(
    path: Seq<char>,
    host: Seq<char>,
    api_key: Seq<char>,
    boundary: Seq<char>,
    total_len: nat,
) -> Seq<char> {
    "POST "@ + path + " HTTP/1.1\r\nHost: "@ + host + "\r\nAuthorization: Bearer "@ + api_key
        + "\r\nContent-Type: multipart/form-data; boundary="@ + boundary
        + "\r\nContent-Length: "@ + dec_digits(total_len) + "\r\nConnection: close\r\n\r\n"@
}

impl TranscriptionConfig {
    /// Build config from `secrets.toml` fields (host-testable, no file I/O).
    /// The key is the trimmed key of the chosen provider; a non-blank host
    /// override replaces the provider's default host.
    pub fn from_secrets(
        transcription_provider: &str,
        openai_key: &str,
        cursor_api_key: &str,
        transcription_base_host: Option<&str>,
    ) -> (r: Result<Self, TranscribeError>)
        ensures
            match provider_spec(transcription_provider@) {
                None => r matches Err(TranscribeError::UnknownProvider(v)) && v@
                    == transcription_provider@,
                Some(p) => {
                    let key = trim(
                        if p == TranscriptionProvider::OpenAi {
                            openai_key@
                        } else {
                            cursor_api_key@
                        },
                    );
                    if key.len() == 0 {
                        r == Err::<TranscriptionConfig, TranscribeError>(
                            TranscribeError::MissingApiKey(p),
                        )
                    } else {
                        r matches Ok(c) && c.provider == p && c.api_key@ == key && c.host@ == (
                        match transcription_base_host {
                            Some(h) => if trim(h@).len() > 0 {
                                trim(h@)
                            } else {
                                p.host()
                            },
                            None => p.host(),
                        }) && c.path@ == TRANSCRIPTION_PATH@ && c.model@ == DEFAULT_MODEL@
                            && c.boundary@ == DEFAULT_BOUNDARY@
                    }
                },
            },
    {
        let provider = match TranscriptionProvider::parse(transcription_provider) {
            Some(p) => p,
            None => {
                return Err(TranscribeError::UnknownProvider(owned(transcription_provider)));
            },
        };
        let raw_key = match provider {
            TranscriptionProvider::OpenAi => openai_key,
            TranscriptionProvider::Cursor => cursor_api_key,
        };
        let api_key = crate::text::trim_str(raw_key);
        if api_key.as_str().is_empty() {
            return Err(TranscribeError::MissingApiKey(provider));
        }
        let host = match transcription_base_host {
            Some(h) => {
                let t = crate::text::trim_str(h);
                if t.as_str().is_empty() {
                    owned(provider.default_host())
                } else {
                    t
                }
            },
            None => owned(provider.default_host()),
        };
        Ok(Self {
            provider,
            host,
            path: owned(TRANSCRIPTION_PATH),
            api_key,
            model: owned(DEFAULT_MODEL),
            boundary: owned(DEFAULT_BOUNDARY),
        })
    }

    pub fn transcription_url(&self) -> (u: String)
        ensures
            u@ == "https://"@ + self.host@ + self.path@,
    {
        let mut u = String::new();
        push_str(&mut u, "https://");
        push_str(&mut u, self.host.as_str());
        push_str(&mut u, self.path.as_str());
        assert(u@ =~= "https://"@ + self.host@ + self.path@);
        u
    }

    /// Multipart preamble: model field + file field header (body bytes follow).
    pub fn multipart_preamble(&self, filename: &str) -> (p: String)
        ensures
            p@ == preamble_spec(self.boundary@, self.model@, filename@),
    {
        let mut p = String::new();
        push_str(&mut p, "--");
        push_str(&mut p, self.boundary.as_str());
        push_str(&mut p, "\r\nContent-Disposition: form-data; name=\"model\"\r\n\r\n");
        push_str(&mut p, self.model.as_str());
        push_str(&mut p, "\r\n--");
        push_str(&mut p, self.boundary.as_str());
        push_str(&mut p, "\r\nContent-Disposition: form-data; name=\"file\"; filename=\"");
        push_str(&mut p, filename);
        push_str(&mut p, "\"\r\nContent-Type: audio/wav\r\n\r\n");
        assert(p@ =~= preamble_spec(self.boundary@, self.model@, filename@));
        p
    }

    pub fn multipart_epilogue(&self) -> (e: String)
        ensures
            e@ == epilogue_spec(self.boundary@),
    {
        let mut e = String::new();
        push_str(&mut e, "\r\n--");
        push_str(&mut e, self.boundary.as_str());
        push_str(&mut e, "--\r\n");
        assert(e@ =~= epilogue_spec(self.boundary@));
        e
    }

    /// Byte length of preamble + file + epilogue.
    pub fn multipart_total_len(&self, file_size: usize, filename: &str) -> (n: usize)
        requires
            utf8_len(preamble_spec(self.boundary@, self.model@, filename@)) + file_size
                + utf8_len(epilogue_spec(self.boundary@)) <= usize::MAX,
        ensures
            n == utf8_len(preamble_spec(self.boundary@, self.model@, filename@)) + file_size
                + utf8_len(epilogue_spec(self.boundary@)),
    {
        let pre = self.multipart_preamble(filename);
        let post = self.multipart_epilogue();
        let a = pre.as_str().len();
        let b = post.as_str().len();
        a + file_size + b
    }

    /// HTTP/1.1 request head for a raw TLS socket.
    pub fn http_request_head(&self, total_len: usize) -> (h: String)
        ensures
            h@ == request_head_spec(
                self.path@,
                self.host@,
                self.api_key@,
                self.boundary@,
                total_len as nat,
            ),
    {
        let mut h = String::new();
        push_str(&mut h, "POST ");
        push_str(&mut h, self.path.as_str());
        push_str(&mut h, " HTTP/1.1\r\nHost: ");
        push_str(&mut h, self.host.as_str());
        push_str(&mut h, "\r\nAuthorization: Bearer ");
        push_str(&mut h, self.api_key.as_str());
        push_str(&mut h, "\r\nContent-Type: multipart/form-data; boundary=");
        push_str(&mut h, self.boundary.as_str());
        push_str(&mut h, "\r\nContent-Length: ");
        push_dec(&mut h, total_len as u64);
        push_str(&mut h, "\r\nConnection: close\r\n\r\n");
        assert(h@ =~= request_head_spec(
            self.path@,
            self.host@,
            self.api_key@,
            self.boundary@,
            total_len as nat,
        ));
        h
    }
}

/// Parse Whisper-style JSON `"text"` from an HTTP response body.
pub fn parse_transcription_response(body: &str) -> (r: Option<String>)
    ensures
        match whisper_text_spec(encode_utf8(body@)) {
            Some(t) => r matches Some(s) && s@ == t,
            None => r is None,
        },
{
    parse_whisper_text(body)
}

/// The lines of `s` split at each CRLF; the text after the last CRLF is the
/// last line (empty when `s` ends with CRLF).
pub open spec fn crlf_lines(s: Seq<char>) -> Seq<Seq<char>>
    decreases s.len(),
{
    if s.len() == 0 {
        seq![Seq::<char>::empty()]
    } else if s.len() >= 2 && s[0] == '\r' && s[1] == '\n' {
        seq![Seq::<char>::empty()] + crlf_lines(s.skip(2))
    } else {
        let rest = crlf_lines(s.drop_first());
        rest.update(0, seq![s[0]] + rest[0])
    }
}

/// A line without a carriage return, then CRLF, starts the lines of the rest.
proof fn lemma_crlf_cons(a: Seq<char>, b: Seq<char>)
    requires
        !a.contains('\r'),
    ensures
        crlf_lines(a + seq!['\r', '\n'] + b) == seq![a] + crlf_lines(b),
    decreases a.len(),
{
    let s = a + seq!['\r', '\n'] + b;
    if a.len() == 0 {
        assert(s =~= seq!['\r', '\n'] + b);
        assert(s.skip(2) =~= b);
        assert(a =~= Seq::<char>::empty());
    } else {
        let a1 = a.drop_first();
        assert(!a1.contains('\r')) by {
            if a1.contains('\r') {
                let i = choose|i: int| 0 <= i < a1.len() && a1[i] == '\r';
                assert(a[i + 1] == '\r');
            }
        }
        assert(a[0] != '\r');
        lemma_crlf_cons(a1, b);
        assert(s.drop_first() =~= a1 + seq!['\r', '\n'] + b);
        let rest = crlf_lines(s.drop_first());
        assert(rest == seq![a1] + crlf_lines(b));
        assert(seq![s[0]] + a1 =~= a);
        assert(rest.update(0, seq![s[0]] + rest[0]) =~= seq![a] + crlf_lines(b));
    }
}

/// Text without a carriage return is one line.
proof fn lemma_crlf_single(a: Seq<char>)
    requires
        !a.contains('\r'),
    ensures
        crlf_lines(a) == seq![a],
    decreases a.len(),
{
    if a.len() > 0 {
        let a1 = a.drop_first();
        assert(!a1.contains('\r')) by {
            if a1.contains('\r') {
                let i = choose|i: int| 0 <= i < a1.len() && a1[i] == '\r';
                assert(a[i + 1] == '\r');
            }
        }
        assert(a[0] != '\r');
        lemma_crlf_single(a1);
        assert(seq![a[0]] + a1 =~= a);
        assert(crlf_lines(a1).update(0, seq![a[0]] + crlf_lines(a1)[0]) =~= seq![a]);
    } else {
        assert(a =~= Seq::<char>::empty());
    }
}

/// The header line of the model part.
pub open spec fn model_part_header() -> Seq<char> {
    "Content-Disposition: form-data; name=\"model\""@
}

/// The header lines of the file part for `filename`.
pub open spec fn file_part_headers(filename: Seq<char>) -> Seq<Seq<char>> {
    seq!["Content-Disposition: form-data; name=\"file\"; filename=\""@ + filename + "\""@, "Content-Type: audio/wav"@]
}

proof fn lemma_no_cr_concat(a: Seq<char>, b: Seq<char>)
    requires
        !a.contains('\r'),
        !b.contains('\r'),
    ensures
        !(a + b).contains('\r'),
{
    if (a + b).contains('\r') {
        let i = choose|i: int| 0 <= i < (a + b).len() && (a + b)[i] == '\r';
        if i < a.len() {
            assert(a[i] == '\r');
        } else {
            assert(b[i - a.len()] == '\r');
        }
    }
}

/// The multipart preamble, read line by line, is well formed for any
/// boundary, model and file name without carriage returns: the boundary
/// delimiter, the model part's header line, an empty line, exactly the model
/// name, the delimiter again, the file part's two header lines, and the empty
/// line after which the file's bytes begin. Each part's headers are closed by
/// an empty line before its content.
pub proof fn lemma_preamble_lines(boundary: Seq<char>, model: Seq<char>, filename: Seq<char>)
    requires
        !boundary.contains('\r'),
        !model.contains('\r'),
        !filename.contains('\r'),
    ensures
        crlf_lines(preamble_spec(boundary, model, filename)) == seq!["--"@ + boundary, model_part_header(), Seq::<
            char,
        >::empty(), model, "--"@ + boundary] + file_part_headers(filename) + seq![
            Seq::<char>::empty(),
            Seq::<char>::empty(),
        ],
{
    reveal_strlit("--");
    reveal_strlit("\r\nContent-Disposition: form-data; name=\"model\"\r\n\r\n");
    reveal_strlit("Content-Disposition: form-data; name=\"model\"");
    reveal_strlit("\r\n--");
    reveal_strlit("\r\nContent-Disposition: form-data; name=\"file\"; filename=\"");
    reveal_strlit("Content-Disposition: form-data; name=\"file\"; filename=\"");
    reveal_strlit("\"\r\nContent-Type: audio/wav\r\n\r\n");
    reveal_strlit("\"");
    reveal_strlit("Content-Type: audio/wav");
    let crlf = seq!['\r', '\n'];
    let e = Seq::<char>::empty();
    let l1 = "--"@ + boundary;
    let l2 = model_part_header();
    let l6 = "Content-Disposition: form-data; name=\"file\"; filename=\""@ + filename + "\""@;
    let l7 = "Content-Type: audio/wav"@;
    let dash = "--"@;
    let cd_file = "Content-Disposition: form-data; name=\"file\"; filename=\""@;
    let quote = "\""@;
    assert(!dash.contains('\r')) by {
        assert forall|i: int| 0 <= i < dash.len() implies dash[i] != '\r' by {}
    }
    assert(!l2.contains('\r')) by {
        assert forall|i: int| 0 <= i < l2.len() implies l2[i] != '\r' by {}
    }
    assert(!cd_file.contains('\r')) by {
        assert forall|i: int| 0 <= i < cd_file.len() implies cd_file[i] != '\r' by {}
    }
    assert(!quote.contains('\r')) by {
        assert forall|i: int| 0 <= i < quote.len() implies quote[i] != '\r' by {}
    }
    assert(!l7.contains('\r')) by {
        assert forall|i: int| 0 <= i < l7.len() implies l7[i] != '\r' by {}
    }
    lemma_no_cr_concat(dash, boundary);
    lemma_no_cr_concat(cd_file, filename);
    lemma_no_cr_concat(cd_file + filename, quote);
    assert(!e.contains('\r'));
    let p = preamble_spec(boundary, model, filename);
    let r8 = e + crlf + e;
    let r7 = l7 + crlf + r8;
    let r6 = l6 + crlf + r7;
    let r5 = l1 + crlf + r6;
    let r4 = model + crlf + r5;
    let r3 = e + crlf + r4;
    let r2 = l2 + crlf + r3;
    let r1 = l1 + crlf + r2;
    assert(p =~= r1);
    lemma_crlf_single(e);
    lemma_crlf_cons(e, e);
    lemma_crlf_cons(l7, r8);
    lemma_crlf_cons(l6, r7);
    lemma_crlf_cons(l1, r6);
    lemma_crlf_cons(model, r5);
    lemma_crlf_cons(e, r4);
    lemma_crlf_cons(l2, r3);
    lemma_crlf_cons(l1, r2);
    assert(crlf_lines(p) =~= seq![l1, l2, e, model, l1] + file_part_headers(filename) + seq![e, e]);
}

/// The multipart epilogue, read line by line, closes the body: after the
/// CRLF that ends the file's bytes comes the closing delimiter `--B--` and a
/// final CRLF.
pub proof fn lemma_epilogue_lines(boundary: Seq<char>)
    requires
        !boundary.contains('\r'),
    ensures
        crlf_lines(epilogue_spec(boundary)) == seq![Seq::<char>::empty(), "--"@ + boundary + "--"@, Seq::<
            char,
        >::empty()],
{
    reveal_strlit("\r\n--");
    reveal_strlit("--\r\n");
    reveal_strlit("--");
    let crlf = seq!['\r', '\n'];
    let e = Seq::<char>::empty();
    let dash = "--"@;
    assert(!dash.contains('\r')) by {
        assert forall|i: int| 0 <= i < dash.len() implies dash[i] != '\r' by {}
    }
    lemma_no_cr_concat(dash, boundary);
    lemma_no_cr_concat(dash + boundary, dash);
    let close = dash + boundary + dash;
    assert(!e.contains('\r'));
    let p = epilogue_spec(boundary);
    assert(p =~= e + crlf + (close + crlf + e));
    lemma_crlf_single(e);
    lemma_crlf_cons(close, e);
    lemma_crlf_cons(e, close + crlf + e);
    assert(crlf_lines(p) =~= seq![e, close, e]);
}

} // verus!
