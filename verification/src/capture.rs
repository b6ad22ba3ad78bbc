//! The quick-capture daemon's wire protocol: what a request off the
//! loopback socket says, and the one-line replies written back.
//!
//! A request is plain text. `PING` and `UNDO` stand alone; `CAPTURE` is
//! followed by zero or more `key=value` header lines (`daily=1`,
//! `tags=a,b,c`, `notebook=work`, `folder=work/meetings`,
//! `template=meeting`, `url=https://...`, `title=Page Title`,
//! `source=browser`), a blank line, and the capture text verbatim (which
//! may itself hold blank lines). The socket, the threads and the work a
//! request asks for are the application's; this module decides what a
//! request means and what the answer reads like.
use vstd::prelude::*;
use crate::text::{
    chars_of, eq_str, find_chars_from, find_from, lemma_find_from, lines_of, occurs_at, push_all,
    push_str,
    spec_find, spec_lines, spec_trim, starts_with, strip_nl_end, strip_nl_end_len,
    strip_prefix_str, string_of, sub_chars, trim,
};

verus! {

broadcast use vstd::string::group_string_axioms;

#[verifier::external_type_specification]
#[verifier::external_body]
#[verifier::reject_recursive_types(T)]
pub struct ExSender<T>(std::sync::mpsc::Sender<T>);

/// What the listener thread asks the main thread to do, bundled with the
/// channel on which the answer for this very client goes back.
pub struct CaptureRequest {
    pub kind: RequestKind,
    pub reply_tx: std::sync::mpsc::Sender<CaptureReply>,
}

/// The work a capture client asks for.
pub enum RequestKind {
    Capture {
        text: String,
        daily: bool,
        tags: Vec<String>,
        /// An explicit notebook; it takes priority over content-prefix
        /// routing and the default notebook.
        notebook: Option<String>,
        /// A subfolder for a new note (ignored for a daily append).
        folder: Option<String>,
        /// A template name (ignored for a daily append).
        template: Option<String>,
        /// A source URL, appended as a `Source:` footer when present.
        url: Option<String>,
        /// The page title for `url`.
        title: Option<String>,
        /// Where the capture came from (`browser`, `clip`, …), for logging.
        source: Option<String>,
    },
    Undo,
}

/// The main thread's answer: the path written (as text), or why nothing was.
pub enum CaptureReply {
    Saved(String),
    Failed(String),
}

/// Held once the daemon has been spawned; switching the daemon off flips
/// `enabled` rather than tearing the listener down.
pub struct CaptureDaemonHandle {
    pub enabled: std::sync::Arc<std::sync::atomic::AtomicBool>,
}

/// A request as read off the wire.
pub enum ParsedRequest {
    Ping,
    Undo,
    Capture {
        daily: bool,
        tags: Vec<String>,
        notebook: Option<String>,
        folder: Option<String>,
        template: Option<String>,
        url: Option<String>,
        title: Option<String>,
        source: Option<String>,
        text: String,
    },
    /// Anything not starting with a recognized command word.
    Invalid,
}

// ---------------------------------------------------------------------------
// Model
// ---------------------------------------------------------------------------

/// What the header lines of a `CAPTURE` request have set so far.
pub struct HeadersV {
    pub daily: bool,
    pub tags: Seq<Seq<char>>,
    pub notebook: Option<Seq<char>>,
    pub folder: Option<Seq<char>>,
    pub template: Option<Seq<char>>,
    pub url: Option<Seq<char>>,
    pub title: Option<Seq<char>>,
    pub source: Option<Seq<char>>,
}

/// The meaning of a request.
pub enum RequestV {
    Ping,
    Undo,
    Capture { headers: HeadersV, text: Seq<char> },
    Invalid,
}

pub open spec fn opt_string_view(o: Option<String>) -> Option<Seq<char>> {
    match o {
        Some(s) => Some(s@),
        None => None,
    }
}

pub open spec fn strings_view(v: Seq<String>) -> Seq<Seq<char>> {
    v.map_values(|s: String| s@)
}

impl View for ParsedRequest {
    type V = RequestV;

    open spec fn view(&self) -> RequestV {
        match self {
            ParsedRequest::Ping => RequestV::Ping,
            ParsedRequest::Undo => RequestV::Undo,
            ParsedRequest::Capture {
                daily,
                tags,
                notebook,
                folder,
                template,
                url,
                title,
                source,
                text,
            } => RequestV::Capture {
                headers: HeadersV {
                    daily: *daily,
                    tags: strings_view(tags@),
                    notebook: opt_string_view(*notebook),
                    folder: opt_string_view(*folder),
                    template: opt_string_view(*template),
                    url: opt_string_view(*url),
                    title: opt_string_view(*title),
                    source: opt_string_view(*source),
                },
                text: text@,
            },
            ParsedRequest::Invalid => RequestV::Invalid,
        }
    }
}

/// The header block and the body: split at the first blank line, or, when
/// there is none, everything but trailing newlines is header and the body
/// is empty.
pub open spec fn split_request(raw: Seq<char>) -> (Seq<char>, Seq<char>) {
    match spec_find(raw, seq!['\n', '\n']) {
        Some(i) => (raw.subrange(0, i), raw.subrange(i + 2, raw.len() as int)),
        None => (strip_nl_end(raw), Seq::empty()),
    }
}

/// A header value that is kept only when something is left after trimming.
pub open spec fn nonempty_trimmed(v: Seq<char>) -> Option<Seq<char>> {
    if spec_trim(v).len() > 0 {
        Some(spec_trim(v))
    } else {
        None
    }
}

/// The `daily=` flag: on for `1` or `true`, surrounding whitespace aside.
pub open spec fn flag_on(v: Seq<char>) -> bool {
    spec_trim(v) == "1"@ || spec_trim(v) == "true"@
}

/// Where the comma-separated piece starting at `i` ends.
pub open spec fn piece_end(v: Seq<char>, i: int) -> int {
    match find_from(v, seq![','], i) {
        Some(j) => j,
        None => v.len() as int,
    }
}

/// The tags of a `tags=` value from index `i` on: the comma-separated
/// pieces, trimmed, without the empty ones.
pub open spec fn tags_from(v: Seq<char>, i: int) -> Seq<Seq<char>>
    decreases v.len() + 1 - i,
{
    if 0 <= i <= v.len() {
        proof {
            lemma_find_from(v, seq![','], i);
        }
        let t = spec_trim(v.subrange(i, piece_end(v, i)));
        (if t.len() > 0 {
            seq![t]
        } else {
            Seq::empty()
        }) + match find_from(v, seq![','], i) {
            Some(j) => tags_from(v, j + 1),
            None => Seq::empty(),
        }
    } else {
        Seq::empty()
    }
}

/// What one header line does: the first of the known keys that it starts
/// with overwrites that field; any other line is ignored.
pub open spec fn header_step(h: HeadersV, line: Seq<char>) -> HeadersV {
    if starts_with(line, "daily="@) {
        HeadersV { daily: flag_on(line.skip("daily="@.len() as int)), ..h }
    } else if starts_with(line, "tags="@) {
        HeadersV { tags: tags_from(line.skip("tags="@.len() as int), 0), ..h }
    } else if starts_with(line, "notebook="@) {
        HeadersV { notebook: nonempty_trimmed(line.skip("notebook="@.len() as int)), ..h }
    } else if starts_with(line, "folder="@) {
        HeadersV { folder: nonempty_trimmed(line.skip("folder="@.len() as int)), ..h }
    } else if starts_with(line, "template="@) {
        HeadersV { template: nonempty_trimmed(line.skip("template="@.len() as int)), ..h }
    } else if starts_with(line, "url="@) {
        HeadersV { url: nonempty_trimmed(line.skip("url="@.len() as int)), ..h }
    } else if starts_with(line, "title="@) {
        HeadersV { title: nonempty_trimmed(line.skip("title="@.len() as int)), ..h }
    } else if starts_with(line, "source="@) {
        HeadersV { source: nonempty_trimmed(line.skip("source="@.len() as int)), ..h }
    } else {
        h
    }
}

/// The header lines `ls[k..]` applied in order to `h`.
pub open spec fn headers_from(ls: Seq<Seq<char>>, k: int, h: HeadersV) -> HeadersV
    decreases ls.len() - k,
{
    if 0 <= k < ls.len() {
        headers_from(ls, k + 1, header_step(h, ls[k]))
    } else {
        h
    }
}

/// Nothing set: not daily, no tags, no optional field.
pub open spec fn no_headers() -> HeadersV {
    HeadersV {
        daily: false,
        tags: Seq::empty(),
        notebook: None,
        folder: None,
        template: None,
        url: None,
        title: None,
        source: None,
    }
}

/// The command word: the first header line, trimmed (empty when there is
/// no line at all).
pub open spec fn command_of(ls: Seq<Seq<char>>) -> Seq<char> {
    if ls.len() > 0 {
        spec_trim(ls[0])
    } else {
        Seq::empty()
    }
}

/// What a raw request means.
pub open spec fn spec_parse_request(raw: Seq<char>) -> RequestV {
    let (header, body) = split_request(raw);
    let ls = spec_lines(header);
    let cmd = command_of(ls);
    if cmd == "PING"@ {
        RequestV::Ping
    } else if cmd == "UNDO"@ {
        RequestV::Undo
    } else if cmd == "CAPTURE"@ {
        RequestV::Capture { headers: headers_from(ls, 1, no_headers()), text: body }
    } else {
        RequestV::Invalid
    }
}

// ---------------------------------------------------------------------------
// Parsing
// ---------------------------------------------------------------------------

/// The header fields of a `CAPTURE` request while its lines are read.
pub struct Headers {
    pub daily: bool,
    pub tags: Vec<String>,
    pub notebook: Option<String>,
    pub folder: Option<String>,
    pub template: Option<String>,
    pub url: Option<String>,
    pub title: Option<String>,
    pub source: Option<String>,
}

impl View for Headers {
    type V = HeadersV;

    open spec fn view(&self) -> HeadersV {
        HeadersV {
            daily: self.daily,
            tags: strings_view(self.tags@),
            notebook: opt_string_view(self.notebook),
            folder: opt_string_view(self.folder),
            template: opt_string_view(self.template),
            url: opt_string_view(self.url),
            title: opt_string_view(self.title),
            source: opt_string_view(self.source),
        }
    }
}

/// The tags of a `tags=` value: comma-separated, trimmed, empty ones dropped.
pub fn tags_of(v: &[char]) -> (r: Vec<String>)
    ensures
        strings_view(r@) == tags_from(v@, 0),
{
    let comma = vec![','];
    let mut out: Vec<String> = Vec::new();
    let mut i: usize = 0;
    assert(strings_view(out@) + tags_from(v@, 0) =~= tags_from(v@, 0));
    loop
        invariant
            comma@ == seq![','],
            0 <= i <= v@.len(),
            strings_view(out@) + tags_from(v@, i as int) == tags_from(v@, 0),
        decreases v@.len() + 1 - i,
    {
        proof {
            lemma_find_from(v@, seq![','], i as int);
        }
        let found = find_chars_from(v, &comma, i);
        let end = match found {
            Some(j) => j,
            None => v.len(),
        };
        let piece = sub_chars(v, i, end);
        let t = trim(&piece);
        let ghost before = strings_view(out@);
        let ghost head: Seq<Seq<char>> = if t@.len() > 0 {
            seq![t@]
        } else {
            Seq::empty()
        };
        if t.len() > 0 {
            let st = string_of(&t);
            out.push(st);
        }
        assert(strings_view(out@) =~= before + head);
        match found {
            Some(j) => {
                assert(occurs_at(v@, seq![','], j as int));
                assert(seq![','].len() == 1);
                assert(j < v.len());
                assert(tags_from(v@, i as int) == head + tags_from(v@, j + 1));
                assert(strings_view(out@) + tags_from(v@, j + 1) =~= before + tags_from(v@, i as int));
                i = j + 1;
            },
            None => {
                assert(tags_from(v@, i as int) == head + Seq::<Seq<char>>::empty());
                assert(strings_view(out@) =~= before + tags_from(v@, i as int));
                return out;
            },
        }
    }
}

/// A header value kept only when something is left after trimming.
fn optional_value(v: &[char]) -> (r: Option<String>)
    ensures
        opt_string_view(r) == nonempty_trimmed(v@),
{
    let t = trim(v);
    if t.len() > 0 {
        Some(string_of(&t))
    } else {
        None
    }
}

/// Applies one header line (see `header_step`).
fn apply_header(h: &mut Headers, line: &[char])
    ensures
        final(h)@ == header_step(old(h)@, line@),
{
    if let Some(v) = strip_prefix_str(line, "daily=") {
        let t = trim(&v);
        h.daily = eq_str(&t, "1") || eq_str(&t, "true");
    } else if let Some(v) = strip_prefix_str(line, "tags=") {
        h.tags = tags_of(&v);
    } else if let Some(v) = strip_prefix_str(line, "notebook=") {
        h.notebook = optional_value(&v);
    } else if let Some(v) = strip_prefix_str(line, "folder=") {
        h.folder = optional_value(&v);
    } else if let Some(v) = strip_prefix_str(line, "template=") {
        h.template = optional_value(&v);
    } else if let Some(v) = strip_prefix_str(line, "url=") {
        h.url = optional_value(&v);
    } else if let Some(v) = strip_prefix_str(line, "title=") {
        h.title = optional_value(&v);
    } else if let Some(v) = strip_prefix_str(line, "source=") {
        h.source = optional_value(&v);
    }
}

/// Reads a request off the wire (see the module documentation): headers
/// end at the first blank line and everything after it is the body
/// verbatim, blank lines included.
pub fn parse_request(raw: &str) -> (r: ParsedRequest)
    ensures
        r@ == spec_parse_request(raw@),
{
    let all = chars_of(raw);
    let nn = vec!['\n', '\n'];
    assert(nn@ =~= seq!['\n', '\n']);
    proof {
        lemma_find_from(all@, seq!['\n', '\n'], 0);
    }
    let (header, body) = match find_chars_from(&all, &nn, 0) {
        Some(i) => {
            assert(occurs_at(all@, seq!['\n', '\n'], i as int));
            assert(seq!['\n', '\n'].len() == 2);
            assert(i + 2 <= all.len());
            (sub_chars(&all, 0, i), sub_chars(&all, i + 2, all.len()))
        },
        None => {
            let n = strip_nl_end_len(&all);
            (sub_chars(&all, 0, n), Vec::new())
        },
    };
    assert(header@ == split_request(raw@).0);
    assert(body@ =~= split_request(raw@).1);
    let ls = lines_of(&header);
    let ghost lsv = spec_lines(header@);
    let cmd = if ls.len() > 0 {
        trim(&ls[0])
    } else {
        Vec::new()
    };
    assert(cmd@ =~= command_of(lsv));
    if eq_str(&cmd, "PING") {
        ParsedRequest::Ping
    } else if eq_str(&cmd, "UNDO") {
        ParsedRequest::Undo
    } else if eq_str(&cmd, "CAPTURE") {
        let mut h = Headers {
            daily: false,
            tags: Vec::new(),
            notebook: None,
            folder: None,
            template: None,
            url: None,
            title: None,
            source: None,
        };
        assert(h@.tags =~= Seq::<Seq<char>>::empty());
        assert(h@ == no_headers());
        let mut k: usize = 1;
        while k < ls.len()
            invariant
                lsv == spec_lines(header@),
                ls@.len() == lsv.len(),
                forall|j: int| 0 <= j < ls@.len() ==> (#[trigger] ls@[j])@ == lsv[j],
                1 <= k,
                k <= ls@.len() || ls@.len() == 0,
                headers_from(lsv, k as int, h@) == headers_from(lsv, 1, no_headers()),
            decreases ls@.len() - k,
        {
            apply_header(&mut h, &ls[k]);
            k = k + 1;
        }
        let text = string_of(&body);
        ParsedRequest::Capture {
            daily: h.daily,
            tags: h.tags,
            notebook: h.notebook,
            folder: h.folder,
            template: h.template,
            url: h.url,
            title: h.title,
            source: h.source,
            text,
        }
    } else {
        ParsedRequest::Invalid
    }
}

// ---------------------------------------------------------------------------
// Replies and provenance
// ---------------------------------------------------------------------------

/// The one line written back for a reply: `OK <path>` or `ERR <message>`.
pub open spec fn spec_response_line(reply: CaptureReply) -> Seq<char> {
    match reply {
        CaptureReply::Saved(path) => "OK "@ + path@ + "\n"@,
        CaptureReply::Failed(msg) => "ERR "@ + msg@ + "\n"@,
    }
}

/// The line answering a `CAPTURE` or `UNDO` while the daemon is switched off.
pub fn disabled_response() -> (r: String)
    ensures
        r@ == "ERR daemon disabled\n"@,
{
    let v = chars_of("ERR daemon disabled\n");
    string_of(&v)
}

/// What the listener does with a request it has read.
pub enum Route {
    /// Answers at once with this line.
    Reply(String),
    /// Hands the request to the main thread and answers with its reply.
    Dispatch(RequestKind),
}

/// The listener's decision for a parsed request while the daemon is
/// `enabled` or switched off: a ping is answered at once with the switch's
/// state; a capture or an undo goes to the main thread, or is refused
/// while switched off; anything else is refused as unrecognized.
pub fn route_request(parsed: ParsedRequest, enabled: bool) -> (r: Route)
    ensures
        match parsed {
            ParsedRequest::Ping => r matches Route::Reply(s) && s@ == (if enabled {
                "OK enabled\n"@
            } else {
                "OK disabled\n"@
            }),
            ParsedRequest::Invalid => r matches Route::Reply(s) && s@ == "ERR unrecognized request\n"@,
            ParsedRequest::Undo => if enabled {
                r matches Route::Dispatch(RequestKind::Undo)
            } else {
                r matches Route::Reply(s) && s@ == "ERR daemon disabled\n"@
            },
            ParsedRequest::Capture { daily, tags, notebook, folder, template, url, title, source, text } => if enabled {
                r == Route::Dispatch(RequestKind::Capture { text, daily, tags, notebook, folder, template, url, title, source })
            } else {
                r matches Route::Reply(s) && s@ == "ERR daemon disabled\n"@
            },
        },
{
    match parsed {
        ParsedRequest::Ping => {
            let line = if enabled {
                chars_of("OK enabled\n")
            } else {
                chars_of("OK disabled\n")
            };
            Route::Reply(string_of(&line))
        },
        ParsedRequest::Invalid => Route::Reply(string_of(&chars_of("ERR unrecognized request\n"))),
        ParsedRequest::Undo => if enabled {
            Route::Dispatch(RequestKind::Undo)
        } else {
            Route::Reply(disabled_response())
        },
        ParsedRequest::Capture { daily, tags, notebook, folder, template, url, title, source, text } => if enabled {
            Route::Dispatch(RequestKind::Capture { text, daily, tags, notebook, folder, template, url, title, source })
        } else {
            Route::Reply(disabled_response())
        },
    }
}

/// Formats a reply as the single line written back to the client.
pub fn response_line(reply: &CaptureReply) -> (r: String)
    ensures
        r@ == spec_response_line(*reply),
{
    let mut v: Vec<char> = Vec::new();
    match reply {
        CaptureReply::Saved(path) => {
            push_str(&mut v, "OK ");
            let p = chars_of(path.as_str());
            push_all(&mut v, &p);
        },
        CaptureReply::Failed(msg) => {
            push_str(&mut v, "ERR ");
            let m = chars_of(msg.as_str());
            push_all(&mut v, &m);
        },
    }
    push_str(&mut v, "\n");
    string_of(&v)
}

pub open spec fn opt_str_view(o: Option<&str>) -> Option<Seq<char>> {
    match o {
        Some(s) => Some(s@),
        None => None,
    }
}

/// The capture text with its provenance footer: unchanged without a URL,
/// with an empty one, or when the text already mentions it; otherwise a
/// blank line and `Source: [title](url)`, or `Source: url` when there is
/// no (non-empty) title.
pub open spec fn spec_with_source(text: Seq<char>, url: Option<Seq<char>>, title: Option<Seq<char>>) -> Seq<char> {
    match url {
        None => text,
        Some(u) => if u.len() == 0 || spec_find(text, u) is Some {
            text
        } else {
            match title {
                Some(t) if t.len() > 0 => text + "\n\nSource: ["@ + t + "]("@ + u + ")"@,
                _ => text + "\n\nSource: "@ + u,
            }
        },
    }
}

/// Appends the source footer to a capture (see `spec_with_source`).
pub fn with_source(text: &str, url: Option<&str>, title: Option<&str>) -> (r: String)
    ensures
        r@ == spec_with_source(text@, opt_str_view(url), opt_str_view(title)),
{
    let t = chars_of(text);
    let u = match url {
        None => {
            return string_of(&t);
        },
        Some(u) => chars_of(u),
    };
    if u.len() == 0 {
        return string_of(&t);
    }
    if find_chars_from(&t, &u, 0).is_some() {
        return string_of(&t);
    }
    let mut out = t;
    match title {
        Some(ti) if ti.unicode_len() > 0 => {
            push_str(&mut out, "\n\nSource: [");
            let tc = chars_of(ti);
            push_all(&mut out, &tc);
            push_str(&mut out, "](");
            push_all(&mut out, &u);
            push_str(&mut out, ")");
        },
        _ => {
            push_str(&mut out, "\n\nSource: ");
            push_all(&mut out, &u);
        },
    }
    string_of(&out)
}

// ---------------------------------------------------------------------------
// Laws
// ---------------------------------------------------------------------------

proof fn lemma_first_blank_line_after(header: Seq<char>, body: Seq<char>, i: int)
    requires
        header.len() > 0,
        header.last() != '\n',
        spec_find(header, seq!['\n', '\n']) is None,
        0 <= i <= header.len(),
    ensures
        find_from(header + seq!['\n', '\n'] + body, seq!['\n', '\n'], i) == Some(header.len() as int),
    decreases header.len() - i,
{
    let nn = seq!['\n', '\n'];
    let raw = header + nn + body;
    if i == header.len() {
        assert(raw.subrange(i, i + 2) =~= nn);
    } else {
        lemma_find_from(header, nn, 0);
        if i < header.len() - 1 {
            assert(!occurs_at(header, nn, i));
            assert(raw.subrange(i, i + 2) =~= header.subrange(i, i + 2));
        } else {
            assert(raw.subrange(i, i + 2)[0] == header.last());
        }
        assert(!occurs_at(raw, nn, i));
        lemma_first_blank_line_after(header, body, i + 1);
    }
}

/// The body of a request is kept verbatim: whatever follows the blank line
/// that ends a header block (one with no blank line of its own, not ending
/// in a newline) is the body, blank lines inside it included.
pub proof fn lemma_body_kept_verbatim(header: Seq<char>, body: Seq<char>)
    requires
        header.len() > 0,
        header.last() != '\n',
        spec_find(header, seq!['\n', '\n']) is None,
    ensures
        split_request(header + seq!['\n', '\n'] + body) == (header, body),
{
    let raw = header + seq!['\n', '\n'] + body;
    lemma_first_blank_line_after(header, body, 0);
    assert(raw.subrange(0, header.len() as int) =~= header);
    assert(raw.subrange(header.len() + 2int, raw.len() as int) =~= body);
}

} // verus!
