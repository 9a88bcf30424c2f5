//! The agent's side of the server contract: the endpoints, how answers are
//! read (connection test, poll interval hint, refusals), the body that
//! reports a job's result, and the framing of the live event stream.
use vstd::prelude::*;
use vstd::utf8::{decode_utf8, valid_utf8};
use crate::models::{APP_VERSION, ConnectionResult};
use crate::polling::{AUTH_REQUIRED, opt_view};
use crate::text::{
    is_digit, is_rfc3339,
    append_str, chars_of, decimal, i64_to_decimal, is_white_space, owned, signed_decimal, str_eq,
    strip_trailing, strip_trailing_char, trim, trim_spec,
};
use vstd::string::StrSliceExecFns;

verus! {

// ---------------------------------------------------------------------------
// Endpoints
// ---------------------------------------------------------------------------

/// Path of the connection test.
pub const TEST_CONNECTION_PATH: &'static str = "/api/test-connection";

/// Path of the branch's printers.
pub const PRINTER_DETAILS_PATH: &'static str = "/api/printer-details";

/// Path that hands out pending jobs.
pub const PULL_JOBS_PATH: &'static str = "/api/print-jobs/pull-multiple";

/// The URL of `path` on the server at `domain` (trailing `/` of the domain
/// dropped).
pub open spec fn api_url_spec(domain: Seq<char>, path: Seq<char>) -> Seq<char> {
    strip_trailing(domain, '/') + path
}

/// The URL of `path` on the server at `domain`.
pub fn api_url(domain: &str, path: &str) -> (r: String)
    ensures
        r@ == api_url_spec(domain@, path@),
{
    let mut r = strip_trailing_char(domain, '/');
    append_str(&mut r, path);
    r
}

/// The live stream of a branch: its key, trimmed, in the path.
pub open spec fn stream_url_spec(domain: Seq<char>, key: Seq<char>) -> Seq<char> {
    strip_trailing(domain, '/') + "/api/print-stream/"@ + trim_spec(key)
}

/// The URL of the live stream of the branch with key `key`.
pub fn stream_url(domain: &str, key: &str) -> (r: String)
    ensures
        r@ == stream_url_spec(domain@, key@),
{
    let mut r = strip_trailing_char(domain, '/');
    append_str(&mut r, "/api/print-stream/");
    append_str(&mut r, trim(key));
    r
}

/// The URL that receives the result of job `id`.
pub open spec fn job_url_spec(domain: Seq<char>, id: i64) -> Seq<char> {
    strip_trailing(domain, '/') + "/api/print-jobs/"@ + signed_decimal(id as int)
}

/// The URL that receives the result of job `id`.
pub fn job_url(domain: &str, id: i64) -> (r: String)
    ensures
        r@ == job_url_spec(domain@, id),
{
    let mut r = strip_trailing_char(domain, '/');
    append_str(&mut r, "/api/print-jobs/");
    let n = i64_to_decimal(id);
    append_str(&mut r, n.as_str());
    r
}

/// The user agent of the agent's requests.
pub fn user_agent() -> (r: String)
    ensures
        r@ == "RestaAPP-Printer/"@ + APP_VERSION@,
{
    let mut r = owned("RestaAPP-Printer/");
    append_str(&mut r, APP_VERSION);
    r
}

/// The user agent of the live stream.
pub fn stream_user_agent() -> (r: String)
    ensures
        r@ == "RestaAPP-Printer/"@ + APP_VERSION@ + "/sse"@,
{
    let mut r = user_agent();
    append_str(&mut r, "/sse");
    r
}

// ---------------------------------------------------------------------------
// Reading answers
// ---------------------------------------------------------------------------

/// HTTP status of a refused key.
pub const UNAUTHORIZED: u16 = 401;

/// HTTP status of a forbidden request.
pub const FORBIDDEN: u16 = 403;

/// Message when the printer list is refused.
pub const PRINTERS_REFUSED: &'static str = "La clave de la sucursal debe verificarse nuevamente";

/// A 2xx status.
pub open spec fn is_success(status: u16) -> bool {
    200 <= status <= 299
}

/// The answer to the connection test that the HTTP status alone decides: a
/// refused key, or a server that is not available; `None` for a success,
/// whose body then decides.
pub fn connection_result_for_status(status: u16) -> (r: Option<ConnectionResult>)
    ensures
        status == UNAUTHORIZED ==> (r matches Some(c) && !c.ok && c.message@
            == "La clave no pudo ser validada"@),
        status != UNAUTHORIZED && !is_success(status) ==> (r matches Some(c) && !c.ok
            && c.message@ == "La conexión no está disponible temporalmente"@),
        is_success(status) ==> r is None,
        r matches Some(c) ==> c.recommended_poll_ms is None && c.recommended_idle_poll_ms is None
            && c.branch_name is None && c.restaurant_name is None && c.logo_url is None
            && c.locale is None,
{
    if status == UNAUTHORIZED {
        Some(
            ConnectionResult {
                ok: false,
                message: owned("La clave no pudo ser validada"),
                recommended_poll_ms: None,
                recommended_idle_poll_ms: None,
                branch_name: None,
                restaurant_name: None,
                logo_url: None,
                locale: None,
            },
        )
    } else if status < 200 || status > 299 {
        Some(
            ConnectionResult {
                ok: false,
                message: owned("La conexión no está disponible temporalmente"),
                recommended_poll_ms: None,
                recommended_idle_poll_ms: None,
                branch_name: None,
                restaurant_name: None,
                logo_url: None,
                locale: None,
            },
        )
    } else {
        None
    }
}

/// The fields of the connection test's JSON answer that the agent reads;
/// each is `None` when absent or of another JSON type, except `locale`,
/// which tells apart an absent field (`None`) from one that is present but
/// not a string (`Some(None)`).
#[derive(Clone, Debug)]
pub struct ConnectionReply {
    pub status: Option<String>,
    pub message: Option<String>,
    pub recommended_poll_ms: Option<u64>,
    pub recommended_idle_poll_ms: Option<u64>,
    pub branch_name: Option<String>,
    pub restaurant_name: Option<String>,
    pub logo_url: Option<String>,
    pub locale: Option<Option<String>>,
    pub language: Option<String>,
}

/// The connection result of a successful answer: it is ok unless the
/// answer's status says something other than `success`; its message is the
/// answer's, or "Connection established"; the locale is the `locale`
/// field when the answer has one, else the `language` field.
pub fn connection_result_from_reply(reply: ConnectionReply) -> (c: ConnectionResult)
    ensures
        c.ok == match reply.status {
            Some(s) => s@ == "success"@,
            None => true,
        },
        c.message@ == match reply.message {
            Some(m) => m@,
            None => "Connection established"@,
        },
        c.recommended_poll_ms == reply.recommended_poll_ms,
        c.recommended_idle_poll_ms == reply.recommended_idle_poll_ms,
        c.branch_name == reply.branch_name,
        c.restaurant_name == reply.restaurant_name,
        c.logo_url == reply.logo_url,
        c.locale == match reply.locale {
            Some(l) => l,
            None => reply.language,
        },
{
    let ok = match &reply.status {
        Some(s) => str_eq(s.as_str(), "success"),
        None => true,
    };
    let message = match reply.message {
        Some(m) => m,
        None => owned("Connection established"),
    };
    let locale = match reply.locale {
        Some(l) => l,
        None => reply.language,
    };
    ConnectionResult {
        ok,
        message,
        recommended_poll_ms: reply.recommended_poll_ms,
        recommended_idle_poll_ms: reply.recommended_idle_poll_ms,
        branch_name: reply.branch_name,
        restaurant_name: reply.restaurant_name,
        logo_url: reply.logo_url,
        locale,
    }
}

/// A poll answered with this status means the key was refused.
pub fn pull_refused(status: u16) -> (b: bool)
    ensures
        b == (status == UNAUTHORIZED),
{
    status == UNAUTHORIZED
}

/// A stream answered with this status means the key was refused.
pub fn stream_refused(status: u16) -> (b: bool)
    ensures
        b == (status == UNAUTHORIZED || status == FORBIDDEN),
{
    status == UNAUTHORIZED || status == FORBIDDEN
}

/// The value of a text of ASCII digits.
pub open spec fn digits_value(s: Seq<char>) -> nat
    decreases s.len(),
{
    if s.len() == 0 {
        0
    } else {
        digits_value(s.drop_last()) * 10 + ((s.last() as nat) - 48) as nat
    }
}

/// The digits of an unsigned number's text: without a leading `+`.
pub open spec fn unsigned_digits(s: Seq<char>) -> Seq<char> {
    if s.len() > 0 && s[0] == '+' {
        s.drop_first()
    } else {
        s
    }
}

/// Every character is an ASCII digit.
pub open spec fn all_digits(d: Seq<char>) -> bool {
    forall|i: int| 0 <= i < d.len() ==> is_digit(#[trigger] d[i])
}

/// What `u64::from_str` accepts: an optional `+` and at least one ASCII
/// digit, nothing else, with a value that fits.
pub open spec fn parse_u64_spec(s: Seq<char>) -> Option<u64> {
    let d = unsigned_digits(s);
    if d.len() == 0 || !all_digits(d) {
        None
    } else if digits_value(d) > u64::MAX {
        None
    } else {
        Some(digits_value(d) as u64)
    }
}

/// Reads an unsigned decimal number as `u64::from_str` does.
pub fn parse_u64(s: &str) -> (r: Option<u64>)
    ensures
        r == parse_u64_spec(s@),
{
    let v = chars_of(s);
    let start: usize = if v.len() > 0 && v[0] == '+' {
        1
    } else {
        0
    };
    let ghost d = unsigned_digits(s@);
    assert(d =~= s@.skip(start as int));
    if start == v.len() {
        return None;
    }
    let mut acc: u64 = 0;
    let mut overflow = false;
    let mut i = start;
    while i < v.len()
        invariant
            v@ == s@,
            d == s@.skip(start as int),
            d == unsigned_digits(s@),
            start <= i <= v.len(),
            forall|k: int| 0 <= k < i - start ==> is_digit(#[trigger] d[k]),
            !overflow ==> acc == digits_value(d.take(i - start)),
            overflow ==> digits_value(d.take(i - start)) > u64::MAX,
        decreases v.len() - i,
    {
        let c = v[i];
        if !('0' <= c && c <= '9') {
            assert(d[i - start] == c);
            assert(!is_digit(d[i - start]));
            assert(!all_digits(d));
            return None;
        }
        let digit = (c as u32 - 48) as u64;
        proof {
            let t = d.take(i - start + 1);
            assert(t.drop_last() =~= d.take(i - start));
            assert(t.last() == c);
            assert(digits_value(t) == digits_value(d.take(i - start)) * 10 + digit);
        }
        if !overflow {
            if acc > (u64::MAX - digit) / 10 {
                overflow = true;
                assert(acc * 10 + digit > u64::MAX) by (nonlinear_arith)
                    requires
                        acc > (u64::MAX - digit) / 10,
                        digit <= 9,
                ;
            } else {
                assert(acc * 10 + digit <= u64::MAX) by (nonlinear_arith)
                    requires
                        acc <= (u64::MAX - digit) / 10,
                        digit <= 9,
                ;
                acc = acc * 10 + digit;
            }
        }
        i = i + 1;
    }
    assert(d.take(i - start) =~= d);
    if overflow {
        None
    } else {
        Some(acc)
    }
}

/// The poll interval for the next pull: the server's `X-Print-Poll-Ms`
/// hint when it is a number, else the configured idle interval.
pub fn poll_interval(hint: Option<&str>, idle_poll_ms: u64) -> (ms: u64)
    ensures
        ms == match hint {
            Some(h) => match parse_u64_spec(h@) {
                Some(v) => v,
                None => idle_poll_ms,
            },
            None => idle_poll_ms,
        },
{
    match hint {
        Some(h) => match parse_u64(h) {
            Some(v) => v,
            None => idle_poll_ms,
        },
        None => idle_poll_ms,
    }
}

// ---------------------------------------------------------------------------
// Reporting a job
// ---------------------------------------------------------------------------

/// The body that reports a job's result to the server.
#[derive(Clone, Debug)]
pub struct MarkJobBody {
    pub status: String,
    pub printed_at: Option<String>,
    pub printer: Option<String>,
    pub error: Option<String>,
}

/// The text of an optional string slice.
pub open spec fn opt_text(o: Option<&str>) -> Option<Seq<char>> {
    match o {
        Some(s) => Some(s@),
        None => None,
    }
}

/// The report of a job with status `status` made at time `now`: the time
/// is sent only for a `done` job.
pub fn mark_job_body_at(status: &str, now: String, printer: Option<&str>, error: Option<&str>) -> (b: MarkJobBody)
    ensures
        b.status@ == status@,
        b.printed_at == if status@ == "done"@ {
            Some(now)
        } else {
            None::<String>
        },
        opt_view(b.printer) == opt_text(printer),
        opt_view(b.error) == opt_text(error),
{
    MarkJobBody {
        status: owned(status),
        printed_at: if str_eq(status, "done") {
            Some(now)
        } else {
            None
        },
        printer: match printer {
            Some(p) => Some(owned(p)),
            None => None,
        },
        error: match error {
            Some(e) => Some(owned(e)),
            None => None,
        },
    }
}

/// The report of a job with status `status`, made now.
pub fn mark_job_body(status: &str, printer: Option<&str>, error: Option<&str>) -> (b: MarkJobBody)
    ensures
        b.status@ == status@,
        b.printed_at is Some <==> status@ == "done"@,
        b.printed_at matches Some(t) ==> is_rfc3339(t@),
        opt_view(b.printer) == opt_text(printer),
        opt_view(b.error) == opt_text(error),
{
    let now = crate::config::utc_now_rfc3339();
    mark_job_body_at(status, now, printer, error)
}

// ---------------------------------------------------------------------------
// The live event stream
// ---------------------------------------------------------------------------

/// Above this many bytes without a complete event, the stream buffer is
/// dropped, so that a bad server cannot make the agent grow without bound.
pub const STREAM_BUFFER_LIMIT: usize = 65_536;

/// What `String::from_utf8_lossy` gives for `bytes`.
pub uninterp spec fn utf8_lossy(bytes: Seq<u8>) -> Seq<char>;

/// `String::from_utf8_lossy`: the text of `bytes`, invalid sequences
/// replaced by U+FFFD; valid UTF-8 is decoded as it is.
#[verifier::external_body]
fn text_of_bytes(bytes: &[u8]) -> (s: String)
    ensures
        s@ == utf8_lossy(bytes@),
        valid_utf8(bytes@) ==> s@ == decode_utf8(bytes@),
{
    String::from_utf8_lossy(bytes).into_owned()
}

/// The characters `[i, j)` of `text` form one of its lines.
pub open spec fn is_line(text: Seq<char>, i: int, j: int) -> bool {
    &&& 0 <= i <= j <= text.len()
    &&& (i == 0 || text[i - 1] == '\n')
    &&& (j == text.len() || text[j] == '\n')
    &&& forall|k: int| i <= k < j ==> #[trigger] text[k] != '\n'
}

/// The line that announces a print job.
pub const PRINT_EVENT_LINE: &'static str = "event: print";

/// Some line of `text`, trimmed, is `event: print` (a trailing `\r` is
/// trimmed away with the rest).
pub open spec fn has_print_line(text: Seq<char>) -> bool {
    exists|i: int, j: int|
        is_line(text, i, j) && #[trigger] trim_spec(text.subrange(i, j)) == PRINT_EVENT_LINE@
}

/// An event (the bytes before a blank line) that announces a print job.
pub open spec fn is_print_event(event: Seq<u8>) -> bool {
    has_print_line(utf8_lossy(event))
}

/// Whether some line of `text` is the print announcement.
fn text_has_print_line(text: &str) -> (b: bool)
    ensures
        b == has_print_line(text@),
{
    let v = chars_of(text);
    let n = v.len();
    let mut start: usize = 0;
    let mut k: usize = 0;
    while k < n
        invariant
            v@ == text@,
            n == v.len(),
            start <= k <= n,
            start == 0 || text@[start - 1] == '\n',
            forall|m: int| start <= m < k ==> #[trigger] text@[m] != '\n',
            forall|i: int, j: int|
                is_line(text@, i, j) && j < k ==> #[trigger] trim_spec(text@.subrange(i, j))
                    != PRINT_EVENT_LINE@,
        decreases n - k,
    {
        if v[k] == '\n' {
            if line_is_print(text, start, k) {
                assert(is_line(text@, start as int, k as int));
                return true;
            }
            proof {
                lemma_only_line_ending_at(text@, start as int, k as int);
            }
            start = k + 1;
        }
        k = k + 1;
    }
    if line_is_print(text, start, n) {
        assert(is_line(text@, start as int, n as int));
        return true;
    }
    proof {
        lemma_only_line_ending_at(text@, start as int, n as int);
    }
    false
}

/// Whether the characters `[i, j)` of `text`, trimmed, are the print
/// announcement.
fn line_is_print(text: &str, i: usize, j: usize) -> (b: bool)
    requires
        i <= j <= text@.len(),
    ensures
        b == (trim_spec(text@.subrange(i as int, j as int)) == PRINT_EVENT_LINE@),
{
    let line = text.substring_char(i, j);
    str_eq(trim(line), PRINT_EVENT_LINE)
}

/// The only line of `text` that ends at `k` starts at `start`, when
/// `start` begins a line and no line break lies in `[start, k)`.
proof fn lemma_only_line_ending_at(text: Seq<char>, start: int, k: int)
    requires
        0 <= start <= k <= text.len(),
        start == 0 || text[start - 1] == '\n',
        forall|m: int| start <= m < k ==> #[trigger] text[m] != '\n',
    ensures
        forall|i: int| #[trigger] is_line(text, i, k) ==> i == start,
{
    assert forall|i: int| #[trigger] is_line(text, i, k) implies i == start by {
        if i > start {
            assert(text[i - 1] == '\n');
            assert(text[i - 1] != '\n');
        }
        if i < start {
            assert(text[start - 1] != '\n');
        }
    }
}

/// Position of the first blank line (`\n\n`) at or after `from`.
pub open spec fn first_blank_line(b: Seq<u8>, from: int) -> Option<int>
    decreases b.len() - from,
{
    if from < 0 || from + 1 >= b.len() {
        None
    } else if b[from] == 10 && b[from + 1] == 10 {
        Some(from)
    } else {
        first_blank_line(b, from + 1)
    }
}

/// Reads complete events off the front of `b`: whether one of them
/// announces a print job, and what is left after the events read.
pub open spec fn scan_events(b: Seq<u8>) -> (bool, Seq<u8>)
    decreases b.len(),
{
    match first_blank_line(b, 0) {
        Some(p) => if 0 <= p && p + 2 <= b.len() {
            if is_print_event(b.subrange(0, p)) {
                (true, b.skip(p + 2))
            } else {
                scan_events(b.skip(p + 2))
            }
        } else {
            (false, b)
        },
        None => (false, b),
    }
}

/// Each event that `scan_events` reads off `b` and that is valid UTF-8 was
/// decoded as it is: its lossy text is its UTF-8 text.
pub open spec fn events_decoded_exactly(b: Seq<u8>) -> bool
    decreases b.len(),
{
    match first_blank_line(b, 0) {
        Some(p) => if 0 <= p && p + 2 <= b.len() {
            let e = b.subrange(0, p);
            &&& valid_utf8(e) ==> utf8_lossy(e) == decode_utf8(e)
            &&& is_print_event(e) || events_decoded_exactly(b.skip(p + 2))
        } else {
            true
        },
        None => true,
    }
}

proof fn lemma_first_blank_line(b: Seq<u8>, from: int)
    requires
        0 <= from,
    ensures
        match first_blank_line(b, from) {
            Some(p) => from <= p && p + 1 < b.len() && b[p] == 10 && b[p + 1] == 10 && forall|q: int|
                from <= q < p ==> !(b[q] == 10 && #[trigger] b[q + 1] == 10),
            None => forall|q: int| from <= q && q + 1 < b.len() ==> !(b[q] == 10 && #[trigger] b[q + 1] == 10),
        },
    decreases b.len() - from,
{
    if from + 1 < b.len() && !(b[from] == 10 && b[from + 1] == 10) {
        lemma_first_blank_line(b, from + 1);
    }
}

/// The bytes `v[from..to]` in a new vector.
fn copy_bytes(v: &Vec<u8>, from: usize, to: usize) -> (r: Vec<u8>)
    requires
        from <= to <= v.len(),
    ensures
        r@ == v@.subrange(from as int, to as int),
{
    let mut r: Vec<u8> = Vec::new();
    let mut i = from;
    while i < to
        invariant
            from <= i <= to <= v.len(),
            r@ == v@.subrange(from as int, i as int),
        decreases to - i,
    {
        r.push(v[i]);
        i = i + 1;
        assert(r@ =~= v@.subrange(from as int, i as int));
    }
    r
}

/// The first blank line of `v`, if any.
fn find_blank_line(v: &Vec<u8>) -> (r: Option<usize>)
    ensures
        match r {
            Some(p) => first_blank_line(v@, 0) == Some(p as int),
            None => first_blank_line(v@, 0) is None,
        },
{
    proof {
        lemma_first_blank_line(v@, 0);
    }
    if v.len() < 2 {
        return None;
    }
    let last = v.len() - 1;
    let mut q: usize = 0;
    while q < last
        invariant
            last + 1 == v.len(),
            forall|x: int| 0 <= x < q ==> !(v@[x] == 10 && #[trigger] v@[x + 1] == 10),
            first_blank_line(v@, 0) == first_blank_line(v@, q as int),
        decreases v.len() - q,
    {
        if v[q] == 10 && v[q + 1] == 10 {
            return Some(q);
        }
        q = q + 1;
    }
    None
}

/// Splits the events of the live stream and watches for print
/// announcements.
#[derive(Debug)]
pub struct SseFramer {
    buffer: Vec<u8>,
}

impl View for SseFramer {
    type V = Seq<u8>;

    closed spec fn view(&self) -> Seq<u8> {
        self.buffer@
    }
}

impl SseFramer {
    /// A framer that has seen nothing.
    pub fn new() -> (f: SseFramer)
        ensures
            f@ == Seq::<u8>::empty(),
    {
        SseFramer { buffer: Vec::new() }
    }

    /// Takes the next piece of the stream and says whether a complete event
    /// announced a print job. The pieces of the stream that do not yet
    /// form an event are kept for the next call, unless they exceed
    /// `STREAM_BUFFER_LIMIT` bytes.
    pub fn feed(&mut self, chunk: &[u8]) -> (print: bool)
        ensures
            print == scan_events(old(self)@ + chunk@).0,
            events_decoded_exactly(old(self)@ + chunk@),
            print ==> final(self)@ == scan_events(old(self)@ + chunk@).1,
            !print ==> final(self)@ == if scan_events(old(self)@ + chunk@).1.len()
                > STREAM_BUFFER_LIMIT {
                Seq::<u8>::empty()
            } else {
                scan_events(old(self)@ + chunk@).1
            },
    {
        let ghost all = self.buffer@ + chunk@;
        let mut buf = copy_bytes(&self.buffer, 0, self.buffer.len());
        let mut i: usize = 0;
        while i < chunk.len()
            invariant
                i <= chunk.len(),
                buf@ == old(self).buffer@ + chunk@.subrange(0, i as int),
            decreases chunk.len() - i,
        {
            buf.push(chunk[i]);
            i = i + 1;
            assert(buf@ =~= old(self).buffer@ + chunk@.subrange(0, i as int));
        }
        assert(chunk@.subrange(0, chunk@.len() as int) =~= chunk@);
        loop
            invariant
                scan_events(buf@) == scan_events(all),
                events_decoded_exactly(buf@) ==> events_decoded_exactly(all),
                all == old(self)@ + chunk@,
            ensures
                scan_events(buf@) == scan_events(all),
                events_decoded_exactly(buf@) ==> events_decoded_exactly(all),
                first_blank_line(buf@, 0) is None,
            decreases buf@.len(),
        {
            match find_blank_line(&buf) {
                None => {
                    break;
                },
                Some(p) => {
                    proof {
                        lemma_first_blank_line(buf@, 0);
                    }
                    let event = copy_bytes(&buf, 0, p);
                    let rest = copy_bytes(&buf, p + 2, buf.len());
                    let text = text_of_bytes(event.as_slice());
                    let found = text_has_print_line(text.as_str());
                    assert(rest@ =~= buf@.skip(p + 2));
                    if found {
                        self.buffer = rest;
                        return true;
                    }
                    buf = rest;
                },
            }
        }
        if buf.len() > STREAM_BUFFER_LIMIT {
            buf = Vec::new();
        }
        self.buffer = buf;
        false
    }
}

/// The stream's buffer never holds more than `STREAM_BUFFER_LIMIT` bytes
/// after a piece that announced nothing.
pub proof fn law_stream_buffer_is_bounded(old_buffer: Seq<u8>, chunk: Seq<u8>, new_buffer: Seq<u8>)
    requires
        !scan_events(old_buffer + chunk).0,
        new_buffer == if scan_events(old_buffer + chunk).1.len() > STREAM_BUFFER_LIMIT {
            Seq::<u8>::empty()
        } else {
            scan_events(old_buffer + chunk).1
        },
    ensures
        new_buffer.len() <= STREAM_BUFFER_LIMIT,
{
}

proof fn lemma_first_blank_line_extends(x: Seq<u8>, y: Seq<u8>, from: int)
    requires
        0 <= from,
        first_blank_line(x, from) is Some,
    ensures
        first_blank_line(x + y, from) == first_blank_line(x, from),
    decreases x.len() - from,
{
    let z = x + y;
    assert(from + 1 < x.len());
    assert(z[from] == x[from] && z[from + 1] == x[from + 1]);
    if !(x[from] == 10 && x[from + 1] == 10) {
        lemma_first_blank_line_extends(x, y, from + 1);
    }
}

/// Reading the stream piece by piece sees what reading it whole sees: when
/// the bytes so far announced nothing, going on with what is left of them
/// and the next piece gives the same result as the whole.
pub proof fn law_stream_pieces_compose(x: Seq<u8>, y: Seq<u8>)
    requires
        !scan_events(x).0,
    ensures
        scan_events(x + y) == scan_events(scan_events(x).1 + y),
    decreases x.len(),
{
    lemma_first_blank_line(x, 0);
    match first_blank_line(x, 0) {
        Some(p) => {
            lemma_first_blank_line_extends(x, y, 0);
            let z = x + y;
            assert(z.subrange(0, p) =~= x.subrange(0, p));
            assert(z.skip(p + 2) =~= x.skip(p + 2) + y);
            law_stream_pieces_compose(x.skip(p + 2), y);
        },
        None => {
        },
    }
}

} // verus!
