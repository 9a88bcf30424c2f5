//! The configuration on disk: where it lives, what is fixed before it is
//! written, what is repaired when it is read, and the diagnostics export
//! that must not reveal the branch key.
use vstd::prelude::*;
use sha2::Digest;
use crate::models::{
    AppConfig, AreaMap, APP_VERSION, DOMAIN_URL, is_v4_uuid, lemma_uuid_not_blank,
    new_device_id,
};
use crate::secure::{mask_key, mask_text, maskable};
use crate::text::{
    append_str, chars_of, is_blank, is_blank_str, matches_at, occurs_at, owned, push_char, str_eq,
    is_rfc3339, is_time_stamp, trim_spec,
};

verus! {

// ---------------------------------------------------------------------------
// Paths
// ---------------------------------------------------------------------------

/// `name` inside the directory `dir`, where `sep` is the platform's path
/// separator (`/` also separates): a separator is put between them unless
/// `dir` is empty or already ends with one.
pub open spec fn path_join(dir: Seq<char>, name: Seq<char>, sep: char) -> Seq<char> {
    if dir.len() == 0 || dir.last() == sep || dir.last() == '/' {
        dir + name
    } else {
        dir.push(sep) + name
    }
}

/// `name` inside the directory `dir`.
pub fn join_path(dir: &str, name: &str, sep: char) -> (r: String)
    ensures
        r@ == path_join(dir@, name@, sep),
{
    let v = chars_of(dir);
    let mut r = owned(dir);
    if v.len() > 0 && v[v.len() - 1] != sep && v[v.len() - 1] != '/' {
        push_char(&mut r, sep);
    }
    append_str(&mut r, name);
    r
}

/// File name of the configuration.
pub const CONFIG_FILE: &'static str = "config.json";

/// The configuration file inside the application directory, or the error
/// that kept the directory from being prepared.
pub fn config_path(app_dir: Result<String, String>, sep: char) -> (r: Result<String, String>)
    ensures
        match app_dir {
            Ok(d) => r matches Ok(p) && p@ == path_join(d@, CONFIG_FILE@, sep),
            Err(e) => r == Err::<String, String>(e),
        },
{
    match app_dir {
        Ok(d) => Ok(join_path(d.as_str(), CONFIG_FILE, sep)),
        Err(e) => Err(e),
    }
}

// ---------------------------------------------------------------------------
// Writing and reading the configuration
// ---------------------------------------------------------------------------

/// `out` keeps every setting of `c` apart from the domain, its lock, the
/// version and the device id.
pub open spec fn same_settings(out: AppConfig, c: AppConfig) -> bool {
    &&& out.schema_version == c.schema_version
    &&& out.branch_key == c.branch_key
    &&& out.locale == c.locale
    &&& out.autostart == c.autostart
    &&& out.open_drawer_after_print == c.open_drawer_after_print
    &&& out.poll_ms == c.poll_ms
    &&& out.idle_poll_ms == c.idle_poll_ms
    &&& out.printer_mappings == c.printer_mappings
    &&& out.backup_mappings == c.backup_mappings
    &&& out.copies == c.copies
    &&& out.restaurant_name == c.restaurant_name
    &&& out.branch_name == c.branch_name
}

/// The device id that `c` keeps: its own unless it is blank, then a new
/// UUID.
pub open spec fn keeps_device_id(out: AppConfig, c: AppConfig) -> bool {
    if is_blank(c.device_id@) {
        is_v4_uuid(out.device_id@)
    } else {
        out.device_id == c.device_id
    }
}

/// `out` is `c` as it is written to disk: the fixed domain, locked, this
/// version, a device id, and every other setting as it was.
pub open spec fn is_prepared_from(out: AppConfig, c: AppConfig) -> bool {
    &&& out.domain_url@ == DOMAIN_URL@
    &&& out.domain_locked
    &&& out.app_version@ == APP_VERSION@
    &&& keeps_device_id(out, c)
    &&& same_settings(out, c)
}

/// The configuration as it is written to disk (the key is protected
/// separately): the domain is the fixed one and locked, the version is this
/// agent's, and a blank device id is replaced by a new one.
pub fn prepare_for_storage(config: AppConfig) -> (out: AppConfig)
    ensures
        is_prepared_from(out, config),
{
    let mut safe = config;
    safe.domain_url = owned(DOMAIN_URL);
    safe.domain_locked = true;
    safe.app_version = owned(APP_VERSION);
    if is_blank_str(safe.device_id.as_str()) {
        safe.device_id = new_device_id();
    }
    safe
}

/// `out` is `c` as read from disk, and `save` says whether it must be
/// written back: a locked or blank domain becomes the fixed one, a blank
/// device id a new one, an older version this one (which asks for a save).
pub open spec fn is_normalized_from(out: AppConfig, c: AppConfig, save: bool) -> bool {
    &&& out.domain_url@ == if c.domain_locked || is_blank(c.domain_url@) {
        DOMAIN_URL@
    } else {
        c.domain_url@
    }
    &&& out.domain_locked == c.domain_locked
    &&& out.app_version@ == APP_VERSION@
    &&& save == (c.app_version@ != APP_VERSION@)
    &&& keeps_device_id(out, c)
    &&& same_settings(out, c)
}

/// Repairs a configuration read from disk (before its key is unprotected)
/// and says whether it must be written back.
pub fn normalize_loaded(cfg: AppConfig) -> (r: (AppConfig, bool))
    ensures
        is_normalized_from(r.0, cfg, r.1),
{
    let mut cfg = cfg;
    if cfg.domain_locked || is_blank_str(cfg.domain_url.as_str()) {
        cfg.domain_url = owned(DOMAIN_URL);
    }
    if is_blank_str(cfg.device_id.as_str()) {
        cfg.device_id = new_device_id();
    }
    let save = !str_eq(cfg.app_version.as_str(), APP_VERSION);
    if save {
        cfg.app_version = owned(APP_VERSION);
    }
    (cfg, save)
}

/// Writing a configuration and reading it back gives the same settings, and
/// asks for no further write: what was saved is what is loaded.
pub proof fn law_load_returns_saved(c: AppConfig, stored: AppConfig, loaded: AppConfig, save: bool)
    requires
        is_prepared_from(stored, c),
        is_normalized_from(loaded, stored, save),
    ensures
        !save,
        loaded.domain_url@ == stored.domain_url@,
        loaded.domain_locked == stored.domain_locked,
        loaded.app_version@ == stored.app_version@,
        loaded.device_id == stored.device_id,
        same_settings(loaded, stored),
        same_settings(loaded, c),
{
    if is_blank(c.device_id@) {
        lemma_uuid_not_blank(stored.device_id@);
    }
}

/// A stored configuration always has the fixed domain, locked, this
/// version, and a device id that is not blank.
pub proof fn law_stored_config_is_complete(c: AppConfig, stored: AppConfig)
    requires
        is_prepared_from(stored, c),
    ensures
        stored.domain_url@ == DOMAIN_URL@,
        stored.domain_locked,
        stored.app_version@ == APP_VERSION@,
        !is_blank(stored.device_id@),
{
    if is_blank(c.device_id@) {
        lemma_uuid_not_blank(stored.device_id@);
    }
}

/// Preparing a configuration that was already prepared changes nothing.
pub proof fn law_prepare_is_idempotent(c: AppConfig, once: AppConfig, twice: AppConfig)
    requires
        is_prepared_from(once, c),
        is_prepared_from(twice, once),
    ensures
        twice.domain_url@ == once.domain_url@,
        twice.domain_locked == once.domain_locked,
        twice.app_version@ == once.app_version@,
        twice.device_id == once.device_id,
        same_settings(twice, once),
{
    law_stored_config_is_complete(c, once);
}

// ---------------------------------------------------------------------------
// Diagnostics
// ---------------------------------------------------------------------------

/// The configuration as it goes into a diagnostics export: the branch key
/// only masked.
#[derive(Clone, Debug)]
pub struct DiagnosticSummary {
    pub app_version: String,
    pub device_id: String,
    pub domain_url: String,
    pub branch_key_masked: String,
    pub locale: String,
    pub autostart: bool,
    pub open_drawer_after_print: bool,
    pub poll_ms: u64,
    pub idle_poll_ms: u64,
    pub printer_mappings: AreaMap,
    pub backup_mappings: AreaMap,
    pub copies: u32,
    pub exported_at: String,
}

/// The summary of `cfg` exported at time `exported_at`.
pub fn diagnostic_summary_at(cfg: &AppConfig, exported_at: String) -> (d: DiagnosticSummary)
    requires
        maskable(cfg.branch_key@),
    ensures
        d.app_version@ == APP_VERSION@,
        d.device_id == cfg.device_id,
        d.domain_url == cfg.domain_url,
        d.branch_key_masked@ == mask_text(cfg.branch_key@),
        d.locale == cfg.locale,
        d.autostart == cfg.autostart,
        d.open_drawer_after_print == cfg.open_drawer_after_print,
        d.poll_ms == cfg.poll_ms,
        d.idle_poll_ms == cfg.idle_poll_ms,
        d.printer_mappings@ == cfg.printer_mappings@,
        d.backup_mappings@ == cfg.backup_mappings@,
        d.copies == cfg.copies,
        d.exported_at == exported_at,
{
    DiagnosticSummary {
        app_version: owned(APP_VERSION),
        device_id: cfg.device_id.clone(),
        domain_url: cfg.domain_url.clone(),
        branch_key_masked: mask_key(cfg.branch_key.as_str()),
        locale: cfg.locale.clone(),
        autostart: cfg.autostart,
        open_drawer_after_print: cfg.open_drawer_after_print,
        poll_ms: cfg.poll_ms,
        idle_poll_ms: cfg.idle_poll_ms,
        printer_mappings: cfg.printer_mappings.clone(),
        backup_mappings: cfg.backup_mappings.clone(),
        copies: cfg.copies,
        exported_at,
    }
}

/// `chrono::Utc::now().to_rfc3339()`: the time now, written as RFC 3339
/// with the offset `+00:00` (chrono writes no `Z`). Which time it is is not
/// stated.
#[verifier::external_body]
pub(crate) fn utc_now_rfc3339() -> (r: String)
    ensures
        is_rfc3339(r@),
        r@.skip(r@.len() - 6) == seq!['+', '0', '0', ':', '0', '0'],
{
    chrono::Utc::now().to_rfc3339()
}

/// The summary of `cfg`, exported now.
pub fn diagnostic_summary(cfg: &AppConfig) -> (d: DiagnosticSummary)
    requires
        maskable(cfg.branch_key@),
    ensures
        d.app_version@ == APP_VERSION@,
        d.device_id == cfg.device_id,
        d.domain_url == cfg.domain_url,
        d.branch_key_masked@ == mask_text(cfg.branch_key@),
        d.locale == cfg.locale,
        d.autostart == cfg.autostart,
        d.open_drawer_after_print == cfg.open_drawer_after_print,
        d.poll_ms == cfg.poll_ms,
        d.idle_poll_ms == cfg.idle_poll_ms,
        d.printer_mappings@ == cfg.printer_mappings@,
        d.backup_mappings@ == cfg.backup_mappings@,
        d.copies == cfg.copies,
        is_rfc3339(d.exported_at@),
{
    let now = utc_now_rfc3339();
    diagnostic_summary_at(cfg, now)
}

/// `chrono::Local::now().format("%Y%m%d-%H%M%S")`: the local time now as a
/// file-name stamp. chrono writes the year as four zero-padded digits (with
/// a sign and at least four digits outside 0 to 9999), then two digits each
/// for month and day, `-`, and two digits each for hour, minute and second.
/// Which time it is is not stated.
#[verifier::external_body]
fn local_stamp() -> (r: String)
    ensures
        is_time_stamp(r@),
{
    chrono::Local::now().format("%Y%m%d-%H%M%S").to_string()
}

/// Name of a diagnostics archive made at `stamp`.
pub open spec fn diagnostics_name(stamp: Seq<char>) -> Seq<char> {
    "restaapp-printer-diag-"@ + stamp + ".zip"@
}

/// Name of a diagnostics archive made at `stamp`.
pub fn diagnostics_file_name_at(stamp: &str) -> (r: String)
    ensures
        r@ == diagnostics_name(stamp@),
{
    let mut r = owned("restaapp-printer-diag-");
    append_str(&mut r, stamp);
    append_str(&mut r, ".zip");
    r
}

/// Name of a diagnostics archive made now.
pub fn diagnostics_file_name() -> (r: String)
    ensures
        exists|stamp: Seq<char>| is_time_stamp(stamp) && r@ == diagnostics_name(stamp),
{
    let stamp = local_stamp();
    let r = diagnostics_file_name_at(stamp.as_str());
    assert(is_time_stamp(stamp@) && r@ == diagnostics_name(stamp@));
    r
}

/// How many logs a diagnostics export holds at most.
pub const EXPORTED_LOGS: usize = 3;

/// `a` is at least as recent as `b`, an unknown time counting as the
/// oldest.
pub open spec fn newer_or_same(a: Option<u128>, b: Option<u128>) -> bool {
    match (a, b) {
        (_, None) => true,
        (None, Some(_)) => false,
        (Some(x), Some(y)) => x >= y,
    }
}

/// Entry `i` is a log (its first field) not yet among `taken`.
pub open spec fn log_candidate(entries: Seq<(bool, Option<u128>)>, taken: Seq<usize>, i: int) -> bool {
    0 <= i < entries.len() && entries[i].0 && !taken.contains(i as usize)
}

/// Entry `i` is the next log to export after `taken`: the most recent of
/// the logs left, the first listed among equally recent ones.
pub open spec fn is_next_log(entries: Seq<(bool, Option<u128>)>, taken: Seq<usize>, i: int) -> bool {
    &&& log_candidate(entries, taken, i)
    &&& forall|j: int| #[trigger]
        log_candidate(entries, taken, j) ==> newer_or_same(entries[i].1, entries[j].1) && (
        newer_or_same(entries[j].1, entries[i].1) ==> i <= j)
}

/// `r` lists the logs of a diagnostics export: the `EXPORTED_LOGS` most
/// recent logs among `entries` (all of them when there are fewer), newest
/// first, equally recent ones in the order listed.
pub open spec fn is_export_choice(entries: Seq<(bool, Option<u128>)>, r: Seq<usize>) -> bool {
    &&& r.len() <= EXPORTED_LOGS
    &&& forall|k: int| 0 <= k < r.len() ==> is_next_log(entries, r.take(k), #[trigger] r[k] as int)
    &&& r.len() < EXPORTED_LOGS ==> forall|j: int| !#[trigger] log_candidate(entries, r, j)
}

/// Whether `a` is more recent than `b`.
fn strictly_newer(a: Option<u128>, b: Option<u128>) -> (r: bool)
    ensures
        r == !newer_or_same(b, a),
{
    match (a, b) {
        (Some(x), Some(y)) => x > y,
        (Some(_), None) => true,
        (None, _) => false,
    }
}

/// Whether `x` is in `v`.
fn contains_index(v: &Vec<usize>, x: usize) -> (b: bool)
    ensures
        b == v@.contains(x),
{
    let mut i: usize = 0;
    while i < v.len()
        invariant
            i <= v.len(),
            forall|k: int| 0 <= k < i ==> v@[k] != x,
        decreases v.len() - i,
    {
        if v[i] == x {
            assert(v@[i as int] == x);
            return true;
        }
        i = i + 1;
    }
    false
}

/// Which files of the log folder go into a diagnostics export, given for
/// each file whether it is a `.log` file and when it was last modified:
/// the positions of the three most recent logs, newest first.
pub fn logs_to_export(entries: &Vec<(bool, Option<u128>)>) -> (r: Vec<usize>)
    ensures
        is_export_choice(entries@, r@),
{
    let mut r: Vec<usize> = Vec::new();
    loop
        invariant
            r@.len() <= EXPORTED_LOGS,
            forall|k: int| 0 <= k < r@.len() ==> is_next_log(entries@, r@.take(k), #[trigger] r@[k] as int),
        ensures
            is_export_choice(entries@, r@),
        decreases EXPORTED_LOGS - r@.len(),
    {
        if r.len() >= EXPORTED_LOGS {
            break;
        }
        let mut best: Option<usize> = None;
        let mut i: usize = 0;
        while i < entries.len()
            invariant
                i <= entries@.len(),
                r@.len() < EXPORTED_LOGS,
                match best {
                    Some(b) => b < i && log_candidate(entries@, r@, b as int) && forall|j: int|
                        0 <= j < i && #[trigger] log_candidate(entries@, r@, j) ==> newer_or_same(
                            entries@[b as int].1,
                            entries@[j].1,
                        ) && (newer_or_same(entries@[j].1, entries@[b as int].1) ==> b <= j),
                    None => forall|j: int| 0 <= j < i ==> !#[trigger] log_candidate(entries@, r@, j),
                },
            decreases entries@.len() - i,
        {
            if entries[i].0 && !contains_index(&r, i) {
                match best {
                    None => {
                        best = Some(i);
                    },
                    Some(b) => {
                        if strictly_newer(entries[i].1, entries[b].1) {
                            best = Some(i);
                        }
                    },
                }
            }
            i = i + 1;
        }
        match best {
            None => {
                break;
            },
            Some(b) => {
                let ghost old_r = r@;
                r.push(b);
                proof {
                    assert(r@.take(old_r.len() as int) =~= old_r);
                    assert forall|k: int| 0 <= k < r@.len() implies is_next_log(
                        entries@,
                        r@.take(k),
                        #[trigger] r@[k] as int,
                    ) by {
                        if k < old_r.len() {
                            assert(r@.take(k) =~= old_r.take(k));
                            assert(r@[k] == old_r[k]);
                        }
                    }
                }
            },
        }
    }
    r
}

/// How much of the end of a log goes into a diagnostics export.
pub const LOG_TAIL_BYTES: usize = 200_000;

/// The last `LOG_TAIL_BYTES` bytes of a log, or all of it when shorter.
pub fn log_tail(data: &[u8]) -> (t: Vec<u8>)
    ensures
        t@ == if data@.len() > LOG_TAIL_BYTES {
            data@.subrange(data@.len() - LOG_TAIL_BYTES, data@.len() as int)
        } else {
            data@
        },
{
    let n = data.len();
    let start = if n > LOG_TAIL_BYTES {
        n - LOG_TAIL_BYTES
    } else {
        0
    };
    let mut t: Vec<u8> = Vec::new();
    let mut i = start;
    while i < n
        invariant
            n == data@.len(),
            start <= i <= n,
            t@ == data@.subrange(start as int, i as int),
        decreases n - i,
    {
        t.push(data[i]);
        i = i + 1;
        assert(t@ =~= data@.subrange(start as int, i as int));
    }
    assert(data@.subrange(0, n as int) =~= data@);
    t
}

/// `s` with every occurrence of `pat` replaced by `to`, matches taken from
/// left to right without overlap (`str::replace`). An empty pattern matches
/// before every character and at the end.
pub open spec fn replace_all(s: Seq<char>, pat: Seq<char>, to: Seq<char>) -> Seq<char>
    decreases s.len(),
{
    if pat.len() == 0 {
        if s.len() == 0 {
            to
        } else {
            to + seq![s[0]] + replace_all(s.drop_first(), pat, to)
        }
    } else if s.len() == 0 {
        s
    } else if pat.is_prefix_of(s) {
        to + replace_all(s.skip(pat.len() as int), pat, to)
    } else {
        seq![s[0]] + replace_all(s.drop_first(), pat, to)
    }
}

/// `text` with every occurrence of `pat` replaced by `to`.
pub fn replace_text(text: &str, pat: &str, to: &str) -> (r: String)
    ensures
        r@ == replace_all(text@, pat@, to@),
{
    let v = chars_of(text);
    let p = chars_of(pat);
    let mut r = String::new();
    let mut i: usize = 0;
    assert(text@.skip(0) =~= text@);
    while i < v.len()
        invariant
            v@ == text@,
            p@ == pat@,
            i <= v.len(),
            replace_all(text@, pat@, to@) == r@ + replace_all(text@.skip(i as int), pat@, to@),
        decreases v.len() - i,
    {
        let ghost rest = text@.skip(i as int);
        if p.len() > 0 && matches_at(&v, &p, i) {
            proof {
                assert(rest.subrange(0, pat@.len() as int) =~= text@.subrange(
                    i as int,
                    i + pat@.len(),
                ));
                assert(pat@.is_prefix_of(rest));
                assert(rest.skip(pat@.len() as int) =~= text@.skip(i + pat@.len()));
            }
            append_str(&mut r, to);
            i = i + p.len();
            assert(r@ + replace_all(text@.skip(i as int), pat@, to@) =~= replace_all(
                text@,
                pat@,
                to@,
            ));
        } else {
            proof {
                if p.len() > 0 && pat@.is_prefix_of(rest) {
                    assert(text@.subrange(i as int, i + pat@.len()) =~= rest.subrange(
                        0,
                        pat@.len() as int,
                    ));
                    assert(occurs_at(text@, pat@, i as int));
                }
                assert(rest.drop_first() =~= text@.skip(i + 1));
                assert(rest[0] == v@[i as int]);
            }
            if p.len() == 0 {
                append_str(&mut r, to);
            }
            push_char(&mut r, v[i]);
            i = i + 1;
            assert(r@ + replace_all(text@.skip(i as int), pat@, to@) =~= replace_all(
                text@,
                pat@,
                to@,
            ));
        }
    }
    proof {
        assert(text@.skip(i as int) =~= Seq::<char>::empty());
    }
    if p.len() == 0 {
        append_str(&mut r, to);
    }
    assert(r@ =~= replace_all(text@, pat@, to@));
    r
}

/// A log text with the branch key replaced by its mask wherever it occurs.
/// With no key (a blank one) there is nothing to redact and the text comes
/// back as it is.
pub fn redact_key(text: &str, key: &str) -> (r: String)
    requires
        maskable(key@),
    ensures
        trim_spec(key@).len() == 0 ==> r@ == text@,
        trim_spec(key@).len() > 0 ==> r@ == replace_all(text@, key@, mask_text(key@)),
{
    if is_blank_str(key) {
        return owned(text);
    }
    let masked = mask_key(key);
    replace_text(text, key, masked.as_str())
}

/// Text that holds no occurrence of a non-empty key is left as it is.
pub proof fn law_redaction_keeps_clean_text(text: Seq<char>, key: Seq<char>, mask: Seq<char>)
    requires
        key.len() > 0,
        forall|at: int| !occurs_at(text, key, at),
    ensures
        replace_all(text, key, mask) == text,
    decreases text.len(),
{
    if text.len() > 0 {
        let rest = text.drop_first();
        if key.is_prefix_of(text) {
            assert(text.subrange(0, key.len() as int) =~= key);
            assert(occurs_at(text, key, 0));
        }
        assert forall|at: int| !occurs_at(rest, key, at) by {
            if occurs_at(rest, key, at) {
                assert(text.subrange(at + 1, at + 1 + key.len()) =~= rest.subrange(at, at + key.len()));
                assert(occurs_at(text, key, at + 1));
            }
        }
        law_redaction_keeps_clean_text(rest, key, mask);
        assert(seq![text[0]] + rest =~= text);
    }
}

/// A lower-case hexadecimal digit for `n < 16`.
pub open spec fn hex_digit(n: int) -> char {
    if n < 10 {
        ((n + 48) as u8) as char
    } else {
        ((n + 87) as u8) as char
    }
}

/// Lower-case hexadecimal text of bytes, two digits per byte, high digit
/// first.
pub open spec fn hex_lower(b: Seq<u8>) -> Seq<char>
    decreases b.len(),
{
    if b.len() == 0 {
        Seq::empty()
    } else {
        hex_lower(b.drop_last()) + seq![hex_digit(b.last() as int / 16), hex_digit(b.last() as int % 16)]
    }
}

/// `hex::encode`: the lower-case hexadecimal text of `bytes`.
#[verifier::external_body]
fn hex_encode(bytes: &[u8]) -> (s: String)
    ensures
        s@ == hex_lower(bytes@),
{
    hex::encode(bytes)
}

/// What `sha2::Sha256::digest` gives for `bytes`.
pub uninterp spec fn sha256_digest(bytes: Seq<u8>) -> Seq<u8>;

/// `sha2::Sha256::digest`: the SHA-256 of `bytes`, 32 bytes long.
#[verifier::external_body]
fn sha256(bytes: &[u8]) -> (d: Vec<u8>)
    ensures
        d@ == sha256_digest(bytes@),
        d@.len() == 32,
{
    sha2::Sha256::digest(bytes).to_vec()
}

/// The line of the checksum file beside an archive: the SHA-256 of its
/// bytes in lower-case hexadecimal, two spaces, its file name, a newline.
pub open spec fn checksum_line_spec(bytes: Seq<u8>, file_name: Seq<char>) -> Seq<char> {
    hex_lower(sha256_digest(bytes)) + "  "@ + file_name + "\n"@
}

/// The line of the checksum file beside an archive.
pub fn checksum_line(bytes: &[u8], file_name: &str) -> (r: String)
    ensures
        r@ == checksum_line_spec(bytes@, file_name@),
{
    let digest = sha256(bytes);
    let mut r = hex_encode(digest.as_slice());
    append_str(&mut r, "  ");
    append_str(&mut r, file_name);
    append_str(&mut r, "\n");
    r
}

/// The environment note of a diagnostics export for operating system `os`.
pub fn environment_note(os: &str) -> (r: String)
    ensures
        r@ == "os="@ + os@ + "\narch=x64\napp="@ + APP_VERSION@ + "\n"@,
{
    let mut r = owned("os=");
    append_str(&mut r, os);
    append_str(&mut r, "\narch=x64\napp=");
    append_str(&mut r, APP_VERSION);
    append_str(&mut r, "\n");
    r
}

} // verus!
