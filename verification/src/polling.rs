//! The print service: how a job handed out by the server is routed to a
//! local printer, which fallback follows a failed print, which jobs may open
//! the cash drawer, how duplicates are kept out, and what the service shows.
use vstd::prelude::*;
use crate::models::{AppConfig, PrintJob, RuntimeStatus};
use crate::printers::{PrintPlan, PrintStep, print_step_after};
use crate::text::ascii_lower;
use crate::text::is_rfc3339;
use crate::text::{
    after_last, append_str, ascii_lower_seq, before_first, i64_to_decimal, owned, signed_decimal,
    starts_with_ascii_lower, strip_trailing, strip_trailing_char, text_after_last,
    text_before_first,
};

verus! {

/// The text of an optional string.
pub open spec fn opt_view(o: Option<String>) -> Option<Seq<char>> {
    match o {
        Some(s) => Some(s@),
        None => None,
    }
}

// ---------------------------------------------------------------------------
// Routing a job
// ---------------------------------------------------------------------------

/// Message when a job names no area.
pub const NO_AREA: &'static str = "El trabajo no tiene un área de impresión";

/// Message when no printer is assigned to the job's area.
pub const NO_PRINTER: &'static str = "El área no tiene una impresora asignada";

/// Message when the job names no document.
pub const NO_DOCUMENT: &'static str = "El documento no está disponible";

/// Message when the downloaded document is too large.
pub const TOO_LARGE: &'static str = "El documento supera el tamaño permitido";

/// Largest document that is printed: 25 MiB.
pub const MAX_DOCUMENT_BYTES: usize = 26_214_400;

/// The area (server printer id) of a job: its own `printer_id`, else the id
/// of the printer it carries.
pub open spec fn job_area(job: &PrintJob) -> Option<i64> {
    match job.printer_id {
        Some(id) => Some(id),
        None => match job.printer {
            Some(p) => Some(p.id),
            None => None,
        },
    }
}

/// The local printer for a job whose area has the key `area_key`: the
/// configured mapping first, then the share name the server sends, then
/// its printer name.
pub open spec fn assigned_printer(cfg: &AppConfig, job: &PrintJob, area_key: Seq<char>) -> Option<
    Seq<char>,
> {
    if cfg.printer_mappings@.contains_key(area_key) {
        Some(cfg.printer_mappings@[area_key])
    } else {
        match job.printer {
            Some(p) => match p.share_name {
                Some(n) => Some(n@),
                None => opt_view(p.printer_name),
            },
            None => None,
        }
    }
}

/// Where a job's document is fetched: the server's `image_path`, else the
/// upload folder of the configured domain and the job's file name.
pub open spec fn document_url(cfg: &AppConfig, job: &PrintJob) -> Option<Seq<char>> {
    match job.image_path {
        Some(u) => Some(u@),
        None => match job.image_filename {
            Some(n) => Some(strip_trailing(cfg.domain_url@, '/') + "/user-uploads/print/"@ + n@),
            None => None,
        },
    }
}

/// A file name of a final customer receipt: `order-*` or `split-*`, in any
/// ASCII case.
pub open spec fn is_customer_account_file(name: Seq<char>) -> bool {
    "order-"@.is_prefix_of(ascii_lower_seq(name)) || "split-"@.is_prefix_of(ascii_lower_seq(name))
}

/// The job prints a final customer receipt.
pub open spec fn is_customer_account_job(job: &PrintJob) -> bool {
    match job.image_filename {
        Some(n) => is_customer_account_file(n@),
        None => false,
    }
}

/// The drawer is switched on for this job, globally or for its printer.
pub open spec fn drawer_configured(cfg: &AppConfig, job: &PrintJob) -> bool {
    cfg.open_drawer_after_print || match job.printer {
        Some(p) => p.open_cash_drawer == Some(true),
        None => false,
    }
}

/// The print format that the job's printer asks for.
pub open spec fn job_format(job: &PrintJob) -> Option<Seq<char>> {
    match job.printer {
        Some(p) => opt_view(p.print_format),
        None => None,
    }
}

/// The error that keeps a job from being routed, if any.
pub open spec fn route_error(cfg: &AppConfig, job: &PrintJob) -> Option<Seq<char>> {
    match job_area(job) {
        None => Some(NO_AREA@),
        Some(area) => if assigned_printer(cfg, job, signed_decimal(area as int)) is None {
            Some(NO_PRINTER@)
        } else if document_url(cfg, job) is None {
            Some(NO_DOCUMENT@)
        } else {
            None
        },
    }
}

/// Where and how a job is printed.
#[derive(Clone, Debug)]
pub struct JobRoute {
    /// The job's area (server printer id).
    pub area: i64,
    /// The area as the mappings key it: its decimal text.
    pub area_key: String,
    /// The local printer assigned to the area.
    pub printer_name: String,
    /// Where the document is fetched.
    pub document_url: String,
    /// The paper format the area's printer asks for.
    pub print_format: Option<String>,
    /// Whether the drawer is opened after the print.
    pub open_drawer: bool,
    /// Whether the drawer is switched on but left closed because the job is
    /// not a final customer receipt.
    pub drawer_skipped: bool,
    /// Copies to print.
    pub copies: u32,
}

/// `route` is the one that the rules give for `job` under `cfg`.
pub open spec fn is_route_of(cfg: &AppConfig, job: &PrintJob, route: JobRoute) -> bool {
    &&& job_area(job) == Some(route.area)
    &&& route.area_key@ == signed_decimal(route.area as int)
    &&& assigned_printer(cfg, job, route.area_key@) == Some(route.printer_name@)
    &&& document_url(cfg, job) == Some(route.document_url@)
    &&& opt_view(route.print_format) == job_format(job)
    &&& route.open_drawer == (is_customer_account_job(job) && drawer_configured(cfg, job))
    &&& route.drawer_skipped == (!is_customer_account_job(job) && drawer_configured(cfg, job))
    &&& route.copies == if cfg.copies == 0 {
        1
    } else {
        cfg.copies
    }
}

/// Decides where and how `job` is printed, or why it cannot be.
pub fn route_job(cfg: &AppConfig, job: &PrintJob) -> (r: Result<JobRoute, String>)
    ensures
        match r {
            Ok(route) => route_error(cfg, job) is None && is_route_of(cfg, job, route),
            Err(e) => route_error(cfg, job) == Some(e@),
        },
{
    let area = match job.printer_id {
        Some(id) => id,
        None => match &job.printer {
            Some(p) => p.id,
            None => {
                return Err(owned(NO_AREA));
            },
        },
    };
    let area_key = i64_to_decimal(area);
    let printer_name = match cfg.printer_mappings.get(area_key.as_str()) {
        Some(name) => name.clone(),
        None => match &job.printer {
            Some(p) => match &p.share_name {
                Some(n) => n.clone(),
                None => match &p.printer_name {
                    Some(n) => n.clone(),
                    None => {
                        return Err(owned(NO_PRINTER));
                    },
                },
            },
            None => {
                return Err(owned(NO_PRINTER));
            },
        },
    };
    let document_url = match &job.image_path {
        Some(u) => u.clone(),
        None => match &job.image_filename {
            Some(name) => {
                let mut u = strip_trailing_char(cfg.domain_url.as_str(), '/');
                append_str(&mut u, "/user-uploads/print/");
                append_str(&mut u, name.as_str());
                u
            },
            None => {
                return Err(owned(NO_DOCUMENT));
            },
        },
    };
    let print_format = match &job.printer {
        Some(p) => match &p.print_format {
            Some(f) => Some(f.clone()),
            None => None,
        },
        None => None,
    };
    let customer_account = match &job.image_filename {
        Some(name) => starts_with_ascii_lower(name.as_str(), "order-") || starts_with_ascii_lower(
            name.as_str(),
            "split-",
        ),
        None => false,
    };
    let drawer_configured = cfg.open_drawer_after_print || match &job.printer {
        Some(p) => match p.open_cash_drawer {
            Some(b) => b,
            None => false,
        },
        None => false,
    };
    let copies = if cfg.copies < 1 {
        1
    } else {
        cfg.copies
    };
    Ok(
        JobRoute {
            area,
            area_key,
            printer_name,
            document_url,
            print_format,
            open_drawer: customer_account && drawer_configured,
            drawer_skipped: !customer_account && drawer_configured,
            copies,
        },
    )
}

/// The file type of a document: what follows the last `.` of its URL
/// before any `?`.
pub open spec fn url_extension(url: Seq<char>) -> Seq<char> {
    after_last(before_first(url, '?'), '.')
}

/// Name of the queue file for a job: `restaapp-job-{id}.{extension}`.
pub open spec fn queue_file_name(job_id: i64, url: Seq<char>) -> Seq<char> {
    "restaapp-job-"@ + signed_decimal(job_id as int) + "."@ + url_extension(url)
}

/// Checks the size of a downloaded document and names the file it is kept
/// in while it prints.
pub fn stage_document(job_id: i64, document_url: &str, size: usize) -> (r: Result<String, String>)
    ensures
        match r {
            Ok(name) => size <= MAX_DOCUMENT_BYTES && name@ == queue_file_name(
                job_id,
                document_url@,
            ),
            Err(e) => size > MAX_DOCUMENT_BYTES && e@ == TOO_LARGE@,
        },
{
    if size > MAX_DOCUMENT_BYTES {
        return Err(owned(TOO_LARGE));
    }
    let path_part = text_before_first(document_url, '?');
    let extension = text_after_last(path_part.as_str(), '.');
    let mut name = owned("restaapp-job-");
    let id = i64_to_decimal(job_id);
    append_str(&mut name, id.as_str());
    append_str(&mut name, ".");
    append_str(&mut name, extension.as_str());
    Ok(name)
}

// ---------------------------------------------------------------------------
// Printing a routed job, with its fallbacks
// ---------------------------------------------------------------------------

/// What the service does next with a job.
#[derive(Debug)]
pub enum JobStep {
    /// Print the document on `printer` (`backup` when it is the area's
    /// backup printer).
    Print { printer: String, backup: bool },
    /// Print the document on `printer` with the legacy paint program.
    PaintFallback { printer: String },
    /// The job is over: the printer that printed it, or why it failed.
    Finish(Result<String, String>),
}

/// The first thing to do with a routed job: print it on its printer.
pub fn first_job_step(route: &JobRoute) -> (step: JobStep)
    ensures
        step matches JobStep::Print { printer, backup } && printer@ == route.printer_name@
            && !backup,
{
    JobStep::Print { printer: route.printer_name.clone(), backup: false }
}

/// What follows a print attempt on a routed job: a success ends the job
/// with the printer that printed it; a failure of the assigned printer
/// moves to the area's backup printer when one is configured, else to the
/// paint fallback on the same printer; a failure of either fallback ends the
/// job with that failure.
pub fn next_job_step(cfg: &AppConfig, route: &JobRoute, done: JobStep, outcome: Result<(), String>) -> (step: JobStep)
    requires
        !(done is Finish),
    ensures
        match done {
            JobStep::Print { printer, backup } => match outcome {
                Ok(()) => step matches JobStep::Finish(Ok(p)) && p@ == printer@,
                Err(e) => if backup {
                    step matches JobStep::Finish(Err(f)) && f@ == e@
                } else if cfg.backup_mappings@.contains_key(route.area_key@) {
                    step matches JobStep::Print { printer: p, backup: b } && b && p@
                        == cfg.backup_mappings@[route.area_key@]
                } else {
                    step matches JobStep::PaintFallback { printer: p } && p@ == printer@
                },
            },
            JobStep::PaintFallback { printer } => match outcome {
                Ok(()) => step matches JobStep::Finish(Ok(p)) && p@ == printer@,
                Err(e) => step matches JobStep::Finish(Err(f)) && f@ == e@,
            },
            JobStep::Finish(_) => false,
        },
{
    match done {
        JobStep::Print { printer, backup } => match outcome {
            Ok(()) => JobStep::Finish(Ok(printer)),
            Err(e) => {
                if backup {
                    JobStep::Finish(Err(e))
                } else {
                    match cfg.backup_mappings.get(route.area_key.as_str()) {
                        Some(b) => JobStep::Print { printer: b.clone(), backup: true },
                        None => JobStep::PaintFallback { printer },
                    }
                }
            },
        },
        JobStep::PaintFallback { printer } => match outcome {
            Ok(()) => JobStep::Finish(Ok(printer)),
            Err(e) => JobStep::Finish(Err(e)),
        },
        JobStep::Finish(r) => JobStep::Finish(r),
    }
}

/// The report sent to the server when a job is over: `done` with the
/// printer that printed it and the time, or `failed` with the message
/// shown to the user (never the internal error).
pub fn job_report(outcome: &Result<String, String>) -> (b: crate::api::MarkJobBody)
    ensures
        outcome is Ok ==> b.status@ == "done"@ && b.printed_at is Some && b.error is None,
        b.printed_at matches Some(t) ==> is_rfc3339(t@),
        outcome matches Ok(p) ==> opt_view(b.printer) == Some(p@),
        outcome is Err ==> b.status@ == "failed"@ && b.printed_at is None && b.printer is None
            && opt_view(b.error) == Some(PRINT_NEEDS_ATTENTION@),
{
    proof {
        reveal_strlit("done");
        reveal_strlit("failed");
    }
    match outcome {
        Ok(p) => {
            crate::api::mark_job_body("done", Some(p.as_str()), None)
        },
        Err(_) => {
            let b = crate::api::mark_job_body("failed", None, Some(PRINT_NEEDS_ATTENTION));
            assert(b.status@ == "failed"@);
            assert("failed"@ != "done"@);
            b
        },
    }
}

// ---------------------------------------------------------------------------
// Keeping duplicates out
// ---------------------------------------------------------------------------

/// Above this many remembered printed jobs the memory is cleared.
pub const RECENT_LIMIT: usize = 500;

/// The job ids a ledger holds: those printing now and those printed lately.
pub struct LedgerView {
    pub inflight: Set<i64>,
    pub recent: Set<i64>,
}

/// A job may start when it is neither printing nor printed lately.
pub open spec fn may_begin(l: LedgerView, id: i64) -> bool {
    !l.recent.contains(id) && !l.inflight.contains(id)
}

/// The ledger after an attempt to start job `id`.
pub open spec fn after_begin(l: LedgerView, id: i64) -> LedgerView {
    if may_begin(l, id) {
        LedgerView { inflight: l.inflight.insert(id), recent: l.recent }
    } else {
        l
    }
}

/// The ledger after job `id` is over (`printed` when it printed).
pub open spec fn after_finish(l: LedgerView, id: i64, printed: bool) -> LedgerView {
    LedgerView {
        inflight: l.inflight.remove(id),
        recent: if !printed {
            l.recent
        } else if l.recent.insert(id).len() > RECENT_LIMIT {
            Set::empty()
        } else {
            l.recent.insert(id)
        },
    }
}

/// Which jobs are printing now and which were printed lately, so that a job
/// that both the stream and the poll deliver is printed once.
#[derive(Debug)]
pub struct JobLedger {
    inflight: std::collections::HashSet<i64>,
    recent_done: std::collections::HashSet<i64>,
}

impl JobLedger {
    #[verifier::type_invariant]
    spec fn remembers_finitely_many(self) -> bool {
        self.recent_done@.finite()
    }
}

impl View for JobLedger {
    type V = LedgerView;

    closed spec fn view(&self) -> LedgerView {
        LedgerView { inflight: self.inflight@, recent: self.recent_done@ }
    }
}

impl JobLedger {
    /// A ledger that knows no job.
    pub fn new() -> (l: JobLedger)
        ensures
            l@.inflight == Set::<i64>::empty(),
            l@.recent == Set::<i64>::empty(),
            l@.recent.finite(),
    {
        JobLedger {
            inflight: std::collections::HashSet::new(),
            recent_done: std::collections::HashSet::new(),
        }
    }

    /// Starts job `id` unless it is printing or was printed lately; says
    /// whether it started.
    pub fn try_begin(&mut self, id: i64) -> (started: bool)
        ensures
            started == may_begin(old(self)@, id),
            final(self)@ == after_begin(old(self)@, id),
    {
        broadcast use vstd::std_specs::hash::group_hash_axioms;

        proof {
            use_type_invariant(&*self);
        }
        if self.recent_done.contains(&id) {
            return false;
        }
        let mut inflight = std::collections::HashSet::new();
        std::mem::swap(&mut inflight, &mut self.inflight);
        let ghost before = inflight@;
        let started = inflight.insert(id);
        proof {
            if !started {
                assert(inflight@ =~= before);
            }
        }
        self.inflight = inflight;
        started
    }

    /// Ends job `id`; a printed job is remembered, and the memory is cleared
    /// once it holds more than `RECENT_LIMIT` jobs.
    pub fn finish(&mut self, id: i64, printed: bool)
        ensures
            final(self)@ == after_finish(old(self)@, id, printed),
            final(self)@.recent.finite(),
    {
        broadcast use vstd::std_specs::hash::group_hash_axioms;

        proof {
            use_type_invariant(&*self);
        }
        let mut recent = std::collections::HashSet::new();
        std::mem::swap(&mut recent, &mut self.recent_done);
        if printed {
            recent.insert(id);
            if recent.len() > RECENT_LIMIT {
                recent.clear();
            }
        }
        self.recent_done = recent;
        let mut inflight = std::collections::HashSet::new();
        std::mem::swap(&mut inflight, &mut self.inflight);
        inflight.remove(&id);
        self.inflight = inflight;
    }
}

/// While a job prints, it cannot start a second time.
pub proof fn law_no_concurrent_duplicate(l: LedgerView, id: i64)
    ensures
        !may_begin(after_begin(l, id), id),
{
}

/// A job that printed is not printed again while the ledger remembers it:
/// unless the memory of printed jobs was just cleared, a second delivery of
/// the same job does not start.
pub proof fn law_printed_job_not_repeated(l: LedgerView, id: i64)
    requires
        l.recent.finite(),
        l.recent.insert(id).len() <= RECENT_LIMIT,
    ensures
        !may_begin(after_finish(l, id, true), id),
{
}

/// A job that failed may be tried again when the server hands it out anew.
pub proof fn law_failed_job_may_retry(l: LedgerView, id: i64)
    requires
        !l.recent.contains(id),
    ensures
        may_begin(after_finish(l, id, false), id),
{
}

// ---------------------------------------------------------------------------
// What the service shows
// ---------------------------------------------------------------------------

/// `s` differs from `old` at most in its state and message, which are now
/// `state` and `message`.
pub open spec fn shows(s: RuntimeStatus, old: RuntimeStatus, state: Seq<char>, message: Seq<char>) -> bool {
    &&& s.state@ == state
    &&& s.last_message matches Some(m) && m@ == message
    &&& s.running == old.running
    &&& s.printed_today == old.printed_today
    &&& s.last_print_at == old.last_print_at
}

/// Message shown when a job could not be printed (and sent to the server).
pub const PRINT_NEEDS_ATTENTION: &'static str = "La impresión requiere revisión";

/// Checks that the service can start: the branch is connected and at least
/// one area has a printer.
pub fn check_can_start(cfg: &AppConfig) -> (r: Result<(), String>)
    ensures
        match r {
            Ok(()) => !crate::text::is_blank(cfg.branch_key@) && cfg.printer_mappings@.dom().len()
                > 0,
            Err(e) => if crate::text::is_blank(cfg.branch_key@) {
                e@ == "La sucursal debe conectarse primero"@
            } else {
                cfg.printer_mappings@.dom().len() == 0 && e@
                    == "Configura al menos una impresora"@
            },
        },
{
    if crate::text::is_blank_str(cfg.branch_key.as_str()) {
        return Err(owned("La sucursal debe conectarse primero"));
    }
    if cfg.printer_mappings.is_empty() {
        return Err(owned("Configura al menos una impresora"));
    }
    Ok(())
}

/// Whether the service starts by itself when the agent opens: autostart is
/// on, a branch key is set and at least one area has a printer.
pub fn starts_on_launch(cfg: &AppConfig) -> (b: bool)
    ensures
        b == (cfg.autostart && cfg.branch_key@.len() > 0 && cfg.printer_mappings@.dom().len() > 0),
{
    cfg.autostart && cfg.branch_key.as_str().unicode_len() > 0 && !cfg.printer_mappings.is_empty()
}

/// The service is running and ready.
pub fn mark_started(s: &mut RuntimeStatus)
    ensures
        final(s).running,
        final(s).state@ == "ready"@,
        final(s).last_message matches Some(m) && m@ == "Servicio activo"@,
        final(s).printed_today == old(s).printed_today,
        final(s).last_print_at == old(s).last_print_at,
{
    s.running = true;
    s.state = owned("ready");
    s.last_message = Some(owned("Servicio activo"));
}

/// The service is paused.
pub fn mark_stopped(s: &mut RuntimeStatus)
    ensures
        !final(s).running,
        final(s).state@ == "paused"@,
        final(s).last_message matches Some(m) && m@ == "Servicio pausado"@,
        final(s).printed_today == old(s).printed_today,
        final(s).last_print_at == old(s).last_print_at,
{
    s.running = false;
    s.state = owned("paused");
    s.last_message = Some(owned("Servicio pausado"));
}

/// The service could not build its connection and waits to reconnect.
pub fn mark_client_failed(s: &mut RuntimeStatus)
    ensures
        shows(*final(s), *old(s), "reconnecting"@, "Reconectando"@),
{
    s.state = owned("reconnecting");
    s.last_message = Some(owned("Reconectando"));
}

/// The text "Procesando {count} impresión(es)".
pub open spec fn processing_message(count: nat) -> Seq<char> {
    "Procesando "@ + crate::text::decimal(count) + " impresión(es)"@
}

/// The server answered a pull with `count` jobs.
pub fn mark_pulled(s: &mut RuntimeStatus, count: usize)
    ensures
        count == 0 ==> shows(*final(s), *old(s), "ready"@, "Sin impresiones pendientes"@),
        count > 0 ==> shows(*final(s), *old(s), "printing"@, processing_message(count as nat)),
{
    if count == 0 {
        s.state = owned("ready");
        s.last_message = Some(owned("Sin impresiones pendientes"));
    } else {
        s.state = owned("printing");
        let mut m = owned("Procesando ");
        let n = crate::text::u64_to_decimal(count as u64);
        append_str(&mut m, n.as_str());
        append_str(&mut m, " impresión(es)");
        s.last_message = Some(m);
    }
}

/// The server no longer accepts the branch key.
pub fn mark_auth_required(s: &mut RuntimeStatus)
    ensures
        shows(*final(s), *old(s), "setup_required"@, "La sucursal debe conectarse nuevamente"@),
{
    s.state = owned("setup_required");
    s.last_message = Some(owned("La sucursal debe conectarse nuevamente"));
}

/// The connection failed and will be retried.
pub fn mark_reconnecting(s: &mut RuntimeStatus)
    ensures
        shows(*final(s), *old(s), "reconnecting"@, "Reconectando automáticamente"@),
{
    s.state = owned("reconnecting");
    s.last_message = Some(owned("Reconectando automáticamente"));
}

/// A job printed at time `at`: one more print today.
pub fn mark_printed_at(s: &mut RuntimeStatus, at: String)
    requires
        old(s).printed_today < u64::MAX,
    ensures
        final(s).printed_today == old(s).printed_today + 1,
        final(s).last_print_at matches Some(t) && t@ == at@,
        final(s).state@ == "ready"@,
        final(s).last_message matches Some(m) && m@ == "Impresión completada"@,
        final(s).running == old(s).running,
{
    s.printed_today = s.printed_today + 1;
    s.last_print_at = Some(at);
    s.state = owned("ready");
    s.last_message = Some(owned("Impresión completada"));
}

/// `chrono::Local::now().to_rfc3339()`: the local time now, written as
/// RFC 3339 with the local offset. What time it is is not stated.
#[verifier::external_body]
fn local_now_rfc3339() -> (r: String)
    ensures
        is_rfc3339(r@),
{
    chrono::Local::now().to_rfc3339()
}

/// A job printed now: one more print today, stamped with the local time.
pub fn mark_printed(s: &mut RuntimeStatus)
    requires
        old(s).printed_today < u64::MAX,
    ensures
        final(s).printed_today == old(s).printed_today + 1,
        final(s).last_print_at matches Some(t) && is_rfc3339(t@),
        final(s).state@ == "ready"@,
        final(s).last_message matches Some(m) && m@ == "Impresión completada"@,
        final(s).running == old(s).running,
{
    let at = local_now_rfc3339();
    mark_printed_at(s, at);
}

/// A job could not be printed.
pub fn mark_print_failed(s: &mut RuntimeStatus)
    ensures
        shows(*final(s), *old(s), "ready"@, PRINT_NEEDS_ATTENTION@),
{
    s.state = owned("ready");
    s.last_message = Some(owned(PRINT_NEEDS_ATTENTION));
}

// ---------------------------------------------------------------------------
// Pacing the polls and the live channel
// ---------------------------------------------------------------------------

/// The error text with which the server's refusal of the key is reported.
pub const AUTH_REQUIRED: &'static str = "AUTH_REQUIRED";

/// Shortest wait between polls, in milliseconds.
pub const MIN_POLL_MS: u64 = 1_500;

/// Longest wait between polls, in milliseconds.
pub const MAX_POLL_MS: u64 = 30_000;

/// Wait after a failed poll, in milliseconds.
pub const RETRY_POLL_MS: u64 = 3_000;

/// `v` brought into `[lo, hi]`.
pub open spec fn clamp(v: u64, lo: u64, hi: u64) -> u64 {
    if v < lo {
        lo
    } else if v > hi {
        hi
    } else {
        v
    }
}

/// When the worker polls the server next.
#[derive(Clone, Debug)]
pub struct PollSchedule {
    pub first_pull: bool,
    pub next_poll_ms: u64,
}

impl PollSchedule {
    /// A worker that has not polled yet.
    pub fn new() -> (p: PollSchedule)
        ensures
            p.first_pull,
            p.next_poll_ms == MIN_POLL_MS,
    {
        PollSchedule { first_pull: true, next_poll_ms: MIN_POLL_MS }
    }

    /// How long to wait (unless the live channel signals) before the next
    /// poll: nothing before the first one, then the server's hint kept
    /// between 1.5 s and 30 s.
    pub fn wait_before_poll(&mut self) -> (wait: Option<u64>)
        ensures
            old(self).first_pull ==> wait is None,
            !old(self).first_pull ==> wait == Some(
                clamp(old(self).next_poll_ms, MIN_POLL_MS, MAX_POLL_MS),
            ),
            !final(self).first_pull,
            final(self).next_poll_ms == old(self).next_poll_ms,
    {
        let wait = if self.first_pull {
            None
        } else if self.next_poll_ms < MIN_POLL_MS {
            Some(MIN_POLL_MS)
        } else if self.next_poll_ms > MAX_POLL_MS {
            Some(MAX_POLL_MS)
        } else {
            Some(self.next_poll_ms)
        };
        self.first_pull = false;
        wait
    }

    /// The configuration could not be read: retry after 3 s.
    pub fn after_config_error(&mut self)
        ensures
            final(self).next_poll_ms == RETRY_POLL_MS,
            final(self).first_pull == old(self).first_pull,
    {
        self.next_poll_ms = RETRY_POLL_MS;
    }

    /// A poll ended with `result` (the number of jobs and the server's
    /// interval hint, or an error): updates the schedule and what the
    /// service shows.
    pub fn after_poll(&mut self, status: &mut RuntimeStatus, result: &Result<(usize, u64), String>)
        ensures
            final(self).first_pull == old(self).first_pull,
            match result {
                Ok((count, hint)) => {
                    &&& final(self).next_poll_ms == *hint
                    &&& *count == 0 ==> shows(
                        *final(status),
                        *old(status),
                        "ready"@,
                        "Sin impresiones pendientes"@,
                    )
                    &&& *count > 0 ==> shows(
                        *final(status),
                        *old(status),
                        "printing"@,
                        processing_message(*count as nat),
                    )
                },
                Err(e) => {
                    &&& final(self).next_poll_ms == RETRY_POLL_MS
                    &&& e@ == AUTH_REQUIRED@ ==> shows(
                        *final(status),
                        *old(status),
                        "setup_required"@,
                        "La sucursal debe conectarse nuevamente"@,
                    )
                    &&& e@ != AUTH_REQUIRED@ ==> shows(
                        *final(status),
                        *old(status),
                        "reconnecting"@,
                        "Reconectando automáticamente"@,
                    )
                },
            },
    {
        match result {
            Ok((count, hint)) => {
                self.next_poll_ms = *hint;
                mark_pulled(status, *count);
            },
            Err(e) => {
                if crate::text::str_eq(e.as_str(), AUTH_REQUIRED) {
                    mark_auth_required(status);
                } else {
                    mark_reconnecting(status);
                }
                self.next_poll_ms = RETRY_POLL_MS;
            },
        }
    }
}

/// The worker never waits less than 1.5 s nor more than 30 s between two
/// polls, whatever the server hints.
pub proof fn law_poll_wait_is_bounded(hint: u64)
    ensures
        MIN_POLL_MS <= clamp(hint, MIN_POLL_MS, MAX_POLL_MS) <= MAX_POLL_MS,
{
}

/// What the live channel does after a wait on the server's stream.
#[derive(Clone, Debug)]
pub enum StreamNext {
    /// A print event arrived: wake the worker.
    Signal,
    /// Wait this many seconds, then reconnect.
    RetryAfter(u64),
}

/// Seconds the live channel waits when it has no usable configuration.
pub const STREAM_SETUP_RETRY_SECS: u64 = 3;

/// How long the live channel waits before it opens the stream for the
/// configuration it loaded: not at all when it loaded one with a branch key,
/// else `STREAM_SETUP_RETRY_SECS` before it loads again.
pub fn stream_setup_wait(loaded: &Result<AppConfig, String>) -> (w: Option<u64>)
    ensures
        w is None <==> (loaded matches Ok(c) && !crate::text::is_blank(c.branch_key@)),
        w is Some ==> w == Some(STREAM_SETUP_RETRY_SECS),
{
    match loaded {
        Ok(c) => if crate::text::is_blank_str(c.branch_key.as_str()) {
            Some(STREAM_SETUP_RETRY_SECS)
        } else {
            None
        },
        Err(_) => Some(STREAM_SETUP_RETRY_SECS),
    }
}

/// What follows a wait on the live stream: a print event wakes the worker;
/// a refused key waits 5 s, any other failure 2 s.
pub fn after_stream(result: &Result<(), String>) -> (next: StreamNext)
    ensures
        match result {
            Ok(()) => next is Signal,
            Err(e) => next matches StreamNext::RetryAfter(secs) && secs == if e@ == AUTH_REQUIRED@ {
                5u64
            } else {
                2u64
            },
        },
{
    match result {
        Ok(()) => StreamNext::Signal,
        Err(e) => {
            if crate::text::str_eq(e.as_str(), AUTH_REQUIRED) {
                StreamNext::RetryAfter(5)
            } else {
                StreamNext::RetryAfter(2)
            }
        },
    }
}

// ---------------------------------------------------------------------------
// The drawer belongs to final receipts
// ---------------------------------------------------------------------------

/// Kitchen tickets (`kot-*`) and pre-accounts (`pre-account-*`) are not
/// final customer receipts.
pub proof fn law_kitchen_and_pre_account_are_not_receipts(name: Seq<char>)
    requires
        "kot-"@.is_prefix_of(name) || "pre-account-"@.is_prefix_of(name),
    ensures
        !is_customer_account_file(name),
{
    reveal_strlit("kot-");
    reveal_strlit("pre-account-");
    reveal_strlit("order-");
    reveal_strlit("split-");
    let low = ascii_lower_seq(name);
    assert(name.len() > 0);
    assert(low[0] == ascii_lower(name[0]));
    if "kot-"@.is_prefix_of(name) {
        assert("kot-"@[0] == 'k');
        assert(name.subrange(0, 4)[0] == name[0]);
        assert(name[0] == 'k');
    } else {
        assert("pre-account-"@[0] == 'p');
        assert(name.subrange(0, 12)[0] == name[0]);
        assert(name[0] == 'p');
    }
    assert("order-"@[0] == 'o');
    assert("split-"@[0] == 's');
}

/// Whatever the configuration, only a final customer receipt can open the
/// cash drawer: for any other job, the plan that prints it never reaches
/// the drawer step.
pub proof fn law_drawer_only_for_customer_receipts(
    cfg: &AppConfig,
    job: &PrintJob,
    route: JobRoute,
    plan: PrintPlan,
    done: PrintStep,
    outcome: Result<(), String>,
)
    requires
        is_route_of(cfg, job, route),
        plan.open_drawer == route.open_drawer,
        !is_customer_account_job(job),
    ensures
        !(print_step_after(plan, done, outcome) is OpenDrawer),
{
}

/// A final customer receipt opens the drawer after it prints exactly when
/// the drawer is switched on, globally or for its printer.
pub proof fn law_receipt_opens_configured_drawer(
    cfg: &AppConfig,
    job: &PrintJob,
    route: JobRoute,
    plan: PrintPlan,
    done: PrintStep,
)
    requires
        is_route_of(cfg, job, route),
        plan.open_drawer == route.open_drawer,
        is_customer_account_job(job),
        done is RunPrimary || done is RunFallback,
    ensures
        print_step_after(plan, done, Ok(())) is OpenDrawer <==> drawer_configured(cfg, job),
{
}


/// The cash drawer opens for a routed job exactly when the job prints a
/// final customer receipt (a file named `order-*` or `split-*`, in any
/// ASCII case) and the drawer is switched on: by the global setting, or by
/// its printer's own flag being `true`. A printer flag of `false` does not
/// turn off the global setting.
pub proof fn law_drawer_switches(cfg: &AppConfig, job: &PrintJob, route: JobRoute)
    requires
        is_route_of(cfg, job, route),
    ensures
        route.open_drawer == ((job.image_filename matches Some(n) && ("order-"@.is_prefix_of(
            ascii_lower_seq(n@),
        ) || "split-"@.is_prefix_of(ascii_lower_seq(n@)))) && (cfg.open_drawer_after_print || (
        job.printer matches Some(p) && p.open_cash_drawer == Some(true)))),
        job.image_filename matches Some(n) && "order-"@.is_prefix_of(ascii_lower_seq(n@))
            && cfg.open_drawer_after_print ==> route.open_drawer,
        job.image_filename matches Some(n) && "split-"@.is_prefix_of(ascii_lower_seq(n@))
            && cfg.open_drawer_after_print ==> route.open_drawer,
{
}

} // verus!
