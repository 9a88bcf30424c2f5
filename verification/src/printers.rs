//! How a document is printed on a Windows printer: which engine, at which
//! paper width, how many copies, what to try when the first engine fails,
//! and when the cash drawer opens.
use vstd::prelude::*;
use crate::models::LocalPrinter;
use crate::scripts::{
    gdi_script, gdi_script_text, law_pdf_copies, pdf_script, pdf_script_text, raw_escpos_script,
    raw_escpos_script_text, test_ticket_script, test_ticket_script_text, text_print_script,
    text_print_script_text,
};
use crate::text::{
    ascii_lower_seq, contains_str, is_blank_str, occurs_at, occurs_in, owned, str_eq, trim,
    trim_spec,
};

verus! {

/// Message when the document to print is missing or a printer did not
/// complete it.
pub const DOCUMENT_MISSING: &'static str = "El documento no está disponible";

/// Message when the printer did not complete the document.
pub const PRINTER_FAILED: &'static str = "La impresora no completó el documento";

/// Message when Windows did not list its printers.
pub const LISTING_FAILED: &'static str = "No fue posible consultar las impresoras";

/// The text of an optional string slice.
pub open spec fn opt_str_view(o: Option<&str>) -> Option<Seq<char>> {
    match o {
        Some(s) => Some(s@),
        None => None,
    }
}

// ---------------------------------------------------------------------------
// Paper width
// ---------------------------------------------------------------------------

/// Roll width in millimetres for a server print format: the named 50/56/58,
/// 112 and 80 mm formats, then any name that mentions 50, 56 or 58, then
/// any that mentions 112, and 80 mm otherwise.
pub open spec fn format_width(f: Seq<char>) -> u32 {
    if f == "thermal50mm"@ || f == "thermal56mm"@ || f == "50mm"@ || f == "58mm"@ {
        50
    } else if f == "thermal112mm"@ || f == "112mm"@ {
        112
    } else if f == "thermal80mm"@ || f == "80mm"@ {
        80
    } else if occurs_in(f, "50"@) || occurs_in(f, "56"@) || occurs_in(f, "58"@) {
        50
    } else if occurs_in(f, "112"@) {
        112
    } else {
        80
    }
}

/// Roll width for an optional format; no format means 80 mm thermal.
pub open spec fn paper_width_mm(f: Option<Seq<char>>) -> u32 {
    match f {
        Some(f) => format_width(f),
        None => format_width("thermal80mm"@),
    }
}

/// Roll width in millimetres for a print format (80 mm when none is given).
pub fn width_mm_for_format(print_format: Option<&str>) -> (w: u32)
    ensures
        w == paper_width_mm(opt_str_view(print_format)),
{
    let f = match print_format {
        Some(f) => f,
        None => "thermal80mm",
    };
    if str_eq(f, "thermal50mm") || str_eq(f, "thermal56mm") || str_eq(f, "50mm") || str_eq(
        f,
        "58mm",
    ) {
        50
    } else if str_eq(f, "thermal112mm") || str_eq(f, "112mm") {
        112
    } else if str_eq(f, "thermal80mm") || str_eq(f, "80mm") {
        80
    } else if contains_str(f, "50") || contains_str(f, "56") || contains_str(f, "58") {
        50
    } else if contains_str(f, "112") {
        112
    } else {
        80
    }
}

/// A text none of whose characters is `c` holds no text that begins with
/// `c`.
proof fn lemma_no_occurrence(f: Seq<char>, p: Seq<char>, c: char)
    requires
        p.len() > 0,
        p[0] == c,
        forall|i: int| 0 <= i < f.len() ==> f[i] != c,
    ensures
        !occurs_in(f, p),
{
    assert forall|at: int| !occurs_at(f, p, at) by {
        if occurs_at(f, p, at) {
            assert(f.subrange(at, at + p.len())[0] == f[at]);
        }
    }
}

/// `p` occurs in `f` at `at`.
proof fn lemma_occurrence(f: Seq<char>, p: Seq<char>, at: int)
    requires
        0 <= at,
        at + p.len() <= f.len(),
        forall|i: int| 0 <= i < p.len() ==> f[at + i] == p[i],
    ensures
        occurs_in(f, p),
{
    assert(f.subrange(at, at + p.len()) =~= p);
    assert(occurs_at(f, p, at));
}

/// The roll width follows what the format's name mentions: 50 mm for a name
/// that mentions 50, 56 or 58 (`50mm`, `58mm`, `thermal50mm`,
/// `thermal56mm`, ...), else 112 mm for one that mentions 112, else 80 mm;
/// with no format, 80 mm.
pub proof fn law_width_follows_format_name(f: Seq<char>)
    ensures
        format_width(f) == if occurs_in(f, "50"@) || occurs_in(f, "56"@) || occurs_in(f, "58"@) {
            50u32
        } else if occurs_in(f, "112"@) {
            112u32
        } else {
            80u32
        },
        paper_width_mm(None) == 80,
{
    reveal_strlit("50");
    reveal_strlit("56");
    reveal_strlit("58");
    reveal_strlit("112");
    reveal_strlit("thermal50mm");
    reveal_strlit("thermal56mm");
    reveal_strlit("50mm");
    reveal_strlit("58mm");
    reveal_strlit("thermal112mm");
    reveal_strlit("112mm");
    reveal_strlit("thermal80mm");
    reveal_strlit("80mm");
    let t50 = "thermal50mm"@;
    let t56 = "thermal56mm"@;
    let t112 = "thermal112mm"@;
    let p112 = "112mm"@;
    let t80 = "thermal80mm"@;
    let p80 = "80mm"@;
    lemma_occurrence(t50, "50"@, 7);
    lemma_occurrence(t56, "56"@, 7);
    lemma_occurrence("50mm"@, "50"@, 0);
    lemma_occurrence("58mm"@, "58"@, 0);
    lemma_occurrence(t112, "112"@, 7);
    lemma_occurrence(p112, "112"@, 0);
    assert(forall|i: int| 0 <= i < t112.len() ==> t112[i] != '5');
    assert(forall|i: int| 0 <= i < p112.len() ==> p112[i] != '5');
    assert(forall|i: int| 0 <= i < t80.len() ==> t80[i] != '5' && t80[i] != '1');
    assert(forall|i: int| 0 <= i < p80.len() ==> p80[i] != '5' && p80[i] != '1');
    lemma_no_occurrence(t112, "50"@, '5');
    lemma_no_occurrence(t112, "56"@, '5');
    lemma_no_occurrence(t112, "58"@, '5');
    lemma_no_occurrence(p112, "50"@, '5');
    lemma_no_occurrence(p112, "56"@, '5');
    lemma_no_occurrence(p112, "58"@, '5');
    lemma_no_occurrence(t80, "50"@, '5');
    lemma_no_occurrence(t80, "56"@, '5');
    lemma_no_occurrence(t80, "58"@, '5');
    lemma_no_occurrence(t80, "112"@, '1');
    lemma_no_occurrence(p80, "50"@, '5');
    lemma_no_occurrence(p80, "56"@, '5');
    lemma_no_occurrence(p80, "58"@, '5');
    lemma_no_occurrence(p80, "112"@, '1');
}

/// Printable width in dots at 203 DPI for a roll width: 384 up to 55 mm,
/// 576 up to 90 mm, 832 beyond.
pub open spec fn raster_dots(width_mm: u32) -> u32 {
    if width_mm <= 55 {
        384
    } else if width_mm <= 90 {
        576
    } else {
        832
    }
}

/// Printable width in dots at 203 DPI for a roll width.
pub fn raster_width_dots(width_mm: u32) -> (d: u32)
    ensures
        d == raster_dots(width_mm),
{
    if width_mm <= 55 {
        384
    } else if width_mm <= 90 {
        576
    } else {
        832
    }
}

/// Copies are kept between 1 and 5.
pub open spec fn clamp_copies(c: u32) -> u32 {
    if c < 1 {
        1
    } else if c > 5 {
        5
    } else {
        c
    }
}

// ---------------------------------------------------------------------------
// Kind of document
// ---------------------------------------------------------------------------

/// How a document is printed.
#[derive(Clone, Copy, Debug, PartialEq, Eq)]
pub enum DocumentKind {
    /// PNG, JPEG, BMP or GIF: raster ESC/POS, then the Windows driver.
    Image,
    /// PDF: the shell's print verb.
    Pdf,
    /// Anything else: printed as text.
    Text,
}

/// What `str::to_lowercase` gives for a text (full Unicode lower case).
pub uninterp spec fn unicode_lowercase(s: Seq<char>) -> Seq<char>;

/// `str::to_lowercase`: the Unicode lower case of `s`. On an ASCII text it
/// is the ASCII lower case: `A`-`Z` become `a`-`z`, nothing else changes.
#[verifier::external_body]
fn lowercase(s: &str) -> (r: String)
    ensures
        r@ == unicode_lowercase(s@),
        (forall|i: int| 0 <= i < s@.len() ==> (#[trigger] s@[i]) as u32 <= 127) ==> r@
            == ascii_lower_seq(s@),
{
    s.to_lowercase()
}

/// The kind of a document from its lower-case file extension.
pub open spec fn kind_of(lower_extension: Seq<char>) -> DocumentKind {
    if lower_extension == "png"@ || lower_extension == "jpg"@ || lower_extension == "jpeg"@
        || lower_extension == "bmp"@ || lower_extension == "gif"@ {
        DocumentKind::Image
    } else if lower_extension == "pdf"@ {
        DocumentKind::Pdf
    } else {
        DocumentKind::Text
    }
}

/// Images (`png`, `jpg`, `jpeg`, `bmp`, `gif`) print as images, `pdf` as a
/// PDF, and every other extension as text.
pub proof fn law_document_kinds(e: Seq<char>)
    ensures
        kind_of(e) is Image <==> (e == "png"@ || e == "jpg"@ || e == "jpeg"@ || e == "bmp"@ || e
            == "gif"@),
        kind_of(e) is Pdf <==> e == "pdf"@,
        kind_of(e) is Text <==> !(e == "png"@ || e == "jpg"@ || e == "jpeg"@ || e == "bmp"@ || e
            == "gif"@ || e == "pdf"@),
{
    reveal_strlit("png");
    reveal_strlit("jpg");
    reveal_strlit("jpeg");
    reveal_strlit("bmp");
    reveal_strlit("gif");
    reveal_strlit("pdf");
    assert("pdf"@[0] == 'p' && "pdf"@[1] == 'd');
    assert("png"@[1] == 'n');
}

/// The kind of a document from its lower-case file extension.
pub fn document_kind(lower_extension: &str) -> (k: DocumentKind)
    ensures
        k == kind_of(lower_extension@),
{
    if str_eq(lower_extension, "png") || str_eq(lower_extension, "jpg") || str_eq(
        lower_extension,
        "jpeg",
    ) || str_eq(lower_extension, "bmp") || str_eq(lower_extension, "gif") {
        DocumentKind::Image
    } else if str_eq(lower_extension, "pdf") {
        DocumentKind::Pdf
    } else {
        DocumentKind::Text
    }
}

// ---------------------------------------------------------------------------
// Print plans
// ---------------------------------------------------------------------------

/// How one document is printed.
#[derive(Clone, Debug)]
pub struct PrintPlan {
    /// The Windows printer.
    pub printer_name: String,
    /// Copies, between 1 and 5.
    pub copies: u32,
    /// Roll width in millimetres.
    pub width_mm: u32,
    /// Which engine prints it.
    pub kind: DocumentKind,
    /// The script run first.
    pub primary: String,
    /// The script run when the first one fails, if any.
    pub fallback: Option<String>,
    /// Whether the drawer opens after a successful print.
    pub open_drawer: bool,
}

/// `plan` is the plan for printing the file at `path` (with file extension
/// `extension`) on `printer` with the given options.
pub open spec fn is_plan_for(
    plan: PrintPlan,
    path: Seq<char>,
    extension: Seq<char>,
    printer: Seq<char>,
    copies: u32,
    print_format: Option<Seq<char>>,
    open_drawer: bool,
) -> bool {
    let c = clamp_copies(copies);
    let w = paper_width_mm(print_format);
    &&& plan.printer_name@ == printer
    &&& plan.copies == c
    &&& plan.width_mm == w
    &&& plan.kind == kind_of(unicode_lowercase(extension))
    &&& plan.open_drawer == open_drawer
    &&& match plan.kind {
        DocumentKind::Image => plan.primary@ == raw_escpos_script(path, printer, c, raster_dots(w))
            && (plan.fallback matches Some(g) && g@ == gdi_script(path, printer, c, w)),
        DocumentKind::Pdf => plan.primary@ == pdf_script(path, printer, c) && plan.fallback is None,
        DocumentKind::Text => plan.primary@ == text_print_script(path, printer)
            && plan.fallback is None,
    }
}

/// A PDF plan prints the copies asked for (between 1 and 5): its script's
/// copies line carries that count.
pub proof fn law_pdf_plan_prints_copies_asked(
    plan: PrintPlan,
    path: Seq<char>,
    extension: Seq<char>,
    printer: Seq<char>,
    copies: u32,
    print_format: Option<Seq<char>>,
    open_drawer: bool,
)
    requires
        is_plan_for(plan, path, extension, printer, copies, print_format, open_drawer),
        plan.kind is Pdf,
        1 <= copies <= 5,
    ensures
        plan.copies == copies,
        copies == 1 ==> occurs_in(plan.primary@, "$copies = 1\n"@),
        copies == 2 ==> occurs_in(plan.primary@, "$copies = 2\n"@),
        copies == 3 ==> occurs_in(plan.primary@, "$copies = 3\n"@),
        copies == 4 ==> occurs_in(plan.primary@, "$copies = 4\n"@),
        copies == 5 ==> occurs_in(plan.primary@, "$copies = 5\n"@),
{
    law_pdf_copies(path, printer, copies);
}

/// Plans the printing of the file at `path` (whose file extension is
/// `extension`, and which exists when `path_exists`) on `printer_name`:
/// images go raw to the printer at its native width with the Windows driver
/// as fallback, PDFs through the shell, anything else as text; copies are
/// kept between 1 and 5.
pub fn print_file_with_options(
    path: &str,
    path_exists: bool,
    extension: &str,
    printer_name: &str,
    copies: u32,
    print_format: Option<&str>,
    open_drawer: bool,
) -> (r: Result<PrintPlan, String>)
    ensures
        match r {
            Ok(plan) => path_exists && is_plan_for(
                plan,
                path@,
                extension@,
                printer_name@,
                copies,
                opt_str_view(print_format),
                open_drawer,
            ),
            Err(e) => !path_exists && e@ == DOCUMENT_MISSING@,
        },
        (forall|i: int| 0 <= i < extension@.len() ==> (#[trigger] extension@[i]) as u32 <= 127)
            ==> (r matches Ok(plan) ==> plan.kind == kind_of(ascii_lower_seq(extension@))),
{
    if !path_exists {
        return Err(owned(DOCUMENT_MISSING));
    }
    let lower = lowercase(extension);
    let kind = document_kind(lower.as_str());
    let copies = if copies < 1 {
        1
    } else if copies > 5 {
        5
    } else {
        copies
    };
    let width_mm = width_mm_for_format(print_format);
    let (primary, fallback) = match kind {
        DocumentKind::Image => {
            let dots = raster_width_dots(width_mm);
            (
                raw_escpos_script_text(path, printer_name, copies, dots),
                Some(gdi_script_text(path, printer_name, copies, width_mm)),
            )
        },
        DocumentKind::Pdf => (pdf_script_text(path, printer_name, copies), None),
        DocumentKind::Text => (text_print_script_text(path, printer_name), None),
    };
    Ok(
        PrintPlan {
            printer_name: owned(printer_name),
            copies,
            width_mm,
            kind,
            primary,
            fallback,
            open_drawer,
        },
    )
}

/// Plans the printing of a file with the defaults: one copy, 80 mm, no
/// drawer.
pub fn print_file(path: &str, path_exists: bool, extension: &str, printer_name: &str) -> (r: Result<
    PrintPlan,
    String,
>)
    ensures
        match r {
            Ok(plan) => path_exists && is_plan_for(
                plan,
                path@,
                extension@,
                printer_name@,
                1,
                None,
                false,
            ),
            Err(e) => !path_exists && e@ == DOCUMENT_MISSING@,
        },
{
    print_file_with_options(path, path_exists, extension, printer_name, 1, None, false)
}

// ---------------------------------------------------------------------------
// Carrying a plan out
// ---------------------------------------------------------------------------

/// What to do next while printing one document.
#[derive(Debug)]
pub enum PrintStep {
    /// Run the plan's first script.
    RunPrimary(String),
    /// Run the plan's fallback script.
    RunFallback(String),
    /// Send the drawer pulse to this printer.
    OpenDrawer(String),
    /// Printing is over, with this result.
    Done(Result<(), String>),
}

/// What follows step `done` that ended with `outcome`: a print that
/// succeeded opens the drawer when the plan asks for it and is then over; a
/// first script that failed hands over to the fallback when there is one;
/// any other failure ends the print with it; the drawer's own result does
/// not matter.
pub open spec fn print_step_after(plan: PrintPlan, done: PrintStep, outcome: Result<(), String>) -> PrintStep {
    match done {
        PrintStep::RunPrimary(_) => match outcome {
            Ok(()) => if plan.open_drawer {
                PrintStep::OpenDrawer(plan.printer_name)
            } else {
                PrintStep::Done(Ok(()))
            },
            Err(e) => match plan.fallback {
                Some(g) => PrintStep::RunFallback(g),
                None => PrintStep::Done(Err(e)),
            },
        },
        PrintStep::RunFallback(_) => match outcome {
            Ok(()) => if plan.open_drawer {
                PrintStep::OpenDrawer(plan.printer_name)
            } else {
                PrintStep::Done(Ok(()))
            },
            Err(e) => PrintStep::Done(Err(e)),
        },
        PrintStep::OpenDrawer(_) => PrintStep::Done(Ok(())),
        PrintStep::Done(r) => PrintStep::Done(r),
    }
}

/// The first step of a plan: run its first script.
pub fn first_print_step(plan: &PrintPlan) -> (step: PrintStep)
    ensures
        step == PrintStep::RunPrimary(plan.primary),
{
    PrintStep::RunPrimary(plan.primary.clone())
}

/// The step that follows `done`, which ended with `outcome`.
pub fn next_print_step(plan: &PrintPlan, done: PrintStep, outcome: Result<(), String>) -> (step: PrintStep)
    requires
        !(done is Done),
    ensures
        step == print_step_after(*plan, done, outcome),
{
    match done {
        PrintStep::RunPrimary(_) => match outcome {
            Ok(()) => if plan.open_drawer {
                PrintStep::OpenDrawer(plan.printer_name.clone())
            } else {
                PrintStep::Done(Ok(()))
            },
            Err(e) => match &plan.fallback {
                Some(g) => PrintStep::RunFallback(g.clone()),
                None => PrintStep::Done(Err(e)),
            },
        },
        PrintStep::RunFallback(_) => match outcome {
            Ok(()) => if plan.open_drawer {
                PrintStep::OpenDrawer(plan.printer_name.clone())
            } else {
                PrintStep::Done(Ok(()))
            },
            Err(e) => PrintStep::Done(Err(e)),
        },
        PrintStep::OpenDrawer(_) => PrintStep::Done(Ok(())),
        PrintStep::Done(r) => PrintStep::Done(r),
    }
}

/// The drawer opens only after a print that succeeded, and only when the
/// plan asks for it.
pub proof fn law_drawer_only_after_print(plan: PrintPlan, done: PrintStep, outcome: Result<(), String>)
    ensures
        print_step_after(plan, done, outcome) is OpenDrawer ==> plan.open_drawer && outcome is Ok
            && (done is RunPrimary || done is RunFallback),
{
}

/// A print ends in success only after a script that succeeded: the drawer
/// step follows a successful print, and a failed script never turns into a
/// success.
pub proof fn law_failure_is_not_success(plan: PrintPlan, done: PrintStep, e: String)
    requires
        done is RunFallback || (done is RunPrimary && plan.fallback is None),
    ensures
        print_step_after(plan, done, Err(e)) == PrintStep::Done(Err(e)),
{
}

/// How a script run ended: success, or the printer did not complete the
/// document.
pub fn script_result(succeeded: bool) -> (r: Result<(), String>)
    ensures
        succeeded ==> r is Ok,
        !succeeded ==> (r matches Err(e) && e@ == PRINTER_FAILED@),
{
    if succeeded {
        Ok(())
    } else {
        Err(owned(PRINTER_FAILED))
    }
}

/// How the paint fallback ended, and whether its process must be killed.
#[derive(Debug)]
pub struct PaintOutcome {
    pub result: Result<(), String>,
    pub kill: bool,
}

/// The outcome of the legacy paint fallback from how its process ended
/// within the wait: `Some(succeeded)` when it exited, `None` when it was
/// still running (it is then killed and the print counts as sent).
pub fn paint_fallback_outcome(exited: Option<bool>) -> (o: PaintOutcome)
    ensures
        match exited {
            Some(true) => o.result is Ok && !o.kill,
            Some(false) => o.result matches Err(e) && e@ == PRINTER_FAILED@ && !o.kill,
            None => o.result is Ok && o.kill,
        },
{
    match exited {
        Some(true) => PaintOutcome { result: Ok(()), kill: false },
        Some(false) => PaintOutcome { result: Err(owned(PRINTER_FAILED)), kill: false },
        None => PaintOutcome { result: Ok(()), kill: true },
    }
}

// ---------------------------------------------------------------------------
// The drawer, the test ticket, the list of local printers
// ---------------------------------------------------------------------------

/// ESC/POS drawer pulse on pin 2: `ESC p 0 25 250`.
pub fn drawer_pulse() -> (b: Vec<u8>)
    ensures
        b@ == seq![0x1Bu8, 0x70u8, 0x00u8, 0x19u8, 0xFAu8],
{
    let mut b: Vec<u8> = Vec::new();
    b.push(0x1B);
    b.push(0x70);
    b.push(0x00);
    b.push(0x19);
    b.push(0xFA);
    assert(b@ =~= seq![0x1Bu8, 0x70u8, 0x00u8, 0x19u8, 0xFAu8]);
    b
}

/// The four lines of the test ticket in a locale: Italian, English or
/// French, Spanish for any other locale.
pub open spec fn test_lines(locale: Seq<char>) -> (Seq<char>, Seq<char>, Seq<char>, Seq<char>) {
    if locale == "it"@ {
        ("RESTAAPP PRINTER"@, "By RestaAPP"@, "Stampa di prova OK"@, "Servizio pronto"@)
    } else if locale == "en"@ {
        ("RESTAAPP PRINTER"@, "By RestaAPP"@, "Test print OK"@, "Service ready"@)
    } else if locale == "fr"@ {
        ("RESTAAPP PRINTER"@, "By RestaAPP"@, "Test impression OK"@, "Service pret"@)
    } else {
        ("RESTAAPP PRINTER"@, "By RestaAPP"@, "Prueba realizada OK"@, "Servicio listo"@)
    }
}

/// The test ticket is drawn in the branch's language: Italian for `it`,
/// English for `en`, French for `fr`, and Spanish for every other locale,
/// `es` among them; its first two lines are always the product's name.
pub proof fn law_test_ticket_language(locale: Seq<char>, path: Seq<char>)
    ensures
        ({
            let script = test_ticket_script(
                test_lines(locale).0,
                test_lines(locale).1,
                test_lines(locale).2,
                test_lines(locale).3,
                path,
            );
            &&& locale == "it"@ ==> script == test_ticket_script(
                "RESTAAPP PRINTER"@,
                "By RestaAPP"@,
                "Stampa di prova OK"@,
                "Servizio pronto"@,
                path,
            )
            &&& locale == "en"@ ==> script == test_ticket_script(
                "RESTAAPP PRINTER"@,
                "By RestaAPP"@,
                "Test print OK"@,
                "Service ready"@,
                path,
            )
            &&& locale == "fr"@ ==> script == test_ticket_script(
                "RESTAAPP PRINTER"@,
                "By RestaAPP"@,
                "Test impression OK"@,
                "Service pret"@,
                path,
            )
            &&& (locale == "es"@ || (locale != "it"@ && locale != "en"@ && locale != "fr"@))
                ==> script == test_ticket_script(
                "RESTAAPP PRINTER"@,
                "By RestaAPP"@,
                "Prueba realizada OK"@,
                "Servicio listo"@,
                path,
            )
        }),
{
    reveal_strlit("es");
    reveal_strlit("it");
    reveal_strlit("en");
    reveal_strlit("fr");
    assert("es"@[0] != "it"@[0] && "es"@[1] != "en"@[1] && "es"@[0] != "fr"@[0]);
    assert("es"@ != "it"@ && "es"@ != "en"@ && "es"@ != "fr"@);
}

/// The script that draws the test ticket for `locale` into the PNG file at
/// `path`.
pub fn test_ticket_script_for(locale: &str, path: &str) -> (r: String)
    ensures
        r@ == test_ticket_script(
            test_lines(locale@).0,
            test_lines(locale@).1,
            test_lines(locale@).2,
            test_lines(locale@).3,
            path@,
        ),
{
    let (l3, l4) = if str_eq(locale, "it") {
        ("Stampa di prova OK", "Servizio pronto")
    } else if str_eq(locale, "en") {
        ("Test print OK", "Service ready")
    } else if str_eq(locale, "fr") {
        ("Test impression OK", "Service pret")
    } else {
        ("Prueba realizada OK", "Servicio listo")
    };
    test_ticket_script_text("RESTAAPP PRINTER", "By RestaAPP", l3, l4, path)
}

/// A local printer as Windows reports it; it is available unless it works
/// offline.
pub fn local_printer(
    name: String,
    is_default: bool,
    network: bool,
    shared: bool,
    work_offline: bool,
) -> (p: LocalPrinter)
    ensures
        p.name == name,
        p.is_default == is_default,
        p.is_network == network,
        p.is_shared == shared,
        p.available == !work_offline,
{
    LocalPrinter { name, is_default, is_network: network, is_shared: shared, available: !work_offline }
}

/// The shape of the printer list that PowerShell printed.
#[derive(Clone, Debug)]
pub enum PrinterListing {
    /// No printer.
    Empty,
    /// A JSON array of printers (the trimmed text).
    Many(String),
    /// A single JSON printer object (the trimmed text).
    One(String),
}

/// Reads the outcome of the printer-list command: a failed command is an
/// error; blank output means no printer; otherwise the trimmed text is an
/// array when it starts with `[`, else a single printer.
pub fn printer_listing(succeeded: bool, output: &str) -> (r: Result<PrinterListing, String>)
    ensures
        !succeeded ==> (r matches Err(e) && e@ == LISTING_FAILED@),
        succeeded && trim_spec(output@).len() == 0 ==> r matches Ok(PrinterListing::Empty),
        succeeded && trim_spec(output@).len() > 0 && trim_spec(output@)[0] == '[' ==> (r matches Ok(
            PrinterListing::Many(t),
        ) && t@ == trim_spec(output@)),
        succeeded && trim_spec(output@).len() > 0 && trim_spec(output@)[0] != '[' ==> (r matches Ok(
            PrinterListing::One(t),
        ) && t@ == trim_spec(output@)),
{
    if !succeeded {
        return Err(owned(LISTING_FAILED));
    }
    let t = trim(output);
    let v = crate::text::chars_of(t);
    if v.len() == 0 {
        Ok(PrinterListing::Empty)
    } else if v[0] == '[' {
        Ok(PrinterListing::Many(owned(t)))
    } else {
        Ok(PrinterListing::One(owned(t)))
    }
}

} // verus!
