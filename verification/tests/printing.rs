use restaapp_printer::printers::{
    document_kind, print_file, print_file_with_options, raster_width_dots, width_mm_for_format,
    DocumentKind,
};
use restaapp_printer::scripts::quote_ps;

#[test]
fn quote_doubles_single_quotes() {
    assert_eq!(quote_ps("O'Brien"), "O''Brien");
    assert_eq!(quote_ps("plain"), "plain");
    assert_eq!(quote_ps("''"), "''''");
}

#[test]
fn quote_doubles_typographic_quotes() {
    assert_eq!(quote_ps("O\u{2019}Brien"), "O\u{2019}\u{2019}Brien");
    assert_eq!(quote_ps("\u{2018}a\u{201A}b\u{201B}"), "\u{2018}\u{2018}a\u{201A}\u{201A}b\u{201B}\u{201B}");
    assert_eq!(quote_ps("\u{201C}x\u{201D}"), "\u{201C}x\u{201D}");
}

#[test]
fn width_follows_format_names() {
    assert_eq!(width_mm_for_format(None), 80);
    assert_eq!(width_mm_for_format(Some("thermal56mm")), 50);
    assert_eq!(width_mm_for_format(Some("thermal112mm")), 112);
    assert_eq!(width_mm_for_format(Some("custom-58")), 50);
    assert_eq!(width_mm_for_format(Some("x112y")), 112);
    assert_eq!(width_mm_for_format(Some("a4")), 80);
}

#[test]
fn dots_follow_width() {
    assert_eq!(raster_width_dots(50), 384);
    assert_eq!(raster_width_dots(80), 576);
    assert_eq!(raster_width_dots(112), 832);
}

#[test]
fn kinds_by_extension() {
    assert_eq!(document_kind("png"), DocumentKind::Image);
    assert_eq!(document_kind("pdf"), DocumentKind::Pdf);
    assert_eq!(document_kind("txt"), DocumentKind::Text);
}

#[test]
fn missing_file_is_refused() {
    let r = print_file("C:\\x.png", false, "png", "POS-80");
    assert_eq!(r.unwrap_err(), "El documento no está disponible");
}

#[test]
fn image_plan_has_fallback_and_clamped_copies() {
    let plan = print_file_with_options("C:\\a.PNG", true, "PNG", "POS-80", 9, Some("thermal80mm"), true)
        .unwrap();
    assert_eq!(plan.kind, DocumentKind::Image);
    assert_eq!(plan.copies, 5);
    assert_eq!(plan.width_mm, 80);
    assert!(plan.fallback.is_some());
    assert!(plan.primary.contains("$targetW = 576"));
    assert!(plan.open_drawer);
}

use restaapp_printer::printers::{
    drawer_pulse, first_print_step, local_printer, next_print_step, paint_fallback_outcome,
    printer_listing, script_result, test_ticket_script_for, PrintStep, PrinterListing,
};
use restaapp_printer::scripts::{drawer_script_text, pdf_script_text, text_print_script_text};

#[test]
fn pdf_and_text_plans() {
    let pdf = print_file_with_options("C:\\d.pdf", true, "Pdf", "P'1", 0, None, false).unwrap();
    assert_eq!(pdf.kind, DocumentKind::Pdf);
    assert_eq!(pdf.copies, 1);
    assert!(pdf.fallback.is_none());
    assert_eq!(pdf.primary, pdf_script_text("C:\\d.pdf", "P'1", 1));
    assert!(pdf.primary.contains("$printer = 'P''1'"));
    let txt = print_file("C:\\n.txt", true, "txt", "P").unwrap();
    assert_eq!(txt.kind, DocumentKind::Text);
    assert_eq!(
        txt.primary,
        "Get-Content -LiteralPath 'C:\\n.txt' -Raw | Out-Printer -Name 'P'"
    );
    assert_eq!(txt.primary, text_print_script_text("C:\\n.txt", "P"));
}

#[test]
fn narrow_roll_plan() {
    let plan = print_file_with_options("a.jpg", true, "jpg", "P", 2, Some("50mm"), false).unwrap();
    assert_eq!(plan.width_mm, 50);
    assert!(plan.primary.contains("$targetW = 384"));
    assert!(plan.primary.contains("$copies = 2"));
    let gdi = plan.fallback.unwrap();
    assert!(gdi.contains("$configuredMm = [double]50"));
}

#[test]
fn raw_failure_falls_back_then_opens_drawer() {
    let plan = print_file_with_options("a.png", true, "png", "POS", 1, None, true).unwrap();
    let step = first_print_step(&plan);
    let step = next_print_step(&plan, step, Err("raw".into()));
    assert!(matches!(&step, PrintStep::RunFallback(s) if Some(s) == plan.fallback.as_ref()));
    let step = next_print_step(&plan, step, Ok(()));
    assert!(matches!(&step, PrintStep::OpenDrawer(p) if p == "POS"));
    let step = next_print_step(&plan, step, Err("drawer jammed".into()));
    assert!(matches!(step, PrintStep::Done(Ok(()))));
}

#[test]
fn failed_fallback_is_not_success_and_no_drawer() {
    let plan = print_file_with_options("a.png", true, "png", "POS", 1, None, true).unwrap();
    let step = next_print_step(&plan, first_print_step(&plan), Err("raw".into()));
    let step = next_print_step(&plan, step, Err("gdi".into()));
    assert!(matches!(step, PrintStep::Done(Err(e)) if e == "gdi"));
    let pdf = print_file_with_options("a.pdf", true, "pdf", "POS", 1, None, true).unwrap();
    let step = next_print_step(&pdf, first_print_step(&pdf), Err("shell".into()));
    assert!(matches!(step, PrintStep::Done(Err(e)) if e == "shell"));
}

#[test]
fn no_drawer_unless_asked() {
    let plan = print_file_with_options("a.png", true, "png", "POS", 1, None, false).unwrap();
    let step = next_print_step(&plan, first_print_step(&plan), Ok(()));
    assert!(matches!(step, PrintStep::Done(Ok(()))));
}

#[test]
fn outcomes_of_scripts_and_paint() {
    assert!(script_result(true).is_ok());
    assert_eq!(script_result(false).unwrap_err(), "La impresora no completó el documento");
    let ok = paint_fallback_outcome(Some(true));
    assert!(ok.result.is_ok() && !ok.kill);
    let bad = paint_fallback_outcome(Some(false));
    assert_eq!(bad.result.unwrap_err(), "La impresora no completó el documento");
    assert!(!bad.kill);
    let hung = paint_fallback_outcome(None);
    assert!(hung.result.is_ok() && hung.kill);
}

#[test]
fn drawer_pulse_and_script() {
    assert_eq!(drawer_pulse(), vec![0x1B, b'p', 0x00, 0x19, 0xFA]);
    let s = drawer_script_text("C:\\t\\d.bin", "Caja 1");
    assert!(s.contains("ReadAllBytes('C:\\t\\d.bin')"));
    assert!(s.contains("$printer = 'Caja 1'"));
}

#[test]
fn test_ticket_lines_by_locale() {
    let it = test_ticket_script_for("it", "C:\\t.png");
    assert!(it.contains("'Stampa di prova OK','Servizio pronto'"));
    let en = test_ticket_script_for("en", "C:\\t.png");
    assert!(en.contains("'Test print OK','Service ready'"));
    let fr = test_ticket_script_for("fr", "C:\\t.png");
    assert!(fr.contains("'Test impression OK','Service pret'"));
    let es = test_ticket_script_for("es-DO", "C:\\t.png");
    assert!(es.contains("'RESTAAPP PRINTER','By RestaAPP','------------------------','Prueba realizada OK','Servicio listo','50/80 mm thermal'"));
    assert!(es.contains("$bmp.Save('C:\\t.png'"));
}

#[test]
fn printer_list_shapes() {
    assert_eq!(
        printer_listing(false, "[]").unwrap_err(),
        "No fue posible consultar las impresoras"
    );
    assert!(matches!(printer_listing(true, " \r\n").unwrap(), PrinterListing::Empty));
    assert!(matches!(printer_listing(true, " [{}]\n").unwrap(), PrinterListing::Many(t) if t == "[{}]"));
    assert!(matches!(printer_listing(true, "{\"Name\":\"A\"}").unwrap(), PrinterListing::One(t) if t == "{\"Name\":\"A\"}"));
    let p = local_printer("EPSON".into(), true, false, true, true);
    assert_eq!(p.name, "EPSON");
    assert!(p.is_default && !p.is_network && p.is_shared && !p.available);
}
