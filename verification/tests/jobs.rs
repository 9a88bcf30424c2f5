use restaapp_printer::models::{AppConfig, PrintJob, RuntimeStatus, ServerPrinter};
use restaapp_printer::polling::{
    after_stream, check_can_start, first_job_step, job_report, mark_printed, mark_printed_at, mark_started,
    mark_stopped, next_job_step, route_job, stage_document, JobLedger, JobStep, PollSchedule,
    StreamNext, MAX_DOCUMENT_BYTES, starts_on_launch, stream_setup_wait, STREAM_SETUP_RETRY_SECS,
};

fn printer(id: i64) -> ServerPrinter {
    ServerPrinter {
        id,
        name: "Cocina".into(),
        printing_choice: Some("directPrint".into()),
        print_type: None,
        print_format: Some("thermal80mm".into()),
        share_name: Some("Kitchen80".into()),
        printer_name: None,
        printer_type: Some("kitchen".into()),
        open_cash_drawer: None,
    }
}

fn job(id: i64, file: &str) -> PrintJob {
    PrintJob {
        id,
        branch_id: Some(9),
        restaurant_id: Some(8),
        printer_id: Some(14),
        status: Some("printing".into()),
        image_filename: Some(file.into()),
        image_path: None,
        printer: Some(printer(14)),
    }
}

fn config() -> AppConfig {
    let mut cfg = AppConfig::default();
    cfg.domain_url = "https://restapp.allsender.tech//".into();
    cfg.printer_mappings.insert("14".into(), "EPSON TM-T20".into());
    cfg
}

#[test]
fn mapping_wins_over_server_names() {
    let route = route_job(&config(), &job(1, "kot-595-11.png")).unwrap();
    assert_eq!(route.area, 14);
    assert_eq!(route.area_key, "14");
    assert_eq!(route.printer_name, "EPSON TM-T20");
    assert_eq!(
        route.document_url,
        "https://restapp.allsender.tech/user-uploads/print/kot-595-11.png"
    );
    assert_eq!(route.print_format.as_deref(), Some("thermal80mm"));
    assert_eq!(route.copies, 1);
}

#[test]
fn share_name_used_without_mapping() {
    let cfg = AppConfig::default();
    let route = route_job(&cfg, &job(1, "kot-1-2.png")).unwrap();
    assert_eq!(route.printer_name, "Kitchen80");
}

#[test]
fn share_name_comes_before_printer_name() {
    let mut j = job(1, "kot-1-2.png");
    let mut p = printer(14);
    p.printer_name = Some("EPSON Local".into());
    j.printer = Some(p.clone());
    let route = route_job(&AppConfig::default(), &j).unwrap();
    assert_eq!(route.printer_name, "Kitchen80");
    p.share_name = None;
    j.printer = Some(p);
    let route = route_job(&AppConfig::default(), &j).unwrap();
    assert_eq!(route.printer_name, "EPSON Local");
}

#[test]
fn area_taken_from_printer_when_job_has_none() {
    let mut j = job(1, "kot-1-2.png");
    j.printer_id = None;
    j.printer = Some(printer(-7));
    let route = route_job(&AppConfig::default(), &j).unwrap();
    assert_eq!(route.area, -7);
    assert_eq!(route.area_key, "-7");
}

#[test]
fn image_path_is_used_as_given() {
    let mut j = job(1, "kot-1-2.png");
    j.image_path = Some("https://cdn.example/x.pdf?v=2".into());
    let route = route_job(&config(), &j).unwrap();
    assert_eq!(route.document_url, "https://cdn.example/x.pdf?v=2");
}

#[test]
fn routing_errors() {
    let mut j = job(1, "kot-1-2.png");
    j.printer_id = None;
    j.printer = None;
    assert_eq!(
        route_job(&config(), &j).unwrap_err(),
        "El trabajo no tiene un área de impresión"
    );
    let mut j = job(1, "kot-1-2.png");
    j.printer = None;
    j.printer_id = Some(99);
    assert_eq!(
        route_job(&config(), &j).unwrap_err(),
        "El área no tiene una impresora asignada"
    );
    let mut j = job(1, "kot-1-2.png");
    j.image_filename = None;
    assert_eq!(route_job(&config(), &j).unwrap_err(), "El documento no está disponible");
}

#[test]
fn drawer_never_opens_for_kitchen_tickets_or_pre_accounts() {
    let mut cfg = config();
    cfg.open_drawer_after_print = true;
    let kot = route_job(&cfg, &job(1, "kot-595-11.png")).unwrap();
    assert!(!kot.open_drawer);
    assert!(kot.drawer_skipped);
    let pre = route_job(&cfg, &job(2, "pre-account-77.png")).unwrap();
    assert!(!pre.open_drawer);
    let order = route_job(&cfg, &job(3, "ORDER-77.png")).unwrap();
    assert!(order.open_drawer);
    let split = route_job(&cfg, &job(4, "split-77-1.png")).unwrap();
    assert!(split.open_drawer);
}

#[test]
fn drawer_follows_printer_setting_for_receipts() {
    let cfg = config();
    let mut j = job(3, "order-77.png");
    assert!(!route_job(&cfg, &j).unwrap().open_drawer);
    let mut p = printer(14);
    p.open_cash_drawer = Some(true);
    j.printer = Some(p);
    assert!(route_job(&cfg, &j).unwrap().open_drawer);
}

#[test]
fn zero_copies_means_one() {
    let mut cfg = config();
    cfg.copies = 0;
    assert_eq!(route_job(&cfg, &job(1, "kot-1-2.png")).unwrap().copies, 1);
    cfg.copies = 3;
    assert_eq!(route_job(&cfg, &job(1, "kot-1-2.png")).unwrap().copies, 3);
}

#[test]
fn staged_file_names() {
    assert_eq!(
        stage_document(42, "https://x/user-uploads/print/kot-1-2.png", 10).unwrap(),
        "restaapp-job-42.png"
    );
    assert_eq!(
        stage_document(7, "https://x/a.b/doc.pdf?sig=1.2", 10).unwrap(),
        "restaapp-job-7.pdf"
    );
    assert_eq!(stage_document(-3, "noext", 0).unwrap(), "restaapp-job--3.noext");
    assert_eq!(stage_document(1, "a.png", MAX_DOCUMENT_BYTES).unwrap(), "restaapp-job-1.png");
    assert_eq!(
        stage_document(1, "a.png", MAX_DOCUMENT_BYTES + 1).unwrap_err(),
        "El documento supera el tamaño permitido"
    );
}

#[test]
fn failed_print_moves_to_backup_then_finishes() {
    let mut cfg = config();
    cfg.backup_mappings.insert("14".into(), "Backup80".into());
    let route = route_job(&cfg, &job(1, "kot-1-2.png")).unwrap();
    let step = first_job_step(&route);
    let step = next_job_step(&cfg, &route, step, Err("x".into()));
    match &step {
        JobStep::Print { printer, backup } => {
            assert_eq!(printer, "Backup80");
            assert!(*backup);
        }
        other => panic!("unexpected {other:?}"),
    }
    match next_job_step(&cfg, &route, step, Ok(())) {
        JobStep::Finish(Ok(p)) => assert_eq!(p, "Backup80"),
        other => panic!("unexpected {other:?}"),
    }
}

#[test]
fn failed_print_without_backup_uses_paint() {
    let cfg = config();
    let route = route_job(&cfg, &job(1, "kot-1-2.png")).unwrap();
    let step = next_job_step(&cfg, &route, first_job_step(&route), Err("x".into()));
    match &step {
        JobStep::PaintFallback { printer } => assert_eq!(printer, "EPSON TM-T20"),
        other => panic!("unexpected {other:?}"),
    }
    match next_job_step(&cfg, &route, step, Err("paint".into())) {
        JobStep::Finish(Err(e)) => assert_eq!(e, "paint"),
        other => panic!("unexpected {other:?}"),
    }
}

#[test]
fn printed_job_reports_its_printer() {
    let cfg = config();
    let route = route_job(&cfg, &job(1, "kot-1-2.png")).unwrap();
    match next_job_step(&cfg, &route, first_job_step(&route), Ok(())) {
        JobStep::Finish(Ok(p)) => assert_eq!(p, "EPSON TM-T20"),
        other => panic!("unexpected {other:?}"),
    }
}

#[test]
fn reports_for_done_and_failed_jobs() {
    let done = job_report(&Ok("EPSON".into()));
    assert_eq!(done.status, "done");
    let at = done.printed_at.clone().unwrap();
    let b = at.as_bytes();
    assert!(b.len() >= 25);
    assert_eq!((b[4], b[7], b[10], b[13], b[16]), (b'-', b'-', b'T', b':', b':'));
    assert!(at.ends_with("+00:00"));
    assert_eq!(done.printer.as_deref(), Some("EPSON"));
    assert!(done.error.is_none());
    let failed = job_report(&Err("internal detail".into()));
    assert_eq!(failed.status, "failed");
    assert!(failed.printed_at.is_none());
    assert!(failed.printer.is_none());
    assert_eq!(failed.error.as_deref(), Some("La impresión requiere revisión"));
}

#[test]
fn ledger_keeps_duplicates_out() {
    let mut ledger = JobLedger::new();
    assert!(ledger.try_begin(5));
    assert!(!ledger.try_begin(5));
    ledger.finish(5, true);
    assert!(!ledger.try_begin(5));
    assert!(ledger.try_begin(6));
    ledger.finish(6, false);
    assert!(ledger.try_begin(6));
}

#[test]
fn ledger_forgets_after_limit() {
    let mut ledger = JobLedger::new();
    for id in 0..501 {
        assert!(ledger.try_begin(id));
        ledger.finish(id, true);
    }
    // the 501st printed job cleared the memory
    assert!(ledger.try_begin(0));
}

#[test]
fn service_start_checks() {
    let mut cfg = AppConfig::default();
    assert_eq!(check_can_start(&cfg).unwrap_err(), "La sucursal debe conectarse primero");
    cfg.branch_key = "  abc ".into();
    assert_eq!(check_can_start(&cfg).unwrap_err(), "Configura al menos una impresora");
    cfg.printer_mappings.insert("1".into(), "P".into());
    assert!(check_can_start(&cfg).is_ok());
}

#[test]
fn status_transitions() {
    let mut s = RuntimeStatus::default();
    assert_eq!(s.state, "paused");
    mark_started(&mut s);
    assert!(s.running);
    assert_eq!(s.state, "ready");
    assert_eq!(s.last_message.as_deref(), Some("Servicio activo"));
    mark_printed_at(&mut s, "2026-01-01T00:00:00+00:00".into());
    assert_eq!(s.printed_today, 1);
    assert_eq!(s.last_message.as_deref(), Some("Impresión completada"));
    assert_eq!(s.last_print_at.as_deref(), Some("2026-01-01T00:00:00+00:00"));
    mark_stopped(&mut s);
    assert!(!s.running);
    assert_eq!(s.state, "paused");
    assert_eq!(s.printed_today, 1);
}

#[test]
fn poll_schedule_clamps_and_retries() {
    let mut s = PollSchedule::new();
    let mut status = RuntimeStatus::default();
    assert_eq!(s.wait_before_poll(), None);
    s.after_poll(&mut status, &Ok((0, 100)));
    assert_eq!(status.state, "ready");
    assert_eq!(status.last_message.as_deref(), Some("Sin impresiones pendientes"));
    assert_eq!(s.wait_before_poll(), Some(1_500));
    s.after_poll(&mut status, &Ok((3, 90_000)));
    assert_eq!(status.state, "printing");
    assert_eq!(status.last_message.as_deref(), Some("Procesando 3 impresión(es)"));
    assert_eq!(s.wait_before_poll(), Some(30_000));
    s.after_poll(&mut status, &Err("AUTH_REQUIRED".into()));
    assert_eq!(status.state, "setup_required");
    assert_eq!(s.wait_before_poll(), Some(3_000));
    s.after_poll(&mut status, &Err("timeout".into()));
    assert_eq!(status.state, "reconnecting");
    assert_eq!(status.last_message.as_deref(), Some("Reconectando automáticamente"));
    s.after_poll(&mut status, &Ok((0, 8_000)));
    assert_eq!(s.wait_before_poll(), Some(8_000));
}

#[test]
fn stream_backoff() {
    assert!(matches!(after_stream(&Ok(())), StreamNext::Signal));
    assert!(matches!(after_stream(&Err("AUTH_REQUIRED".into())), StreamNext::RetryAfter(5)));
    assert!(matches!(after_stream(&Err("closed".into())), StreamNext::RetryAfter(2)));
}

#[test]
fn printed_now_is_stamped_in_rfc3339() {
    let mut s = RuntimeStatus::default();
    mark_printed(&mut s);
    assert_eq!(s.printed_today, 1);
    let at = s.last_print_at.unwrap();
    let b = at.as_bytes();
    assert!(b.len() >= 25);
    assert_eq!((b[4], b[7], b[10], b[13], b[16]), (b'-', b'-', b'T', b':', b':'));
    let o = b.len() - 6;
    assert!(b[o] == b'+' || b[o] == b'-');
    assert_eq!(b[o + 3], b':');
}

#[test]
fn service_starts_on_launch_only_when_ready() {
    let mut cfg = AppConfig::default();
    assert!(!starts_on_launch(&cfg));
    cfg.branch_key = "key".into();
    assert!(!starts_on_launch(&cfg));
    cfg.printer_mappings.insert("14".into(), "EPSON".into());
    assert!(starts_on_launch(&cfg));
    cfg.autostart = false;
    assert!(!starts_on_launch(&cfg));
}

#[test]
fn live_channel_waits_without_a_key() {
    let mut cfg = AppConfig::default();
    assert_eq!(stream_setup_wait(&Ok(cfg.clone())), Some(STREAM_SETUP_RETRY_SECS));
    cfg.branch_key = "key".into();
    assert_eq!(stream_setup_wait(&Ok(cfg)), None);
    assert_eq!(stream_setup_wait(&Err("io".into())), Some(3));
}
