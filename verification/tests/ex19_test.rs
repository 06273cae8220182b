use rust_ffi_exercises::ex19_dyn_trait_ffi::{
    format_line, level_code, level_str, logger_flush, logger_free, logger_log, logger_name, logger_new, FilterLogger,
    LogLevel, Logger, NullLogger, PrintLogger, TeeLogger,
};

#[test]
fn test_ex19_print_logger() {
    let mut logger = PrintLogger::new("test");
    logger.log(LogLevel::Info, "hello");
    logger.log(LogLevel::Error, "oops");
    let msgs = logger.messages();
    assert_eq!(msgs[0], "INFO: hello");
    assert_eq!(msgs[1], "ERROR: oops");
}

#[test]
fn test_ex19_null_logger() {
    let mut logger = NullLogger;
    logger.log(LogLevel::Error, "this goes nowhere");
    assert_eq!(logger.name(), "null");
}

#[test]
fn test_ex19_handle_lifecycle() {
    let logger = PrintLogger::new("handle-test");
    let mut handle = logger_new(logger);
    logger_log(&mut handle, LogLevel::Warn, "through C");
    let logger = logger_free(handle);
    let msgs = logger.messages();
    assert_eq!(msgs.len(), 1);
    assert_eq!(msgs[0], "WARN: through C");
}

#[test]
fn test_ex19_handle_multiple_messages() {
    let mut handle = logger_new(PrintLogger::new("multi"));
    logger_log(&mut handle, LogLevel::Debug, "first");
    logger_log(&mut handle, LogLevel::Info, "second");
    logger_log(&mut handle, LogLevel::Error, "third");
    let msgs = logger_free(handle).messages();
    assert_eq!(msgs.len(), 3);
    assert_eq!(msgs[0], "DEBUG: first");
    assert_eq!(msgs[1], "INFO: second");
    assert_eq!(msgs[2], "ERROR: third");
}

#[test]
fn test_ex19_null_logger_handle() {
    let mut handle = logger_new(NullLogger);
    logger_log(&mut handle, LogLevel::Error, "discarded");
    logger_flush(&mut handle);
    logger_free(handle);
}

#[test]
fn test_ex19_filter_logger() {
    let mut filtered = FilterLogger::new(LogLevel::Warn, PrintLogger::new("filtered"));
    // Below threshold — should be suppressed
    filtered.log(LogLevel::Debug, "no");
    filtered.log(LogLevel::Info, "no");
    // At or above threshold — should pass through
    filtered.log(LogLevel::Warn, "yes-warn");
    filtered.log(LogLevel::Error, "yes-error");
    let msgs = filtered.into_inner().messages();
    assert_eq!(msgs.len(), 2);
    assert_eq!(msgs[0], "WARN: yes-warn");
    assert_eq!(msgs[1], "ERROR: yes-error");
}

#[test]
fn test_ex19_filter_through_handle() {
    let filtered = FilterLogger::new(LogLevel::Error, PrintLogger::new("inner"));
    let mut handle = logger_new(filtered);
    logger_log(&mut handle, LogLevel::Info, "skipped");
    logger_log(&mut handle, LogLevel::Error, "passed");
    let msgs = logger_free(handle).into_inner().messages();
    assert_eq!(msgs.len(), 1);
    assert_eq!(msgs[0], "ERROR: passed");
}

#[test]
fn test_ex19_tee_logger() {
    let mut tee = TeeLogger::new(PrintLogger::new("left"), PrintLogger::new("right"));
    tee.log(LogLevel::Info, "broadcast");
    let (l1, l2) = tee.into_parts();
    assert_eq!(l1.messages()[0], "INFO: broadcast");
    assert_eq!(l2.messages()[0], "INFO: broadcast");
}

#[test]
fn test_ex19_tee_through_handle() {
    let tee = TeeLogger::new(PrintLogger::new("a"), PrintLogger::new("b"));
    let mut handle = logger_new(tee);
    logger_log(&mut handle, LogLevel::Warn, "hello both");
    let (l1, l2) = logger_free(handle).into_parts();
    assert_eq!(l1.messages()[0], "WARN: hello both");
    assert_eq!(l2.messages()[0], "WARN: hello both");
}

#[test]
fn test_ex19_complex_composition() {
    // Build: Filter(Warn) → Tee → [PrintLogger A, PrintLogger B]
    // Only Warn+ messages reach both A and B.
    let tee = TeeLogger::new(PrintLogger::new("A"), PrintLogger::new("B"));
    let filtered = FilterLogger::new(LogLevel::Warn, tee);
    let mut handle = logger_new(filtered);
    logger_log(&mut handle, LogLevel::Debug, "debug msg");
    logger_log(&mut handle, LogLevel::Warn, "warn msg");
    logger_log(&mut handle, LogLevel::Error, "error msg");
    let (la, lb) = logger_free(handle).into_inner().into_parts();
    let a = la.messages();
    let b = lb.messages();
    assert_eq!(a.len(), 2);
    assert_eq!(b.len(), 2);
    assert_eq!(a[0], "WARN: warn msg");
    assert_eq!(a[1], "ERROR: error msg");
    assert_eq!(b[0], "WARN: warn msg");
    assert_eq!(b[1], "ERROR: error msg");
}

#[test]
fn level_names_codes_and_lines() {
    assert_eq!(level_str(LogLevel::Debug), "DEBUG");
    assert_eq!(level_str(LogLevel::Warn), "WARN");
    assert_eq!(level_code(LogLevel::Error), 3);
    assert_eq!(level_code(LogLevel::Debug), 0);
    assert_eq!(format_line(LogLevel::Info, ""), "INFO: ");
}

#[test]
fn handle_names() {
    let h = logger_new(PrintLogger::new("mine"));
    assert_eq!(logger_name(&h), "mine");
    assert_eq!(logger_name(&logger_new(NullLogger)), "null");
    assert_eq!(logger_name(&logger_new(FilterLogger::new(LogLevel::Info, NullLogger))), "filter");
    assert_eq!(logger_name(&logger_new(TeeLogger::new(NullLogger, NullLogger))), "tee");
}

#[test]
fn filter_blocks_everything_below_minimum() {
    let mut f = FilterLogger::new(LogLevel::Error, PrintLogger::new("x"));
    f.log(LogLevel::Debug, "a");
    f.log(LogLevel::Info, "b");
    f.log(LogLevel::Warn, "c");
    f.flush();
    assert!(f.into_inner().messages().is_empty());
}
