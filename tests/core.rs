use link_rustler::{
    check_link_type, diff_report, get_arch, get_os, get_os_arch_for_geckodriver, hash_string, link_type_error, mode,
    normalize_page_source, parse_bool, parse_unsigned, title_check, validate, validate_all, within, Action, AppState,
    Arch, Config, ConfigError, CustomError, DataStore, InvalidReason, LinkType, PageData, Scheduler, State, Status,
    Target, Timestamp, ValidReason, HISTORY_RETENTION, OS,
};

fn target(s: &str) -> Target {
    Target::parse(s).expect("a URL")
}

fn sample(hash: &str, size: usize, title: &str, error: Option<CustomError>) -> State {
    State {
        hash: hash.to_string(),
        compress_length: size,
        screenshot_hash: None,
        title: Some(title.to_string()),
        link_type: LinkType::Generic,
        check_time: Timestamp { secs: 0, nanos: 0 },
        error,
    }
}

fn record_of(samples: Vec<State>) -> PageData {
    let mut it = samples.into_iter();
    let mut p = PageData::new(it.next().unwrap(), "h".to_string(), None);
    for s in it {
        p.update(s);
    }
    p
}

#[test]
fn classifies_by_rule_order() {
    assert_eq!(check_link_type(&target("https://example.com/")), LinkType::Generic);
    assert_eq!(check_link_type(&target("https://example.com/files/report.DOCX")), LinkType::Content);
    assert_eq!(check_link_type(&target("https://example.com/a.docx/")), LinkType::Content);
    assert_eq!(check_link_type(&target("https://example.com/.docx")), LinkType::Generic);
    assert_eq!(check_link_type(&target("file:///home/me/notes.txt")), LinkType::Local);
    assert_eq!(check_link_type(&target("ftp://host/Users/me")), LinkType::Local);
    assert_eq!(check_link_type(&target("mailto:someone@example.com")), LinkType::Mailto);
    assert_eq!(check_link_type(&target("ftp://example.com/pub")), LinkType::Unknown);
    assert_eq!(check_link_type(&target("httpx://example.com")), LinkType::Unknown);
    assert_eq!(check_link_type(&target("http://example.com")), LinkType::Generic);
}

#[test]
fn classification_is_repeatable() {
    let a = target("https://example.com/page?x=1");
    let b = target("https://example.com/page?x=1");
    assert_eq!(check_link_type(&a), check_link_type(&b));
    assert_eq!(check_link_type(&a), check_link_type(&a));
}

#[test]
fn target_is_canonical() {
    assert_eq!(target("HTTPS://Example.COM").as_str(), "https://example.com/");
    assert!(Target::parse("not a url").is_none());
}

#[test]
fn title_words_mark_failures() {
    assert_eq!(title_check("404 - Page"), Err(CustomError::PageNotFound));
    assert_eq!(title_check("Not Found"), Err(CustomError::PageNotFound));
    assert_eq!(title_check("Warning: unsafe"), Err(CustomError::Warning));
    assert_eq!(title_check("Server Error"), Err(CustomError::PageError));
    assert_eq!(title_check("Unable to connect"), Err(CustomError::PageError));
    assert_eq!(title_check("Home"), Ok(()));
}

#[test]
fn unfetched_classes_carry_their_error() {
    assert_eq!(link_type_error(LinkType::Local), Some(CustomError::LinkTypeLocal));
    assert_eq!(link_type_error(LinkType::Mailto), Some(CustomError::LinkTypeMailto));
    assert_eq!(link_type_error(LinkType::Unknown), Some(CustomError::UnknownLinkType));
    assert_eq!(link_type_error(LinkType::InternalError), Some(CustomError::WebDriverError));
    assert_eq!(link_type_error(LinkType::Generic), None);
    let s = State::unfetched(LinkType::Mailto);
    assert_eq!(s.error, Some(CustomError::LinkTypeMailto));
    assert_eq!(s.screenshot_hash, None);
}

#[test]
fn mode_of_three_a_one_b() {
    let values = vec!["a".to_string(), "a".to_string(), "a".to_string(), "b".to_string()];
    let m = mode(&values);
    assert_eq!(m.value, Some("a".to_string()));
    assert_eq!(m.confidence, Some(75));
}

#[test]
fn mode_of_nothing_is_undefined() {
    let values: Vec<usize> = vec![];
    let m = mode(&values);
    assert_eq!(m.value, None);
    assert_eq!(m.confidence, None);
}

#[test]
fn mode_tie_goes_to_first_occurrence() {
    let m = mode(&[7usize, 3, 3, 7, 9]);
    assert_eq!(m.value, Some(7));
    assert_eq!(m.confidence, Some(40));
}

#[test]
fn tolerance_window_includes_both_ends() {
    assert!(within(100, 100, 300));
    assert!(within(0, 300, 300));
    assert!(within(600, 300, 300));
    assert!(!within(601, 300, 300));
    assert!(!within(99, 200, 100));
    assert!(within(5, 10, 300));
    assert!(within(usize::MAX, usize::MAX - 1, 5));
}

#[test]
fn digest_is_blake2s_hex() {
    assert_eq!(
        hash_string(&String::new()),
        "69217a3079908094e11121d042354a7c1f55b6482ca1a51e1b250dfd1ed0eef9"
    );
    assert_eq!(
        hash_string(&"abc".to_string()),
        "508c5e8c327c14e2e1a72ba34eeb452f37458b209ed63a294d999b4c86675982"
    );
}

#[test]
fn compressed_size_of_empty_text() {
    let s = State::from_screenshot_hash("", None, None, LinkType::Content, None);
    assert_eq!(s.compress_length, 8);
    let long = "abc".repeat(1000);
    let t = State::from_screenshot_hash(&long, None, None, LinkType::Content, None);
    assert!(t.compress_length < 100);
}

#[test]
fn screenshot_distance_counts_bits() {
    let mut s = sample("X", 1, "t", None);
    s.screenshot_hash = Some("AAAAAAAAAAA".to_string());
    assert_eq!(s.cal_screenshot_similarity(Some("//////////8".to_string())), Some(64));
    assert_eq!(s.cal_screenshot_similarity(Some("AAAAAAAAAAA".to_string())), Some(0));
    assert_eq!(s.cal_screenshot_similarity(None), None);
    s.screenshot_hash = None;
    assert_eq!(s.cal_screenshot_similarity(Some("AAAAAAAAAAA".to_string())), None);
}

#[test]
fn volatile_token_is_removed() {
    assert_eq!(normalize_page_source("<p class=\"a xyz idc0_343\">"), "<p class=\"a\">");
    assert_eq!(normalize_page_source("plain"), "plain");
}

#[test]
fn capture_checks_in_order() {
    let t = target("https://example.com/");
    let url = t.as_str();
    let marker = "welcome".to_string();
    assert_eq!(link_rustler::capture_error(&t, url, "Home", "welcome", "abcdefghijk", Some(&marker)), None);
    assert_eq!(
        link_rustler::capture_error(&t, url, "Home", "welcome", "AAAAAAAAAAA", None),
        Some(CustomError::BadScreenshot)
    );
    assert_eq!(
        link_rustler::capture_error(&t, url, "Home", "hello", "AAAAAAAAAAA", Some(&marker)),
        Some(CustomError::MarkerNotFound)
    );
    assert_eq!(
        link_rustler::capture_error(&t, url, "404", "hello", "AAAAAAAAAAA", Some(&marker)),
        Some(CustomError::PageNotFound)
    );
    assert_eq!(
        link_rustler::capture_error(&t, "https://example.com/other", "404", "hello", "x", Some(&marker)),
        Some(CustomError::Redirected)
    );
}

#[test]
fn history_keeps_the_newest_five() {
    for n in 1..=8usize {
        let samples: Vec<State> = (0..n).map(|i| sample("X", i, "t", None)).collect();
        let p = record_of(samples);
        assert_eq!(p.history.len(), n.min(HISTORY_RETENTION));
        let first_kept = n - n.min(HISTORY_RETENTION);
        let sizes: Vec<usize> = p.current_state().iter().map(|s| s.compress_length).collect();
        assert_eq!(sizes, (first_kept..n).collect::<Vec<usize>>());
    }
}

#[test]
fn store_upserts_by_target() {
    let mut store = DataStore::new();
    let a = target("https://a.example/");
    let b = target("https://b.example/");
    store.upsert(a.clone(), sample("1", 1, "t", None));
    store.upsert(b.clone(), sample("2", 2, "t", None));
    store.upsert(a.clone(), sample("3", 3, "t", None));
    assert_eq!(store.len(), 2);
    let pa = store.get(&a).unwrap();
    assert_eq!(pa.history.len(), 2);
    assert_eq!(pa.url_hash, hash_string(&a.as_str().to_string()));
    assert_eq!(store.get(&b).unwrap().history.len(), 1);
    assert!(store.get(&target("https://c.example/")).is_none());
}

#[test]
fn scenario_all_matching_is_valid() {
    let mut samples: Vec<State> = (0..4).map(|_| sample("X", 100, "Home", None)).collect();
    samples.push(sample("X", 100, "Home", None));
    let c = validate(&record_of(samples), &Config::default()).unwrap();
    assert_eq!(c.status, Status::Valid);
    assert_eq!(c.validity.invalid, None);
    assert_eq!(
        c.validity.valid,
        Some(vec![
            ValidReason::PageHash,
            ValidReason::CompressionExact,
            ValidReason::ScreenshotHashExact,
            ValidReason::Title
        ])
    );
}

#[test]
fn scenario_new_digest_is_hash_only() {
    let mut samples: Vec<State> = (0..4).map(|_| sample("X", 100, "Home", None)).collect();
    samples.push(sample("Y", 100, "Home", None));
    let c = validate(&record_of(samples), &Config::default()).unwrap();
    assert_eq!(c.status, Status::HashOnly);
    assert_eq!(c.validity.invalid, Some(vec![InvalidReason::PageHash]));
}

#[test]
fn scenario_error_tag_wins() {
    let mut samples: Vec<State> = (0..4).map(|_| sample("X", 100, "Home", None)).collect();
    samples.push(sample("X", 100, "Home", Some(CustomError::Redirected)));
    let c = validate(&record_of(samples), &Config::default()).unwrap();
    assert_eq!(c.status, Status::Error);
    assert_eq!(c.validity.error, Some(CustomError::Redirected));
}

#[test]
fn scenario_single_sample_is_not_judged() {
    let p = record_of(vec![sample("X", 100, "Home", None)]);
    assert!(validate(&p, &Config::default()).is_none());
    let mut store = DataStore::new();
    store.upsert(target("https://a.example/"), sample("X", 100, "Home", None));
    assert!(validate_all(&store, &Config::default()).is_empty());
}

#[test]
fn compression_drift_within_and_beyond_tolerance() {
    let mut near: Vec<State> = (0..4).map(|_| sample("X", 1000, "Home", None)).collect();
    near.push(sample("X", 1300, "Home", None));
    let c = validate(&record_of(near), &Config::default()).unwrap();
    assert_eq!(c.status, Status::Valid);
    assert!(c.validity.valid.unwrap().contains(&ValidReason::CompressionWithinTolerance));

    let mut far: Vec<State> = (0..4).map(|_| sample("Y", 1000, "Away", None)).collect();
    far.push(sample("X", 1301, "Home", None));
    let c = validate(&record_of(far), &Config::default()).unwrap();
    assert_eq!(c.status, Status::Unknown);
    assert_eq!(
        c.validity.invalid,
        Some(vec![InvalidReason::PageHash, InvalidReason::Compression, InvalidReason::Title])
    );
}

#[test]
fn consensus_report_fields() {
    let h = vec![sample("X", 10, "A", None), sample("X", 20, "B", None), sample("Z", 20, "B", None)];
    let dr = diff_report(&h);
    assert_eq!(dr.page_hash.value, Some("X".to_string()));
    assert_eq!(dr.page_hash.confidence, Some(66));
    assert_eq!(dr.compression.value, Some(20));
    assert_eq!(dr.title.value, Some("B".to_string()));
    assert_eq!(dr.screenshot_hash.value, None);
}

#[test]
fn zero_dwell_single_target_retires_at_once() {
    let t = target("https://example.com/");
    let mut s = Scheduler::new(vec![t.clone()], 0);
    assert!(matches!(s.step(0), Action::Open(ref x) if *x == t));
    assert!(matches!(s.step(5), Action::Capture(ref x, LinkType::Generic) if *x == t));
    assert!(matches!(s.step(5), Action::Done));
}

#[test]
fn scheduler_waits_out_the_dwell_time() {
    let a = target("https://a.example/");
    let m = target("mailto:x@example.com");
    let mut s = Scheduler::new(vec![a.clone(), m.clone()], 1000);
    assert!(matches!(s.step(0), Action::Open(_)));
    assert!(matches!(s.step(10), Action::CaptureNow(ref x, LinkType::Mailto) if *x == m));
    assert!(matches!(s.step(400), Action::Wait(610)));
    assert!(matches!(s.step(1010), Action::Capture(ref x, _) if *x == a));
    assert!(matches!(s.step(1010), Action::Done));
}

#[test]
fn settings_update_by_name() {
    let mut c = Config::default();
    assert_eq!(c.update("page_dwell_time", "30"), Ok(()));
    assert_eq!(c.page_dwell_time, 30);
    assert_eq!(c.update("gecko_width", "abc"), Err(ConfigError::InvalidValue));
    assert_eq!(c.gecko.width, 1080);
    assert_eq!(c.update("keep_local_records", "false"), Ok(()));
    assert!(!c.keep_local_records);
    assert_eq!(c.update("no_such_key", "1"), Err(ConfigError::UnknownKey));
    assert_eq!(c.update("pdf_url", "HTTPS://Example.com"), Ok(()));
    assert_eq!(c.pdf_url, Some("https://example.com/".to_string()));
    assert_eq!(c.update("pdf_url", "nope"), Err(ConfigError::InvalidValue));
}

#[test]
fn numbers_and_flags_parse() {
    assert_eq!(parse_unsigned("+12", 100), Some(12));
    assert_eq!(parse_unsigned("", 100), None);
    assert_eq!(parse_unsigned("+", 100), None);
    assert_eq!(parse_unsigned("101", 100), None);
    assert_eq!(parse_unsigned("18446744073709551615", u64::MAX), Some(u64::MAX));
    assert_eq!(parse_unsigned("18446744073709551616", u64::MAX), None);
    assert_eq!(parse_unsigned("1x", 100), None);
    assert_eq!(parse_bool("true"), Some(true));
    assert_eq!(parse_bool("True"), None);
}

#[test]
fn platform_names() {
    assert_eq!(get_os_arch_for_geckodriver(OS::Linux, Arch::X64), "linux64");
    assert_eq!(get_os_arch_for_geckodriver(OS::Windows, Arch::Arm64), "win64-aarch64");
    assert_eq!(get_os_arch_for_geckodriver(OS::Mac, Arch::X86), "macos");
    assert_eq!(get_os("linux"), Some(OS::Linux));
    assert_eq!(get_arch("aarch64"), Some(Arch::Arm64));
    assert_eq!(get_os("plan9"), None);
}

#[test]
fn logs_gain_a_line() {
    let mut s = AppState::new();
    s.add_to_config_log("one");
    s.add_to_config_log("two");
    s.add_to_self_update_log("up");
    s.add_to_geckodriver_update_log("gecko");
    assert_eq!(s.config_log, "one\ntwo\n");
    assert_eq!(s.self_update_log, "up\n");
    assert_eq!(s.geckodriver_update_log, "gecko\n");
}

#[test]
fn blank_screenshot_capture_is_flagged() {
    let mut png = std::io::Cursor::new(Vec::new());
    image::DynamicImage::new_rgb8(16, 16)
        .write_to(&mut png, image::ImageFormat::Png)
        .unwrap();
    let t = target("https://example.com/");
    let s = State::captured(
        &t,
        None,
        Some("Home".to_string()),
        Some("<p class=\"a b idc0_343\">".to_string()),
        Some(png.get_ref().clone()),
        Some(t.as_str().to_string()),
    );
    assert_eq!(s.screenshot_hash.as_deref(), Some("AAAAAAAAAAA"));
    assert_eq!(s.error, Some(CustomError::BadScreenshot));
    assert_eq!(s.hash, hash_string(&"<p class=\"a\">".to_string()));
    assert_eq!(s.title, Some("Home".to_string()));
    assert_eq!(s.link_type, LinkType::Generic);
}

#[test]
fn failed_reads_tag_the_capture() {
    let t = target("https://example.com/");
    let s = State::captured(&t, None, None, Some("text".to_string()), None, Some(t.as_str().to_string()));
    assert_eq!(s.error, Some(CustomError::WebDriverError));
    assert_eq!(s.title, None);
    assert_eq!(s.hash, hash_string(&"text".to_string()));
    let f = State::browser_failed();
    assert_eq!(f.error, Some(CustomError::WebDriverError));
    assert_eq!(f.link_type, LinkType::Generic);
}

#[test]
fn failed_tab_leaves_the_run() {
    let a = target("https://a.example/");
    let b = target("https://b.example/");
    let mut s = Scheduler::new(vec![a.clone(), b.clone()], 0);
    assert!(matches!(s.step(0), Action::Open(ref x) if *x == a));
    assert_eq!(s.open_failed(), Some(a.clone()));
    assert_eq!(s.open_failed(), None);
    assert!(matches!(s.step(1), Action::Open(ref x) if *x == b));
    assert!(matches!(s.step(1), Action::Capture(ref x, _) if *x == b));
    assert!(matches!(s.step(1), Action::Done));
}

fn with_screenshot(hash: &str, shot: &str) -> State {
    let mut s = sample(hash, 100, "Home", None);
    s.screenshot_hash = Some(shot.to_string());
    s
}

#[test]
fn screenshot_distance_at_the_tolerance_is_near() {
    // "AAAAAAAAAAA" and "BwAAAAAAAAA" differ in three bits.
    let mut samples: Vec<State> = (0..4).map(|_| with_screenshot("X", "AAAAAAAAAAA")).collect();
    samples.push(with_screenshot("X", "BwAAAAAAAAA"));
    let c = validate(&record_of(samples), &Config::default()).unwrap();
    assert_eq!(c.status, Status::Valid);
    assert!(c.validity.valid.unwrap().contains(&ValidReason::ScreenshotHashWithinTolerance));

    let mut far: Vec<State> = (0..4).map(|_| with_screenshot("X", "AAAAAAAAAAA")).collect();
    far.push(with_screenshot("X", "DwAAAAAAAAA"));
    let c = validate(&record_of(far), &Config::default()).unwrap();
    assert_eq!(c.validity.invalid, Some(vec![InvalidReason::ScreenshotHash]));
}

#[test]
fn missing_title_never_matches() {
    let mut samples: Vec<State> = (0..4).map(|_| sample("X", 100, "", None)).collect();
    let mut last = sample("X", 100, "", None);
    last.title = None;
    samples.push(last);
    let c = validate(&record_of(samples), &Config::default()).unwrap();
    assert_eq!(c.validity.invalid, Some(vec![InvalidReason::Title]));
    assert_eq!(c.status, Status::Unknown);
}

#[test]
fn recording_results_appends_in_order() {
    let mut store = DataStore::new();
    let a = target("https://a.example/");
    let b = target("https://b.example/");
    store.upsert(a.clone(), sample("1", 1, "t", None));
    store.record_results(vec![
        (a.clone(), sample("2", 2, "t", None)),
        (b.clone(), sample("3", 3, "t", None)),
        (b.clone(), sample("4", 4, "t", None)),
    ]);
    let sizes = |t: &Target| store.get(t).unwrap().history.iter().map(|s| s.compress_length).collect::<Vec<_>>();
    assert_eq!(sizes(&a), vec![1, 2]);
    assert_eq!(sizes(&b), vec![3, 4]);
    assert_eq!(store.len(), 2);
}

#[test]
fn each_judged_target_is_listed_once() {
    let mut store = DataStore::new();
    let a = target("https://a.example/");
    let b = target("https://b.example/");
    store.record_results(vec![
        (a.clone(), sample("X", 1, "t", None)),
        (a.clone(), sample("X", 1, "t", None)),
        (b.clone(), sample("X", 1, "t", None)),
    ]);
    let r = validate_all(&store, &Config::default());
    assert_eq!(r.len(), 1);
    assert!(r[0].0 == a);
}

#[test]
fn update_at_sets_the_check_time() {
    let mut p = PageData::new(sample("X", 1, "t", None), "h".to_string(), None);
    p.update_at(sample("X", 2, "t", None), Timestamp { secs: 42, nanos: 7 });
    assert_eq!(p.last_checked, Timestamp { secs: 42, nanos: 7 });
    assert_eq!(p.history.len(), 2);
}
