use one20proof::filter_rules::FilterRules;
use one20proof::monitor::{
    complete_path, decode_file_name, filter_for, get_output_dir, read_start, DefaultFilter,
    FileFilter, FileRecord, FilterKind,
};
use one20proof::monitor::decode_captures;
use one20proof::output_filters::{
    lpx_err_report, mod_host_report, pd_report, yoshimi_err_report, LPXControlErrFilter, ModHostOutFilter, PdErrFilter, YoshimiErrFilter, YoshimiOutFilter,
};
use one20proof::output_filters::YoshimiReport::{Line, Xruns};

#[test]
fn it_works() {
    let result = 2 + 2;
    assert_eq!(result, 4);
}

#[test]
fn default_filter_test_process_texta() {
    let mut default_filter = DefaultFilter {};
    let test1 = default_filter.process_text("");
    assert!(test1.is_empty());
}

#[test]
fn default_filter_test_process_textb() {
    let mut default_filter = DefaultFilter {};
    let test1 = default_filter.process_text("a");
    assert!(test1.len() == 1);
}

#[test]
fn test_process_textc() {
    let mut default_filter = DefaultFilter {};
    let test1 = default_filter.process_text("a\nb");
    assert!(test1.len() == 2);
    assert!(test1[0] == "a");
}

#[test]
fn default_filter_drops_empty_lines() {
    let mut default_filter = DefaultFilter {};
    let out = default_filter.process_text("a\n\nb\n");
    assert_eq!(out, vec!["a".to_string(), "b".to_string()]);
}

#[test]
fn test_add_rule() {
    let mut filter_rules = FilterRules::new();
    filter_rules.add_rule("first_rule", r".+");
    assert!(filter_rules.len() == 1);
}

#[test]
fn test_evaluate() {
    let mut filter_rules = FilterRules::new();
    const RULE_1_NAME: &str = "rule_1";
    const RULE_2_NAME: &str = "rule_2";
    const RULE_3_NAME: &str = "rule_3";
    filter_rules.add_rule(RULE_1_NAME, r".*");
    filter_rules.add_rule(RULE_2_NAME, r"number (\d+)");
    filter_rules.add_rule(RULE_3_NAME, r"number (\d+) word ([a-z]+)");
    assert!(filter_rules.has_rule(RULE_1_NAME));
    assert!(filter_rules.has_rule(RULE_2_NAME));
    assert!(filter_rules.has_rule(RULE_3_NAME));

    let caps = filter_rules.evaluate(RULE_1_NAME, "a");
    assert!(caps.is_some());
    assert!(filter_rules.evaluate(RULE_1_NAME, "").unwrap()[0].is_some());

    let caps = filter_rules.evaluate(RULE_2_NAME, "a");
    assert!(caps.is_none());
    let caps = filter_rules.evaluate(RULE_2_NAME, "number qq");
    assert!(caps.is_none());
    let caps = filter_rules.evaluate(RULE_2_NAME, "number 202");
    assert!(caps.is_some());
    let caps = caps.unwrap();
    assert!(caps[1].clone().unwrap().parse::<usize>().unwrap() == 202);
    let caps = filter_rules.evaluate(RULE_3_NAME, "number 202 word abcdef");
    assert!(caps.is_some());
    let caps = caps.unwrap();
    assert!(caps[1].clone().unwrap().parse::<usize>().unwrap() == 202);
    assert!(caps[2].clone().unwrap() == "abcdef");
}

#[test]
fn add_rule_refuses_bad_pattern_and_replaces_by_name() {
    let mut filter_rules = FilterRules::new();
    assert!(!filter_rules.add_rule("bad", r"(unclosed"));
    assert_eq!(filter_rules.len(), 0);
    assert!(!filter_rules.has_rule("bad"));
    assert!(filter_rules.add_rule("r", r"^a"));
    assert!(filter_rules.add_rule("r", r"^b"));
    assert_eq!(filter_rules.len(), 1);
    assert!(filter_rules.evaluate("r", "a").is_none());
    assert!(filter_rules.evaluate("r", "b").is_some());
}

#[test]
fn evaluate_gives_every_group() {
    let mut filter_rules = FilterRules::new();
    filter_rules.add_rule("opt", r"x(y)?(z)");
    let caps = filter_rules.evaluate("opt", "xz").unwrap();
    assert_eq!(caps.len(), 3);
    assert_eq!(caps[0], Some("xz".to_string()));
    assert_eq!(caps[1], None);
    assert_eq!(caps[2], Some("z".to_string()));
}

#[test]
fn lpx_control_err_filter_test_process_texta() {
    let mut default_filter = LPXControlErrFilter::new("/home/patch/120Proof").unwrap();
    let test1 = default_filter.process_text("MARK");
    assert!(test1.is_empty());
    let test1 = default_filter.process_text("Info:");
    assert!(test1.is_empty());
    let test1 = default_filter
        .process_text("Owner: root  at /home/patch/120Proof/Perl/One20Proof.pm line 106.");
    let result = test1.first().unwrap().as_str();
    let test_string = "Owner: root ";
    assert!(result == test_string, "result: {} test: {}", result, test_string,);
}

#[test]
fn lpx_control_err_filter_passes_other_lines() {
    let mut f = LPXControlErrFilter::new("/home/patch/120Proof").unwrap();
    let out = f.process_text("something else\n\nMARK here");
    assert_eq!(out, vec!["something else".to_string()]);
}

#[test]
fn mod_host_out_filter_test_process_texta() {
    let mut default_filter = ModHostOutFilter::new().unwrap();
    let test1 = default_filter.process_text("");
    assert!(test1.is_empty());
}

#[test]
fn mod_host_out_filter_test_process_textb() {
    let mut default_filter = ModHostOutFilter::new().unwrap();
    let test1 = default_filter.process_text("mod-host: mod-host ready!");
    assert!(!test1.is_empty());
}

#[test]
fn mod_host_out_filter_reports_ready() {
    let mut f = ModHostOutFilter::new().unwrap();
    let out = f.process_text("x\nmod-host: mod-host ready!\nmod-host: mod-host ready! ");
    assert_eq!(out, vec!["Ready".to_string()]);
}

#[test]
fn pd_err_filter_test_process_texta() {
    let mut pd_filter = PdErrFilter::new(0).unwrap();
    let test1 = pd_filter.process_text("MARK");
    assert!(test1.is_empty(), "Text should have been empty: {:?}", test1);
    let test1 = pd_filter.process_text("verbose(4): running at normal (non-real-time) priority.");
    let result = test1.first().unwrap().as_str();
    let test_string = "0:Priority: normal (non-real-time)";
    assert!(result == test_string, "result: '{}' test: '{}'", result, test_string,);
}

#[test]
fn pd_err_filter_reports_jack_pipe() {
    let mut pd_filter = PdErrFilter::new(42).unwrap();
    let out = pd_filter.process_text("JACK: registered as 'pure_data'");
    assert_eq!(out, vec!["42:Pure Data up. Jack-Pipe: pure_data".to_string()]);
}

#[test]
fn yoshimi_err_filter_test_process_text() {
    let mut yoshimi_filter = YoshimiErrFilter::new(999).unwrap();
    assert!(yoshimi_filter.has_rule("socket_rule"));
    assert!(yoshimi_filter.has_rule("result_type_rule"));
    let result = yoshimi_filter.process_text(
        "Cannot read socket fd = 3 err = Interrupted system call\nCould not read result type = 7",
    );
    assert!(result.len() == 2);
}

#[test]
fn yoshimi_out_filter_test_process_text() {
    let mut yoshimi_filter = YoshimiOutFilter::new("/home/patch/120Proof").unwrap();
    assert!(yoshimi_filter.has_rule("sample_rate_rule"));
    let result = yoshimi_filter.process_text("Samplerate: 48000");
    assert!(result.is_empty());
    assert!(yoshimi_filter.sample_rate == Some(48000));
    let result = yoshimi_filter.process_text("Samplerate: 48001");
    assert!(!result.is_empty());
    assert!(yoshimi_filter.sample_rate == Some(48001));
    let result = yoshimi_filter.process_text(
        r"Instrument file /home/patch/120Proof/Instruments/xiz/Hammond Organ.xiz loaded",
    );
    assert!(result.is_empty());
    assert!(!yoshimi_filter.instrument.is_empty());
    let result = yoshimi_filter.process_text("Yay! We're up and running :-)");
    assert!(!result.is_empty());
}

#[test]
fn yoshimi_out_filter_exact_reports() {
    let mut f = YoshimiOutFilter::new("/home/patch/120Proof").unwrap();
    let out = f.process_text_at("Yay! We're up and running :-)", 0);
    assert_eq!(out, vec![Line("Yoshimi up: Sample rate: <None> Instruments: ".to_string())]);
    f.process_text_at("Samplerate: 44100", 0);
    let out = f.process_text_at("Samplerate: 48000", 0);
    assert_eq!(out, vec![Line("Overwriting sample rate.  Was: 44100 changed to: 48000".to_string())]);
    f.process_text_at(
        "Instrument file /home/patch/120Proof/Instruments/xiz/Organ.xiz loaded\nInstrument file /home/patch/120Proof/Instruments/xiz/Bass.xiz loaded",
        0,
    );
    assert_eq!(f.instrument, vec!["Organ".to_string(), "Bass".to_string()]);
    let out = f.process_text_at("Yay! We're up and running :-)", 0);
    assert_eq!(out, vec![Line("Yoshimi up: Sample rate: 48000 Instruments: Organ, Bass".to_string())]);
}

#[test]
fn yoshimi_out_filter_counts_xruns() {
    let mut f = YoshimiOutFilter::new("/home/patch/120Proof").unwrap();
    let out = f.process_text_at("xrun reported\nxrun reported", 1000);
    assert!(out.is_empty());
    assert_eq!(f.xruns, 2);
    assert_eq!(f.xrun_time, None);
}

#[test]
fn yoshimi_out_filter_reports_xruns_counted() {
    let mut f = YoshimiOutFilter::new("/home/patch/120Proof").unwrap();
    f.xrun_time = Some(1000);
    f.xruns = 4;
    // Within the minute: counted, not reported.
    assert!(f.process_text_at("xrun reported", 1059).is_empty());
    assert_eq!(f.xruns, 5);
    // A minute after the last report: the count, this xrun included, and
    // the seconds since; then the count restarts.
    let out = f.process_text_at("xrun reported", 1090);
    assert_eq!(out, vec![Xruns { count: 6, seconds: 90 }]);
    assert_eq!(f.xruns, 0);
    assert_eq!(f.xrun_time, Some(1090));
    let out = f.process_text_at("xrun reported\nxrun reported", 1200);
    assert_eq!(out, vec![Xruns { count: 1, seconds: 110 }]);
    assert_eq!(f.xruns, 1);
    assert_eq!(f.xrun_time, Some(1200));
}

#[test]
fn test_decode_filename() {
    let file_name: &str = "Name.9999.out";
    match decode_file_name(file_name) {
        Some((name, pid)) => {
            assert!(name == "Name.out", "name: {}", name);
            assert!(pid == 9999);
        }
        None => panic!("Failed to decode {}", file_name),
    };
    let file_name: &str = "Name.9998.err";
    match decode_file_name(file_name) {
        Some((name, pid)) => {
            assert!(name == "Name.err");
            assert!(pid == 9998);
        }
        None => panic!("Failed to decode {}", file_name),
    };
    let file_name: &str = "Name.9q998.err";
    match decode_file_name(file_name) {
        Some((name, pid)) => panic!(
            "Decoded invalid filename: {}.  name: {} pid: {}",
            file_name, name, pid
        ),
        None => assert!(true),
    };
}

#[test]
fn output_paths() {
    assert_eq!(get_output_dir("/home/patch/120Proof"), "/home/patch/120Proof/output");
    assert_eq!(complete_path("/tmp/out", "yoshimi.12.err"), "/tmp/out/yoshimi.12.err");
}

#[test]
fn filters_chosen_by_name() {
    assert!(matches!(filter_for("pd.err"), FilterKind::PdErr));
    assert!(matches!(filter_for("yoshimi.err"), FilterKind::YoshimiErr));
    assert!(matches!(filter_for("yoshimi.out"), FilterKind::YoshimiOut));
    assert!(matches!(filter_for("mod-host.out"), FilterKind::ModHostOut));
    assert!(matches!(filter_for("lpx_controll.err"), FilterKind::LpxControlErr));
    assert!(matches!(filter_for("other.out"), FilterKind::Default));
}

#[test]
fn read_start_rewinds_after_truncation() {
    assert_eq!(read_start(100, 40), 40);
    assert_eq!(read_start(30, 40), 0);
    assert_eq!(read_start(40, 40), 40);
}

#[test]
fn file_record_summarises_its_cache() {
    let record = FileRecord::new();
    let mut f = DefaultFilter {};
    assert!(record.summarise(None, &mut f).is_empty());
}

fn caps(groups: &[Option<&str>]) -> Option<Vec<Option<String>>> {
    Some(groups.iter().map(|g| g.map(|s| s.to_string())).collect())
}

#[test]
fn reports_from_captures() {
    assert_eq!(
        pd_report(3, &caps(&[Some("running at rt priority"), Some("rt")]), &None),
        Some("3:Priority: rt".to_string())
    );
    assert_eq!(
        pd_report(3, &None, &caps(&[Some("x"), Some("pd")])),
        Some("3:Pure Data up. Jack-Pipe: pd".to_string())
    );
    assert_eq!(pd_report(3, &None, &None), None);
    assert_eq!(
        yoshimi_err_report(9, &caps(&[Some("x"), Some("3"), Some("Interrupted")]), &None),
        Some("9:Failed read socket: 3  3".to_string())
    );
    assert_eq!(
        yoshimi_err_report(9, &None, &caps(&[Some("x"), Some("07")])),
        Some("9:Failed read result type: 7".to_string())
    );
    assert_eq!(yoshimi_err_report(9, &None, &caps(&[Some("x"), Some("q")])), None);
    assert_eq!(mod_host_report(&caps(&[Some("m")])), Some("Ready".to_string()));
    assert_eq!(mod_host_report(&None), None);
    assert_eq!(lpx_err_report("MARK x", &caps(&[Some("MARK")]), &None, &None), None);
    assert_eq!(lpx_err_report("Info", &None, &caps(&[Some("Info")]), &None), None);
    assert_eq!(
        lpx_err_report("a at b", &None, &None, &caps(&[Some("a at b"), Some("a")])),
        Some("a".to_string())
    );
    assert_eq!(lpx_err_report("plain", &None, &None, &None), Some("plain".to_string()));
    assert_eq!(lpx_err_report("", &None, &None, &None), None);
    assert_eq!(
        decode_captures(&caps(&[Some("pd.12.err"), Some("pd"), Some("12"), Some("err")])),
        Some(("pd.err".to_string(), 12))
    );
    assert_eq!(
        decode_captures(&caps(&[Some("pd.x.err"), Some("pd"), Some("x"), Some("err")])),
        None
    );
    assert_eq!(decode_captures(&None), None);
}

#[test]
fn yoshimi_applies_captures() {
    let mut f = YoshimiOutFilter::new("/h").unwrap();
    let out = f.apply("Samplerate: 44100", 0, &caps(&[Some("Samplerate: 44100"), Some("44100")]), &None, &None);
    assert_eq!(out, None);
    assert_eq!(f.sample_rate, Some(44100));
    let out = f.apply("any", 0, &caps(&[Some("s"), None]), &None, &None);
    assert_eq!(out, Some(Line("Overwriting sample rate.  Was: 44100 changed to: 0".to_string())));
    let out = f.apply("i", 0, &None, &None, &caps(&[Some("i"), Some("Piano")]));
    assert_eq!(out, None);
    assert_eq!(f.instrument, vec!["Piano".to_string()]);
    let out = f.apply("y", 0, &None, &caps(&[Some("y")]), &None);
    assert_eq!(out, Some(Line("Yoshimi up: Sample rate: 0 Instruments: Piano".to_string())));
}
