use rs_route::cli::{
    banner_lines, find_gpkg, get_args, has_gpkg_extension, valid_timesteps, validate_timestep,
    Args, ArgsError, Config, ConfigError, DirFacts, Emphasis, RawArgs, TimestepError,
};
use rs_route::command::{UsageError, ValueKind};
use rs_route::config::EXTERNAL_TIMESTEP_SECONDS;
use rs_route::kernel::muskingum::{MuskingumCungeKernel, SecantBracket};

fn words(line: &[&str]) -> Vec<String> {
    line.iter().map(|w| w.to_string()).collect()
}

// Arguments with default values.
#[test]
fn test_args_parsing_defaults() {
    let args = Args::parse_from(&words(&["test", "test_route_dir"])).unwrap();
    assert_eq!(args.route_dir, "test_route_dir");
    assert_eq!(args.internal_timestep_seconds, 300);
    match args.kernel {
        MuskingumCungeKernel::TRouteModernized => {}
        _ => panic!("Expected default kernel to be TRouteModernized"),
    }
}

// Arguments with custom values.
#[test]
fn test_args_parsing_custom() {
    let args = Args::parse_from(&words(&[
        "test",
        "test_route_dir",
        "-t",
        "600",
        "-k",
        "t-route-legacy",
    ]))
    .unwrap();
    assert_eq!(args.route_dir, "test_route_dir");
    assert_eq!(args.internal_timestep_seconds, 600);
    match args.kernel {
        MuskingumCungeKernel::TRouteLegacy => {}
        _ => panic!("Expected kernel to be TRouteLegacy"),
    }
}

/// A timestep that does not divide the forcing step would run the routing clock slow, so it has
/// to be rejected rather than silently truncated.
#[test]
fn test_timestep_must_divide_forcing_step() {
    for good in [60, 300, 450, 900, 1800, 3600] {
        assert_eq!(validate_timestep(good).unwrap(), good, "{} should be valid", good);
    }
    for bad in [0, 700, 500, 2400, 5000] {
        let err = validate_timestep(bad).unwrap_err().message();
        assert!(
            err.contains("does not divide"),
            "{} should be rejected, got: {}",
            bad,
            err
        );
    }
}

/// Every accepted timestep must give a whole number of internal steps that add back up to
/// exactly one forcing step.
#[test]
fn test_accepted_timesteps_reconstruct_the_forcing_step() {
    for dt in 1..=EXTERNAL_TIMESTEP_SECONDS {
        if validate_timestep(dt).is_ok() {
            let steps = EXTERNAL_TIMESTEP_SECONDS / dt;
            assert_eq!(steps * dt, EXTERNAL_TIMESTEP_SECONDS, "dt={} drifts", dt);
        }
    }
}

#[test]
fn rejected_timestep_names_the_alternatives() {
    let err = validate_timestep(700).unwrap_err();
    assert_eq!(err, TimestepError { dt: 700 });
    assert_eq!(
        err.message(),
        "Internal timestep of 700s does not divide the 3600s forcing step evenly, so the routing \
         clock would drift from the forcing clock. Valid values of 60s or more: 60, 72, 75, 80, \
         90, 100, 120, 144, 150, 180, 200, 225, 240, 300, 360, 400, 450, 600, 720, 900, 1200, \
         1800, 3600"
    );
    assert_eq!(valid_timesteps().first(), Some(&60));
    assert_eq!(valid_timesteps().last(), Some(&3600));
    assert_eq!(valid_timesteps().len(), 23);
}

#[test]
fn every_option_is_read() {
    let args = Args::parse_from(&words(&[
        "rs-route",
        "--hf",
        "fabric.gpkg",
        "--input-dir",
        "in",
        "--output-dir",
        "out",
        "--internal-timestep-seconds",
        "900",
        "-k",
        "route-rs-simd",
        "-n",
        "7",
        "--fast-converge",
        "root",
    ]))
    .unwrap();
    assert_eq!(args.route_dir, "root");
    assert_eq!(args.hf.as_deref(), Some("fabric.gpkg"));
    assert_eq!(args.input_dir.as_deref(), Some("in"));
    assert_eq!(args.output_dir.as_deref(), Some("out"));
    assert_eq!(args.internal_timestep_seconds, 900);
    assert_eq!(args.kernel, MuskingumCungeKernel::RouteRsSimd);
    assert_eq!(args.num_threads, 7);
    assert!(args.fast_converge);
}

#[test]
fn unset_options_stay_unset() {
    let args = Args::parse_from(&words(&["rs-route", "root"])).unwrap();
    assert!(args.hf.is_none());
    assert!(args.input_dir.is_none());
    assert!(args.output_dir.is_none());
    assert!(!args.fast_converge);
    assert!(args.num_threads >= 1);
}

#[test]
fn default_threads_are_those_of_the_machine() {
    let args = Args::parse_from(&words(&["rs-route", "root"])).unwrap();
    assert_eq!(args.num_threads, num_cpus::get());
}

#[test]
fn the_timestep_has_two_short_options() {
    for short in ["-i", "-t"] {
        let args = Args::parse_from(&words(&["rs-route", "root", short, "600"])).unwrap();
        assert_eq!(args.internal_timestep_seconds, 600);
        assert!(args.input_dir.is_none());
        let config = get_args(&args, &facts()).unwrap();
        assert_eq!(config.internal_timestep_seconds, 600);
        assert_eq!(config.csv_dir, "root/outputs/ngen");
    }
    let e = usage_error(&["rs-route", "root", "-i", "600", "-t", "300"]);
    assert_eq!(e.exit_code(), 2);
}

#[test]
fn a_line_that_does_not_fit_is_a_usage_error() {
    match Args::parse_from(&words(&["rs-route"])) {
        Err(ArgsError::Usage(e)) => {
            assert!(e.to_stderr);
            assert_eq!(e.exit_code(), 2);
            assert!(e.message.contains("<ROUTE_DIR>"), "{}", e.message);
        }
        other => panic!("expected a usage error, got {:?}", other),
    }
    match Args::parse_from(&words(&["rs-route", "root", "--no-such-option"])) {
        Err(ArgsError::Usage(e)) => assert!(e.message.contains("--no-such-option")),
        other => panic!("expected a usage error, got {:?}", other),
    }
    match Args::parse_from(&words(&["rs-route", "--help"])) {
        Err(ArgsError::Usage(e)) => {
            assert!(!e.to_stderr);
            assert_eq!(e.exit_code(), 0);
            assert!(e.message.contains("Network routing simulation tool"));
        }
        other => panic!("expected the help text, got {:?}", other),
    }
}

fn usage_error(line: &[&str]) -> UsageError {
    match Args::parse_from(&words(line)) {
        Err(ArgsError::Usage(e)) => e,
        other => panic!("expected a usage error, got {:?}", other),
    }
}

#[test]
fn values_that_cannot_be_read_are_refused() {
    for (line, value) in [
        (["rs-route", "root", "-t", "soon"], "soon"),
        (["rs-route", "root", "-k", "fortran"], "fortran"),
        (["rs-route", "root", "-n", "99999999999999999999999"], "99999999999999999999999"),
        (["rs-route", "root", "-t", ""], ""),
    ] {
        let e = usage_error(&line);
        assert!(e.to_stderr);
        assert_eq!(e.exit_code(), 2);
        assert!(e.message.contains(&format!("invalid value '{}'", value)), "{}", e.message);
    }
}

#[test]
fn empty_paths_are_refused() {
    for line in [
        vec!["rs-route", ""],
        vec!["rs-route", "root", "--hf", ""],
        vec!["rs-route", "root", "--hf="],
        vec!["rs-route", "root", "--input-dir", ""],
        vec!["rs-route", "root", "-o", ""],
        vec!["rs-route", "root", "--output-dir", ""],
    ] {
        let e = usage_error(&line);
        assert!(e.to_stderr, "{:?}", line);
        assert_eq!(e.exit_code(), 2, "{:?}", line);
    }
}

/// The first thing on the line that ends the reading decides.
#[test]
fn the_first_word_that_does_not_fit_decides() {
    let e = usage_error(&["rs-route", "root", "-t", "soon", "--help"]);
    assert!(e.to_stderr);
    assert_eq!(e.exit_code(), 2);
    let e = usage_error(&["rs-route", "root", "--help", "-t", "soon"]);
    assert!(!e.to_stderr);
    assert_eq!(e.exit_code(), 0);
    let e = usage_error(&["rs-route", "", "--help"]);
    assert_eq!(e.exit_code(), 2);
}

#[test]
fn usage_names_the_values() {
    let help = usage_error(&["rs-route", "--help"]).message;
    for shown in [
        "Usage: rs-route [OPTIONS] <ROUTE_DIR>",
        "--hf <HF>",
        "      --input-dir <INPUT_DIR>",
        "-o, --output-dir <OUTPUT_DIR>",
        "-i, --internal-timestep-seconds <N>",
        "[alias: -t]",
        "-k, --kernel <KERNEL>",
        "-n, --num-threads <N>",
        "--fast-converge",
        "Path to the output directory",
        "[default: 300]",
        "[default: t-route-modernized]",
        "[default: number of CPUs]",
    ] {
        assert!(help.contains(shown), "{:?} is missing from {}", shown, help);
    }
    assert!(!help.contains("--fast-converge <"));
}

#[test]
fn values_are_checked_by_kind() {
    assert_eq!(ValueKind::Path.check("x"), Ok("x".to_string()));
    assert!(ValueKind::Path.check("").is_err());
    assert_eq!(ValueKind::Count.check("+5"), Ok("+5".to_string()));
    assert_eq!(ValueKind::Count.check("5s"), Err("not a whole number that fits".to_string()));
    assert_eq!(ValueKind::Kernel.check("route-rs"), Ok("route-rs".to_string()));
    assert!(ValueKind::Kernel.check("Route-RS").is_err());
    assert_eq!(ValueKind::Mark.check(""), Ok(String::new()));
}

fn raw() -> RawArgs {
    RawArgs {
        route_dir: Some("root".to_string()),
        hf: None,
        input_dir: None,
        output_dir: None,
        internal_timestep_seconds: None,
        kernel: None,
        num_threads: None,
        fast_converge: None,
    }
}

#[test]
fn values_are_decoded_in_order() {
    let args = Args::from_values(&raw(), 5).unwrap();
    assert_eq!(args.route_dir, "root");
    assert_eq!(args.internal_timestep_seconds, 300);
    assert_eq!(args.num_threads, 5);

    let none = RawArgs { route_dir: None, kernel: Some("x".to_string()), ..raw() };
    assert!(matches!(Args::from_values(&none, 1), Err(ArgsError::MissingRouteDir)));

    let two = RawArgs {
        internal_timestep_seconds: Some("-1".to_string()),
        kernel: Some("x".to_string()),
        ..raw()
    };
    assert!(matches!(
        Args::from_values(&two, 1),
        Err(ArgsError::InvalidTimestep(text)) if text == "-1"
    ));

    let kernel = RawArgs {
        kernel: Some("x".to_string()),
        num_threads: Some("y".to_string()),
        ..raw()
    };
    assert!(matches!(
        Args::from_values(&kernel, 1),
        Err(ArgsError::UnknownKernel(text)) if text == "x"
    ));

    let threads = RawArgs { num_threads: Some("y".to_string()), ..raw() };
    assert!(matches!(
        Args::from_values(&threads, 1),
        Err(ArgsError::InvalidThreads(text)) if text == "y"
    ));
}

#[test]
fn empty_path_values_are_named() {
    let empty = || Some(String::new());
    for (values, name) in [
        (RawArgs { route_dir: empty(), hf: empty(), ..raw() }, "route_dir"),
        (RawArgs { hf: empty(), output_dir: empty(), ..raw() }, "hf"),
        (RawArgs { input_dir: empty(), kernel: Some("x".to_string()), ..raw() }, "input_dir"),
        (RawArgs { output_dir: empty(), ..raw() }, "output_dir"),
    ] {
        match Args::from_values(&values, 1) {
            Err(ArgsError::EmptyPath { argument }) => assert_eq!(argument, name),
            other => panic!("got {:?}", other),
        }
    }
}

fn args() -> Args {
    Args::from_values(&raw(), 4).unwrap()
}

fn facts() -> DirFacts {
    DirFacts {
        root_is_dir: true,
        csv_is_dir: true,
        config_is_dir: true,
        output_is_dir: true,
        hf_exists: false,
        config_entries: Some(words(&["realization.json", "a.gpkg", "b.gpkg"])),
    }
}

#[test]
fn paths_default_to_the_run_directory() {
    let paths = args().run_paths();
    assert_eq!(paths.csv_dir, "root/outputs/ngen");
    assert_eq!(paths.config_dir, "root/config");
    assert_eq!(paths.output_dir, "root/outputs/troute");

    let given = Args {
        input_dir: Some("in".to_string()),
        output_dir: Some("out/".to_string()),
        route_dir: "/data/".to_string(),
        ..args()
    };
    let paths = given.run_paths();
    assert_eq!(paths.csv_dir, "in");
    assert_eq!(paths.config_dir, "/data/config");
    assert_eq!(paths.output_dir, "out/");
}

#[test]
fn a_sound_run_is_configured() {
    let config = get_args(&args(), &facts()).unwrap();
    assert_eq!(config.csv_dir, "root/outputs/ngen");
    assert_eq!(config.gpkg_file, "root/config/a.gpkg");
    assert_eq!(config.output_dir, "root/outputs/troute");
    assert_eq!(config.internal_timestep_seconds, 300);
    assert_eq!(config.kernel, MuskingumCungeKernel::TRouteModernized);
    assert_eq!(config.num_threads, 4);
    assert_eq!(config.secant_bracket, SecantBracket::Wide);

    let fast = Args { fast_converge: true, ..args() };
    assert_eq!(get_args(&fast, &facts()).unwrap().secant_bracket, SecantBracket::Tight);
}

#[test]
fn a_configured_run_cannot_drift() {
    for dt in 0..4000 {
        let asked = Args { internal_timestep_seconds: dt, ..args() };
        if let Ok(config) = get_args(&asked, &facts()) {
            let dt = config.internal_timestep_seconds;
            assert_eq!(EXTERNAL_TIMESTEP_SECONDS / dt * dt, EXTERNAL_TIMESTEP_SECONDS);
        }
    }
}

#[test]
fn faults_are_found_in_order() {
    let bad = Args { internal_timestep_seconds: 700, ..args() };
    let no_root = DirFacts { root_is_dir: false, csv_is_dir: false, ..facts() };
    assert!(matches!(
        get_args(&bad, &no_root),
        Err(ConfigError::RootNotADirectory { root }) if root == "root"
    ));

    let no_dirs = DirFacts {
        csv_is_dir: false,
        config_is_dir: false,
        output_is_dir: false,
        ..facts()
    };
    match get_args(&bad, &no_dirs) {
        Err(ConfigError::MissingDirectories { dirs }) => assert_eq!(
            dirs,
            words(&["root/outputs/ngen", "root/config", "root/outputs/troute"])
        ),
        other => panic!("got {:?}", other),
    }

    let unreadable = DirFacts { config_entries: None, ..facts() };
    assert!(matches!(get_args(&bad, &unreadable), Err(ConfigError::ConfigUnreadable)));

    let nothing = DirFacts { config_entries: Some(words(&["x.json", ".gpkg"])), ..facts() };
    assert!(matches!(get_args(&bad, &nothing), Err(ConfigError::NoGeoPackage)));

    assert!(matches!(
        get_args(&bad, &facts()),
        Err(ConfigError::Timestep(TimestepError { dt: 700 }))
    ));
}

#[test]
fn a_given_hydrofabric_needs_no_config_directory() {
    let given = Args { hf: Some("fabric.gpkg".to_string()), ..args() };
    let no_config = DirFacts {
        config_is_dir: false,
        config_entries: None,
        hf_exists: true,
        ..facts()
    };
    assert_eq!(get_args(&given, &no_config).unwrap().gpkg_file, "fabric.gpkg");

    let absent = DirFacts { hf_exists: false, ..no_config };
    assert!(matches!(
        get_args(&given, &absent),
        Err(ConfigError::HydrofabricNotFound { path }) if path == "fabric.gpkg"
    ));

    let no_output = DirFacts { output_is_dir: false, config_is_dir: false, ..facts() };
    match get_args(&given, &no_output) {
        Err(ConfigError::MissingDirectories { dirs }) => {
            assert_eq!(dirs, words(&["root/outputs/troute"]))
        }
        other => panic!("got {:?}", other),
    }
}

#[test]
fn extensions_are_those_of_std() {
    for name in ["a.gpkg", ".gpkg", "..gpkg", "gpkg", "a.GPKG", "a.gpkg.bak", "b.b.gpkg", "", "x"] {
        let want = std::path::Path::new(name).extension().is_some_and(|e| e == "gpkg");
        assert_eq!(has_gpkg_extension(name), want, "{}", name);
    }
    assert_eq!(find_gpkg(&words(&["x", "y.gpkg", "z.gpkg"])), Some(1));
    assert_eq!(find_gpkg(&words(&["x"])), None);
}

#[test]
fn the_banner_announces_the_run() {
    let config: Config = get_args(&args(), &facts()).unwrap();
    let lines: Vec<(&str, String, Emphasis)> =
        banner_lines(&config).into_iter().map(|l| (l.label, l.value, l.emphasis)).collect();
    assert_eq!(
        lines,
        vec![
            ("  Kernel:   ", "t-route-modernized".to_string(), Emphasis::Green),
            ("  Timestep: ", "300s".to_string(), Emphasis::Plain),
            ("  Threads:  ", "4".to_string(), Emphasis::Plain),
            ("  GeoPackage: ", "root/config/a.gpkg".to_string(), Emphasis::Dimmed),
        ]
    );
    let fast = Config { secant_bracket: SecantBracket::Tight, ..config };
    let lines = banner_lines(&fast);
    assert_eq!(lines.len(), 5);
    assert_eq!(lines[3].label, "  Solver:   ");
    assert_eq!(lines[3].value, "fast-converge");
    assert_eq!(lines[3].emphasis, Emphasis::Yellow);
}
