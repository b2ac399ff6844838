use envfs::cli::{parse_options, plan_startup, OptionError, Startup};

fn args(list: &[&str]) -> Vec<Vec<u8>> {
    list.iter().map(|a| a.as_bytes().to_vec()).collect()
}

#[test]
fn options_and_positionals() {
    let o = parse_options(&args(&["-f", "-o", "debug,fallback-path=/run/fb,ro", "none", "/usr/bin"])).unwrap();
    assert!(o.foreground);
    assert!(o.debug);
    assert!(!o.remount);
    assert!(!o.show_help);
    assert_eq!(o.fallback_paths, args(&["/run/fb"]));
    assert_eq!(o.args, args(&["none", "/usr/bin"]));
}

#[test]
fn repeated_fallback_and_bind_mounts() {
    let o = parse_options(&args(&[
        "-o",
        "fallback-path=/a,fallback-path=/b,bind-mount=/bin,nofail,rw",
        "/usr/bin",
    ]))
    .unwrap();
    assert_eq!(o.fallback_paths, args(&["/a", "/b"]));
    assert_eq!(o.bind_mounts, args(&["/bin"]));
}

#[test]
fn help_stops_parsing() {
    let o = parse_options(&args(&["--help", "-x"])).unwrap();
    assert!(o.show_help);
    assert!(o.args.is_empty());
}

#[test]
fn double_dash_takes_the_rest() {
    let o = parse_options(&args(&["a", "--", "-f", "b"])).unwrap();
    assert!(!o.foreground);
    assert_eq!(o.args, args(&["a", "-f", "b"]));
}

#[test]
fn option_errors() {
    assert_eq!(parse_options(&args(&["-o"])).err(), Some(OptionError::MissingMountOptions));
    assert_eq!(
        parse_options(&args(&["-x", "/m"])).err(),
        Some(OptionError::UnrecognizedArgument(b"-x".to_vec()))
    );
    assert_eq!(
        parse_options(&args(&["-o", "fallback-path", "/m"])).err(),
        Some(OptionError::MissingValue(b"fallback-path".to_vec()))
    );
    assert_eq!(
        parse_options(&args(&["-o", "bind-mount", "/m"])).err(),
        Some(OptionError::MissingValue(b"bind-mount".to_vec()))
    );
    assert_eq!(
        parse_options(&args(&["-o", "debug,bogus=1", "/m"])).err(),
        Some(OptionError::InvalidMountOption(b"bogus".to_vec()))
    );
}

#[test]
fn startup_decisions() {
    assert!(matches!(plan_startup(&args(&[])), Startup::NotEnoughArguments));
    assert!(matches!(plan_startup(&args(&["-h"])), Startup::NotEnoughArguments));
    assert!(matches!(plan_startup(&args(&["-h", "/m"])), Startup::NotEnoughArguments));
    assert!(matches!(plan_startup(&args(&["/m", "-h"])), Startup::ShowHelp));
    assert!(matches!(plan_startup(&args(&["-o", "remount", "/m"])), Startup::IgnoreRemount));
    assert!(matches!(plan_startup(&args(&["-o", "nope", "/m"])), Startup::Fail(OptionError::InvalidMountOption(_))));
    match plan_startup(&args(&["-o", "bind-mount=/bin", "none", "/usr/bin"])) {
        Startup::Serve { options, mountpoints } => {
            assert_eq!(mountpoints, args(&["/usr/bin", "/bin"]));
            assert!(!options.foreground);
        }
        _ => panic!("expected to serve"),
    }
    match plan_startup(&args(&["-f", "/m"])) {
        Startup::Serve { options, mountpoints } => {
            assert_eq!(mountpoints, args(&["/m"]));
            assert!(options.foreground);
        }
        _ => panic!("expected to serve"),
    }
}
