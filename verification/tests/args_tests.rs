use mdmf::args::{Args, ArgsError};

#[test]
fn test_args_parsing() {
    let args = Args::try_parse_from(&["mdmf", "config.yaml", "out_dir"]);
    assert!(args.is_ok());
    let args = args.unwrap();
    assert_eq!(args.config_file, "config.yaml");
    assert_eq!(args.output_dir, "out_dir");
}

#[test]
fn test_missing_args() {
    let args = Args::try_parse_from(&["mdmf", "config.yaml"]);
    assert!(args.is_err());
}

#[test]
fn blind_flag_anywhere() {
    for argv in [
        ["mdmf", "--blind", "c.yaml", "out"],
        ["mdmf", "c.yaml", "--blind", "out"],
        ["mdmf", "c.yaml", "out", "--blind"],
    ] {
        let a = Args::try_parse_from(&argv).unwrap();
        assert_eq!(a.config_file, "c.yaml");
        assert_eq!(a.output_dir, "out");
        assert!(a.blind);
    }
    let a = Args::try_parse_from(&["mdmf", "c.yaml", "out"]).unwrap();
    assert!(!a.blind);
}

#[test]
fn help_and_version() {
    assert!(matches!(Args::try_parse_from(&["mdmf", "--help"]), Err(ArgsError::Help)));
    assert!(matches!(Args::try_parse_from(&["mdmf", "-h", "a", "b"]), Err(ArgsError::Help)));
    assert!(matches!(Args::try_parse_from(&["mdmf", "a", "--version"]), Err(ArgsError::Version)));
    assert!(matches!(Args::try_parse_from(&["mdmf", "-V"]), Err(ArgsError::Version)));
}

#[test]
fn refused_command_lines() {
    match Args::try_parse_from(&["mdmf", "a", "b", "--colour"]) {
        Err(ArgsError::UnknownArgument(s)) => assert_eq!(s, "--colour"),
        other => panic!("unexpected {:?}", other),
    }
    match Args::try_parse_from(&["mdmf", "-x", "a", "b"]) {
        Err(ArgsError::UnknownArgument(s)) => assert_eq!(s, "-x"),
        other => panic!("unexpected {:?}", other),
    }
    match Args::try_parse_from(&["mdmf", "a", "b", "--blind=yes"]) {
        Err(ArgsError::UnexpectedValue(s)) => assert_eq!(s, "blind"),
        other => panic!("unexpected {:?}", other),
    }
    match Args::try_parse_from(&["mdmf", "--blind", "a", "b", "--blind"]) {
        Err(ArgsError::RepeatedFlag(s)) => assert_eq!(s, "blind"),
        other => panic!("unexpected {:?}", other),
    }
    match Args::try_parse_from(&["mdmf", "a", "b", "c"]) {
        Err(ArgsError::UnexpectedArgument(s)) => assert_eq!(s, "c"),
        other => panic!("unexpected {:?}", other),
    }
    assert!(matches!(Args::try_parse_from(&["mdmf"]), Err(ArgsError::MissingArguments)));
    assert!(matches!(Args::try_parse_from(&[]), Err(ArgsError::MissingArguments)));
}

#[test]
fn double_dash_ends_options() {
    let a = Args::try_parse_from(&["mdmf", "--", "--blind", "-x"]).unwrap();
    assert_eq!(a.config_file, "--blind");
    assert_eq!(a.output_dir, "-x");
    assert!(!a.blind);
    let a = Args::try_parse_from(&["mdmf", "-", "out"]).unwrap();
    assert_eq!(a.config_file, "-");
}
