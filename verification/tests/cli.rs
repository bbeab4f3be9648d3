use vm::cli::{file_check, validate_is_file, Args, Driver};

#[test]
fn driver_names_parse() {
    assert_eq!(Driver::from_str("read-only"), Ok(Driver::ReadOnly));
    assert_eq!(Driver::from_str("tmux"), Ok(Driver::Tmux));
    assert_eq!(Driver::from_str("manual"), Ok(Driver::Manual));
}

#[test]
fn unknown_driver_names_are_refused() {
    let expected = format!("not one of {:?}", ["read-only", "tmux", "manual"]);
    assert_eq!(Driver::from_str("Tmux"), Err(expected.clone()));
    assert_eq!(Driver::from_str(""), Err(expected.clone()));
    assert_eq!(Driver::from_str("readonly"), Err(expected));
}

#[test]
fn file_check_verdicts() {
    assert_eq!(file_check("/tmp/meta.json", true), Ok(()));
    assert_eq!(
        file_check("/tmp/meta.json", false),
        Err("'/tmp/meta.json' was not a file".to_string())
    );
}

#[test]
fn validate_is_file_on_the_file_system() {
    assert_eq!(validate_is_file("/proc/self/status".to_string()), Ok(()));
    assert_eq!(validate_is_file("/".to_string()), Err("'/' was not a file".to_string()));
    assert_eq!(
        validate_is_file("/no/such/metadata.json".to_string()),
        Err("'/no/such/metadata.json' was not a file".to_string())
    );
}

#[test]
fn args_hold_the_driver() {
    let args = Args { meta_file: "c3.medium.x86.json".to_string(), driver: Driver::Tmux };
    assert_eq!(args.driver, Driver::Tmux);
    assert_eq!(args.meta_file, "c3.medium.x86.json");
}

#[test]
fn drivers_parse_through_from_str_trait() {
    assert_eq!("manual".parse::<Driver>(), Ok(Driver::Manual));
    assert_eq!("read-only".parse::<Driver>(), Ok(Driver::ReadOnly));
    assert!("TMUX".parse::<Driver>().is_err());
}
