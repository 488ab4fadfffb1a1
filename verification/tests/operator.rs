use telchar::operator::{parse, Command};

fn arguments(texts: &[&str]) -> Vec<String> {
    texts.iter().map(|text| text.to_string()).collect()
}

#[test]
fn parses_only_bounded_read_commands() {
    assert_eq!(parse(&arguments(&["status"])).unwrap(), Command::Status);
    assert_eq!(
        parse(&arguments(&["queue", "--limit", "256"])).unwrap(),
        Command::Queue { limit: 256 }
    );
    assert_eq!(
        parse(&arguments(&["build", "/nix/store/example.drv"])).unwrap(),
        Command::Build {
            derivation_path: "/nix/store/example.drv".into()
        }
    );
    assert!(parse(&arguments(&["cancel"])).is_err());
    assert!(parse(&arguments(&["queue", "--limit", "0"])).is_err());
    assert!(parse(&arguments(&["recovery", "--limit", "257"])).is_err());
}

#[test]
fn commands_without_arguments_refuse_more() {
    assert_eq!(parse(&arguments(&["backends"])).unwrap(), Command::Backends);
    assert_eq!(
        parse(&arguments(&["config-check"])).unwrap(),
        Command::ConfigCheck
    );
    assert_eq!(
        parse(&arguments(&["status", "now"])).unwrap_err().message,
        "unexpected operator argument"
    );
    assert_eq!(
        parse(&arguments(&[])).unwrap_err().message,
        "operator command is required"
    );
    assert_eq!(
        parse(&arguments(&["cancel"])).unwrap_err().message,
        "unknown operator command"
    );
}

#[test]
fn limits_have_a_default_and_bounds() {
    assert_eq!(
        parse(&arguments(&["queue"])).unwrap(),
        Command::Queue { limit: 64 }
    );
    assert_eq!(
        parse(&arguments(&["recovery", "--limit", "1"])).unwrap(),
        Command::Recovery { limit: 1 }
    );
    assert_eq!(
        parse(&arguments(&["recovery", "--lim", "1"])).unwrap_err().message,
        "expected --limit"
    );
    assert_eq!(
        parse(&arguments(&["recovery", "--limit"])).unwrap_err().message,
        "operator limit is required"
    );
    assert_eq!(
        parse(&arguments(&["queue", "--limit", "1x"])).unwrap_err().message,
        "operator limit is invalid"
    );
    assert_eq!(
        parse(&arguments(&["queue", "--limit", "1", "2"])).unwrap_err().message,
        "operator limit is invalid"
    );
}

#[test]
fn derivation_paths_are_checked() {
    assert_eq!(
        parse(&arguments(&["build"])).unwrap_err().message,
        "derivation path is required"
    );
    for path in ["/nix/store/example", "/tmp/example.drv", "/nix/store/a\0.drv"] {
        assert_eq!(
            parse(&arguments(&["build", path])).unwrap_err().message,
            "derivation path is invalid"
        );
    }
    let long = format!("/nix/store/{}.drv", "a".repeat(4096));
    assert!(parse(&arguments(&["build", &long])).is_err());
}
