use auto_dns::{Cli, Command, UsageError};

fn cli(config: &str, once: bool, write_config: Option<&str>, no_aws: bool) -> Cli {
    Cli {
        config: config.to_string(),
        once,
        write_config: write_config.map(|path| path.to_string()),
        no_aws,
    }
}

#[test]
fn test_write_config_with_other_flags_fails() {
    let with_once = cli("config.toml", true, Some("test_config.toml"), false).command();
    assert!(with_once.is_err(), "Command should fail when using --write-config with --once");
    let stderr = with_once.unwrap_err().message();
    assert!(stderr.contains("--write-config cannot be used with other flags"));

    let with_no_aws = cli("config.toml", false, Some("test_config.toml"), true).command();
    assert!(with_no_aws.is_err(), "Command should fail when using --write-config with --no-aws");
    let stderr = with_no_aws.unwrap_err().message();
    assert!(stderr.contains("--write-config cannot be used with other flags"));
}

#[test]
fn write_config_with_another_config_file_fails() {
    let result = cli("other.toml", false, Some("new.toml"), false).command();
    assert_eq!(result, Err(UsageError::WriteConfigWithOtherFlags));
}

#[test]
fn write_config_alone_writes_the_configuration() {
    let result = cli("config.toml", false, Some("new.toml"), false).command();
    assert_eq!(result, Ok(Command::WriteConfig { path: "new.toml".to_string() }));
}

#[test]
fn without_write_config_the_records_are_reconciled() {
    for once in [false, true] {
        for no_aws in [false, true] {
            assert_eq!(
                cli("my.toml", once, None, no_aws).command(),
                Ok(Command::Run { config: "my.toml".to_string(), once, dry_run: no_aws })
            );
        }
    }
}
