use arcana::cli::{Cli, CliParseError, Commands, PackAction, RecordAction, RecordKindArg};

#[test]
fn only_new_sqlite_command_families_are_exposed() {
    for removed in [
        "context",
        "read",
        "mission",
        "status",
        "achievement",
        "changelog",
        "memory",
    ] {
        assert!(Cli::try_parse_from(&["arcana-data", removed]).is_err());
    }
    for retained in ["capabilities", "init"] {
        assert!(Cli::try_parse_from(&["arcana-data", retained]).is_ok());
    }
}

#[test]
fn parses_every_pack_command() {
    let commands: &[&[&str]] = &[
        &["pack", "list"],
        &["pack", "show", "cooking"],
        &["pack", "scaffold", "cooking", "--name", "Cooking"],
        &["pack", "validate", "--file", "pack.json"],
        &["pack", "write", "--file", "pack.json"],
        &[
            "pack",
            "asset-put",
            "cooking",
            "assets/card.webp",
            "--file",
            "card.webp",
        ],
        &["pack", "asset-delete", "cooking", "assets/card.webp"],
        &["pack", "enable", "cooking"],
        &["pack", "disable", "cooking"],
    ];
    for arguments in commands {
        let mut argv = vec!["arcana-data"];
        argv.extend_from_slice(arguments);
        assert!(
            matches!(
                Cli::try_parse_from(&argv).unwrap().command,
                Commands::Pack { .. }
            ),
            "failed to parse {arguments:?}"
        );
    }
}

#[test]
fn parses_every_record_command() {
    let commands: &[&[&str]] = &[
        &["record", "get", "identity.nickname"],
        &["record", "query", "--namespace", "identity"],
        &["record", "set", "--file", "command.json"],
        &["record", "increment", "--file", "command.json"],
        &["record", "correct", "--file", "command.json"],
        &["record", "create-empty-collection", "stats.projects"],
        &["record", "create-empty-event", "stats.activities"],
        &["record", "add-item", "--file", "command.json"],
        &["record", "correct-item", "--file", "command.json"],
        &["record", "remove-item", "--file", "command.json"],
        &["record", "append-event", "--file", "command.json"],
        &["record", "correct-event", "--file", "command.json"],
        &["record", "delete-event", "--file", "command.json"],
        &["record", "delete", "identity.nickname"],
    ];
    for arguments in commands {
        let mut argv = vec!["arcana-data"];
        argv.extend_from_slice(arguments);
        assert!(
            matches!(
                Cli::try_parse_from(&argv).unwrap().command,
                Commands::Record { .. }
            ),
            "failed to parse {arguments:?}"
        );
    }
}

#[test]
fn compact_and_runtime_are_accepted_anywhere() {
    let cli = Cli::try_parse_from(&[
        "arcana-data",
        "record",
        "query",
        "--kind",
        "scalar",
        "--compact",
        "--runtime",
        "/tmp/runtime",
        "--has-value",
        "true",
    ])
    .unwrap();
    assert!(cli.compact);
    match cli.command {
        Commands::Record { runtime, action } => {
            assert_eq!(runtime.as_deref(), Some("/tmp/runtime"));
            match action {
                RecordAction::Query { kind, has_value, namespace, .. } => {
                    assert_eq!(kind, Some(RecordKindArg::Scalar));
                    assert_eq!(has_value, Some(true));
                    assert_eq!(namespace, None);
                }
                other => panic!("unexpected action {other:?}"),
            }
        }
        other => panic!("unexpected command {other:?}"),
    }
}

#[test]
fn scaffold_keeps_its_arguments() {
    let cli = Cli::try_parse_from(&["arcana-data", "pack", "scaffold", "cooking", "--name", "Cooking"]).unwrap();
    assert!(!cli.compact);
    match cli.command {
        Commands::Pack { action: PackAction::Scaffold { pack_id, name }, runtime } => {
            assert_eq!(pack_id, "cooking");
            assert_eq!(name, "Cooking");
            assert_eq!(runtime, None);
        }
        other => panic!("unexpected command {other:?}"),
    }
}

#[test]
fn malformed_invocations_are_rejected() {
    let invalid: &[&[&str]] = &[
        &["arcana-data"],
        &["arcana-data", "capabilities", "extra"],
        &["arcana-data", "pack", "scaffold", "cooking"],
        &["arcana-data", "pack", "asset-put", "cooking", "assets/a.png"],
        &["arcana-data", "record", "get"],
        &["arcana-data", "record", "query", "--kind", "table"],
        &["arcana-data", "record", "set", "--file", "a.json", "--file", "b.json"],
        &["arcana-data", "record", "set", "--file"],
        &["arcana-data", "pack", "list", "--unknown", "x"],
        &["arcana-data", "pack", "list", "-x"],
        &["arcana-data", "json", "export"],
    ];
    for argv in invalid {
        assert_eq!(
            Cli::try_parse_from(argv).unwrap_err(),
            CliParseError::InvalidInvocation,
            "accepted {argv:?}"
        );
    }
    assert_eq!(
        Cli::try_parse_from(&["arcana-data", "pack", "--help"]).unwrap_err(),
        CliParseError::DisplayHelp
    );
}
