use iamawrapper::cli::args::{
    CliArgs, Commands, IntuneAction, IntuneCommand, IntuneCreateArgs, IntuneExtractArgs,
    LegacyCliArgs, MacosAction, MacosCommand, MacosPkgArgs,
};
use iamawrapper::cli::interactive::{
    check_folder, check_output_folder, confirmed, intune_request, macos_request, platform_at,
    platform_options, scripts_missing, setup_choices, validate_identifier, validate_version,
    InteractiveResult, Platform,
};
use iamawrapper::cli::{
    check_source_folder, exit_code_for, macos_pkg_request, no_command, plan, Plan,
};
use iamawrapper::models::error::exit_codes;
use iamawrapper::paths::PathFacts;
use iamawrapper::{PackageError, PackageRequest, Verbosity};

fn directory() -> PathFacts {
    PathFacts { exists: true, is_dir: true, is_file: false }
}

fn file() -> PathFacts {
    PathFacts { exists: true, is_dir: false, is_file: true }
}

fn nothing() -> PathFacts {
    PathFacts { exists: false, is_dir: false, is_file: false }
}

#[test]
fn test_legacy_needs_interactive_missing_all() {
    let args = LegacyCliArgs::default();
    assert!(args.needs_interactive());
}

#[test]
fn test_legacy_needs_interactive_all_provided() {
    let args = LegacyCliArgs {
        content_folder: Some("/source".to_string()),
        setup_file: Some("setup.exe".to_string()),
        output_folder: Some("/output".to_string()),
        ..Default::default()
    };
    assert!(!args.needs_interactive());
}

#[test]
fn test_legacy_needs_interactive_quiet_mode() {
    let args = LegacyCliArgs { quiet: true, ..Default::default() };
    // Missing args in quiet mode = error, not interactive
    assert!(!args.needs_interactive());
}

#[test]
fn test_legacy_needs_interactive_silent_mode() {
    let args = LegacyCliArgs { silent: true, ..Default::default() };
    // Missing args in silent mode = error, not interactive
    assert!(!args.needs_interactive());
}

#[test]
fn test_verbosity_normal() {
    let args = CliArgs::default();
    assert_eq!(args.verbosity(), Verbosity::Normal);
}

#[test]
fn test_verbosity_quiet() {
    let args = CliArgs { quiet: true, ..Default::default() };
    assert_eq!(args.verbosity(), Verbosity::Quiet);
}

#[test]
fn test_verbosity_silent() {
    let args = CliArgs { silent: true, ..Default::default() };
    assert_eq!(args.verbosity(), Verbosity::Silent);
}

#[test]
fn test_verbosity_silent_takes_precedence() {
    let args = CliArgs { quiet: true, silent: true, ..Default::default() };
    assert_eq!(args.verbosity(), Verbosity::Silent);
}

#[test]
fn test_legacy_to_package_request_success() {
    let args = LegacyCliArgs {
        content_folder: Some("/source".to_string()),
        setup_file: Some("setup.exe".to_string()),
        output_folder: Some("/output".to_string()),
        output_name: Some("MyApp".to_string()),
        unpack_file: None,
        quiet: true,
        silent: false,
    };

    let request = args.to_package_request().unwrap();

    assert_eq!(request.source_folder, "/source");
    assert_eq!(request.setup_file, "setup.exe");
    assert_eq!(request.output_folder, "/output");
    assert_eq!(request.output_name, Some("MyApp".to_string()));
    assert_eq!(request.verbosity, Verbosity::Quiet);
}

#[test]
fn test_legacy_is_unpack_mode() {
    let args = LegacyCliArgs::default();
    assert!(!args.is_unpack_mode());

    let args =
        LegacyCliArgs { unpack_file: Some("/test.intunewin".to_string()), ..Default::default() };
    assert!(args.is_unpack_mode());
}

#[test]
fn test_legacy_needs_interactive_unpack_mode() {
    let args =
        LegacyCliArgs { unpack_file: Some("/test.intunewin".to_string()), ..Default::default() };
    // Unpack mode never needs interactive
    assert!(!args.needs_interactive());
}

#[test]
fn test_legacy_to_unpack_request_success() {
    let args = LegacyCliArgs {
        unpack_file: Some("/test.intunewin".to_string()),
        output_folder: Some("/extracted".to_string()),
        quiet: true,
        ..Default::default()
    };

    let request = args.to_unpack_request().unwrap();

    assert_eq!(request.input_file, "/test.intunewin");
    assert_eq!(request.output_folder, "/extracted");
    assert_eq!(request.verbosity, Verbosity::Quiet);
}

#[test]
fn test_legacy_to_unpack_request_missing_output() {
    let args =
        LegacyCliArgs { unpack_file: Some("/test.intunewin".to_string()), ..Default::default() };

    let result = args.to_unpack_request();
    assert!(matches!(result, Err(PackageError::InvalidArgument { .. })));
}

#[test]
fn test_legacy_to_package_request_missing_content() {
    let args = LegacyCliArgs {
        setup_file: Some("setup.exe".to_string()),
        output_folder: Some("/output".to_string()),
        ..Default::default()
    };

    let result = args.to_package_request();
    assert!(matches!(result, Err(PackageError::InvalidArgument { .. })));
}

#[test]
fn test_legacy_to_package_request_missing_setup() {
    let args = LegacyCliArgs {
        content_folder: Some("/source".to_string()),
        output_folder: Some("/output".to_string()),
        ..Default::default()
    };

    let result = args.to_package_request();
    assert!(matches!(result, Err(PackageError::InvalidArgument { .. })));
}

#[test]
fn test_legacy_to_package_request_missing_output() {
    let args = LegacyCliArgs {
        content_folder: Some("/source".to_string()),
        setup_file: Some("setup.exe".to_string()),
        ..Default::default()
    };

    let result = args.to_package_request();
    assert!(matches!(result, Err(PackageError::InvalidArgument { .. })));
}

#[test]
fn test_intune_create_args_to_request() {
    let args = IntuneCreateArgs {
        content_folder: "/source".to_string(),
        setup_file: "setup.exe".to_string(),
        output_folder: "/output".to_string(),
        output_name: Some("MyApp".to_string()),
    };

    let request = args.to_package_request(Verbosity::Quiet);
    assert_eq!(request.source_folder, "/source");
    assert_eq!(request.setup_file, "setup.exe");
    assert_eq!(request.output_folder, "/output");
    assert_eq!(request.output_name, Some("MyApp".to_string()));
    assert_eq!(request.verbosity, Verbosity::Quiet);
}

#[test]
fn test_intune_extract_args_to_request() {
    let args = IntuneExtractArgs {
        input_file: "/test.intunewin".to_string(),
        output_folder: "/extracted".to_string(),
    };

    let request = args.to_unpack_request(Verbosity::Normal);
    assert_eq!(request.input_file, "/test.intunewin");
    assert_eq!(request.output_folder, "/extracted");
    assert_eq!(request.verbosity, Verbosity::Normal);
}

#[test]
fn legacy_request_reports_the_first_missing_argument() {
    let result = LegacyCliArgs::default().to_package_request();
    match result {
        Err(PackageError::InvalidArgument { reason }) => {
            assert_eq!(reason, "Source folder (-c) is required")
        }
        _ => panic!("expected an invalid argument"),
    }
    let args = LegacyCliArgs { content_folder: Some("/s".to_string()), ..Default::default() };
    match args.to_package_request() {
        Err(PackageError::InvalidArgument { reason }) => {
            assert_eq!(reason, "Setup file (-s) is required")
        }
        _ => panic!("expected an invalid argument"),
    }
    let args = LegacyCliArgs {
        content_folder: Some("/s".to_string()),
        setup_file: Some("a.exe".to_string()),
        ..Default::default()
    };
    match args.to_package_request() {
        Err(PackageError::InvalidArgument { reason }) => {
            assert_eq!(reason, "Output folder (-o) is required")
        }
        _ => panic!("expected an invalid argument"),
    }
    match LegacyCliArgs::default().to_unpack_request() {
        Err(PackageError::InvalidArgument { reason }) => {
            assert_eq!(reason, "Input file (-u/--unpack) is required")
        }
        _ => panic!("expected an invalid argument"),
    }
}

#[test]
fn commands_carry_their_arguments() {
    let create = Commands::Intune(IntuneCommand {
        action: IntuneAction::Create(IntuneCreateArgs {
            content_folder: "/source".to_string(),
            setup_file: "setup.exe".to_string(),
            output_folder: "/output".to_string(),
            output_name: None,
        }),
    });
    let args = CliArgs { command: Some(create), quiet: false, silent: true };
    assert_eq!(args.verbosity(), Verbosity::Silent);
    match args.command {
        Some(Commands::Intune(IntuneCommand { action: IntuneAction::Create(create) })) => {
            let request = create.to_package_request(Verbosity::Silent);
            assert_eq!(request.output_name, None);
            assert_eq!(request.verbosity, Verbosity::Silent);
        }
        _ => panic!("expected the create action"),
    }
}

// Test for platform selection
#[test]
fn test_platform_enum_variants() {
    // Platform enum should have Intune and MacOS variants
    assert_eq!(Platform::Intune as u8, 0);
    assert_eq!(Platform::MacOS as u8, 1);
}

#[test]
fn test_platform_display_names() {
    // Platform should have user-friendly display names
    let platforms = platform_options();
    assert_eq!(platforms.len(), 2);
    assert!(platforms.iter().any(|p| p.contains("Intune")));
    assert!(platforms.iter().any(|p| p.contains("macOS")));
}

#[test]
fn platform_options_follow_the_platforms() {
    let platforms = platform_options();
    assert_eq!(platforms, vec!["Microsoft Intune (.intunewin)", "macOS Flat Package (.pkg)"]);
    assert_eq!(platform_at(0), Some(Platform::Intune));
    assert_eq!(platform_at(1), Some(Platform::MacOS));
    assert_eq!(platform_at(2), None);
}

// Tests for macOS prompts flow
#[test]
fn test_validate_macos_identifier_valid() {
    assert!(validate_identifier("com.example.app").is_ok());
    assert!(validate_identifier("org.test.myapp").is_ok());
    assert!(validate_identifier("com.company.product.sub").is_ok());
}

#[test]
fn test_validate_macos_identifier_invalid() {
    // Empty identifier
    assert!(validate_identifier("").is_err());
    // Single segment (no dots)
    assert!(validate_identifier("myapp").is_err());
    // Starts with number
    assert!(validate_identifier("123.example.app").is_err());
}

#[test]
fn validate_identifier_messages() {
    assert_eq!(validate_identifier(""), Err("Identifier cannot be empty".to_string()));
    assert_eq!(
        validate_identifier("myapp"),
        Err("Identifier must be in reverse-DNS format (e.g., com.example.app)".to_string())
    );
    assert_eq!(
        validate_identifier("com..app"),
        Err("Identifier segments cannot be empty".to_string())
    );
    assert_eq!(
        validate_identifier("com.example."),
        Err("Identifier segments cannot be empty".to_string())
    );
    assert_eq!(
        validate_identifier("com.1example.app"),
        Err("Each identifier segment must start with a letter".to_string())
    );
    // The first segment that is wrong decides.
    assert_eq!(
        validate_identifier("com.9x..app"),
        Err("Each identifier segment must start with a letter".to_string())
    );
    assert_eq!(validate_identifier("Com.Example-1.a_b"), Ok(()));
}

#[test]
fn test_validate_version_valid() {
    assert!(validate_version("1.0.0").is_ok());
    assert!(validate_version("1.0").is_ok());
    assert!(validate_version("2.3.4.5").is_ok());
    assert!(validate_version("0.0.1").is_ok());
}

#[test]
fn test_validate_version_invalid() {
    // Empty version
    assert!(validate_version("").is_err());
    // Non-numeric
    assert!(validate_version("abc").is_err());
    // Version with letters
    assert!(validate_version("1.0.0-beta").is_err());
}

#[test]
fn validate_version_messages() {
    assert_eq!(validate_version(""), Err("Version cannot be empty".to_string()));
    assert_eq!(validate_version("1..0"), Err("Version segments cannot be empty".to_string()));
    assert_eq!(validate_version("1.0."), Err("Version segments cannot be empty".to_string()));
    assert_eq!(
        validate_version("1.x"),
        Err("Version must contain only numbers and dots (e.g., 1.0.0)".to_string())
    );
    // A segment is a number of at most 32 bits, with an optional plus sign.
    assert_eq!(validate_version("4294967295.+7"), Ok(()));
    assert_eq!(
        validate_version("4294967296"),
        Err("Version must contain only numbers and dots (e.g., 1.0.0)".to_string())
    );
    assert_eq!(validate_version("7"), Ok(()));
}

#[test]
fn folders_that_the_operator_types() {
    assert_eq!(check_folder("/src", directory()), Ok(()));
    assert_eq!(check_folder("/src", nothing()), Err("Folder does not exist: /src".to_string()));
    assert_eq!(check_folder("/src", file()), Err("Path is not a directory: /src".to_string()));
    assert_eq!(check_output_folder("/out", nothing()), Ok(()));
    assert_eq!(check_output_folder("/out", directory()), Ok(()));
    assert_eq!(
        check_output_folder("/out", file()),
        Err("Path exists but is not a directory: /out".to_string())
    );
    assert!(confirmed(true).is_ok());
    assert!(matches!(confirmed(false), Err(PackageError::Cancelled)));
}

#[test]
fn interactive_result_holds_a_request() {
    let request =
        PackageRequest::new("/source".to_string(), "setup.exe".to_string(), "/out".to_string());
    match InteractiveResult::Intune(request) {
        InteractiveResult::Intune(request) => assert_eq!(request.setup_file, "setup.exe"),
        InteractiveResult::MacOS(_) => panic!("expected an Intune request"),
    }
}

#[test]
fn exit_codes_of_outcomes() {
    assert_eq!(exit_code_for(&Ok(())), exit_codes::SUCCESS);
    assert_eq!(exit_code_for(&Err(no_command())), exit_codes::INVALID_ARGS);
    assert_eq!(exit_code_for(&Err(PackageError::Cancelled)), exit_codes::CANCELLED);
    assert_eq!(
        no_command().message(),
        "Invalid argument: No command specified. Use 'intune' or 'macos' subcommand."
    );
}

#[test]
fn source_folder_of_a_macos_package() {
    assert!(check_source_folder("/src", directory(), false).is_ok());
    assert!(matches!(
        check_source_folder("/src", nothing(), true),
        Err(PackageError::SourceFolderNotFound { .. })
    ));
    match check_source_folder("/src", directory(), true) {
        Err(e) => {
            assert_eq!(e.exit_code(), exit_codes::EMPTY_SOURCE);
            assert_eq!(e.message(), "Source folder is empty: /src");
        }
        Ok(()) => panic!("an empty folder is refused"),
    }
}

#[test]
fn macos_request_from_arguments() {
    let args = MacosPkgArgs {
        content_folder: "/src".to_string(),
        output: "/tmp/out/test.pkg".to_string(),
        identifier: "com.test.app".to_string(),
        version: "1.0.0".to_string(),
        install_location: "/Applications".to_string(),
        scripts_folder: Some("/scripts".to_string()),
    };
    let command = MacosCommand { action: MacosAction::Pkg(args.clone()) };
    assert!(matches!(command.action, MacosAction::Pkg(_)));
    let request = macos_pkg_request(&args, Verbosity::Quiet);
    assert_eq!(request.source_folder, "/src");
    assert_eq!(request.identifier, "com.test.app");
    assert_eq!(request.version, "1.0.0");
    assert_eq!(request.install_location, "/Applications");
    assert_eq!(request.output_folder, "/tmp/out");
    assert_eq!(request.output_name, Some("test".to_string()));
    assert_eq!(request.scripts_folder, Some("/scripts".to_string()));
    assert_eq!(request.verbosity, Verbosity::Quiet);
    assert_eq!(request.output_path(), "/tmp/out/test.pkg");

    let bare = MacosPkgArgs { output: "test.pkg".to_string(), scripts_folder: None, ..args };
    let request = macos_pkg_request(&bare, Verbosity::Normal);
    assert_eq!(request.output_folder, "");
    assert_eq!(request.output_path(), "test.pkg");
    assert_eq!(request.scripts_folder, None);
}

#[test]
fn plans_for_arguments() {
    use_plan_for_no_command();
    let create = Commands::Intune(IntuneCommand {
        action: IntuneAction::Create(IntuneCreateArgs {
            content_folder: "/source".to_string(),
            setup_file: "setup.exe".to_string(),
            output_folder: "/output".to_string(),
            output_name: Some("App".to_string()),
        }),
    });
    match plan(&CliArgs { command: Some(create), quiet: true, silent: false }) {
        Plan::CreateIntune(request) => {
            assert_eq!(request.source_folder, "/source");
            assert_eq!(request.output_name, Some("App".to_string()));
            assert_eq!(request.verbosity, Verbosity::Quiet);
        }
        _ => panic!("expected to create an Intune package"),
    }
    let extract = Commands::Intune(IntuneCommand {
        action: IntuneAction::Extract(IntuneExtractArgs {
            input_file: "/in.intunewin".to_string(),
            output_folder: "/out".to_string(),
        }),
    });
    match plan(&CliArgs { command: Some(extract), quiet: false, silent: false }) {
        Plan::ExtractIntune(request) => {
            assert_eq!(request.input_file, "/in.intunewin");
            assert_eq!(request.verbosity, Verbosity::Normal);
        }
        _ => panic!("expected to extract an Intune package"),
    }
    let pkg = Commands::Macos(MacosCommand {
        action: MacosAction::Pkg(MacosPkgArgs {
            content_folder: "/src".to_string(),
            output: "/out/app.pkg".to_string(),
            identifier: "com.test.app".to_string(),
            version: "1.0.0".to_string(),
            install_location: "/".to_string(),
            scripts_folder: None,
        }),
    });
    match plan(&CliArgs { command: Some(pkg), quiet: false, silent: true }) {
        Plan::CreatePkg { content_folder, request } => {
            assert_eq!(content_folder, "/src");
            assert_eq!(request.output_path(), "/out/app.pkg");
            assert_eq!(request.verbosity, Verbosity::Silent);
        }
        _ => panic!("expected to create a macOS package"),
    }
}

fn use_plan_for_no_command() {
    assert!(matches!(plan(&CliArgs::default()), Plan::Interactive));
    match plan(&CliArgs { command: None, quiet: true, silent: false }) {
        Plan::Refuse(error) => assert_eq!(error.exit_code(), exit_codes::INVALID_ARGS),
        _ => panic!("expected a refusal"),
    }
    assert!(matches!(
        plan(&CliArgs { command: None, quiet: false, silent: true }),
        Plan::Refuse(PackageError::InvalidArgument { .. })
    ));
}

#[test]
fn requests_of_the_interactive_mode() {
    let files = vec!["setup.exe".to_string(), "Readme.txt".to_string(), "data.dll".to_string()];
    assert_eq!(
        setup_choices("/src", &files).unwrap(),
        vec!["Readme.txt".to_string(), "data.dll".to_string(), "setup.exe".to_string()]
    );
    match setup_choices("/src", &Vec::new()) {
        Err(PackageError::SourceFolderEmpty { path }) => assert_eq!(path, "/src"),
        _ => panic!("a folder without files is refused"),
    }
    assert!(scripts_missing(false, false));
    assert!(!scripts_missing(true, false));
    assert!(!scripts_missing(false, true));
    let request = intune_request("/s".to_string(), "a.exe".to_string(), "/o".to_string());
    assert_eq!(request.verbosity, Verbosity::Normal);
    assert_eq!(request.output_path(), "/o/a.intunewin");
    let request = macos_request(
        "/s".to_string(),
        "com.a.b".to_string(),
        "1.0".to_string(),
        "/o".to_string(),
        "/Applications".to_string(),
        Some("/scripts".to_string()),
    );
    assert_eq!(request.install_location, "/Applications");
    assert_eq!(request.scripts_folder, Some("/scripts".to_string()));
    assert_eq!(request.output_path(), "/o/com.a.b-1.0.pkg");
    assert_eq!(request.verbosity, Verbosity::Normal);
}
