use herdr_federation::fleet::{run_fleet_command, FleetOutput};

fn run(args: &[&str]) -> FleetOutput {
    run_fleet_command(&args.iter().map(|arg| arg.to_string()).collect())
}

#[test]
fn unknown_commands_print_the_help_and_fail() {
    for args in [&[][..], &["bogus"][..], &["STATUS"][..], &["--json"][..]] {
        let output = run(args);
        assert_eq!(output.code, 2);
        assert!(output.stdout.starts_with("usage: herdr fleet <command> [options]\n\n"));
        assert!(output.stderr.is_empty());
    }
}

#[test]
fn help_is_a_command() {
    for name in ["help", "--help", "-h"] {
        let output = run(&[name]);
        assert_eq!(output.code, 0);
        assert_eq!(
            output.stdout.lines().last(),
            Some("Use 'herdr fleet <command> --help' for more information.")
        );
        assert_eq!(output.stdout.lines().count(), 9);
    }
}

#[test]
fn status_has_three_answers() {
    let plain = run(&["status"]);
    assert_eq!(plain.code, 0);
    assert_eq!(plain.stdout, "");
    assert_eq!(
        plain.stderr,
        "Federation fleet status is not yet available.\nTo see federation status, enable experimental.federation in your config.\n"
    );

    let json = run(&["status", "x", "--json"]);
    let value: serde_json::Value = serde_json::from_str(&json.stdout).unwrap();
    assert_eq!(value["status"], "unavailable");
    assert_eq!(value["message"], "federation status endpoint not yet implemented");
    assert_eq!(json.stderr, "");

    let help = run(&["status", "--json", "-h"]);
    assert!(help.stdout.starts_with("usage: herdr fleet status [--json]\n"));
    assert_eq!(help.stdout.lines().count(), 6);
    assert_eq!(help.code, 0);
}

#[test]
fn doctor_has_two_answers() {
    let plain = run(&["doctor", "--json"]);
    assert_eq!(plain.code, 0);
    assert!(plain.stderr.starts_with("Federation diagnostics are not yet available.\n"));
    assert_eq!(plain.stdout, "");

    let help = run(&["doctor", "--help"]);
    assert!(help.stdout.starts_with("usage: herdr fleet doctor\n"));
    assert_eq!(help.stdout.lines().count(), 4);
    assert_eq!(help.stderr, "");
}
