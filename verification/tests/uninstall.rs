//! What is removed when the application is uninstalled.

use git_ai::commands::uninstall::{
    UninstallOptions, UninstallStep, cleanup_profile_lines, cleanup_search_path, completion_message, data_paths,
    hook_argument, managed_binary_paths, parse_uninstall_args, profile_message, removal_message,
    shell_profiles, step_warning, uninstall_steps, warns_of_running_program,
};
use git_ai::config::APP_DIR_NAME;

fn strings(args: &[&str]) -> Vec<String> {
    args.iter().map(|arg| (*arg).to_string()).collect()
}

#[test]
fn cleanup_profile_lines_only_removes_easylife_lines() {
    let home = "/home/me";
    let app_bin = format!("{}/{}/bin", home, APP_DIR_NAME);
    let profile = format!(
        "export PATH=\"/usr/local/bin:$PATH\"\nexport PATH=\"{}:$PATH\"\nexport EDITOR=vim\n",
        app_bin
    );

    let content = cleanup_profile_lines(&profile, home).unwrap();
    assert!(!content.contains(".easylife-ai"));
    assert!(content.contains("/usr/local/bin"));
    assert!(content.contains("EDITOR=vim"));
    assert_eq!(
        content,
        "export PATH=\"/usr/local/bin:$PATH\"\nexport EDITOR=vim\n"
    );
}

#[test]
fn cleanup_profile_lines_is_noop_for_missing_profile() {
    assert_eq!(cleanup_profile_lines("", "/home/me"), None);
    assert_eq!(cleanup_profile_lines("export EDITOR=vim\n", "/home/me"), None);
}

#[test]
fn profile_is_clean_after_cleaning() {
    let home = "/home/me";
    let line = format!("source {}/{}/bin/env", home, APP_DIR_NAME);
    let profile = format!("a\n{}\nb\n{}", line, line);
    let content = cleanup_profile_lines(&profile, home).unwrap();
    assert_eq!(content, "a\nb\n");
    assert_eq!(cleanup_profile_lines(&content, home), None);
}

#[test]
fn uninstall_arguments_are_read() {
    let o = parse_uninstall_args(&strings(&["--dry-run=true", "--purge"])).unwrap();
    assert!(o.dry_run && o.purge && !o.keep_config);
    let o = parse_uninstall_args(&strings(&["--dry-run", "--keep-config"])).unwrap();
    assert!(o.dry_run && !o.purge && o.keep_config);
    assert_eq!(
        parse_uninstall_args(&strings(&["--purge", "--force"])),
        Err("Usage: easylife-ai uninstall [--dry-run] [--keep-config] [--purge]".to_string())
    );
}

#[test]
fn keeping_the_configuration_wins_over_purging() {
    let app = format!("/home/me/{}", APP_DIR_NAME);
    let purge = UninstallOptions {
        dry_run: false,
        purge: true,
        keep_config: false,
    };
    let keep = UninstallOptions {
        keep_config: true,
        ..purge
    };
    let dry = UninstallOptions {
        dry_run: true,
        ..purge
    };
    assert_eq!(data_paths(purge, "/home/me"), vec![app.clone()]);
    assert_eq!(
        data_paths(keep, "/home/me"),
        vec![
            format!("{}/internal", app),
            format!("{}/tmp", app),
            format!("{}/skills", app)
        ]
    );
    assert_eq!(
        completion_message(purge).as_deref(),
        Some("easylife-ai uninstall completed. Configuration, data, and backups were removed.")
    );
    assert_eq!(
        completion_message(keep).as_deref(),
        Some("easylife-ai uninstall completed. Configuration, data, and backups were retained.")
    );
    assert_eq!(completion_message(dry), None);
}

#[test]
fn programs_and_profiles_stand_in_the_home_directory() {
    let bin = format!("/home/me/{}/bin", APP_DIR_NAME);
    assert_eq!(
        managed_binary_paths("/home/me"),
        vec![
            format!("{}/easylife-ai", bin),
            format!("{}/git", bin),
            format!("{}/git-og", bin),
            format!("{}/easylife-ai.exe", bin),
            format!("{}/git.exe", bin),
            format!("{}/git-og.cmd", bin),
            "/home/me/.local/bin/easylife-ai".to_string(),
        ]
    );
    assert_eq!(
        shell_profiles("/home/me"),
        strings(&[
            "/home/me/.bashrc",
            "/home/me/.bash_profile",
            "/home/me/.profile",
            "/home/me/.zshrc",
            "/home/me/.zshenv",
            "/home/me/.config/fish/config.fish"
        ])
    );
}

#[test]
fn search_path_loses_the_application_in_any_case() {
    let home = "/Home/Me";
    let entries = vec![
        "/usr/bin".to_string(),
        format!("/home/me/{}/BIN", APP_DIR_NAME),
        "/bin".to_string(),
    ];
    assert_eq!(
        cleanup_search_path(&entries, home),
        Some(strings(&["/usr/bin", "/bin"]))
    );
    assert_eq!(cleanup_search_path(&strings(&["/usr/bin"]), home), None);
}

#[test]
fn uninstall_messages() {
    assert_eq!(removal_message("/x", true), "Would remove /x");
    assert_eq!(removal_message("/x", false), "Removed /x");
    assert_eq!(
        profile_message("/x", true),
        "Would remove easylife-ai PATH lines from /x"
    );
    assert_eq!(
        profile_message("/x", false),
        "Removed easylife-ai PATH lines from /x"
    );
    assert_eq!(hook_argument(true), "--dry-run");
    assert_eq!(hook_argument(false), "--dry-run=false");
    assert!(warns_of_running_program(false, &Some("easylife-ai".to_string())));
    assert!(!warns_of_running_program(true, &Some("easylife-ai".to_string())));
    assert!(!warns_of_running_program(false, &Some("git".to_string())));
}

fn steps(options: UninstallOptions, home: Option<&str>, name: &str, windows: bool) -> Vec<String> {
    let home = home.map(str::to_owned);
    uninstall_steps(options, &home, &Some(name.to_string()), windows)
        .iter()
        .map(|step| match step {
            UninstallStep::Say(text) => format!("say {}", text),
            UninstallStep::StopService => "stop".to_string(),
            UninstallStep::RemoveHooks(argument) => format!("hooks {}", argument),
            UninstallStep::Remove(path) => format!("remove {}", path),
            UninstallStep::WouldRemove(path) => format!("would remove {}", path),
            UninstallStep::CleanProfile(path) => format!("clean {}", path),
            UninstallStep::WouldCleanProfile(path) => format!("would clean {}", path),
            UninstallStep::CleanSearchPath => "clean the search path".to_string(),
            UninstallStep::WouldCleanSearchPath => "would clean the search path".to_string(),
            UninstallStep::Fail(message) => format!("fail {}", message),
        })
        .collect()
}

#[test]
fn an_uninstallation_runs_in_order() {
    let purge = UninstallOptions {
        dry_run: false,
        purge: true,
        keep_config: false,
    };
    let app = format!("/home/me/{}", APP_DIR_NAME);
    let mut expected = strings(&[
        "stop",
        "say The currently running executable will be removed after this process exits.",
        "hooks --dry-run=false",
    ]);
    for path in managed_binary_paths("/home/me") {
        expected.push(format!("remove {}", path));
    }
    for path in shell_profiles("/home/me") {
        expected.push(format!("clean {}", path));
    }
    expected.push("clean the search path".to_string());
    expected.push(format!("remove {}", app));
    expected.push(
        "say easylife-ai uninstall completed. Configuration, data, and backups were removed."
            .to_string(),
    );
    assert_eq!(steps(purge, Some("/home/me"), "easylife-ai", true), expected);
}

#[test]
fn a_dry_run_changes_nothing() {
    let home = "/home/me";
    for (purge, keep_config) in [(false, false), (false, true), (true, false), (true, true)] {
        let dry = UninstallOptions {
            dry_run: true,
            purge,
            keep_config,
        };
        let mut expected = strings(&["say Dry-run: no changes will be made.", "hooks --dry-run"]);
        for path in managed_binary_paths(home) {
            expected.push(format!("would remove {}", path));
        }
        for path in shell_profiles(home) {
            expected.push(format!("would clean {}", path));
        }
        expected.push("would clean the search path".to_string());
        for path in data_paths(dry, home) {
            expected.push(format!("would remove {}", path));
        }
        assert_eq!(steps(dry, Some(home), "easylife-ai", true), expected);
    }
}

#[test]
fn nothing_goes_without_a_home_directory() {
    let options = UninstallOptions {
        dry_run: false,
        purge: false,
        keep_config: false,
    };
    assert_eq!(
        steps(options, None, "other", true),
        strings(&[
            "stop",
            "hooks --dry-run=false",
            "fail Could not determine application directory",
        ])
    );
}

#[test]
fn hooks_that_stay_do_not_end_an_uninstallation() {
    let hooks = UninstallStep::RemoveHooks("--dry-run".to_string());
    assert_eq!(
        step_warning(&hooks, "x").as_deref(),
        Some("Warning: failed to remove some hooks: x")
    );
    assert_eq!(
        step_warning(&UninstallStep::CleanSearchPath, "x").as_deref(),
        Some("Warning: failed to clean up the Windows user PATH: x")
    );
    assert_eq!(
        step_warning(&UninstallStep::WouldCleanSearchPath, "x").as_deref(),
        Some("Warning: failed to clean up the Windows user PATH: x")
    );
    assert_eq!(step_warning(&UninstallStep::Remove("/a".to_string()), "x"), None);
}
