use nanite_clip::autostart::{
    selected_provider, sync_launch_at_login, AutostartCommand, AutostartEntry, LaunchAtLoginAction,
    SelectedLaunchAtLoginProvider, APPLICATION_COMMENT, APPLICATION_ICON_NAME, APPLICATION_NAME,
    AUTOSTART_DESKTOP_FILE_NAME,
};
use nanite_clip::config::{LaunchAtLoginConfig, LaunchAtLoginProvider};
use nanite_clip::platform::Platform;

#[test]
fn auto_provider_resolves_to_xdg_on_linux() {
    let config = LaunchAtLoginConfig {
        enabled: true,
        provider: LaunchAtLoginProvider::Auto,
    };

    assert_eq!(
        selected_provider(&config, Platform::Linux),
        SelectedLaunchAtLoginProvider::XdgAutostart
    );
    assert_eq!(
        selected_provider(&config, Platform::Windows),
        SelectedLaunchAtLoginProvider::WindowsStartupFolder
    );
    assert_eq!(
        selected_provider(&config, Platform::MacOs),
        SelectedLaunchAtLoginProvider::Unsupported(LaunchAtLoginProvider::Auto)
    );
}

#[test]
fn disabled_config_does_not_select_provider() {
    let config = LaunchAtLoginConfig {
        enabled: false,
        provider: LaunchAtLoginProvider::SystemdUser,
    };

    assert_eq!(
        selected_provider(&config, Platform::Linux),
        SelectedLaunchAtLoginProvider::Disabled
    );
}

#[test]
fn desktop_file_contents_include_expected_exec_line() {
    let entry = AutostartEntry {
        desktop_file_name: AUTOSTART_DESKTOP_FILE_NAME,
        application_name: APPLICATION_NAME,
        comment: APPLICATION_COMMENT,
        icon_name: APPLICATION_ICON_NAME,
        command: AutostartCommand {
            executable: "/tmp/nanite clip".to_string(),
            args: vec!["--example".to_string(), "value with spaces".to_string()],
        },
    };

    let contents = entry.desktop_file_contents();

    assert!(contents.contains("Name=nanite-clip"));
    assert!(contents.contains("Icon=nanite-clip"));
    assert!(contents.contains("StartupWMClass=nanite-clip"));
    assert!(
        contents.contains("Exec=\"/tmp/nanite clip\" --example \"value with spaces\""),
        "unexpected desktop file contents: {contents}"
    );
}

#[test]
fn systemd_provider_is_unsupported_for_sync() {
    let config = LaunchAtLoginConfig {
        enabled: true,
        provider: LaunchAtLoginProvider::SystemdUser,
    };
    assert_eq!(
        sync_launch_at_login(&config, Platform::Linux).unwrap_err(),
        "launch-at-login provider `systemd_user` is not supported on this platform yet"
    );
}

#[test]
fn sync_actions_follow_the_selected_provider() {
    let disabled = LaunchAtLoginConfig {
        enabled: false,
        provider: LaunchAtLoginProvider::Auto,
    };
    assert!(matches!(
        sync_launch_at_login(&disabled, Platform::Linux),
        Ok(LaunchAtLoginAction::UninstallAll)
    ));
    let registry = LaunchAtLoginConfig {
        enabled: true,
        provider: LaunchAtLoginProvider::WindowsRegistryRun,
    };
    assert!(matches!(
        sync_launch_at_login(&registry, Platform::Windows),
        Ok(LaunchAtLoginAction::InstallRegistryRun)
    ));
    let auto = LaunchAtLoginConfig {
        enabled: true,
        provider: LaunchAtLoginProvider::Auto,
    };
    assert!(matches!(
        sync_launch_at_login(&auto, Platform::Linux),
        Ok(LaunchAtLoginAction::InstallXdgAutostart)
    ));
}
