//! Starting the app at login: which mechanism the settings and the
//! platform select, and the texts the mechanisms are set up with (the XDG
//! desktop entry and the PowerShell scripts for the Windows startup folder
//! and registry).
use vstd::prelude::*;
use crate::config::{LaunchAtLoginConfig, LaunchAtLoginProvider, strings_view};
use crate::notifications::{powershell_single_quoted, ps_quoted};
use crate::platform::Platform;
use crate::text::{chars_of, owned};

verus! {

pub const AUTOSTART_DESKTOP_FILE_NAME: &'static str = "nanite-clip.desktop";
pub const AUTOSTART_SHORTCUT_FILE_NAME: &'static str = "nanite-clip.lnk";
pub const APPLICATION_NAME: &'static str = "nanite-clip";
pub const APPLICATION_COMMENT: &'static str = "PlanetSide 2 desktop companion for automatic and manual clip capture";
pub const APPLICATION_ICON_NAME: &'static str = "nanite-clip";
pub const WINDOWS_RUN_KEY_PATH: &'static str = "HKCU:\\Software\\Microsoft\\Windows\\CurrentVersion\\Run";
pub const WINDOWS_RUN_VALUE_NAME: &'static str = "nanite-clip";

/// The mechanism that starts the app at login.
#[derive(Debug, Clone, Copy, PartialEq, Eq, Structural)]
pub enum SelectedLaunchAtLoginProvider {
    Disabled,
    XdgAutostart,
    WindowsStartupFolder,
    WindowsRegistryRun,
    Unsupported(LaunchAtLoginProvider),
}

/// The mechanism the settings select on a platform: none when disabled;
/// `Auto` means the XDG autostart entry on Linux and the startup folder on
/// Windows; a mechanism of another platform, or systemd, is unsupported.
pub open spec fn provider_for(config: LaunchAtLoginConfig, platform: Platform) -> SelectedLaunchAtLoginProvider {
    if !config.enabled {
        SelectedLaunchAtLoginProvider::Disabled
    } else {
        match config.provider {
            LaunchAtLoginProvider::Auto => match platform {
                Platform::Linux => SelectedLaunchAtLoginProvider::XdgAutostart,
                Platform::Windows => SelectedLaunchAtLoginProvider::WindowsStartupFolder,
                Platform::MacOs | Platform::Other => SelectedLaunchAtLoginProvider::Unsupported(LaunchAtLoginProvider::Auto),
            },
            LaunchAtLoginProvider::XdgAutostart => if platform == Platform::Linux {
                SelectedLaunchAtLoginProvider::XdgAutostart
            } else {
                SelectedLaunchAtLoginProvider::Unsupported(LaunchAtLoginProvider::XdgAutostart)
            },
            LaunchAtLoginProvider::WindowsStartupFolder => if platform == Platform::Windows {
                SelectedLaunchAtLoginProvider::WindowsStartupFolder
            } else {
                SelectedLaunchAtLoginProvider::Unsupported(LaunchAtLoginProvider::WindowsStartupFolder)
            },
            LaunchAtLoginProvider::WindowsRegistryRun => if platform == Platform::Windows {
                SelectedLaunchAtLoginProvider::WindowsRegistryRun
            } else {
                SelectedLaunchAtLoginProvider::Unsupported(LaunchAtLoginProvider::WindowsRegistryRun)
            },
            LaunchAtLoginProvider::SystemdUser => SelectedLaunchAtLoginProvider::Unsupported(LaunchAtLoginProvider::SystemdUser),
        }
    }
}

pub fn selected_provider(config: &LaunchAtLoginConfig, platform: Platform) -> (r: SelectedLaunchAtLoginProvider)
    ensures
        r == provider_for(*config, platform),
{
    if !config.enabled {
        return SelectedLaunchAtLoginProvider::Disabled;
    }
    match config.provider {
        LaunchAtLoginProvider::Auto => match platform {
            Platform::Linux => SelectedLaunchAtLoginProvider::XdgAutostart,
            Platform::Windows => SelectedLaunchAtLoginProvider::WindowsStartupFolder,
            Platform::MacOs | Platform::Other => SelectedLaunchAtLoginProvider::Unsupported(LaunchAtLoginProvider::Auto),
        },
        LaunchAtLoginProvider::XdgAutostart => {
            if platform == Platform::Linux {
                SelectedLaunchAtLoginProvider::XdgAutostart
            } else {
                SelectedLaunchAtLoginProvider::Unsupported(LaunchAtLoginProvider::XdgAutostart)
            }
        },
        LaunchAtLoginProvider::WindowsStartupFolder => {
            if platform == Platform::Windows {
                SelectedLaunchAtLoginProvider::WindowsStartupFolder
            } else {
                SelectedLaunchAtLoginProvider::Unsupported(LaunchAtLoginProvider::WindowsStartupFolder)
            }
        },
        LaunchAtLoginProvider::WindowsRegistryRun => {
            if platform == Platform::Windows {
                SelectedLaunchAtLoginProvider::WindowsRegistryRun
            } else {
                SelectedLaunchAtLoginProvider::Unsupported(LaunchAtLoginProvider::WindowsRegistryRun)
            }
        },
        LaunchAtLoginProvider::SystemdUser => SelectedLaunchAtLoginProvider::Unsupported(LaunchAtLoginProvider::SystemdUser),
    }
}

pub open spec fn provider_name(provider: LaunchAtLoginProvider) -> Seq<char> {
    match provider {
        LaunchAtLoginProvider::Auto => "auto"@,
        LaunchAtLoginProvider::XdgAutostart => "xdg_autostart"@,
        LaunchAtLoginProvider::SystemdUser => "systemd_user"@,
        LaunchAtLoginProvider::WindowsStartupFolder => "windows_startup_folder"@,
        LaunchAtLoginProvider::WindowsRegistryRun => "windows_registry_run"@,
    }
}

/// The settings name of a mechanism.
pub fn provider_label(provider: LaunchAtLoginProvider) -> (r: &'static str)
    ensures
        r@ == provider_name(provider),
{
    match provider {
        LaunchAtLoginProvider::Auto => "auto",
        LaunchAtLoginProvider::XdgAutostart => "xdg_autostart",
        LaunchAtLoginProvider::SystemdUser => "systemd_user",
        LaunchAtLoginProvider::WindowsStartupFolder => "windows_startup_folder",
        LaunchAtLoginProvider::WindowsRegistryRun => "windows_registry_run",
    }
}

/// What to do so that starting at login matches the settings.
#[derive(Debug, Clone, Copy, PartialEq, Eq, Structural)]
pub enum LaunchAtLoginAction {
    /// Remove every entry this app may have made.
    UninstallAll,
    /// Write the XDG autostart desktop entry.
    InstallXdgAutostart,
    /// Create the shortcut in the Windows startup folder.
    InstallWindowsShortcut,
    /// Set the value under the registry's Run key.
    InstallRegistryRun,
}

pub open spec fn unsupported_provider_message(provider: LaunchAtLoginProvider) -> Seq<char> {
    "launch-at-login provider `"@ + provider_name(provider) + "` is not supported on this platform yet"@
}

/// What to do so that starting at login matches the settings, or why the
/// settings cannot be met on this platform.
pub fn sync_launch_at_login(config: &LaunchAtLoginConfig, platform: Platform) -> (r: Result<LaunchAtLoginAction, String>)
    ensures
        match provider_for(*config, platform) {
            SelectedLaunchAtLoginProvider::Disabled => r == Ok::<LaunchAtLoginAction, String>(LaunchAtLoginAction::UninstallAll),
            SelectedLaunchAtLoginProvider::XdgAutostart => r == Ok::<LaunchAtLoginAction, String>(LaunchAtLoginAction::InstallXdgAutostart),
            SelectedLaunchAtLoginProvider::WindowsStartupFolder => r == Ok::<LaunchAtLoginAction, String>(LaunchAtLoginAction::InstallWindowsShortcut),
            SelectedLaunchAtLoginProvider::WindowsRegistryRun => r == Ok::<LaunchAtLoginAction, String>(LaunchAtLoginAction::InstallRegistryRun),
            SelectedLaunchAtLoginProvider::Unsupported(p) => r matches Err(m) && m@ == unsupported_provider_message(p),
        },
{
    match selected_provider(config, platform) {
        SelectedLaunchAtLoginProvider::Disabled => Ok(LaunchAtLoginAction::UninstallAll),
        SelectedLaunchAtLoginProvider::XdgAutostart => Ok(LaunchAtLoginAction::InstallXdgAutostart),
        SelectedLaunchAtLoginProvider::WindowsStartupFolder => Ok(LaunchAtLoginAction::InstallWindowsShortcut),
        SelectedLaunchAtLoginProvider::WindowsRegistryRun => Ok(LaunchAtLoginAction::InstallRegistryRun),
        SelectedLaunchAtLoginProvider::Unsupported(p) => {
            let mut m = owned("launch-at-login provider `");
            m.push_str(provider_label(p));
            m.push_str("` is not supported on this platform yet");
            Err(m)
        },
    }
}

/// Characters that make a desktop-entry argument need quotes.
pub open spec fn needs_desktop_quotes(c: char) -> bool {
    c == ' ' || c == '\t' || c == '\n' || c == '"' || c == '\'' || c == '\\' || c == '$' || c == '`'
}

/// Characters escaped with `\` inside a quoted desktop-entry argument.
pub open spec fn desktop_escaped(c: char) -> bool {
    c == '"' || c == '\\' || c == '$' || c == '`'
}

pub open spec fn desktop_escape(s: Seq<char>) -> Seq<char>
    decreases s.len(),
{
    if s.len() == 0 {
        seq![]
    } else {
        desktop_escape(s.drop_last()) + (if desktop_escaped(s.last()) {
            seq!['\\', s.last()]
        } else {
            seq![s.last()]
        })
    }
}

/// An argument of a desktop entry's `Exec` line: as it is, unless it is
/// empty or holds a space, tab, newline, quote, backslash, `$` or backtick;
/// then in double quotes with `"`, `\`, `$` and backtick escaped.
pub open spec fn desktop_arg(s: Seq<char>) -> Seq<char> {
    if s.len() == 0 || (exists|i: int| 0 <= i < s.len() && needs_desktop_quotes(#[trigger] s[i])) {
        seq!['"'] + desktop_escape(s) + seq!['"']
    } else {
        s
    }
}

pub fn quote_desktop_exec_arg(value: &str) -> (r: String)
    ensures
        r@ == desktop_arg(value@),
{
    let v = chars_of(value);
    let mut needs = v.len() == 0;
    let mut i: usize = 0;
    while i < v.len()
        invariant
            i <= v.len(),
            needs <==> (v@.len() == 0 || exists|k: int| 0 <= k < i && needs_desktop_quotes(#[trigger] v@[k])),
        decreases v.len() - i,
    {
        let c = v[i];
        if c == ' ' || c == '\t' || c == '\n' || c == '"' || c == '\'' || c == '\\' || c == '$' || c == '`' {
            assert(needs_desktop_quotes(v@[i as int]));
            needs = true;
        }
        i = i + 1;
    }
    if !needs {
        return owned(value);
    }
    let mut out = String::new();
    out.push('"');
    let ghost head = out@;
    let mut j: usize = 0;
    while j < v.len()
        invariant
            j <= v.len(),
            head == seq!['"'],
            out@ == head + desktop_escape(v@.take(j as int)),
        decreases v.len() - j,
    {
        let c = v[j];
        if c == '"' || c == '\\' || c == '$' || c == '`' {
            out.push('\\');
            out.push(c);
        } else {
            out.push(c);
        }
        proof {
            let t = v@.take(j + 1);
            assert(t.drop_last() =~= v@.take(j as int));
            assert(t.last() == c);
            assert(out@ =~= head + desktop_escape(t));
        }
        j = j + 1;
    }
    out.push('"');
    assert(v@.take(v.len() as int) =~= v@);
    out
}

/// The command that starts the app.
#[derive(Debug)]
pub struct AutostartCommand {
    pub executable: String,
    pub args: Vec<String>,
}

/// `parts` joined by single spaces.
pub open spec fn joined(parts: Seq<Seq<char>>) -> Seq<char>
    decreases parts.len(),
{
    if parts.len() == 0 {
        seq![]
    } else if parts.len() == 1 {
        parts[0]
    } else {
        joined(parts.drop_last()) + " "@ + parts.last()
    }
}

/// A Windows command-line argument: in double quotes, `"` doubled.
pub open spec fn windows_arg(s: Seq<char>) -> Seq<char> {
    seq!['"'] + crate::text::replace_char(s, '"', seq!['"', '"']) + seq!['"']
}

pub fn quote_windows_arg(value: &str) -> (r: String)
    ensures
        r@ == windows_arg(value@),
{
    let v = chars_of(value);
    let mut out = String::new();
    out.push('"');
    let ghost head = out@;
    let mut j: usize = 0;
    while j < v.len()
        invariant
            j <= v.len(),
            head == seq!['"'],
            out@ == head + crate::text::replace_char(v@.take(j as int), '"', seq!['"', '"']),
        decreases v.len() - j,
    {
        let c = v[j];
        if c == '"' {
            out.push('"');
            out.push('"');
        } else {
            out.push(c);
        }
        proof {
            let t = v@.take(j + 1);
            assert(t.drop_last() =~= v@.take(j as int));
            assert(t.last() == c);
            assert(out@ =~= head + crate::text::replace_char(t, '"', seq!['"', '"']));
        }
        j = j + 1;
    }
    out.push('"');
    assert(v@.take(v.len() as int) =~= v@);
    out
}

impl AutostartCommand {
    /// The `Exec` value: the executable and its arguments, each quoted as a
    /// desktop entry needs, joined by spaces.
    pub fn render_exec(&self) -> (r: String)
        ensures
            r@ == joined(seq![desktop_arg(self.executable@)] + strings_view(self.args@).map_values(|a: Seq<char>| desktop_arg(a))),
    {
        let ghost parts = seq![desktop_arg(self.executable@)] + strings_view(self.args@).map_values(|a: Seq<char>| desktop_arg(a));
        let mut out = quote_desktop_exec_arg(self.executable.as_str());
        let mut i: usize = 0;
        assert(parts.take(1) =~= seq![desktop_arg(self.executable@)]);
        while i < self.args.len()
            invariant
                i <= self.args.len(),
                parts == seq![desktop_arg(self.executable@)] + strings_view(self.args@).map_values(|a: Seq<char>| desktop_arg(a)),
                out@ == joined(parts.take(i + 1)),
            decreases self.args.len() - i,
        {
            let q = quote_desktop_exec_arg(self.args[i].as_str());
            out.push_str(" ");
            out.push_str(q.as_str());
            proof {
                let t = parts.take(i + 2);
                assert(t.drop_last() =~= parts.take(i + 1));
                assert(t.last() == desktop_arg(self.args@[i as int]@));
            }
            i = i + 1;
        }
        assert(parts.take(self.args.len() + 1) =~= parts);
        out
    }

    /// The command line for the registry's Run key: every part in quotes.
    pub fn render_windows_command(&self) -> (r: String)
        ensures
            r@ == joined(seq![windows_arg(self.executable@)] + strings_view(self.args@).map_values(|a: Seq<char>| windows_arg(a))),
    {
        let ghost parts = seq![windows_arg(self.executable@)] + strings_view(self.args@).map_values(|a: Seq<char>| windows_arg(a));
        let mut out = quote_windows_arg(self.executable.as_str());
        let mut i: usize = 0;
        assert(parts.take(1) =~= seq![windows_arg(self.executable@)]);
        while i < self.args.len()
            invariant
                i <= self.args.len(),
                parts == seq![windows_arg(self.executable@)] + strings_view(self.args@).map_values(|a: Seq<char>| windows_arg(a)),
                out@ == joined(parts.take(i + 1)),
            decreases self.args.len() - i,
        {
            let q = quote_windows_arg(self.args[i].as_str());
            out.push_str(" ");
            out.push_str(q.as_str());
            proof {
                let t = parts.take(i + 2);
                assert(t.drop_last() =~= parts.take(i + 1));
                assert(t.last() == windows_arg(self.args@[i as int]@));
            }
            i = i + 1;
        }
        assert(parts.take(self.args.len() + 1) =~= parts);
        out
    }
}

/// A login entry for the app.
#[derive(Debug)]
pub struct AutostartEntry {
    pub desktop_file_name: &'static str,
    pub application_name: &'static str,
    pub comment: &'static str,
    pub icon_name: &'static str,
    pub command: AutostartCommand,
}

impl AutostartEntry {
    /// The entry for the executable at `executable`, started without
    /// arguments.
    pub fn for_executable(executable: String) -> (r: Self)
        ensures
            r.desktop_file_name@ == AUTOSTART_DESKTOP_FILE_NAME@,
            r.application_name@ == APPLICATION_NAME@,
            r.comment@ == APPLICATION_COMMENT@,
            r.icon_name@ == APPLICATION_ICON_NAME@,
            r.command.executable@ == executable@,
            r.command.args@.len() == 0,
    {
        AutostartEntry {
            desktop_file_name: AUTOSTART_DESKTOP_FILE_NAME,
            application_name: APPLICATION_NAME,
            comment: APPLICATION_COMMENT,
            icon_name: APPLICATION_ICON_NAME,
            command: AutostartCommand { executable, args: Vec::new() },
        }
    }

    /// The XDG desktop entry that starts the app.
    pub fn desktop_file_contents(&self) -> (r: String)
        ensures
            r@ == "[Desktop Entry]\n"@ + "Type=Application\n"@ + "Version=1.0\n"@ + "Name="@ + self.application_name@ + "\n"@
                + "Comment="@ + self.comment@ + "\n"@ + "Icon="@ + self.icon_name@ + "\n"@ + "Exec="@ + joined(
                seq![desktop_arg(self.command.executable@)] + strings_view(self.command.args@).map_values(|a: Seq<char>| desktop_arg(a)),
            ) + "\n"@ + "Terminal=false\n"@ + "StartupWMClass="@ + self.icon_name@ + "\n"@ + "X-GNOME-Autostart-enabled=true\n"@,
    {
        let exec = self.command.render_exec();
        let mut r = owned("[Desktop Entry]\n");
        r.push_str("Type=Application\n");
        r.push_str("Version=1.0\n");
        r.push_str("Name=");
        r.push_str(self.application_name);
        r.push_str("\n");
        r.push_str("Comment=");
        r.push_str(self.comment);
        r.push_str("\n");
        r.push_str("Icon=");
        r.push_str(self.icon_name);
        r.push_str("\n");
        r.push_str("Exec=");
        r.push_str(exec.as_str());
        r.push_str("\n");
        r.push_str("Terminal=false\n");
        r.push_str("StartupWMClass=");
        r.push_str(self.icon_name);
        r.push_str("\n");
        r.push_str("X-GNOME-Autostart-enabled=true\n");
        r
    }
}

/// The PowerShell script that creates a shortcut at `shortcut_path` to
/// `target_path`, working in `working_directory`.
pub fn windows_shortcut_script(shortcut_path: &str, target_path: &str, working_directory: Option<&str>) -> (r: String)
    ensures
        r@ == "$shell = New-Object -ComObject WScript.Shell;"@ + "$shortcut = $shell.CreateShortcut('"@ + ps_quoted(shortcut_path@)
            + "');"@ + "$shortcut.TargetPath = '"@ + ps_quoted(target_path@) + "';"@ + "$shortcut.WorkingDirectory = '"@
            + (match working_directory {
            Some(w) => ps_quoted(w@),
            None => Seq::<char>::empty(),
        }) + "';"@ + "$shortcut.IconLocation = '"@ + ps_quoted(target_path@) + ",0';"@ + "$shortcut.Save()"@,
{
    let sp = powershell_single_quoted(shortcut_path);
    let tp = powershell_single_quoted(target_path);
    let wd = match working_directory {
        Some(w) => powershell_single_quoted(w),
        None => String::new(),
    };
    let mut r = owned("$shell = New-Object -ComObject WScript.Shell;");
    r.push_str("$shortcut = $shell.CreateShortcut('");
    r.push_str(sp.as_str());
    r.push_str("');");
    r.push_str("$shortcut.TargetPath = '");
    r.push_str(tp.as_str());
    r.push_str("';");
    r.push_str("$shortcut.WorkingDirectory = '");
    r.push_str(wd.as_str());
    r.push_str("';");
    r.push_str("$shortcut.IconLocation = '");
    r.push_str(tp.as_str());
    r.push_str(",0';");
    r.push_str("$shortcut.Save()");
    r
}

/// The PowerShell script that sets the value `value_name` under `key_path`
/// to `command_line`, making the key when needed.
pub fn windows_registry_set_script(key_path: &str, value_name: &str, command_line: &str) -> (r: String)
    ensures
        r@ == "$key = '"@ + ps_quoted(key_path@) + "';"@ + "if (-not (Test-Path $key)) { New-Item -Path $key -Force | Out-Null };"@
            + "New-ItemProperty -Path $key -Name '"@ + ps_quoted(value_name@) + "' -Value '"@ + ps_quoted(command_line@)
            + "' -PropertyType String -Force | Out-Null"@,
{
    let k = powershell_single_quoted(key_path);
    let n = powershell_single_quoted(value_name);
    let c = powershell_single_quoted(command_line);
    let mut r = owned("$key = '");
    r.push_str(k.as_str());
    r.push_str("';");
    r.push_str("if (-not (Test-Path $key)) { New-Item -Path $key -Force | Out-Null };");
    r.push_str("New-ItemProperty -Path $key -Name '");
    r.push_str(n.as_str());
    r.push_str("' -Value '");
    r.push_str(c.as_str());
    r.push_str("' -PropertyType String -Force | Out-Null");
    r
}

/// The PowerShell script that removes the value `value_name` under
/// `key_path` when it is there.
pub fn windows_registry_remove_script(key_path: &str, value_name: &str) -> (r: String)
    ensures
        r@ == "$key = '"@ + ps_quoted(key_path@) + "';"@ + "if (Test-Path $key) {"@
            + "  $existing = Get-ItemProperty -Path $key -Name '"@ + ps_quoted(value_name@) + "' -ErrorAction SilentlyContinue;"@
            + "  if ($null -ne $existing) {"@ + "    Remove-ItemProperty -Path $key -Name '"@ + ps_quoted(value_name@)
            + "' -ErrorAction Stop | Out-Null;"@ + "  }"@ + "};"@ + "exit 0"@,
{
    let k = powershell_single_quoted(key_path);
    let n = powershell_single_quoted(value_name);
    let mut r = owned("$key = '");
    r.push_str(k.as_str());
    r.push_str("';");
    r.push_str("if (Test-Path $key) {");
    r.push_str("  $existing = Get-ItemProperty -Path $key -Name '");
    r.push_str(n.as_str());
    r.push_str("' -ErrorAction SilentlyContinue;");
    r.push_str("  if ($null -ne $existing) {");
    r.push_str("    Remove-ItemProperty -Path $key -Name '");
    r.push_str(n.as_str());
    r.push_str("' -ErrorAction Stop | Out-Null;");
    r.push_str("  }");
    r.push_str("};");
    r.push_str("exit 0");
    r
}

} // verus!
