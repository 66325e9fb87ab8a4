//! Chrome geometry, colors, settings and shells on concrete values.

use rust_terminal::chrome::{
    caption_button, caption_xs, close_box, hit, maximized_bounds, menu_hit, menu_rect, nc_hit,
    newtab_x, tab_x, CaptionBtn, Hit, NcHit, Rect,
};
use rust_terminal::colors::{rgb, xterm256, ANSI16, DEFAULT_BG, DEFAULT_FG, SEL_BG, SEL_FG};
use rust_terminal::config::{Config, Hive, ACCENT_DEFAULT};
use rust_terminal::shells::{
    available_shells, home_dir, new_tab_shell, shell_choices, shell_label, shell_or_fallback,
    startup_shells, system32_path, ShellChoice,
};
use rust_terminal::spike::{count, input_ok, printable, probe_command, verdict, verdict_on};

#[test]
fn colors_are_colorrefs() {
    assert_eq!(rgb(1, 2, 3), 0x0003_0201);
    assert_eq!(rgb(255, 255, 255), SEL_FG);
    assert_eq!(DEFAULT_FG, ANSI16[7]);
    assert_eq!(DEFAULT_BG, rgb(18, 18, 18));
    assert_eq!(SEL_BG, rgb(38, 79, 120));
}

#[test]
fn palette_of_256() {
    for i in 0..16u8 {
        assert_eq!(xterm256(i), ANSI16[i as usize]);
    }
    assert_eq!(xterm256(16), rgb(0, 0, 0));
    assert_eq!(xterm256(17), rgb(0, 0, 95));
    assert_eq!(xterm256(196), rgb(255, 0, 0));
    assert_eq!(xterm256(231), rgb(255, 255, 255));
    assert_eq!(xterm256(232), rgb(8, 8, 8));
    assert_eq!(xterm256(255), rgb(238, 238, 238));
    for i in 0..=255u8 {
        assert!(xterm256(i) <= 0x00ff_ffff);
    }
}

#[test]
fn strip_geometry() {
    assert_eq!(caption_xs(960), (822, 868, 914));
    assert_eq!(tab_x(3), 600);
    assert_eq!(newtab_x(2), 404);
    assert_eq!(close_box(1), (368, 6, 392, 30));
}

#[test]
fn strip_hits() {
    let at = |x, y| hit(2, 960, x, y);
    assert_eq!(at(5, 36), Hit::Terminal);
    assert_eq!(at(950, 500), Hit::Terminal);
    assert_eq!(at(0, 0), Hit::Tab(0));
    assert_eq!(at(199, 20), Hit::Tab(0));
    assert_eq!(at(200, 20), Hit::Tab(1));
    assert_eq!(at(168, 6), Hit::Close(0));
    assert_eq!(at(191, 29), Hit::Close(0));
    assert_eq!(at(192, 29), Hit::Tab(0));
    assert_eq!(at(168, 30), Hit::Tab(0));
    assert_eq!(at(380, 18), Hit::Close(1));
    assert_eq!(at(400, 18), Hit::Drag);
    assert_eq!(at(404, 18), Hit::NewTab);
    assert_eq!(at(433, 18), Hit::NewTab);
    assert_eq!(at(434, 18), Hit::Drag);
    assert_eq!(at(821, 18), Hit::Drag);
    assert_eq!(at(822, 18), Hit::Minimize);
    assert_eq!(at(868, 18), Hit::Maximize);
    assert_eq!(at(914, 18), Hit::WindowClose);
    assert_eq!(at(5000, 18), Hit::WindowClose);
    assert_eq!(at(-1, 18), Hit::Drag);
    assert_eq!(hit(9, 960, 900, 18), Hit::Maximize);
    assert_eq!(hit(0, 960, 4, 18), Hit::NewTab);
}

#[test]
fn border_resizes() {
    let at = |x, y| nc_hit(1, 960, 600, x, y);
    assert_eq!(at(0, 0), NcHit::TopLeft);
    assert_eq!(at(955, 3), NcHit::TopRight);
    assert_eq!(at(5, 594), NcHit::BottomLeft);
    assert_eq!(at(954, 599), NcHit::BottomRight);
    assert_eq!(at(5, 300), NcHit::Left);
    assert_eq!(at(954, 300), NcHit::Right);
    assert_eq!(at(300, 5), NcHit::Top);
    assert_eq!(at(300, 594), NcHit::Bottom);
    assert_eq!(at(6, 6), NcHit::Client);
    assert_eq!(at(500, 20), NcHit::Caption);
    assert_eq!(at(830, 20), NcHit::MinButton);
    assert_eq!(at(880, 20), NcHit::MaxButton);
    assert_eq!(at(930, 20), NcHit::Close);
    assert_eq!(at(300, 300), NcHit::Client);
    assert_eq!(caption_button(NcHit::MinButton), Some(CaptionBtn::Min));
    assert_eq!(caption_button(NcHit::MaxButton), Some(CaptionBtn::Max));
    assert_eq!(caption_button(NcHit::Close), Some(CaptionBtn::Close));
    assert_eq!(caption_button(NcHit::Caption), None);
}

#[test]
fn menu_layout() {
    let r = menu_rect(1, 3, 960);
    assert_eq!(r, Rect { left: 204, top: 36, right: 404, bottom: 134 });
    assert_eq!(menu_rect(4, 1, 960).left, 760);
    assert_eq!(menu_rect(4, 1, 100).left, 0);
    for i in 0..3 {
        let y = 40 + 30 * i;
        assert_eq!(menu_hit(1, 3, 960, 204, y), Some(i as usize));
        assert_eq!(menu_hit(1, 3, 960, 403, y + 29), Some(i as usize));
    }
    assert_eq!(menu_hit(1, 3, 960, 203, 50), None);
    assert_eq!(menu_hit(1, 3, 960, 404, 50), None);
    assert_eq!(menu_hit(1, 3, 960, 300, 39), None);
    assert_eq!(menu_hit(1, 3, 960, 300, 130), None);
}

#[test]
fn maximized_over_the_work_area() {
    let monitor = Rect { left: 1920, top: 0, right: 3840, bottom: 1080 };
    let work = Rect { left: 1920, top: 40, right: 3840, bottom: 1080 };
    assert_eq!(maximized_bounds(work, monitor), (0, 40, 1920, 1040));
}

fn no_values() -> Hive {
    Hive { accent: None, shell: None, font_face: None, font_size: None, scrollback: None }
}

#[test]
fn default_settings() {
    let c = Config::load(&no_values(), &no_values(), None);
    assert_eq!(c.accent, ACCENT_DEFAULT);
    assert_eq!(c.accent, 180 << 16 | 90 << 8 | 230);
    assert_eq!(c.shell, "powershell.exe");
    assert_eq!(c.font_face, "Consolas");
    assert_eq!((c.font_px, c.scrollback), (16, 5000));
    assert_eq!(Config::default().shell, "powershell.exe");
}

#[test]
fn user_settings_over_machine_settings() {
    let machine = Hive {
        accent: Some(0xff11_2233),
        shell: Some("cmd.exe".to_string()),
        font_face: Some("Lucida Console".to_string()),
        font_size: Some(20),
        scrollback: Some(10),
    };
    let user = Hive { shell: Some("pwsh.exe".to_string()), font_size: Some(12), ..no_values() };
    let c = Config::load(&machine, &user, Some(0xff00_0001));
    assert_eq!(c.accent, 0x0011_2233);
    assert_eq!(c.shell, "pwsh.exe");
    assert_eq!(c.font_face, "Lucida Console");
    assert_eq!((c.font_px, c.scrollback), (12, 10));
    let c = Config::load(&no_values(), &no_values(), Some(0xff00_0001));
    assert_eq!(c.accent, 1);
    let c = Config::load(&no_values(), &Hive { accent: Some(7), ..no_values() }, Some(1));
    assert_eq!(c.accent, 7);
}

#[test]
fn settings_are_kept_in_range() {
    let odd = |size, lines| Hive { font_size: Some(size), scrollback: Some(lines), ..no_values() };
    let c = Config::load(&odd(3, 0), &no_values(), None);
    assert_eq!((c.font_px, c.scrollback), (8, 0));
    let c = Config::load(&odd(100, 100_001), &no_values(), None);
    assert_eq!((c.font_px, c.scrollback), (48, 100_000));
    let c = Config::load(&odd(u32::MAX, u32::MAX), &no_values(), None);
    assert_eq!((c.font_px, c.scrollback), (8, 100_000));
    let blank = Hive {
        shell: Some("  ".to_string()),
        font_face: Some(String::new()),
        ..no_values()
    };
    let c = Config::load(&no_values(), &blank, None);
    assert_eq!((c.shell.as_str(), c.font_face.as_str()), ("powershell.exe", "Consolas"));
    let padded = Hive { shell: Some(" cmd ".to_string()), ..no_values() };
    assert_eq!(Config::load(&padded, &no_values(), None).shell, " cmd ");
}

#[test]
fn shell_names() {
    assert_eq!(shell_label("C:\\Windows\\POWERSHELL.EXE -NoLogo"), "PowerShell");
    assert_eq!(shell_label("pwsh.exe"), "PowerShell");
    assert_eq!(shell_label("CMD"), "Command Prompt");
    assert_eq!(shell_label("bash"), "Shell");
}

fn offered(v: &[ShellChoice]) -> Vec<(&str, &str)> {
    v.iter().map(|c| (c.label.as_str(), c.cmd.as_str())).collect()
}

#[test]
fn shells_on_offer() {
    let v = available_shells("powershell.exe", true, true, true);
    assert_eq!(
        offered(&v),
        vec![
            ("PowerShell", "powershell.exe"),
            ("Command Prompt", "cmd.exe"),
            ("PowerShell 7", "pwsh.exe")
        ]
    );
    let v = available_shells(" Bash.exe -l ", false, true, false);
    assert_eq!(offered(&v), vec![("Shell", "Bash.exe -l"), ("Command Prompt", "cmd.exe")]);
    let v = available_shells("CMD.EXE", false, false, false);
    assert_eq!(offered(&v), vec![("Command Prompt", "cmd.exe")]);
    let v = available_shells("   ", false, false, true);
    assert_eq!(offered(&v), vec![("PowerShell 7", "pwsh.exe")]);
    let v = available_shells("cmd.exe /k x", false, false, false);
    assert_eq!(offered(&v), vec![("Command Prompt", "cmd.exe /k x")]);
    let v = shell_choices("X", "x", true, false, false);
    assert_eq!(offered(&v), vec![("Shell", "X"), ("PowerShell", "powershell.exe")]);
}

#[test]
fn shells_at_startup_and_in_new_tabs() {
    assert_eq!(startup_shells(true), vec!["powershell.exe", "cmd.exe"]);
    assert_eq!(startup_shells(false), vec!["cmd.exe"]);
    assert_eq!(new_tab_shell("PowerShell.exe", false), "cmd.exe");
    assert_eq!(new_tab_shell("PowerShell.exe", true), "PowerShell.exe");
    assert_eq!(new_tab_shell("bash", false), "bash");
    assert_eq!(shell_or_fallback("P", "powershell", false), "cmd.exe");
}

#[test]
fn paths() {
    assert_eq!(system32_path("C:\\Windows", "cmd.exe"), "C:\\Windows\\System32\\cmd.exe");
    assert_eq!(home_dir(Some("C:\\U".to_string()), true), Some("C:\\U".to_string()));
    assert_eq!(home_dir(Some("C:\\U".to_string()), false), None);
    assert_eq!(home_dir(None, true), None);
}

#[test]
fn printable_output() {
    assert_eq!(printable(b"a\x1b[31mb\r\nc\x7f\xc2\x85d\xff"), "a[31mb\ncd\u{fffd}");
    for u in 0..0x200u32 {
        let c = char::from_u32(u).unwrap();
        let shown = printable(c.to_string().as_bytes());
        assert_eq!(shown.is_empty(), c.is_control() && c != '\n');
    }
}

#[test]
fn marker_hits() {
    assert_eq!(count("aXbXc", "X"), 2);
    assert_eq!(count("aaaa", "aa"), 2);
    assert_eq!(count("aaa", "aaaa"), 0);
    assert!(input_ok(1, 121));
    assert!(!input_ok(0, 121));
    assert!(!input_ok(1, 120));
    assert_eq!(probe_command(), "echo CONSOLE_INPUT_OK\r");
}

#[test]
fn verdict_of_a_probe() {
    assert_eq!(
        verdict(b"hi\x07\n", "WAIT_EVENT(258)"),
        "ConPTY spike verdict\n---------------------\noutput bytes captured : 4\nmarker \
         `CONSOLE_INPUT_OK` hits : 0\nWaitForSingleObject    : WAIT_EVENT(258)  (WAIT_OBJECT_0 => \
         child exited)\nINTERACTIVE INPUT      : NOT delivered\n\n---- captured (printable) \
         ----\nhi\n\n"
    );
    let v = verdict_on(1000, "w", "CONSOLE_INPUT_OK CONSOLE_INPUT_OK");
    assert!(v.contains("captured : 1000\n"));
    assert!(v.contains("hits : 2\n"));
    assert!(v.contains(": WORKS\n"));
}
