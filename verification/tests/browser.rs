use css2mp4_core::browser::{
    default_chrome_candidates, find_default_chrome_path, style_probe_script, AnimationController,
    BrowserLauncher, HostOs,
};

#[test]
fn chrome_candidates_per_system() {
    assert_eq!(
        default_chrome_candidates(HostOs::Linux),
        vec!["/usr/bin/google-chrome", "/usr/bin/chromium-browser", "/usr/bin/chromium"]
    );
    assert_eq!(
        default_chrome_candidates(HostOs::MacOs),
        vec!["/Applications/Google Chrome.app/Contents/MacOS/Google Chrome"]
    );
    assert_eq!(default_chrome_candidates(HostOs::Windows).len(), 3);
    assert_eq!(
        default_chrome_candidates(HostOs::Windows)[0],
        "C:\\Program Files\\Google\\Chrome\\Application\\chrome.exe"
    );
    assert!(default_chrome_candidates(HostOs::Other).is_empty());
}

#[test]
fn first_present_candidate_is_chosen() {
    assert_eq!(
        find_default_chrome_path(HostOs::Linux, &vec![false, true, true]),
        Some("/usr/bin/chromium-browser".to_string())
    );
    assert_eq!(
        find_default_chrome_path(HostOs::Linux, &vec![true, true, true]),
        Some("/usr/bin/google-chrome".to_string())
    );
    assert_eq!(find_default_chrome_path(HostOs::Linux, &vec![false, false, false]), None);
    assert_eq!(find_default_chrome_path(HostOs::Linux, &vec![false]), None);
    assert_eq!(find_default_chrome_path(HostOs::Other, &vec![true]), None);
}

#[test]
fn configured_executable_wins() {
    assert_eq!(
        BrowserLauncher::chrome_executable(Some("/opt/chrome".to_string()), HostOs::Linux, &vec![true]),
        Some("/opt/chrome".to_string())
    );
    assert_eq!(
        BrowserLauncher::chrome_executable(None, HostOs::Linux, &vec![false, false, true]),
        Some("/usr/bin/chromium".to_string())
    );
    assert_eq!(BrowserLauncher::chrome_executable(None, HostOs::MacOs, &vec![]), None);
}

#[test]
fn launch_switches() {
    assert_eq!(
        BrowserLauncher::launch_args(),
        vec![
            "--hide-scrollbars",
            "--disable-background-timer-throttling",
            "--disable-renderer-backgrounding",
            "--force-device-scale-factor=1",
        ]
    );
}

#[test]
fn started_animations_are_recorded_once() {
    let mut ids: Vec<String> = Vec::new();
    assert!(!AnimationController::needs_seek(&ids));
    AnimationController::record_started(&mut ids, "a1".to_string());
    AnimationController::record_started(&mut ids, "b2".to_string());
    AnimationController::record_started(&mut ids, "a1".to_string());
    assert_eq!(ids, vec!["a1".to_string(), "b2".to_string()]);
    assert!(AnimationController::needs_seek(&ids));
}

#[test]
fn probe_script_embeds_quoted_selector() {
    let script = style_probe_script("#target");
    assert!(script.starts_with("(() => {\n            const el = document.querySelector(\"#target\");\n"));
    assert!(script.ends_with("        })()"));
    assert!(script.contains("const matrix = new DOMMatrixReadOnly(transform);"));
    let tricky = style_probe_script("a[title=\"x\"]\\b");
    assert!(tricky.contains("document.querySelector(\"a[title=\\\"x\\\"]\\\\b\");"));
}

#[test]
fn probe_script_escapes_control_characters() {
    let script = style_probe_script("a\nb\tc\u{1}d\u{1f}é");
    assert!(script.contains("document.querySelector(\"a\\nb\\tc\\u0001d\\u001fé\");"));
}

#[test]
fn probe_script_keeps_zero_opacity() {
    let script = style_probe_script("#t");
    assert!(script.contains("const parsed = parseFloat(style.opacity);"));
    assert!(script.contains("const opacity = Number.isNaN(parsed) ? 1.0 : parsed;"));
    assert!(!script.contains("|| 1.0"));
}
