use lx_monitor::display::{display_process_name, gauge_info, gpu_load_level, LoadLevel};
use lx_monitor::translations::{english, get_translations, is_polish, is_polish_locale, polish};

#[test]
fn language_from_locale() {
    assert_eq!(get_translations("pl_PL.UTF-8"), polish());
    assert_eq!(get_translations("PL_PL.UTF-8"), polish());
    assert_eq!(get_translations("en_US.UTF-8"), english());
    assert_eq!(get_translations(""), english());
    assert!(is_polish_locale("pl"));
    assert!(!is_polish_locale("PL"));
    assert_eq!(get_translations("en_US.UTF-8").title, "Hardware Monitor");
    assert_eq!(get_translations("pl_PL").title, "Monitor Sprzętowy");
}

#[test]
fn polish_texts_are_marked() {
    assert!(is_polish(&polish()));
    assert!(!is_polish(&english()));
}

#[test]
fn process_names_are_shortened() {
    assert_eq!(display_process_name("bash"), "bash");
    let exact = "a".repeat(35);
    assert_eq!(display_process_name(&exact), exact);
    let long = "abcdefghijklmnopqrstuvwxyz0123456789";
    assert_eq!(display_process_name(long), "abcdefghijklmnopqrstuvwxyz012345...");
    let shown = display_process_name(&"ż".repeat(20));
    assert_eq!(shown, format!("{}...", "ż".repeat(16)));
    assert!(shown.len() <= 35);
}

#[test]
fn gauge_texts() {
    assert_eq!(gauge_info("RAM", 3600, 8000, 16000), "3600 MHz\nRAM: 8000 / 16000 MB");
    assert_eq!(gauge_info("VRAM", 0, 512, 0), "0 MHz\nVRAM: 512 MB");
}

#[test]
fn gpu_levels() {
    assert_eq!(gpu_load_level(81), LoadLevel::High);
    assert_eq!(gpu_load_level(80), LoadLevel::Medium);
    assert_eq!(gpu_load_level(51), LoadLevel::Medium);
    assert_eq!(gpu_load_level(50), LoadLevel::Low);
    assert_eq!(gpu_load_level(0), LoadLevel::Low);
}
