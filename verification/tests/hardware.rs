use lx_monitor::hardware::{
    cpu_config_label, describe_distro, describe_gpu, exact_gpu_model, first_trimmed_or, get_os_release_value,
    gpu_name_from_lspci, lspci_output_is_readable, parse_device_id,
};
use lx_monitor::translations::{english, polish};

#[test]
fn known_models() {
    assert_eq!(exact_gpu_model(0x73ff).as_deref(), Some("AMD Radeon RX 6600"));
    assert_eq!(exact_gpu_model(0x744c).as_deref(), Some("AMD Radeon RX 7900 XTX"));
    assert_eq!(exact_gpu_model(0x6863).as_deref(), Some("AMD Radeon RX Vega 56"));
    assert_eq!(exact_gpu_model(0x1234), None);
}

#[test]
fn device_ids() {
    assert_eq!(parse_device_id("0x73ff\n"), Some(0x73ff));
    assert_eq!(parse_device_id("73FF"), Some(0x73ff));
    assert_eq!(parse_device_id("0x0x10"), Some(0x10));
    assert_eq!(parse_device_id("0x"), None);
    assert_eq!(parse_device_id("0x10000"), None);
    assert_eq!(parse_device_id("zz"), None);
}

const LSPCI: &str = "00:00.0 Host bridge [0600]: AMD Family 17h [1022:1480]\n0c:00.0 VGA compatible controller [0300]: Advanced Micro Devices, Inc. [AMD/ATI] Navi 23 [Radeon RX 6600/6600 XT/6600M] [1002:73ff] (rev c7)\n";

#[test]
fn lspci_known_device() {
    assert!(lspci_output_is_readable(LSPCI));
    assert_eq!(gpu_name_from_lspci(LSPCI).as_deref(), Some("AMD Radeon RX 6600"));
}

#[test]
fn lspci_bracket_fallback() {
    let out = "0c:00.0 VGA compatible controller [0300]: Vendor [Some Card] [1002:abcd]\n";
    assert_eq!(gpu_name_from_lspci(out).as_deref(), Some("0300]: Vendor [Some Card"));
    let listed = "0c:00.0 3D controller: Navi [Radeon X/Y] [1002:abcd]\n";
    assert_eq!(gpu_name_from_lspci(listed), None);
    let no_id = "0c:00.0 3D controller: Navi [Radeon X/Y] [10de:abcd]\n";
    assert_eq!(gpu_name_from_lspci(no_id).as_deref(), Some("Radeon X/Y"));
    assert_eq!(gpu_name_from_lspci("no display here\n"), None);
    let reversed = "0c:00.0 VGA ] [ x\n";
    assert!(!lspci_output_is_readable(reversed));
}

#[test]
fn gpu_descriptions() {
    let g = describe_gpu(false, None, None, None, None);
    assert_eq!(g.name, "Brak wykrytej karty");
    assert_eq!(g.driver, "Brak");
    let g = describe_gpu(true, Some("AMD Radeon RX 6800 XT\n"), Some("0x73bf\n"), None, Some(" 6.8.0 \n"));
    assert_eq!(g.name, "AMD Radeon RX 6800 XT");
    assert_eq!(g.driver, "amdgpu (6.8.0)");
    let g = describe_gpu(true, Some("Navi 21\n"), Some("0x73bf\n"), None, None);
    assert_eq!(g.name, "AMD Radeon RX 6900 XT");
    assert_eq!(g.driver, "amdgpu");
    let g = describe_gpu(true, Some("Navi 99"), None, None, None);
    assert_eq!(g.name, "Navi 99");
    let g = describe_gpu(true, None, None, Some(LSPCI), None);
    assert_eq!(g.name, "AMD Radeon RX 6600");
    let g = describe_gpu(true, None, None, None, None);
    assert_eq!(g.name, "AMD GPU");
}

#[test]
fn os_release_values() {
    let c = "NAME=\"Arch Linux\"\nPRETTY_NAME=\"Arch Linux\"\nID=arch\nVERSION=\"24.04 LTS (Noble)\"\n";
    assert_eq!(get_os_release_value(c, "PRETTY_NAME=").as_deref(), Some("Arch Linux"));
    assert_eq!(get_os_release_value(c, "VERSION_ID="), None);
    let d = describe_distro(Some(c), "Unknown");
    assert_eq!(d.name, "Arch Linux");
    assert_eq!(d.version, "24.04 LTS (Noble)");
    let d = describe_distro(Some("PRETTY_NAME=Debian\n"), "Nieznany");
    assert_eq!(d.name, "Debian");
    assert_eq!(d.version, "Nieznany");
    let d = describe_distro(None, "Unknown");
    assert_eq!(d.name, "Unknown");
    assert_eq!(d.version, "Unknown");
}

#[test]
fn board_and_bios() {
    assert_eq!(first_trimmed_or(Some("B550 AORUS\n"), Some("Gigabyte\n"), "Unknown"), "B550 AORUS");
    assert_eq!(first_trimmed_or(None, Some(" Gigabyte\n"), "Unknown"), "Gigabyte");
    assert_eq!(first_trimmed_or(None, None, "Unknown"), "Unknown");
}

#[test]
fn core_count_labels() {
    assert_eq!(cpu_config_label(16, &english()), "16 cores");
    assert_eq!(cpu_config_label(8, &polish()), "8 rdzeni");
}
