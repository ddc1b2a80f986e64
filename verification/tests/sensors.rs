use lx_monitor::sensors::{get_component_priority, get_localized_name, sort_by_priority, TemperatureHistory, HISTORY_LIMIT};
use lx_monitor::translations::{english, polish};

#[test]
fn priorities() {
    assert_eq!(get_component_priority("coretemp Package id 0"), 1);
    assert_eq!(get_component_priority("amdgpu edge"), 2);
    assert_eq!(get_component_priority("acpitz temp1"), 3);
    assert_eq!(get_component_priority(""), 3);
}

#[test]
fn sort_is_stable_and_cpu_first() {
    let labels: Vec<String> = ["acpitz temp1", "amdgpu edge", "coretemp Core 0", "nvme Composite", "coretemp Core 1", "amdgpu mem"]
        .iter()
        .map(|s| s.to_string())
        .collect();
    assert_eq!(sort_by_priority(&labels), vec![2, 4, 1, 5, 0, 3]);
    assert_eq!(sort_by_priority(&Vec::new()), Vec::<usize>::new());
}

#[test]
fn localized_names_english() {
    let en = english();
    assert_eq!(get_localized_name("gigabyte_wmi temp1", &en), "Motherboard - Northbridge");
    assert_eq!(get_localized_name("acpitz temp2", &en), "ACPI Thermal Zone 2");
    assert_eq!(get_localized_name("coretemp Core 3", &en), "CPU - Core 3");
    assert_eq!(get_localized_name("coretemp Package id 0", &en), "CPU - Package");
    assert_eq!(get_localized_name("amdgpu mem", &en), "Graphics Card - VRAM Memory");
    assert_eq!(get_localized_name("amdgpu junction", &en), "Graphics Card - Junction");
    assert_eq!(get_localized_name("amdgpu edge", &en), "Graphics Card - Edge");
    assert_eq!(get_localized_name("nvme Composite", &en), "nvme Composite");
    assert_eq!(get_localized_name("gigabyte_wmi temp1 ", &en), "gigabyte_wmi temp1 ");
}

#[test]
fn localized_names_polish() {
    let pl = polish();
    assert_eq!(get_localized_name("gigabyte_wmi temp6", &pl), "Płyta główna - Mostek południowy");
    assert_eq!(get_localized_name("coretemp Core 12", &pl), "Procesor - Rdzeń 12");
    assert_eq!(get_localized_name("amdgpu edge", &pl), "Karta graficzna - Krawędź");
}

#[test]
fn history_keeps_the_last_hundred() {
    let mut h: TemperatureHistory<u32> = TemperatureHistory::new();
    assert_eq!(h.len(), 0);
    for i in 0..250u32 {
        h.push(i);
        assert!(h.len() <= HISTORY_LIMIT);
    }
    assert_eq!(h.len(), 100);
    assert_eq!(h.samples()[0], 150);
    assert_eq!(h.samples()[99], 249);
}
