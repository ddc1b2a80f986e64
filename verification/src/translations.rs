use vstd::prelude::*;

use crate::text::{chars_of, contains_span, lowercase, span_equals};
use crate::text;

verus! {

/// The texts of the user interface in one language.
#[derive(Clone, Copy, Debug, PartialEq, Eq)]
pub struct Translations {
    pub title: &'static str,
    pub gpu_load: &'static str,
    pub cpu_load: &'static str,
    pub cannot_read_gpu: &'static str,
    pub temperatures_tab: &'static str,
    pub hardware_tab: &'static str,
    pub processes_tab: &'static str,
    pub autostart_tab: &'static str,
    pub autostart_name: &'static str,
    pub autostart_command: &'static str,
    pub autostart_location: &'static str,
    pub autostart_status: &'static str,
    pub autostart_running: &'static str,
    pub autostart_not_running: &'static str,
    pub no_autostart: &'static str,
    pub process_name: &'static str,
    pub process_pid: &'static str,
    pub process_cpu: &'static str,
    pub process_memory: &'static str,
    pub no_processes: &'static str,
    pub component: &'static str,
    pub current: &'static str,
    pub maximum: &'static str,
    pub average: &'static str,
    pub no_sensors: &'static str,
    pub hardware_info: &'static str,
    pub os: &'static str,
    pub distribution: &'static str,
    pub version: &'static str,
    pub kernel_version: &'static str,
    pub architecture: &'static str,
    pub processor: &'static str,
    pub cpu_config: &'static str,
    pub motherboard: &'static str,
    pub bios: &'static str,
    pub graphics_card: &'static str,
    pub gpu_driver: &'static str,
    pub ram_total: &'static str,
    pub ram_used: &'static str,
    pub refresh_data: &'static str,
    pub reset_stats: &'static str,
    pub last_update_prefix: &'static str,
    pub last_update_suffix: &'static str,
    pub unknown: &'static str,
    pub gpu_clock: &'static str,
    pub vram_used: &'static str,
}

/// The English texts.
pub open spec fn english_text() -> Translations {
    Translations {
        title: "Hardware Monitor",
        gpu_load: "GPU Load",
        cpu_load: "CPU Load",
        cannot_read_gpu: "Cannot read GPU load",
        temperatures_tab: "Temperatures",
        hardware_tab: "Hardware",
        processes_tab: "Processes",
        autostart_tab: "Autostart",
        autostart_name: "Name",
        autostart_command: "Command",
        autostart_location: "Location",
        autostart_status: "Status",
        autostart_running: "Running",
        autostart_not_running: "Not running",
        no_autostart: "No autostart programs found",
        process_name: "Name",
        process_pid: "PID",
        process_cpu: "CPU %",
        process_memory: "Memory",
        no_processes: "No processes available",
        component: "Component",
        current: "Current",
        maximum: "Maximum",
        average: "Average",
        no_sensors: "No temperature sensors available",
        hardware_info: "Hardware Information",
        os: "Operating System",
        distribution: "Distribution",
        version: "Version",
        kernel_version: "Kernel Version",
        architecture: "Architecture",
        processor: "Processor",
        cpu_config: "CPU Configuration",
        motherboard: "Motherboard",
        bios: "BIOS",
        graphics_card: "Graphics Card",
        gpu_driver: "GPU Driver",
        ram_total: "RAM (Total)",
        ram_used: "RAM (Used)",
        refresh_data: "Refresh Data",
        reset_stats: "Reset Statistics",
        last_update_prefix: "Last update: ",
        last_update_suffix: "s ago",
        unknown: "Unknown",
        gpu_clock: "GPU Clock",
        vram_used: "VRAM Usage",
    }
}

/// The Polish texts.
pub open spec fn polish_text() -> Translations {
    Translations {
        title: "Monitor Sprzętowy",
        gpu_load: "Obciążenie Karty Graficznej",
        cpu_load: "Obciążenie Procesora",
        cannot_read_gpu: "Nie można odczytać obciążenia GPU",
        temperatures_tab: "Temperatury",
        hardware_tab: "Sprzęt",
        processes_tab: "Procesy",
        autostart_tab: "Autostart",
        autostart_name: "Nazwa",
        autostart_command: "Komenda",
        autostart_location: "Lokalizacja",
        autostart_status: "Status",
        autostart_running: "Uruchomiony",
        autostart_not_running: "Nie uruchomiony",
        no_autostart: "Brak programów autostartu",
        process_name: "Nazwa",
        process_pid: "PID",
        process_cpu: "CPU %",
        process_memory: "Pamięć",
        no_processes: "Brak dostępnych procesów",
        component: "Czujnik",
        current: "Aktualna",
        maximum: "Maksymalna",
        average: "Średnia",
        no_sensors: "Brak dostępnych czujników temperatury",
        hardware_info: "Informacje o Sprzęcie",
        os: "System operacyjny",
        distribution: "Dystrybucja",
        version: "Wersja",
        kernel_version: "Wersja jądra",
        architecture: "Architektura",
        processor: "Procesor",
        cpu_config: "Konfiguracja CPU",
        motherboard: "Płyta główna",
        bios: "BIOS",
        graphics_card: "Karta graficzna",
        gpu_driver: "Sterownik GPU",
        ram_total: "Pamięć RAM (całkowita)",
        ram_used: "Pamięć RAM (używana)",
        refresh_data: "Odśwież dane",
        reset_stats: "Resetuj statystyki",
        last_update_prefix: "Ostatnia aktualizacja: ",
        last_update_suffix: "s temu",
        unknown: "Nieznany",
        gpu_clock: "Taktowanie GPU",
        vram_used: "Zużycie VRAM",
    }
}

/// The English texts.
pub fn english() -> (t: Translations)
    ensures
        t == english_text(),
{
    Translations {
        title: "Hardware Monitor",
        gpu_load: "GPU Load",
        cpu_load: "CPU Load",
        cannot_read_gpu: "Cannot read GPU load",
        temperatures_tab: "Temperatures",
        hardware_tab: "Hardware",
        processes_tab: "Processes",
        autostart_tab: "Autostart",
        autostart_name: "Name",
        autostart_command: "Command",
        autostart_location: "Location",
        autostart_status: "Status",
        autostart_running: "Running",
        autostart_not_running: "Not running",
        no_autostart: "No autostart programs found",
        process_name: "Name",
        process_pid: "PID",
        process_cpu: "CPU %",
        process_memory: "Memory",
        no_processes: "No processes available",
        component: "Component",
        current: "Current",
        maximum: "Maximum",
        average: "Average",
        no_sensors: "No temperature sensors available",
        hardware_info: "Hardware Information",
        os: "Operating System",
        distribution: "Distribution",
        version: "Version",
        kernel_version: "Kernel Version",
        architecture: "Architecture",
        processor: "Processor",
        cpu_config: "CPU Configuration",
        motherboard: "Motherboard",
        bios: "BIOS",
        graphics_card: "Graphics Card",
        gpu_driver: "GPU Driver",
        ram_total: "RAM (Total)",
        ram_used: "RAM (Used)",
        refresh_data: "Refresh Data",
        reset_stats: "Reset Statistics",
        last_update_prefix: "Last update: ",
        last_update_suffix: "s ago",
        unknown: "Unknown",
        gpu_clock: "GPU Clock",
        vram_used: "VRAM Usage",
    }
}

/// The Polish texts.
pub fn polish() -> (t: Translations)
    ensures
        t == polish_text(),
{
    Translations {
        title: "Monitor Sprzętowy",
        gpu_load: "Obciążenie Karty Graficznej",
        cpu_load: "Obciążenie Procesora",
        cannot_read_gpu: "Nie można odczytać obciążenia GPU",
        temperatures_tab: "Temperatury",
        hardware_tab: "Sprzęt",
        processes_tab: "Procesy",
        autostart_tab: "Autostart",
        autostart_name: "Nazwa",
        autostart_command: "Komenda",
        autostart_location: "Lokalizacja",
        autostart_status: "Status",
        autostart_running: "Uruchomiony",
        autostart_not_running: "Nie uruchomiony",
        no_autostart: "Brak programów autostartu",
        process_name: "Nazwa",
        process_pid: "PID",
        process_cpu: "CPU %",
        process_memory: "Pamięć",
        no_processes: "Brak dostępnych procesów",
        component: "Czujnik",
        current: "Aktualna",
        maximum: "Maksymalna",
        average: "Średnia",
        no_sensors: "Brak dostępnych czujników temperatury",
        hardware_info: "Informacje o Sprzęcie",
        os: "System operacyjny",
        distribution: "Dystrybucja",
        version: "Wersja",
        kernel_version: "Wersja jądra",
        architecture: "Architektura",
        processor: "Procesor",
        cpu_config: "Konfiguracja CPU",
        motherboard: "Płyta główna",
        bios: "BIOS",
        graphics_card: "Karta graficzna",
        gpu_driver: "Sterownik GPU",
        ram_total: "Pamięć RAM (całkowita)",
        ram_used: "Pamięć RAM (używana)",
        refresh_data: "Odśwież dane",
        reset_stats: "Resetuj statystyki",
        last_update_prefix: "Ostatnia aktualizacja: ",
        last_update_suffix: "s temu",
        unknown: "Nieznany",
        gpu_clock: "Taktowanie GPU",
        vram_used: "Zużycie VRAM",
    }
}

/// The texts for the locale `lang`: Polish when the lower-cased locale
/// contains `pl`, English otherwise.
pub open spec fn translations_for(lang: Seq<char>) -> Translations {
    if text::contains(text::lowercase_of(lang), "pl"@) {
        polish_text()
    } else {
        english_text()
    }
}

/// The Polish texts are chosen exactly for a locale whose lower-case form
/// has a `p` directly followed by an `l` somewhere; any other locale gets
/// the English texts.
pub proof fn lemma_polish_exactly_for_pl(lang: Seq<char>)
    ensures
        translations_for(lang) == polish_text() <==> exists|i: int|
            0 <= i && i + 1 < text::lowercase_of(lang).len() && #[trigger] text::lowercase_of(lang)[i]
                == 'p' && text::lowercase_of(lang)[i + 1] == 'l',
        translations_for(lang) == polish_text() || translations_for(lang) == english_text(),
{
    reveal_strlit("pl");
    reveal_strlit("Monitor Sprzętowy");
    reveal_strlit("Hardware Monitor");
    assert(english_text().title@[0] != polish_text().title@[0]);
    let s = text::lowercase_of(lang);
    if text::contains(s, "pl"@) {
        let i = choose|i: int| text::occurs_at(s, "pl"@, i);
        assert(s.subrange(i, i + 2)[0] == s[i]);
        assert(s.subrange(i, i + 2)[1] == s[i + 1]);
    }
    if exists|i: int| 0 <= i && i + 1 < s.len() && #[trigger] s[i] == 'p' && s[i + 1] == 'l' {
        let i = choose|i: int| 0 <= i && i + 1 < s.len() && #[trigger] s[i] == 'p' && s[i + 1] == 'l';
        assert(s.subrange(i, i + 2) =~= "pl"@);
        assert(text::occurs_at(s, "pl"@, i));
    }
}

/// The English texts.
pub proof fn lemma_english_texts()
    ensures
        english_text().title@ == "Hardware Monitor"@,
        english_text().gpu_load@ == "GPU Load"@,
        english_text().cpu_load@ == "CPU Load"@,
        english_text().cannot_read_gpu@ == "Cannot read GPU load"@,
        english_text().temperatures_tab@ == "Temperatures"@,
        english_text().hardware_tab@ == "Hardware"@,
        english_text().processes_tab@ == "Processes"@,
        english_text().autostart_tab@ == "Autostart"@,
        english_text().autostart_name@ == "Name"@,
        english_text().autostart_command@ == "Command"@,
        english_text().autostart_location@ == "Location"@,
        english_text().autostart_status@ == "Status"@,
        english_text().autostart_running@ == "Running"@,
        english_text().autostart_not_running@ == "Not running"@,
        english_text().no_autostart@ == "No autostart programs found"@,
        english_text().process_name@ == "Name"@,
        english_text().process_pid@ == "PID"@,
        english_text().process_cpu@ == "CPU %"@,
        english_text().process_memory@ == "Memory"@,
        english_text().no_processes@ == "No processes available"@,
        english_text().component@ == "Component"@,
        english_text().current@ == "Current"@,
        english_text().maximum@ == "Maximum"@,
        english_text().average@ == "Average"@,
        english_text().no_sensors@ == "No temperature sensors available"@,
        english_text().hardware_info@ == "Hardware Information"@,
        english_text().os@ == "Operating System"@,
        english_text().distribution@ == "Distribution"@,
        english_text().version@ == "Version"@,
        english_text().kernel_version@ == "Kernel Version"@,
        english_text().architecture@ == "Architecture"@,
        english_text().processor@ == "Processor"@,
        english_text().cpu_config@ == "CPU Configuration"@,
        english_text().motherboard@ == "Motherboard"@,
        english_text().bios@ == "BIOS"@,
        english_text().graphics_card@ == "Graphics Card"@,
        english_text().gpu_driver@ == "GPU Driver"@,
        english_text().ram_total@ == "RAM (Total)"@,
        english_text().ram_used@ == "RAM (Used)"@,
        english_text().refresh_data@ == "Refresh Data"@,
        english_text().reset_stats@ == "Reset Statistics"@,
        english_text().last_update_prefix@ == "Last update: "@,
        english_text().last_update_suffix@ == "s ago"@,
        english_text().unknown@ == "Unknown"@,
        english_text().gpu_clock@ == "GPU Clock"@,
        english_text().vram_used@ == "VRAM Usage"@,
{
}

/// The Polish texts.
pub proof fn lemma_polish_texts()
    ensures
        polish_text().title@ == "Monitor Sprzętowy"@,
        polish_text().gpu_load@ == "Obciążenie Karty Graficznej"@,
        polish_text().cpu_load@ == "Obciążenie Procesora"@,
        polish_text().cannot_read_gpu@ == "Nie można odczytać obciążenia GPU"@,
        polish_text().temperatures_tab@ == "Temperatury"@,
        polish_text().hardware_tab@ == "Sprzęt"@,
        polish_text().processes_tab@ == "Procesy"@,
        polish_text().autostart_tab@ == "Autostart"@,
        polish_text().autostart_name@ == "Nazwa"@,
        polish_text().autostart_command@ == "Komenda"@,
        polish_text().autostart_location@ == "Lokalizacja"@,
        polish_text().autostart_status@ == "Status"@,
        polish_text().autostart_running@ == "Uruchomiony"@,
        polish_text().autostart_not_running@ == "Nie uruchomiony"@,
        polish_text().no_autostart@ == "Brak programów autostartu"@,
        polish_text().process_name@ == "Nazwa"@,
        polish_text().process_pid@ == "PID"@,
        polish_text().process_cpu@ == "CPU %"@,
        polish_text().process_memory@ == "Pamięć"@,
        polish_text().no_processes@ == "Brak dostępnych procesów"@,
        polish_text().component@ == "Czujnik"@,
        polish_text().current@ == "Aktualna"@,
        polish_text().maximum@ == "Maksymalna"@,
        polish_text().average@ == "Średnia"@,
        polish_text().no_sensors@ == "Brak dostępnych czujników temperatury"@,
        polish_text().hardware_info@ == "Informacje o Sprzęcie"@,
        polish_text().os@ == "System operacyjny"@,
        polish_text().distribution@ == "Dystrybucja"@,
        polish_text().version@ == "Wersja"@,
        polish_text().kernel_version@ == "Wersja jądra"@,
        polish_text().architecture@ == "Architektura"@,
        polish_text().processor@ == "Procesor"@,
        polish_text().cpu_config@ == "Konfiguracja CPU"@,
        polish_text().motherboard@ == "Płyta główna"@,
        polish_text().bios@ == "BIOS"@,
        polish_text().graphics_card@ == "Karta graficzna"@,
        polish_text().gpu_driver@ == "Sterownik GPU"@,
        polish_text().ram_total@ == "Pamięć RAM (całkowita)"@,
        polish_text().ram_used@ == "Pamięć RAM (używana)"@,
        polish_text().refresh_data@ == "Odśwież dane"@,
        polish_text().reset_stats@ == "Resetuj statystyki"@,
        polish_text().last_update_prefix@ == "Ostatnia aktualizacja: "@,
        polish_text().last_update_suffix@ == "s temu"@,
        polish_text().unknown@ == "Nieznany"@,
        polish_text().gpu_clock@ == "Taktowanie GPU"@,
        polish_text().vram_used@ == "Zużycie VRAM"@,
{
}

/// The locale names Polish when its lower-case form contains `pl`.
pub fn is_polish_locale(lowered: &str) -> (b: bool)
    ensures
        b == text::contains(lowered@, "pl"@),
{
    let s = chars_of(lowered);
    let pl = chars_of("pl");
    proof {
        assert(s@.subrange(0, s.len() as int) =~= lowered@);
    }
    contains_span(&s, 0, s.len(), &pl)
}

/// The texts for the locale `lang` (the value of `LANG`, `LC_MESSAGES` or
/// `LANGUAGE`): Polish when the lower-cased locale contains `pl`, English
/// otherwise.
pub fn get_translations(lang: &str) -> (t: Translations)
    ensures
        t == translations_for(lang@),
{
    let lowered = lowercase(lang);
    if is_polish_locale(lowered.as_str()) {
        polish()
    } else {
        english()
    }
}

/// The title that marks the Polish texts.
pub open spec fn polish_title() -> Seq<char> {
    "Monitor Sprzętowy"@
}

/// The texts are the Polish ones, judged by their title.
pub fn is_polish(t: &Translations) -> (b: bool)
    ensures
        b == (t.title@ == polish_title()),
{
    let s = chars_of(t.title);
    let p = chars_of("Monitor Sprzętowy");
    proof {
        assert(s@.subrange(0, s.len() as int) =~= t.title@);
    }
    span_equals(&s, 0, s.len(), &p)
}

/// The texts chosen for a locale are marked as Polish exactly when the
/// locale is Polish, so the names shown with them are in the same language
/// as the rest of the interface.
pub proof fn lemma_language_marks(lang: Seq<char>)
    ensures
        (if text::contains(text::lowercase_of(lang), "pl"@) {
            polish_text()
        } else {
            english_text()
        }).title@ == polish_title() <==> text::contains(text::lowercase_of(lang), "pl"@),
{
    reveal_strlit("Monitor Sprzętowy");
    reveal_strlit("Hardware Monitor");
    assert(english_text().title@[0] != polish_title()[0]);
}

} // verus!
