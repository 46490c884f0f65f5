use sysfetch::chalk::Chalk;
use sysfetch::config::{default_config, Align, Config, ModuleSpec, Theme};
use sysfetch::help::display_help;
use sysfetch::layout::Format;
use sysfetch::modules::memory::Memory;
use sysfetch::modules::provider::{Provider, ProviderEntry};
use sysfetch::render::{
    align_lines, module_width, render_module, resolve_icon, run_report, IconError, ModuleRender,
};
use sysfetch::stat::StatPair;

const GIB: u64 = 1024 * 1024 * 1024;

#[test]
fn module_width_takes_the_fraction() {
    assert_eq!(module_width(100, 500), 50);
    assert_eq!(module_width(101, 500), 50);
    assert_eq!(module_width(80, 1000), 80);
    assert_eq!(module_width(80, 1), 0);
}

#[test]
fn resolve_icon_reads_hex_codepoints() {
    assert_eq!(resolve_icon("f4bc"), Some(0xf4bc));
    assert_eq!(resolve_icon("41"), Some(0x41));
    assert_eq!(resolve_icon("zz"), None);
    assert_eq!(resolve_icon(""), None);
    assert_eq!(resolve_icon("d800"), None);
    assert_eq!(resolve_icon("110000"), None);
    assert_eq!(resolve_icon("fffffffff"), None);
}

#[test]
fn icon_error_message_names_the_text() {
    let e = IconError { icon: "zz".to_string() };
    assert_eq!(e.message(), "invalid icon codepoint: zz");
}

#[test]
fn render_module_lays_header_and_rows() {
    let item = ModuleRender {
        icon: 0x41,
        name: "Memory".to_string(),
        rows: vec![StatPair { key: "used".to_string(), value: "8.0 GB".to_string() }],
    };
    let lines = render_module(40, &item, 0x9FA1C9, 0xF5C2E7, 0x75AFFA);
    assert_eq!(lines.len(), 2);
    let header = Chalk::colorize("A  Memory", 0x9FA1C9, true);
    assert_eq!(lines[0], Format::center(40, &header));
    let key = Chalk::colorize("used", 0xF5C2E7, false);
    let value = Chalk::colorize("8.0 GB", 0x75AFFA, false);
    assert_eq!(lines[1], Format::stretch(40, &key, &value));
}

#[test]
fn align_lines_rejustifies_each_line() {
    let lines = vec!["ab".to_string(), "cde".to_string()];
    let left = align_lines(&lines, Align::Left, 5);
    assert_eq!(left, vec!["ab   ".to_string(), "cde  ".to_string()]);
    let right = align_lines(&lines, Align::Right, 5);
    assert_eq!(right, vec!["   ab".to_string(), "  cde".to_string()]);
    let center = align_lines(&lines, Align::Center, 6);
    assert_eq!(center, vec!["  ab  ".to_string(), " cde ".to_string()]);
}

fn memory_config(icon: &str, align: Align) -> Config {
    Config {
        version: "0.1.0".to_string(),
        theme: Theme {
            gradient_from: 0xffffff,
            gradient_to: 0,
            headers: 0x9FA1C9,
            text_key: 0xF5C2E7,
            text_value: 0x75AFFA,
            width_permille: 500,
            align,
        },
        modules: vec![ModuleSpec {
            name: "Memory".to_string(),
            icon: icon.to_string(),
            stats: vec!["percent".to_string()],
        }],
    }
}

fn memory_registry() -> Vec<ProviderEntry> {
    let memory = Memory { total: 16 * GIB, used: 8 * GIB, swap_total: 0, swap_used: 0 };
    vec![ProviderEntry { name: "Memory".to_string(), provider: Provider::Memory(memory) }]
}

#[test]
fn run_report_renders_a_matched_module() {
    let config = memory_config("41", Align::Left);
    let report = run_report(&config, &memory_registry(), 100).unwrap();
    assert_eq!(report.lines.len(), 2);
    let header = Chalk::colorize("A  Memory", 0x9FA1C9, true);
    assert_eq!(report.lines[0], Format::left(100, &Format::center(50, &header)));
    let key = Chalk::colorize("percent", 0xF5C2E7, false);
    let value = Chalk::colorize("50.0%", 0x75AFFA, false);
    assert_eq!(report.lines[1], Format::left(100, &Format::stretch(50, &key, &value)));
}

#[test]
fn run_report_respects_alignment() {
    let config = memory_config("41", Align::Right);
    let report = run_report(&config, &memory_registry(), 100).unwrap();
    let header = Chalk::colorize("A  Memory", 0x9FA1C9, true);
    assert_eq!(report.lines[0], Format::right(100, &Format::center(50, &header)));
}

#[test]
fn run_report_skips_unmatched_modules() {
    let mut config = memory_config("41", Align::Left);
    config.modules[0].name = "Sound".to_string();
    let report = run_report(&config, &memory_registry(), 100).unwrap();
    assert_eq!(report.lines.len(), 0);
}

#[test]
fn run_report_fails_on_a_bad_icon() {
    let config = memory_config("zz", Align::Left);
    let err = run_report(&config, &memory_registry(), 100).unwrap_err();
    assert_eq!(err.icon, "zz");
}

#[test]
fn run_report_ignores_a_bad_icon_on_an_unmatched_module() {
    let mut config = memory_config("zz", Align::Left);
    config.modules[0].name = "Sound".to_string();
    assert!(run_report(&config, &memory_registry(), 100).is_ok());
}

#[test]
fn help_text_lists_every_flag() {
    let help = display_help(0x9FA1C9, 0xF5C2E7);
    let title = Chalk::colorize("align [ -a | --align ]", 0x9FA1C9, true);
    let first_desc =
        Chalk::colorize("Change the alignment of the output in the terminal.", 0xF5C2E7, false);
    assert!(help.starts_with(&format!("{}\n   {}\n", title, first_desc)));
    for entry in [
        "config [ -c | --config ]",
        "help [ -h | --help ]",
        "version [ -v | --version ]",
        "width [ -w | --width ]",
    ] {
        let t = Chalk::colorize(entry, 0x9FA1C9, true);
        assert!(help.contains(&t));
    }
    assert!(help.ends_with("\n\n"));
}

#[test]
fn help_text_carries_an_example_per_flag() {
    let help = display_help(0x9FA1C9, 0xF5C2E7);
    for example in [
        "`-a=left` or `--align=left`",
        "`-c` or `--config`",
        "`-h` or `--help`",
        "`-v` or `--version`",
        "`-w=0.5` or `--width=0.5`",
    ] {
        let line = format!("   {}\n", Chalk::colorize(example, 0xF5C2E7, false));
        assert!(help.contains(&line));
    }
}

#[test]
fn help_entry_ends_with_its_example_and_a_blank_line() {
    let help = display_help(0x9FA1C9, 0xF5C2E7);
    let version_title = Chalk::colorize("version [ -v | --version ]", 0x9FA1C9, true);
    let version_desc =
        Chalk::colorize("Print the version of the program to the terminal.", 0xF5C2E7, false);
    let version_example = Chalk::colorize("`-v` or `--version`", 0xF5C2E7, false);
    let entry = format!(
        "{}\n   {}\n   {}\n\n",
        version_title, version_desc, version_example
    );
    assert!(help.contains(&entry));
}

#[test]
fn default_config_renders_without_icon_errors() {
    let config = default_config();
    assert_eq!(resolve_icon(&config.modules[0].icon), Some(0xf4bc));
    assert_eq!(resolve_icon(&config.modules[1].icon), Some(0xefc5));
}
