use pulse::format::format_cpu_percent;
use pulse::format::format_ram_display;
use pulse::format::total_used_bytes;
use pulse::icons::svg_bytes_from_data_uri;
use pulse::icons::svg_data_uri;
use pulse::login_item::enabled_from_query;
use pulse::login_item::get_auto_launch;
use pulse::login_item::is_enabled;
use pulse::login_item::next_login_state;
use pulse::login_item::outcome_of_attempt;
use pulse::login_item::set_enabled;
use pulse::login_item::toggle_login_item;
use pulse::login_item::LoginItemOutcome;
use pulse::metrics::cpu_sample_step;
use pulse::metrics::format_label;
use pulse::metrics::ram_sample_step;
use pulse::metrics::update_title;
use pulse::metrics::MetricSnapshot;
use pulse::metrics::SharedMetricsState;
use pulse::vm_stat::compressed_memory_bytes;

fn snapshot(cpu: &str, ram: &str) -> MetricSnapshot {
    MetricSnapshot {
        cpu_display: cpu.to_string(),
        ram_display: ram.to_string(),
    }
}

#[test]
fn cpu_percent_exact_values() {
    assert_eq!(format_cpu_percent(0), "0%");
    assert_eq!(format_cpu_percent(10000), "100%");
    assert_eq!(format_cpu_percent(4250), "43%");
    assert_eq!(format_cpu_percent(4249), "42%");
    assert_eq!(format_cpu_percent(50), "1%");
    assert_eq!(format_cpu_percent(49), "0%");
    assert_eq!(format_cpu_percent(999), "10%");
}

#[test]
fn cpu_percent_shape_over_range() {
    for centi in (0..=10000).step_by(7) {
        let s = format_cpu_percent(centi);
        assert!(s.ends_with('%'));
        let digits = &s[..s.len() - 1];
        assert!(!digits.is_empty() && digits.len() <= 3);
        assert!(digits.bytes().all(|b| b.is_ascii_digit()));
        let shown: u64 = digits.parse().unwrap();
        assert_eq!(shown, (centi + 50) / 100);
    }
}

#[test]
fn ram_display_exact_values() {
    assert_eq!(format_ram_display(0), "0.0GB");
    // Exactly half a binary gigabyte.
    assert_eq!(format_ram_display(1 << 29), "0.5GB");
    // A quarter gigabyte sits exactly between 0.2 and 0.3; a half rounds up.
    assert_eq!(format_ram_display(1 << 28), "0.3GB");
    assert_eq!(format_ram_display(8_912_896_000), "8.3GB");
    assert_eq!(format_ram_display(1 << 30), "1.0GB");
    // Just under a gigabyte rounds up to it.
    assert_eq!(format_ram_display((1 << 30) - 1), "1.0GB");
}

#[test]
fn ram_display_shape_from_split() {
    // used = total - available for a spread of non-negative splits.
    let totals: [u64; 5] = [0, 1, 1 << 30, 8_912_896_000, u64::MAX];
    for &total in &totals {
        for &available in &totals {
            if available <= total {
                let used = total - available;
                let s = format_ram_display(used);
                assert!(s.ends_with("GB"));
                let num = &s[..s.len() - 2];
                let (whole, tenth) = num.split_once('.').unwrap();
                assert!(!whole.is_empty());
                assert!(whole.bytes().all(|b| b.is_ascii_digit()));
                assert_eq!(tenth.len(), 1);
                assert!(tenth.bytes().all(|b| b.is_ascii_digit()));
                let shown = whole.parse::<u128>().unwrap() * 10
                    + tenth.parse::<u128>().unwrap();
                let expected = (used as u128 * 10 + (1 << 29)) / (1 << 30);
                assert_eq!(shown, expected);
            }
        }
    }
}

#[test]
fn total_used_saturates() {
    assert_eq!(total_used_bytes(3, 4), 7);
    assert_eq!(total_used_bytes(u64::MAX - 1, 1), u64::MAX);
    assert_eq!(total_used_bytes(u64::MAX, 1), u64::MAX);
}

#[test]
fn compressed_memory_sample_report() {
    let report = b"Mach Virtual Memory Statistics: (page size of 16384 bytes)\n\
Pages free:                              100.\n\
Pages occupied by compressor:           1234.\n";
    assert_eq!(compressed_memory_bytes(report), Some(16384 * 1234));
}

#[test]
fn compressed_memory_no_trailing_period() {
    let report = b"Mach Virtual Memory Statistics: (page size of 4096 bytes)\n\
Pages occupied by compressor: 7\n";
    assert_eq!(compressed_memory_bytes(report), Some(4096 * 7));
}

#[test]
fn compressed_memory_malformed_reports() {
    // No compressor line.
    assert_eq!(
        compressed_memory_bytes(
            b"Mach Virtual Memory Statistics: (page size of 16384 bytes)\n"
        ),
        None
    );
    // No parenthesised page size in the header.
    assert_eq!(
        compressed_memory_bytes(
            b"Mach Virtual Memory Statistics\nPages occupied by compressor: 10.\n"
        ),
        None
    );
    // Header lacks the closing marker.
    assert_eq!(
        compressed_memory_bytes(
            b"Stats: (page size of 16384\nPages occupied by compressor: 10.\n"
        ),
        None
    );
    // The count is not a number.
    assert_eq!(
        compressed_memory_bytes(
            b"Mach Virtual Memory Statistics: (page size of 16384 bytes)\n\
Pages occupied by compressor: lots.\n"
        ),
        None
    );
    // The label must open its line.
    assert_eq!(
        compressed_memory_bytes(
            b"Mach Virtual Memory Statistics: (page size of 16384 bytes)\n\
note: Pages occupied by compressor: 10.\n"
        ),
        None
    );
    // Empty report.
    assert_eq!(compressed_memory_bytes(b""), None);
    // Product overflows the counter.
    assert_eq!(
        compressed_memory_bytes(
            b"H: (page size of 18446744073709551615 bytes)\n\
Pages occupied by compressor: 2.\n"
        ),
        None
    );
}

#[test]
fn plain_label_end_to_end() {
    let snap = snapshot("42%", "8.3GB");
    assert_eq!(format_label(&snap, false), "\u{1f5a5}\u{fe0f} 42% | \u{1f4be} 8.3GB");
    assert_eq!(format_label(&snap, false), "🖥️ 42% | 💾 8.3GB");
}

#[test]
fn icon_label_segments() {
    let snap = snapshot("42%", "8.3GB");
    assert_eq!(format_label(&snap, true), " 42%   8.3GB");
}

#[test]
fn formatter_is_deterministic() {
    let a = snapshot("7%", "1.5GB");
    let b = snapshot("7%", "1.5GB");
    for _ in 0..3 {
        assert_eq!(format_label(&a, false), format_label(&b, false));
        assert_eq!(format_label(&a, true), format_label(&b, true));
    }
}

#[test]
fn shared_state_reads_whole_snapshots() {
    let mut state = SharedMetricsState::new();
    let first = state.read();
    assert_eq!(first.cpu_display, "");
    assert_eq!(first.ram_display, "");

    let written = ["10%", "20%", "30%"];
    state.write_ram("1.0GB".to_string());
    for w in written {
        state.write_cpu(w.to_string());
        let snap = state.read();
        // Every read is one of the values ever written, never a torn one.
        assert!(written.contains(&snap.cpu_display.as_str()));
        assert_eq!(snap.ram_display, "1.0GB");
    }
    let last = state.read();
    assert_eq!(last.cpu_display, "30%");
}

#[test]
fn sampler_steps_publish_field_locally() {
    let mut state = SharedMetricsState::new();
    cpu_sample_step(&mut state, 4250);
    assert_eq!(state.read().cpu_display, "43%");
    assert_eq!(state.read().ram_display, "");

    // One-gigabyte pages make the contribution easy to read: 3 pages = 3GB
    // on top of a 1GB base figure.
    let report: Vec<u8> = b"Stats: (page size of 1073741824 bytes)\n\
Pages occupied by compressor: 3.\n"
        .to_vec();
    ram_sample_step(&mut state, 1 << 30, Some(&report));
    assert_eq!(state.read().ram_display, "4.0GB");
    assert_eq!(state.read().cpu_display, "43%");

    // Without a report the base figure alone is shown.
    ram_sample_step(&mut state, 1 << 30, None);
    assert_eq!(state.read().ram_display, "1.0GB");

    // A malformed report contributes nothing rather than failing the update.
    let bad: Vec<u8> = b"nonsense\n".to_vec();
    ram_sample_step(&mut state, 3 << 30, Some(&bad));
    assert_eq!(state.read().ram_display, "3.0GB");
}

#[test]
fn update_title_renders_current_state() {
    let mut state = SharedMetricsState::new();
    cpu_sample_step(&mut state, 4200);
    ram_sample_step(&mut state, 8_912_896_000, None);
    assert_eq!(update_title(&state, false), "🖥️ 42% | 💾 8.3GB");
    assert_eq!(update_title(&state, true), " 42%   8.3GB");
}

#[test]
fn data_uri_round_trip() {
    let uri = svg_data_uri("ab");
    assert_eq!(uri, "data:image/svg+xml;base64,YWI=");
    let svg = "<svg width=\"24\" height=\"24\"><rect x=\"4\" y=\"4\"/></svg>";
    let round = svg_bytes_from_data_uri(&svg_data_uri(svg));
    assert_eq!(round, svg.as_bytes());
}

#[test]
fn data_uri_payload_extraction() {
    // The payload follows the last comma; without one the whole text decodes.
    assert_eq!(svg_bytes_from_data_uri("data:image/svg+xml;base64,YWJj"), b"abc");
    assert_eq!(svg_bytes_from_data_uri("YWJj"), b"abc");
    // An undecodable payload yields no bytes, the cue for the text fallback.
    assert_eq!(svg_bytes_from_data_uri("data:image/svg+xml;base64,!!!"), b"");
    assert_eq!(svg_bytes_from_data_uri(""), b"");
}

#[test]
fn login_item_decision_helpers() {
    assert!(enabled_from_query(Some(true)));
    assert!(!enabled_from_query(Some(false)));
    assert!(!enabled_from_query(None));
    assert_eq!(outcome_of_attempt(true), LoginItemOutcome::Updated);
    assert_eq!(outcome_of_attempt(false), LoginItemOutcome::Failed);
    assert!(next_login_state(false));
    assert!(!next_login_state(true));
}

#[test]
fn login_item_outside_bundle_is_noop() {
    // Not under any .app directory: reported off, and setting changes nothing.
    assert!(!is_enabled("/tmp/pulse"));
    assert_eq!(set_enabled("/tmp/pulse", true), LoginItemOutcome::NotInBundle);
    assert_eq!(set_enabled("/tmp/pulse", false), LoginItemOutcome::NotInBundle);
    let (next, outcome) = toggle_login_item("/tmp/pulse");
    assert!(next);
    assert_eq!(outcome, LoginItemOutcome::NotInBundle);
}

#[test]
fn login_item_wrong_bundle_name_is_noop() {
    let path = "/Applications/Other.app/Contents/MacOS/other";
    assert!(!is_enabled(path));
    assert_eq!(set_enabled(path, true), LoginItemOutcome::NotInBundle);
    // A bare ".app" component has no stem and is no bundle.
    assert_eq!(set_enabled("/x/.app/y", true), LoginItemOutcome::NotInBundle);
}

#[test]
fn login_item_proper_bundle_reaches_registration() {
    // Under the properly named bundle a registration handle results, and
    // inspecting the state goes through it without failing. Only read-only
    // operations run here; enabling or disabling would write into the test
    // machine's own login-item configuration.
    let path = "/Applications/Pulse.app/Contents/MacOS/pulse";
    assert!(get_auto_launch(path).is_some());
    assert!(get_auto_launch("/tmp/pulse").is_none());
    let _ = is_enabled(path);
}
