//! Tests of the scan-text parser and the SSID sanitizer.

use service_berry::observations::PhyType;
use service_berry::scan::parse_scan_text;
use service_berry::ssid::{parse_ssid, SsidFaultKind, SsidVerdict};

#[test]
fn empty_scan_text_yields_no_observations() {
    let outcome = parse_scan_text("");
    assert_eq!(outcome.observations.len(), 0);
    assert_eq!(outcome.faults.len(), 0);
}

#[test]
fn unrecognized_lines_outside_blocks_are_ignored() {
    let outcome = parse_scan_text("no header here\n\tfreq: 2412\njunk\n");
    assert_eq!(outcome.observations.len(), 0);
    assert_eq!(outcome.faults.len(), 0);
}

#[test]
fn one_well_formed_block_captures_every_field() {
    let text = "BSS aa:bb:cc:dd:ee:ff(on wlan0)\n\
                \tSSID: MyNetwork\n\
                \tfreq: 2437\n\
                \t\t* primary channel: 6\n\
                \tsignal: -45.00 dBm\n\
                \tlast seen: 120 ms\n";
    let outcome = parse_scan_text(text);
    assert_eq!(outcome.observations.len(), 1);
    let o = &outcome.observations[0];
    assert_eq!(o.bssid, "aa:bb:cc:dd:ee:ff");
    assert_eq!(o.ssid, Some("MyNetwork".to_string()));
    assert_eq!(o.frequency, 2437);
    assert_eq!(o.channel, Some(6));
    assert_eq!(o.rssi, -45);
    assert_eq!(o.age, Some(120000));
    assert_eq!(o.phy, PhyType::Legacy);
}

#[test]
fn three_blocks_come_out_in_source_order() {
    let text = "BSS 00:11:22:33:44:55\n\
                \tSSID: First\n\
                \tfreq: 2412\n\
                BSS 66:77:88:99:aa:bb\n\
                \tSSID: Second\n\
                \tfreq: 5180\n\
                BSS cc:dd:ee:ff:00:11\n\
                \tSSID: Third\n";
    let outcome = parse_scan_text(text);
    assert_eq!(outcome.observations.len(), 3);
    assert_eq!(outcome.observations[0].bssid, "00:11:22:33:44:55");
    assert_eq!(outcome.observations[0].ssid, Some("First".to_string()));
    assert_eq!(outcome.observations[0].frequency, 2412);
    assert_eq!(outcome.observations[1].bssid, "66:77:88:99:aa:bb");
    assert_eq!(outcome.observations[1].ssid, Some("Second".to_string()));
    assert_eq!(outcome.observations[1].frequency, 5180);
    assert_eq!(outcome.observations[2].bssid, "cc:dd:ee:ff:00:11");
    assert_eq!(outcome.observations[2].ssid, Some("Third".to_string()));
    assert_eq!(outcome.observations[2].frequency, 0);
}

#[test]
fn missing_fields_keep_their_defaults() {
    let outcome = parse_scan_text("BSS aa:bb:cc:dd:ee:ff\n");
    assert_eq!(outcome.observations.len(), 1);
    let o = &outcome.observations[0];
    assert_eq!(o.ssid, None);
    assert_eq!(o.age, None);
    assert_eq!(o.channel, None);
    assert_eq!(o.frequency, 0);
    assert_eq!(o.rssi, 0);
    assert_eq!(o.phy, PhyType::Legacy);
}

#[test]
fn short_mac_address_opens_no_block() {
    let outcome = parse_scan_text("BSS aa:bb:cc:dd:ee:f\n\tSSID: Nope\n");
    assert_eq!(outcome.observations.len(), 0);
}

#[test]
fn phy_banner_classifies_the_block() {
    let text = "BSS aa:bb:cc:dd:ee:ff\n\tHE capabilities:\n";
    let outcome = parse_scan_text(text);
    assert_eq!(outcome.observations[0].phy, PhyType::HE);
}

#[test]
fn phy_classification_is_overwritten_by_later_plain_lines() {
    // the classification is reassigned on every non-field line: a plain
    // line after the banner resets it to Legacy
    let text = "BSS aa:bb:cc:dd:ee:ff\n\tVHT capabilities:\n\tplain trailing line\n";
    let outcome = parse_scan_text(text);
    assert_eq!(outcome.observations[0].phy, PhyType::Legacy);
}

#[test]
fn phy_precedence_prefers_the_newest_class_on_one_line() {
    let text = "BSS aa:bb:cc:dd:ee:ff\n\tUHR capabilities:\n";
    assert_eq!(parse_scan_text(text).observations[0].phy, PhyType::UHR);
    let text = "BSS aa:bb:cc:dd:ee:ff\n\tEHT capabilities:\n";
    assert_eq!(parse_scan_text(text).observations[0].phy, PhyType::EHT);
    let text = "BSS aa:bb:cc:dd:ee:ff\n\tHT capabilities:\n";
    assert_eq!(parse_scan_text(text).observations[0].phy, PhyType::HT);
}

#[test]
fn phy_classification_is_deterministic_across_runs() {
    let text = "BSS aa:bb:cc:dd:ee:ff\n\
                \tHE capabilities:\n\
                \tVHT capabilities:\n\
                \tSSID: Stable\n";
    let first = parse_scan_text(text);
    let second = parse_scan_text(text);
    assert_eq!(first.observations, second.observations);
    // banner lines are non-field lines: the last one processed wins
    assert_eq!(first.observations[0].phy, PhyType::VHT);
}

#[test]
fn signal_is_truncated_toward_zero() {
    let text = "BSS aa:bb:cc:dd:ee:ff\n\tsignal: -45.79 dBm\n";
    assert_eq!(parse_scan_text(text).observations[0].rssi, -45);
}

#[test]
fn frequency_that_overflows_degrades_to_zero() {
    let text = "BSS aa:bb:cc:dd:ee:ff\n\tfreq: 70000\n";
    assert_eq!(parse_scan_text(text).observations[0].frequency, 0);
}

#[test]
fn channel_that_overflows_degrades_to_none() {
    let text = "BSS aa:bb:cc:dd:ee:ff\n\t\t* primary channel: 300\n";
    assert_eq!(parse_scan_text(text).observations[0].channel, None);
}

#[test]
fn last_seen_milliseconds_are_scaled_by_a_thousand() {
    let text = "BSS aa:bb:cc:dd:ee:ff\n\tlast seen: 3 ms\n";
    assert_eq!(parse_scan_text(text).observations[0].age, Some(3000));
}

#[test]
fn crlf_line_endings_parse_the_same() {
    let text = "BSS aa:bb:cc:dd:ee:ff\r\n\tSSID: CrLf\r\n\tfreq: 2412\r\n";
    let outcome = parse_scan_text(text);
    assert_eq!(outcome.observations.len(), 1);
    assert_eq!(outcome.observations[0].ssid, Some("CrLf".to_string()));
    assert_eq!(outcome.observations[0].frequency, 2412);
}

#[test]
fn hidden_ssid_line_leaves_the_name_absent() {
    let text = "BSS aa:bb:cc:dd:ee:ff\n\tSSID: \n\tfreq: 2412\n";
    let outcome = parse_scan_text(text);
    assert_eq!(outcome.observations.len(), 1);
    assert_eq!(outcome.observations[0].ssid, None);
    assert_eq!(outcome.faults.len(), 0);
}

#[test]
fn integrity_fault_skips_the_observation_and_reports_it() {
    // escapes mixed with a bare tab strip down to nothing: the block is
    // skipped and the offending capture is reported
    let text = "BSS aa:bb:cc:dd:ee:ff\n\tSSID: \\x00\t\\x01\n\
                BSS 66:77:88:99:aa:bb\n\tSSID: Fine\n";
    let outcome = parse_scan_text(text);
    assert_eq!(outcome.observations.len(), 1);
    assert_eq!(outcome.observations[0].ssid, Some("Fine".to_string()));
    assert_eq!(outcome.faults.len(), 1);
    assert_eq!(outcome.faults[0].kind, SsidFaultKind::EmptyAfterCleaning);
}

#[test]
fn ssid_empty_is_hidden() {
    assert_eq!(parse_ssid(""), SsidVerdict::Hidden);
}

#[test]
fn ssid_spaces_only_is_hidden() {
    assert_eq!(parse_ssid("   "), SsidVerdict::Hidden);
}

#[test]
fn ssid_escapes_and_spaces_is_hidden() {
    assert_eq!(parse_ssid("\\x00 \\x01"), SsidVerdict::Hidden);
}

#[test]
fn ssid_pure_escapes_is_invalid() {
    assert_eq!(parse_ssid("\\x00\\x01"), SsidVerdict::Invalid);
}

#[test]
fn ssid_mixed_escapes_are_stripped() {
    assert_eq!(
        parse_ssid("Guest\\x00Net"),
        SsidVerdict::Named("GuestNet".to_string())
    );
}

#[test]
fn ssid_clean_name_is_kept_unchanged() {
    assert_eq!(
        parse_ssid("HomeWifi"),
        SsidVerdict::Named("HomeWifi".to_string())
    );
}

#[test]
fn ssid_padding_spaces_are_trimmed() {
    assert_eq!(
        parse_ssid("  Cafe Corner  "),
        SsidVerdict::Named("Cafe Corner".to_string())
    );
}

#[test]
fn ssid_pure_control_bytes_is_an_integrity_fault() {
    match parse_ssid("\u{1}\u{2}") {
        SsidVerdict::Failed(f) => {
            assert_eq!(f.kind, SsidFaultKind::NoPrintable);
            assert_eq!(f.raw, "\u{1}\u{2}".to_string());
        }
        other => panic!("expected an integrity fault, got {:?}", other),
    }
}

#[test]
fn ssid_stripped_to_nothing_is_an_integrity_fault() {
    match parse_ssid("\\x00\t\\x01") {
        SsidVerdict::Failed(f) => {
            assert_eq!(f.kind, SsidFaultKind::EmptyAfterCleaning);
            assert_eq!(f.raw, "\\x00\t\\x01".to_string());
        }
        other => panic!("expected an integrity fault, got {:?}", other),
    }
}
