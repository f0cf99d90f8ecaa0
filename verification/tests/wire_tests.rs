//! Tests of the submission wire format, ending with the whole pipeline from
//! scan text to the serialized document.

use service_berry::assemble::{assemble, PositionFix};
use service_berry::observations::{BleBeacon, PhyType, WifiBssid};
use service_berry::scan::parse_scan_text;
use service_berry::wire::encode_submission;

fn fixed_position() -> PositionFix {
    PositionFix {
        latitude_e7: 451234567,
        longitude_e7: -1225000000,
        accuracy_e2: 1000,
        altitude_e2: 12050,
        altitude_accuracy_e2: 500,
        heading_e2: 0,
        speed_e2: 0,
        source: "fused".to_string(),
    }
}

const FIXED_POSITION_JSON: &str = "{\"latitude\":45.1234567,\"longitude\":-122.5000000,\
    \"accuracy\":10.00,\"altitude\":120.50,\"altitudeAccuracy\":5.00,\
    \"heading\":0.00,\"speed\":0.00,\"source\":\"fused\"}";

#[test]
fn empty_lists_encode_as_empty_arrays() {
    let s = assemble(7, fixed_position(), Vec::new(), Vec::new());
    let expected = format!(
        "{{\"items\":[{{\"timestamp\":7,\"position\":{},\
         \"wifiAccessPoints\":[],\"bluetoothBeacons\":[]}}]}}",
        FIXED_POSITION_JSON
    );
    assert_eq!(encode_submission(&s), expected);
}

#[test]
fn wifi_entry_carries_every_field() {
    let w = WifiBssid {
        ssid: Some("MyNetwork".to_string()),
        bssid: "aa:bb:cc:dd:ee:ff".to_string(),
        age: Some(120000),
        channel: Some(6),
        frequency: 2437,
        phy: PhyType::Legacy,
        rssi: -45,
    };
    let s = assemble(1700000000000, fixed_position(), vec![w], Vec::new());
    let expected = format!(
        "{{\"items\":[{{\"timestamp\":1700000000000,\"position\":{},\
         \"wifiAccessPoints\":[{{\"macAddress\":\"aa:bb:cc:dd:ee:ff\",\
         \"ssid\":\"MyNetwork\",\"age\":120000,\"channel\":6,\"frequency\":2437,\
         \"signalStrength\":-45,\"phy\":\"Legacy\"}}],\"bluetoothBeacons\":[]}}]}}",
        FIXED_POSITION_JSON
    );
    assert_eq!(encode_submission(&s), expected);
}

#[test]
fn absent_wifi_fields_encode_as_null() {
    let w = WifiBssid {
        ssid: None,
        bssid: "aa:bb:cc:dd:ee:ff".to_string(),
        age: None,
        channel: None,
        frequency: 0,
        phy: PhyType::HE,
        rssi: 0,
    };
    let s = assemble(1, fixed_position(), vec![w], Vec::new());
    let doc = encode_submission(&s);
    assert!(doc.contains(
        "{\"macAddress\":\"aa:bb:cc:dd:ee:ff\",\"ssid\":null,\"age\":null,\
         \"channel\":null,\"frequency\":0,\"signalStrength\":0,\"phy\":\"HE\"}"
    ));
}

#[test]
fn beacon_name_is_omitted_when_absent() {
    let with_name = BleBeacon {
        address: "11:22:33:44:55:66".to_string(),
        rssi: -80,
        name: Some("Tag".to_string()),
    };
    let without_name = BleBeacon {
        address: "77:88:99:aa:bb:cc".to_string(),
        rssi: -100,
        name: None,
    };
    let s = assemble(2, fixed_position(), Vec::new(), vec![with_name, without_name]);
    let doc = encode_submission(&s);
    assert!(doc.contains(
        "\"bluetoothBeacons\":[{\"macAddress\":\"11:22:33:44:55:66\",\
         \"signalStrength\":-80,\"name\":\"Tag\"},\
         {\"macAddress\":\"77:88:99:aa:bb:cc\",\"signalStrength\":-100}]"
    ));
}

#[test]
fn quotes_backslashes_and_controls_are_escaped() {
    let w = WifiBssid {
        ssid: Some("A\"B\\C\u{1}".to_string()),
        bssid: "aa:bb:cc:dd:ee:ff".to_string(),
        age: None,
        channel: None,
        frequency: 0,
        phy: PhyType::Legacy,
        rssi: 0,
    };
    let s = assemble(3, fixed_position(), vec![w], Vec::new());
    let doc = encode_submission(&s);
    assert!(doc.contains("\"ssid\":\"A\\\"B\\\\C\\u0001\""));
}

#[test]
fn end_to_end_one_block_reaches_the_wire() {
    let text = "BSS aa:bb:cc:dd:ee:ff(on wlan0)\n\
                \tSSID: MyNetwork\n\
                \tfreq: 2437\n\
                \t\t* primary channel: 6\n\
                \tsignal: -45.00 dBm\n\
                \tlast seen: 120 ms\n";
    let outcome = parse_scan_text(text);
    assert_eq!(outcome.observations.len(), 1);
    let s = assemble(1700000000000, fixed_position(), outcome.observations, Vec::new());
    let doc = encode_submission(&s);
    let expected_entry = "{\"macAddress\":\"aa:bb:cc:dd:ee:ff\",\"ssid\":\"MyNetwork\",\
         \"age\":120000,\"channel\":6,\"frequency\":2437,\"signalStrength\":-45,\
         \"phy\":\"Legacy\"}";
    assert!(doc.contains(expected_entry));
    assert!(doc.starts_with("{\"items\":[{\"timestamp\":1700000000000,"));
    assert!(doc.ends_with("\"bluetoothBeacons\":[]}]}"));
}
