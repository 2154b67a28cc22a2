use sisr::display::{display_candidates, socket_display, sort_descending};
use sisr::actions::EnforcerCommand;
use sisr::gui::{
    any_connected, bus_ids_label, continuous_draw_toggle, force_config_toggle, has_app_id, id_label,
    kbm_toggle, open_closed, yes_no, SetKbmEmulation,
};
use sisr::text::decimal_string;

fn s(v: &[&str]) -> Vec<String> {
    v.iter().map(|x| x.to_string()).collect()
}

#[test]
fn socket_names_to_displays() {
    assert_eq!(socket_display("X0"), Some(":0".to_string()));
    assert_eq!(socket_display("X12"), Some(":12".to_string()));
    assert_eq!(socket_display("X"), None);
    assert_eq!(socket_display("X1a"), None);
    assert_eq!(socket_display("Y1"), None);
    assert_eq!(socket_display(""), None);
}

#[test]
fn displays_sort_descending_as_text() {
    assert_eq!(sort_descending(s(&[":0", ":10", ":2", ":1"])), s(&[":2", ":10", ":1", ":0"]));
    assert_eq!(sort_descending(vec![]), Vec::<String>::new());
    assert_eq!(sort_descending(s(&[":1", ":1"])), s(&[":1", ":1"]));
}

#[test]
fn candidates_keep_first_occurrence_order() {
    let c = display_candidates(Some(":1".to_string()), Some(":0".to_string()), s(&[":2", ":1", ":0"]));
    assert_eq!(c, s(&[":1", ":0", ":2"]));
    let d = display_candidates(None, Some(":0".to_string()), s(&[":0"]));
    assert_eq!(d, s(&[":0"]));
    let e = display_candidates(Some(":3".to_string()), Some(":3".to_string()), vec![]);
    assert_eq!(e, s(&[":3"]));
}

#[test]
fn bus_id_labels() {
    assert_eq!(bus_ids_label(&vec![]), "None");
    assert_eq!(bus_ids_label(&vec![3, 1, 3, 2]), "1, 2, 3");
    assert_eq!(bus_ids_label(&vec![7]), "7");
}

#[test]
fn id_labels() {
    assert_eq!(id_label(None), "N/A");
    assert_eq!(id_label(Some(0)), "0");
    assert_eq!(id_label(Some(u64::MAX)), "18446744073709551615");
    assert!(has_app_id(Some(5)));
    assert!(!has_app_id(Some(0)));
    assert!(!has_app_id(None));
}

#[test]
fn decimal_formatting() {
    assert_eq!(decimal_string(0), "0");
    assert_eq!(decimal_string(1234567890), "1234567890");
}

#[test]
fn decimal_text_reads_back() {
    for n in [1u32, 9, 10, 4096, u32::MAX] {
        let t = decimal_string(n as u64);
        assert_eq!(sisr::api::open_steam_controller_config(None, Some(&t)), (200, Some(n)));
    }
}

#[test]
fn viiper_window_decisions() {
    assert!(!any_connected(&vec![]));
    assert!(!any_connected(&vec![false, false]));
    assert!(any_connected(&vec![false, true]));
    assert_eq!(kbm_toggle(true, false, true), None);
    assert_eq!(kbm_toggle(false, false, false), None);
    assert_eq!(kbm_toggle(false, false, true), Some(SetKbmEmulation { enabled: true, initialize: false }));
    assert_eq!(kbm_toggle(false, true, false), Some(SetKbmEmulation { enabled: false, initialize: false }));
}

#[test]
fn steam_window_decisions() {
    assert_eq!(force_config_toggle(Some(7), false, false, true), Some(EnforcerCommand::ActivateWithAppId(7)));
    assert_eq!(force_config_toggle(Some(7), false, true, false), Some(EnforcerCommand::Deactivate));
    assert_eq!(force_config_toggle(Some(7), false, true, true), None);
    assert_eq!(force_config_toggle(Some(7), true, false, true), None);
    assert_eq!(force_config_toggle(Some(0), false, false, true), None);
    assert_eq!(force_config_toggle(None, false, false, true), None);
    assert_eq!(continuous_draw_toggle(None, true), Some(true));
    assert_eq!(continuous_draw_toggle(None, false), None);
    assert_eq!(continuous_draw_toggle(Some(true), false), Some(false));
    assert_eq!(yes_no(true), "Yes");
    assert_eq!(yes_no(false), "No");
    assert_eq!(open_closed(true), "Open");
    assert_eq!(open_closed(false), "Closed");
}
