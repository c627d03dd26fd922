use nut_monitor::parser::{parse_cmd_names, parse_list_vars, parse_ups_names};
use nut_monitor::text::{parse_centi, split_lines_str, str_contains, trim_quotes, trim_ws_str};

#[test]
fn parses_typical_variable_listing() {
    let response = "BEGIN LIST VAR ups\n\
                    VAR ups battery.charge \"100\"\n\
                    VAR ups battery.runtime \"1200\"\n\
                    VAR ups input.voltage \"230.4\"\n\
                    VAR ups output.voltage \"229.9\"\n\
                    VAR ups ups.load \"42\"\n\
                    VAR ups ups.status \"OL\"\n\
                    VAR ups ups.mfr \"EATON\"\n\
                    END LIST VAR ups\n";
    let data = parse_list_vars(response);
    assert_eq!(data.battery_charge, Some(10000));
    assert_eq!(data.battery_runtime, Some(120000));
    assert_eq!(data.input_voltage, Some(23040));
    assert_eq!(data.output_voltage, Some(22990));
    assert_eq!(data.ups_load, Some(4200));
    assert_eq!(data.status, "OL");
    assert_eq!(data.ups_mfr, Some("EATON".to_string()));
}

#[test]
fn derives_power_from_load_and_nominal() {
    // 42% of 900 W nominal: 378 W, i.e. 37800 centi-watts.
    let response = "VAR ups ups.load \"42\"\nVAR ups ups.realpower.nominal \"900\"\n";
    let data = parse_list_vars(response);
    assert_eq!(data.ups_load, Some(4200));
    assert_eq!(data.ups_realpower_nominal, Some(90000));
    assert_eq!(data.power_watts, Some(37800));
}

#[test]
fn power_stays_absent_without_both_inputs() {
    let data = parse_list_vars("VAR ups ups.load \"42\"\n");
    assert_eq!(data.power_watts, None);
    let data = parse_list_vars("VAR ups ups.realpower.nominal \"900\"\n");
    assert_eq!(data.power_watts, None);
}

#[test]
fn unparsable_numeral_leaves_field_absent() {
    let data = parse_list_vars("VAR ups battery.charge \"n/a\"\n");
    assert_eq!(data.battery_charge, None);
    assert_eq!(data.status, "");
}

#[test]
fn unrecognized_keys_go_to_extension_map() {
    let data = parse_list_vars(
        "VAR ups battery.charge \"55\"\nVAR ups battery.mfr.date \"2021/06/01\"\n",
    );
    assert_eq!(data.battery_charge, Some(5500));
    assert_eq!(data.extended_vars.len(), 1);
    assert_eq!(data.extended_vars[0].0, "battery.mfr.date");
    assert_eq!(data.extended_vars[0].1, "2021/06/01");
}

#[test]
fn later_line_overwrites_earlier_one() {
    let data = parse_list_vars(
        "VAR ups battery.charge \"55\"\nVAR ups battery.charge \"54.5\"\n",
    );
    assert_eq!(data.battery_charge, Some(5450));
}

#[test]
fn variable_lines_of_any_device_are_parsed() {
    let data = parse_list_vars("VAR rack battery.charge \"55\"\nnonsense line\n");
    assert_eq!(data.battery_charge, Some(5500));
    assert_eq!(data.extended_vars.len(), 0);
}

#[test]
fn malformed_variable_lines_are_skipped() {
    // Too few fields, wrong head, empty line: none of them parse.
    let data = parse_list_vars("VAR ups\nVAR ups battery.charge\nVARIANT x y z\n\n");
    assert_eq!(data.battery_charge, None);
    assert_eq!(data.extended_vars.len(), 0);
}

#[test]
fn repeated_unrecognized_key_is_last_wins() {
    let data = parse_list_vars(
        "VAR ups battery.mfr.date \"2020/01/01\"\nVAR ups outlet.count \"3\"\nVAR ups battery.mfr.date \"2021/06/01\"\n",
    );
    assert_eq!(data.extended_vars.len(), 2);
    assert_eq!(data.extended_vars[0].0, "battery.mfr.date");
    assert_eq!(data.extended_vars[0].1, "2021/06/01");
    assert_eq!(data.extended_vars[1].0, "outlet.count");
    assert_eq!(data.extended_vars[1].1, "3");
}

#[test]
fn parse_centi_handles_signs_fractions_and_garbage() {
    assert_eq!(parse_centi("100"), Some(10000));
    assert_eq!(parse_centi("120.5"), Some(12050));
    assert_eq!(parse_centi("120.56"), Some(12056));
    assert_eq!(parse_centi("120.567"), Some(12056));
    assert_eq!(parse_centi("-1.5"), Some(-150));
    assert_eq!(parse_centi("0.05"), Some(5));
    assert_eq!(parse_centi("7."), Some(700));
    assert_eq!(parse_centi(""), None);
    assert_eq!(parse_centi("-"), None);
    assert_eq!(parse_centi(".5"), None);
    assert_eq!(parse_centi("1.2.3"), None);
    assert_eq!(parse_centi("12a"), None);
    assert_eq!(parse_centi("999999999999999999999999"), None);
}

#[test]
fn split_lines_matches_line_semantics() {
    let lines = split_lines_str("a\r\nb\n\nc");
    assert_eq!(lines, vec!["a".to_string(), "b".to_string(), "".to_string(), "c".to_string()]);
    assert_eq!(split_lines_str(""), Vec::<String>::new());
    assert_eq!(split_lines_str("x\n"), vec!["x".to_string()]);
}

#[test]
fn trimming_helpers() {
    assert_eq!(trim_quotes("\"100\""), "100");
    assert_eq!(trim_quotes("\"\""), "");
    assert_eq!(trim_quotes("plain"), "plain");
    assert_eq!(trim_ws_str("  OK\r\n"), "OK");
    assert_eq!(str_contains("OL CHRG", "OL"), true);
    assert_eq!(str_contains("OB LB", "OL"), false);
}

#[test]
fn parses_device_listing() {
    let names = parse_ups_names(
        "BEGIN LIST UPS\nUPS rack \"Server rack UPS\"\nUPS desk \"Desk UPS\"\nEND LIST UPS\n",
    );
    assert_eq!(names, vec!["rack".to_string(), "desk".to_string()]);
}

#[test]
fn parses_command_listing() {
    let cmds = parse_cmd_names(
        "BEGIN LIST CMD ups\nCMD ups test.battery.start\nCMD ups beeper.mute\nEND LIST CMD ups\n",
    );
    assert_eq!(cmds, vec!["test.battery.start".to_string(), "beeper.mute".to_string()]);
}
