//! Pure transform from raw protocol text to a structured telemetry
//! record, and the line parsers for device and command listings.  The
//! parser never fails: malformed lines are skipped, unparsable numerals
//! leave their field absent, and unrecognized keys are retained
//! verbatim in the open-ended extension mapping.

use vstd::prelude::*;
use crate::models::{UpsData, UpsModel, with_power};
use crate::text::{
    centi_of, find_char_from, find_from, lemma_find_skip, parse_centi, seq_starts_with,
    split_lines, split_lines_str, str_eq, str_starts_with, trim_char, trim_quotes,
};

verus! {

/// The fixed head of a variable record line.
pub open spec fn var_prefix() -> Seq<char> {
    seq!['V', 'A', 'R', ' ']
}

/// The fixed head of a device listing line.
pub open spec fn ups_prefix() -> Seq<char> {
    seq!['U', 'P', 'S', ' ']
}

/// The fixed head of a command listing line.
pub open spec fn cmd_prefix() -> Seq<char> {
    seq!['C', 'M', 'D', ' ']
}

pub proof fn lemma_var_prefix()
    ensures
        "VAR "@ == var_prefix(),
{
    reveal_strlit("VAR ");
    assert("VAR "@ =~= var_prefix());
}

pub proof fn lemma_ups_prefix()
    ensures
        "UPS "@ == ups_prefix(),
{
    reveal_strlit("UPS ");
    assert("UPS "@ =~= ups_prefix());
}

pub proof fn lemma_cmd_prefix()
    ensures
        "CMD "@ == cmd_prefix(),
{
    reveal_strlit("CMD ");
    assert("CMD "@ =~= cmd_prefix());
}

/// Key and unquoted value of a well-formed variable record line
/// `VAR <device> <key> "<value>"`; `None` for any other line.  The
/// device field is not inspected: every variable line of a response
/// belongs to the device the listing was requested for.
pub open spec fn var_line_fields(line: Seq<char>) -> Option<(Seq<char>, Seq<char>)> {
    if seq_starts_with(line, var_prefix()) {
        let rest = line.skip(4);
        match find_from(rest, ' ', 0) {
            None => None,
            Some(d) => {
                let after_dev = rest.skip(d + 1);
                match find_from(after_dev, ' ', 0) {
                    None => None,
                    Some(i) => Some((after_dev.take(i), trim_char(after_dev.skip(i + 1), '"'))),
                }
            },
        }
    } else {
        None
    }
}

/// The extension mapping with `k` bound to `v`: the first pair
/// carrying `k` is replaced in place, or the pair is appended when
/// the key is new — so a repeated vendor key is last-wins, as a
/// mapping should be.
pub open spec fn ext_upsert(
    m: Seq<(Seq<char>, Seq<char>)>,
    k: Seq<char>,
    v: Seq<char>,
) -> Seq<(Seq<char>, Seq<char>)>
    decreases m.len(),
{
    if m.len() == 0 {
        seq![(k, v)]
    } else if m[0].0 == k {
        seq![(k, v)] + m.skip(1)
    } else {
        seq![m[0]] + ext_upsert(m.skip(1), k, v)
    }
}

/// An upsert whose key sits first at `idx` updates exactly there.
proof fn lemma_ext_upsert_found(
    m: Seq<(Seq<char>, Seq<char>)>,
    k: Seq<char>,
    v: Seq<char>,
    idx: int,
)
    requires
        0 <= idx < m.len(),
        m[idx].0 == k,
        forall|j: int| 0 <= j < idx ==> (#[trigger] m[j]).0 != k,
    ensures
        ext_upsert(m, k, v) == m.update(idx, (k, v)),
    decreases idx,
{
    if idx == 0 {
        assert(seq![(k, v)] + m.skip(1) =~= m.update(0, (k, v)));
    } else {
        assert(forall|j: int| 0 <= j < idx - 1 ==> (#[trigger] m.skip(1)[j]).0 != k);
        assert(m.skip(1)[idx - 1] == m[idx]);
        lemma_ext_upsert_found(m.skip(1), k, v, idx - 1);
        assert(seq![m[0]] + m.skip(1).update(idx - 1, (k, v)) =~= m.update(idx, (k, v)));
    }
}

/// An upsert whose key is absent appends.
proof fn lemma_ext_upsert_absent(m: Seq<(Seq<char>, Seq<char>)>, k: Seq<char>, v: Seq<char>)
    requires
        forall|j: int| 0 <= j < m.len() ==> (#[trigger] m[j]).0 != k,
    ensures
        ext_upsert(m, k, v) == m.push((k, v)),
    decreases m.len(),
{
    if m.len() == 0 {
        assert(seq![(k, v)] =~= m.push((k, v)));
    } else {
        assert(forall|j: int| 0 <= j < m.skip(1).len() ==> (#[trigger] m.skip(1)[j]).0 != k);
        lemma_ext_upsert_absent(m.skip(1), k, v);
        assert(seq![m[0]] + m.skip(1).push((k, v)) =~= m.push((k, v)));
    }
}

/// A numeral's centi-unit value, absent when it does not parse or does
/// not fit.
pub open spec fn centi_opt(v: Seq<char>) -> Option<i64> {
    match centi_of(v) {
        None => None,
        Some(x) => Some(x as i64),
    }
}

/// One variable applied to a record: a key in the fixed vocabulary
/// populates its typed field (numerals through `centi_opt`), any other
/// key is bound in the extension mapping, last-wins.
pub open spec fn apply_var(m: UpsModel, k: Seq<char>, v: Seq<char>) -> UpsModel {
    if k == "battery.charge"@ {
        UpsModel { battery_charge: centi_opt(v), ..m }
    } else if k == "battery.runtime"@ {
        UpsModel { battery_runtime: centi_opt(v), ..m }
    } else if k == "battery.voltage"@ {
        UpsModel { battery_voltage: centi_opt(v), ..m }
    } else if k == "battery.type"@ {
        UpsModel { battery_type: Some(v), ..m }
    } else if k == "input.voltage"@ {
        UpsModel { input_voltage: centi_opt(v), ..m }
    } else if k == "input.voltage.fault"@ {
        UpsModel { input_voltage_fault: centi_opt(v), ..m }
    } else if k == "input.frequency"@ {
        UpsModel { input_frequency: centi_opt(v), ..m }
    } else if k == "output.voltage"@ {
        UpsModel { output_voltage: centi_opt(v), ..m }
    } else if k == "output.voltage.nominal"@ {
        UpsModel { output_voltage_nominal: centi_opt(v), ..m }
    } else if k == "output.frequency"@ {
        UpsModel { output_frequency: centi_opt(v), ..m }
    } else if k == "output.frequency.nominal"@ {
        UpsModel { output_frequency_nominal: centi_opt(v), ..m }
    } else if k == "ups.load"@ {
        UpsModel { ups_load: centi_opt(v), ..m }
    } else if k == "ups.status"@ {
        UpsModel { status: v, ..m }
    } else if k == "ups.realpower.nominal"@ {
        UpsModel { ups_realpower_nominal: centi_opt(v), ..m }
    } else if k == "ups.mfr"@ {
        UpsModel { ups_mfr: Some(v), ..m }
    } else if k == "ups.model"@ {
        UpsModel { ups_model: Some(v), ..m }
    } else if k == "ups.serial"@ {
        UpsModel { ups_serial: Some(v), ..m }
    } else if k == "ups.firmware"@ {
        UpsModel { ups_firmware: Some(v), ..m }
    } else if k == "ups.type"@ {
        UpsModel { ups_type: Some(v), ..m }
    } else if k == "ups.beeper.status"@ {
        UpsModel { ups_beeper_status: Some(v), ..m }
    } else if k == "driver.name"@ {
        UpsModel { driver_name: Some(v), ..m }
    } else if k == "driver.version"@ {
        UpsModel { driver_version: Some(v), ..m }
    } else {
        UpsModel { extended_vars: ext_upsert(m.extended_vars, k, v), ..m }
    }
}

/// One line applied to a record: only well-formed variable lines
/// change anything.
pub open spec fn apply_var_line(m: UpsModel, line: Seq<char>) -> UpsModel {
    match var_line_fields(line) {
        None => m,
        Some((k, v)) => apply_var(m, k, v),
    }
}

/// The record built by applying every line in order to the empty
/// record: a later line for the same key overwrites an earlier one.
pub open spec fn parse_vars_model(lines: Seq<Seq<char>>) -> UpsModel
    decreases lines.len(),
{
    if lines.len() == 0 {
        UpsModel::empty()
    } else {
        apply_var_line(parse_vars_model(lines.drop_last()), lines.last())
    }
}

/// The telemetry record a raw list response denotes: every line
/// applied in order, then power derivation.
pub open spec fn spec_parse_list_vars(s: Seq<char>) -> UpsModel {
    with_power(parse_vars_model(split_lines(s)))
}

impl Default for UpsData {
    /// The record with every field absent and an empty status.
    fn default() -> (d: UpsData)
        ensures
            d@ == UpsModel::empty(),
    {
        let d = UpsData {
            status: String::new(),
            battery_charge: None,
            battery_runtime: None,
            battery_voltage: None,
            input_voltage: None,
            input_frequency: None,
            output_voltage: None,
            output_frequency: None,
            ups_load: None,
            ups_realpower_nominal: None,
            power_watts: None,
            ups_mfr: None,
            ups_model: None,
            ups_serial: None,
            ups_firmware: None,
            ups_type: None,
            ups_beeper_status: None,
            battery_type: None,
            input_voltage_fault: None,
            output_voltage_nominal: None,
            output_frequency_nominal: None,
            driver_name: None,
            driver_version: None,
            ambient_temp: None,
            output_current: None,
            battery_current: None,
            ups_realpower: None,
            extended_vars: Vec::new(),
        };
        proof {
            assert(d.extended_vars.deep_view() =~= Seq::<(Seq<char>, Seq<char>)>::empty());
        }
        d
    }
}

/// `parse_centi`, packaged as the vocabulary table needs it.
fn parse_centi_opt(v: &str) -> (r: Option<i64>)
    ensures
        r == centi_opt(v@),
{
    let r = parse_centi(v);
    proof {
        match centi_of(v@) {
            None => {},
            Some(x) => {
                assert(r == Some(x as i64));
            },
        }
    }
    r
}

/// Apply one variable to the record under construction.
fn apply_var_exec(data: &mut UpsData, key: &str, val: String)
    ensures
        final(data)@ == apply_var(old(data)@, key@, val@),
{
    if str_eq(key, "battery.charge") {
        data.battery_charge = parse_centi_opt(val.as_str());
    } else if str_eq(key, "battery.runtime") {
        data.battery_runtime = parse_centi_opt(val.as_str());
    } else if str_eq(key, "battery.voltage") {
        data.battery_voltage = parse_centi_opt(val.as_str());
    } else if str_eq(key, "battery.type") {
        data.battery_type = Some(val);
    } else if str_eq(key, "input.voltage") {
        data.input_voltage = parse_centi_opt(val.as_str());
    } else if str_eq(key, "input.voltage.fault") {
        data.input_voltage_fault = parse_centi_opt(val.as_str());
    } else if str_eq(key, "input.frequency") {
        data.input_frequency = parse_centi_opt(val.as_str());
    } else if str_eq(key, "output.voltage") {
        data.output_voltage = parse_centi_opt(val.as_str());
    } else if str_eq(key, "output.voltage.nominal") {
        data.output_voltage_nominal = parse_centi_opt(val.as_str());
    } else if str_eq(key, "output.frequency") {
        data.output_frequency = parse_centi_opt(val.as_str());
    } else if str_eq(key, "output.frequency.nominal") {
        data.output_frequency_nominal = parse_centi_opt(val.as_str());
    } else if str_eq(key, "ups.load") {
        data.ups_load = parse_centi_opt(val.as_str());
    } else if str_eq(key, "ups.status") {
        data.status = val;
    } else if str_eq(key, "ups.realpower.nominal") {
        data.ups_realpower_nominal = parse_centi_opt(val.as_str());
    } else if str_eq(key, "ups.mfr") {
        data.ups_mfr = Some(val);
    } else if str_eq(key, "ups.model") {
        data.ups_model = Some(val);
    } else if str_eq(key, "ups.serial") {
        data.ups_serial = Some(val);
    } else if str_eq(key, "ups.firmware") {
        data.ups_firmware = Some(val);
    } else if str_eq(key, "ups.type") {
        data.ups_type = Some(val);
    } else if str_eq(key, "ups.beeper.status") {
        data.ups_beeper_status = Some(val);
    } else if str_eq(key, "driver.name") {
        data.driver_name = Some(val);
    } else if str_eq(key, "driver.version") {
        data.driver_version = Some(val);
    } else {
        let k = String::from_str(key);
        let ghost m = old(data).extended_vars.deep_view();
        let mut idx: usize = 0;
        let mut found = false;
        while idx < data.extended_vars.len() && !found
            invariant
                idx <= data.extended_vars@.len(),
                data == old(data),
                m == data.extended_vars.deep_view(),
                !found ==> forall|j: int| 0 <= j < idx ==> (#[trigger] m[j]).0 != key@,
                found ==> idx < m.len() && m[idx as int].0 == key@ && forall|j: int|
                    0 <= j < idx ==> (#[trigger] m[j]).0 != key@,
            decreases (if found { 0int } else { 1int }), data.extended_vars@.len() - idx,
        {
            if str_eq(data.extended_vars[idx].0.as_str(), key) {
                proof {
                    assert(m[idx as int].0 == key@);
                }
                found = true;
            } else {
                proof {
                    assert(m[idx as int].0 != key@);
                }
                idx = idx + 1;
            }
        }
        if found {
            proof {
                lemma_ext_upsert_found(m, key@, val@, idx as int);
            }
            data.extended_vars[idx] = (k, val);
            proof {
                assert(data.extended_vars.deep_view() =~= m.update(idx as int, (key@, val@)));
            }
        } else {
            proof {
                lemma_ext_upsert_absent(m, key@, val@);
            }
            data.extended_vars.push((k, val));
            proof {
                assert(data.extended_vars.deep_view() =~= m.push((key@, val@)));
            }
        }
    }
}

/// Apply one raw response line to the record under construction.
fn apply_line_exec(data: &mut UpsData, line: &str)
    ensures
        final(data)@ == apply_var_line(old(data)@, line@),
{
    proof {
        lemma_var_prefix();
    }
    if !str_starts_with(line, "VAR ") {
        return ;
    }
    let n = line.unicode_len();
    let dev_end = match find_char_from(line, ' ', 4) {
        None => {
            proof {
                lemma_find_skip(line@, ' ', 4, 0);
            }
            return ;
        },
        Some(d) => d,
    };
    proof {
        lemma_find_skip(line@, ' ', 4, 0);
        assert(line@.skip(4).skip(dev_end - 4 + 1) =~= line@.skip(dev_end + 1));
    }
    let sp = match find_char_from(line, ' ', dev_end + 1) {
        None => {
            proof {
                lemma_find_skip(line@, ' ', dev_end + 1, 0);
            }
            return ;
        },
        Some(sp) => sp,
    };
    proof {
        lemma_find_skip(line@, ' ', dev_end + 1, 0);
        assert(line@.skip(dev_end + 1).take(sp - dev_end - 1) =~= line@.subrange(
            dev_end + 1,
            sp as int,
        ));
        assert(line@.skip(dev_end + 1).skip(sp - dev_end - 1 + 1) =~= line@.subrange(
            sp + 1,
            n as int,
        ));
    }
    let key = line.substring_char(dev_end + 1, sp);
    let raw = line.substring_char(sp + 1, n);
    let val = trim_quotes(raw);
    apply_var_exec(data, key, val);
}

/// Parse a raw `LIST VAR` response into a telemetry record, then
/// derive power.  Never fails: what does not parse is skipped or left
/// absent, and unrecognized keys are retained in `extended_vars`.
pub fn parse_list_vars(response: &str) -> (r: UpsData)
    ensures
        r@ == spec_parse_list_vars(response@),
{
    let lines = split_lines_str(response);
    let ghost lv = lines@.map_values(|l: String| l@);
    let mut data = UpsData::default();
    proof {
        assert(lv.take(0) =~= Seq::<Seq<char>>::empty());
    }
    let mut idx: usize = 0;
    while idx < lines.len()
        invariant
            idx <= lines.len(),
            lv == lines@.map_values(|l: String| l@),
            data@ == parse_vars_model(lv.take(idx as int)),
        decreases lines.len() - idx,
    {
        apply_line_exec(&mut data, lines[idx].as_str());
        proof {
            assert(lv.take(idx + 1).drop_last() =~= lv.take(idx as int));
            assert(lv.take(idx + 1).last() == lv[idx as int]);
        }
        idx = idx + 1;
    }
    proof {
        assert(lv.take(lines@.len() as int) =~= lv);
    }
    data.calculate_power();
    data
}

/// Device name announced by a `UPS <name> "<description>"` listing
/// line; `None` for any other line.
pub open spec fn ups_name_of_line(line: Seq<char>) -> Option<Seq<char>> {
    if seq_starts_with(line, ups_prefix()) {
        let rest = line.skip(4);
        match find_from(rest, ' ', 0) {
            None => Some(rest),
            Some(i) => Some(rest.take(i)),
        }
    } else {
        None
    }
}

/// Command name announced by a `CMD <device> <command>` listing line;
/// `None` for any other line.
pub open spec fn cmd_of_line(line: Seq<char>) -> Option<Seq<char>> {
    if seq_starts_with(line, cmd_prefix()) {
        let rest = line.skip(4);
        match find_from(rest, ' ', 0) {
            None => None,
            Some(i) => Some(rest.skip(i + 1)),
        }
    } else {
        None
    }
}

/// Device names announced by the lines, in order.
pub open spec fn names_model(lines: Seq<Seq<char>>) -> Seq<Seq<char>>
    decreases lines.len(),
{
    if lines.len() == 0 {
        Seq::empty()
    } else {
        names_model(lines.drop_last()) + (match ups_name_of_line(lines.last()) {
            None => Seq::empty(),
            Some(nm) => seq![nm],
        })
    }
}

/// Command names announced by the lines, in order.
pub open spec fn cmds_model(lines: Seq<Seq<char>>) -> Seq<Seq<char>>
    decreases lines.len(),
{
    if lines.len() == 0 {
        Seq::empty()
    } else {
        cmds_model(lines.drop_last()) + (match cmd_of_line(lines.last()) {
            None => Seq::empty(),
            Some(c) => seq![c],
        })
    }
}

pub open spec fn spec_parse_ups_names(s: Seq<char>) -> Seq<Seq<char>> {
    names_model(split_lines(s))
}

pub open spec fn spec_parse_cmd_names(s: Seq<char>) -> Seq<Seq<char>> {
    cmds_model(split_lines(s))
}

/// Extract the device names from a raw `LIST UPS` response.
pub fn parse_ups_names(response: &str) -> (r: Vec<String>)
    ensures
        r@.map_values(|n: String| n@) == spec_parse_ups_names(response@),
{
    let lines = split_lines_str(response);
    let ghost lv = lines@.map_values(|l: String| l@);
    let mut out: Vec<String> = Vec::new();
    proof {
        assert(lv.take(0) =~= Seq::<Seq<char>>::empty());
        assert(out@.map_values(|n: String| n@) =~= Seq::<Seq<char>>::empty());
    }
    let mut idx: usize = 0;
    while idx < lines.len()
        invariant
            idx <= lines.len(),
            lv == lines@.map_values(|l: String| l@),
            out@.map_values(|n: String| n@) == names_model(lv.take(idx as int)),
        decreases lines.len() - idx,
    {
        let line = lines[idx].as_str();
        proof {
            lemma_ups_prefix();
            assert(lv[idx as int] == line@);
        }
        if str_starts_with(line, "UPS ") {
            let n = line.unicode_len();
            let name = match find_char_from(line, ' ', 4) {
                None => line.substring_char(4, n),
                Some(i) => line.substring_char(4, i),
            };
            proof {
                lemma_find_skip(line@, ' ', 4, 0);
                match find_from(line@.skip(4), ' ', 0) {
                    None => {
                        assert(line@.skip(4) =~= line@.subrange(4, n as int));
                    },
                    Some(i) => {
                        assert(line@.skip(4).take(i) =~= line@.subrange(4, i + 4));
                    },
                }
            }
            out.push(String::from_str(name));
            proof {
                let f = |x: String| x@;
                assert(out@.map_values(f) =~= out@.drop_last().map_values(f).push(name@));
                assert(out@.drop_last().map_values(f).push(name@) =~= out@.drop_last().map_values(
                    f,
                ) + seq![name@]);
            }
        }
        proof {
            assert(lv.take(idx + 1).drop_last() =~= lv.take(idx as int));
            assert(lv.take(idx + 1).last() == lv[idx as int]);
        }
        idx = idx + 1;
    }
    proof {
        assert(lv.take(lines@.len() as int) =~= lv);
    }
    out
}

/// Extract the command names from a raw `LIST CMD` response.
pub fn parse_cmd_names(response: &str) -> (r: Vec<String>)
    ensures
        r@.map_values(|n: String| n@) == spec_parse_cmd_names(response@),
{
    let lines = split_lines_str(response);
    let ghost lv = lines@.map_values(|l: String| l@);
    let mut out: Vec<String> = Vec::new();
    proof {
        assert(lv.take(0) =~= Seq::<Seq<char>>::empty());
        assert(out@.map_values(|n: String| n@) =~= Seq::<Seq<char>>::empty());
    }
    let mut idx: usize = 0;
    while idx < lines.len()
        invariant
            idx <= lines.len(),
            lv == lines@.map_values(|l: String| l@),
            out@.map_values(|n: String| n@) == cmds_model(lv.take(idx as int)),
        decreases lines.len() - idx,
    {
        let line = lines[idx].as_str();
        proof {
            lemma_cmd_prefix();
            assert(lv[idx as int] == line@);
        }
        if str_starts_with(line, "CMD ") {
            let n = line.unicode_len();
            match find_char_from(line, ' ', 4) {
                None => {
                    proof {
                        lemma_find_skip(line@, ' ', 4, 0);
                    }
                },
                Some(i) => {
                    proof {
                        lemma_find_skip(line@, ' ', 4, 0);
                        assert(line@.skip(4).skip(i - 4 + 1) =~= line@.subrange(i + 1, n as int));
                    }
                    let cmd = line.substring_char(i + 1, n);
                    out.push(String::from_str(cmd));
                    proof {
                        let f = |x: String| x@;
                        assert(out@.map_values(f) =~= out@.drop_last().map_values(f).push(cmd@));
                        assert(out@.drop_last().map_values(f).push(cmd@)
                            =~= out@.drop_last().map_values(f) + seq![cmd@]);
                    }
                },
            }
        }
        proof {
            assert(lv.take(idx + 1).drop_last() =~= lv.take(idx as int));
            assert(lv.take(idx + 1).last() == lv[idx as int]);
        }
        idx = idx + 1;
    }
    proof {
        assert(lv.take(lines@.len() as int) =~= lv);
    }
    out
}

} // verus!
