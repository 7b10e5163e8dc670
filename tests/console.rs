use subchunker::console::{parse_console, RunningMsg, COMPLETE};
use subchunker::decimal::parse_milli;
use subchunker::error::InstallError;

fn chars(s: &str) -> Vec<char> {
    s.chars().collect()
}

#[test]
fn progress_line_gives_progress_and_rate() {
    let r = parse_console("[Chunky] ... (45.2%: 12.3 cps)").unwrap();
    assert_eq!(r, vec![RunningMsg::Progress(45_200), RunningMsg::Result(12_300)]);
}

#[test]
fn complete_line_gives_only_progress() {
    let r = parse_console("[Chunky] ... (100.0%)").unwrap();
    assert_eq!(r, vec![RunningMsg::Progress(COMPLETE)]);
}

#[test]
fn line_without_marker_gives_nothing() {
    assert_eq!(parse_console("[Server thread/INFO]: Done (4.2s)!").unwrap(), vec![]);
    assert_eq!(parse_console("").unwrap(), vec![]);
}

#[test]
fn marker_line_without_percent_gives_nothing() {
    assert_eq!(parse_console("[Chunky] Task started for minecraft:overworld").unwrap(), vec![]);
}

#[test]
fn realistic_chunky_line() {
    let line = "[12:00:01] [Chunky] Task running for minecraft:overworld. Processed: 1234 chunks (12.34%: 87.5 cps), ETA: 0:01:23";
    let r = parse_console(line).unwrap();
    assert_eq!(r, vec![RunningMsg::Progress(12_340), RunningMsg::Result(87_500)]);
}

#[test]
fn malformed_percentage_is_a_parse_error() {
    assert_eq!(parse_console("[Chunky] (abc%: 1.0 cps)"), Err(InstallError::Parse));
}

#[test]
fn missing_rate_is_a_parse_error() {
    assert_eq!(parse_console("[Chunky] (50%)"), Err(InstallError::Parse));
    assert_eq!(parse_console("[Chunky] (50%: fast cps)"), Err(InstallError::Parse));
}

#[test]
fn decimal_text_in_thousandths() {
    assert_eq!(parse_milli(&chars("45.2")), Some(45_200));
    assert_eq!(parse_milli(&chars("12")), Some(12_000));
    assert_eq!(parse_milli(&chars("0.1234")), Some(123));
    assert_eq!(parse_milli(&chars(".5")), Some(500));
    assert_eq!(parse_milli(&chars("7.")), Some(7_000));
    assert_eq!(parse_milli(&chars("")), None);
    assert_eq!(parse_milli(&chars(".")), None);
    assert_eq!(parse_milli(&chars("1.2.3")), None);
    assert_eq!(parse_milli(&chars("-1")), None);
    assert_eq!(parse_milli(&chars("18446744073709551")), Some(18_446_744_073_709_551_000));
    assert_eq!(parse_milli(&chars("18446744073709552")), None);
    assert_eq!(parse_milli(&chars("99999999999999999999999")), None);
}
