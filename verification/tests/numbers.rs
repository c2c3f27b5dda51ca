use stars::config::{into_config, read_config_values, read_parameter, Arguments, Param};
use stars::keycheck::fnv64;
use stars::num::{dec2_u64, dec_u64, hex_u64, parse_u16, parse_u64};
use stars::timefmt::system_get_time;

#[test]
fn decimal_rendering() {
    assert_eq!(dec_u64(0), "0");
    assert_eq!(dec_u64(7), "7");
    assert_eq!(dec_u64(6057), "6057");
    assert_eq!(dec_u64(u64::MAX), "18446744073709551615");
    assert_eq!(dec2_u64(3), "03");
    assert_eq!(dec2_u64(42), "42");
}

#[test]
fn hexadecimal_rendering() {
    assert_eq!(hex_u64(0), "0000000000000000");
    assert_eq!(hex_u64(0xdeadbeef), "00000000deadbeef");
    assert_eq!(hex_u64(u64::MAX), "ffffffffffffffff");
}

#[test]
fn fnv_reference_values() {
    // Published FNV-1a 64 values: the empty input is the offset
    // basis, and "a" folds one byte in.
    assert_eq!(fnv64(b""), 0xcbf29ce484222325);
    assert_eq!(fnv64(b"a"), 0xaf63dc4c8601ec8c);
}

#[test]
fn decimal_parsing() {
    assert_eq!(parse_u64("0"), Some(0));
    assert_eq!(parse_u64("6057"), Some(6057));
    assert_eq!(parse_u64("18446744073709551615"), Some(u64::MAX));
    assert_eq!(parse_u64("18446744073709551616"), None);
    assert_eq!(parse_u64(""), None);
    assert_eq!(parse_u64("12x"), None);
    assert_eq!(parse_u64("-3"), None);
    assert_eq!(parse_u16("6057"), Some(6057));
    assert_eq!(parse_u16("65535"), Some(65535));
    assert_eq!(parse_u16("65536"), None);
}

#[test]
fn time_rendering() {
    assert_eq!(system_get_time(0), "1970/01/01 00:00:00");
    assert_eq!(system_get_time(86399), "1970/01/01 23:59:59");
    assert_eq!(system_get_time(86400), "1970/01/02 00:00:00");
    assert_eq!(system_get_time(1_700_000_000), "2023/11/14 22:13:20");
}

#[test]
fn config_sources() {
    let p = read_parameter(Arguments {
        port: 7000,
        libdir: "lib".to_string(),
        keydir: "keys".to_string(),
        timeout: 30000,
        visualize: false,
    });
    assert_eq!(p.port, 7000);
    assert_eq!(p.libdir, "lib");
    assert_eq!(p.keydir, "keys");
    assert_eq!(p.timeout, 30000);

    let p = read_config_values(
        Some("6057".to_string()),
        Some("takaserv-lib".to_string()),
        Some("".to_string()),
        Some("30000".to_string()),
    )
    .unwrap();
    assert_eq!(p.port, 6057);
    assert_eq!(p.timeout, 30000);
    assert!(read_config_values(None, Some("l".to_string()), Some("k".to_string()), Some("1".to_string())).is_none());
    assert!(read_config_values(
        Some("notanumber".to_string()),
        Some("l".to_string()),
        Some("k".to_string()),
        Some("1".to_string()),
    )
    .is_none());
    assert!(read_config_values(
        Some("70000".to_string()),
        Some("l".to_string()),
        Some("k".to_string()),
        Some("1".to_string()),
    )
    .is_none());

    // An empty key directory falls back to the library directory.
    let c = into_config(Param {
        port: 1,
        libdir: "lib".to_string(),
        keydir: "".to_string(),
        timeout: 2,
    });
    assert_eq!(c.keydir, "lib");
    let c = into_config(Param {
        port: 1,
        libdir: "lib".to_string(),
        keydir: "keys".to_string(),
        timeout: 2,
    });
    assert_eq!(c.keydir, "keys");
}
