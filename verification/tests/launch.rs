use orbit_protocol::Rgb;
use orbit_protocol::launch::{parse_ansi_palette, take_ansi_palette, take_launch};

const ANSI_PALETTE_ARGUMENT: &str = "--ansi-palette-v1";
const TEST_ANSI_PALETTE: &str = "000102,101112,202122,303132,404142,505152,606162,707172,808182,909192,a0a1a2,b0b1b2,c0c1c2,d0d1d2,e0e1e2,f0f1f2";

fn strings(values: &[&str]) -> Vec<String> {
    values.iter().map(|value| value.to_string()).collect()
}

#[test]
fn ansi_palette_is_bounded_and_resets_to_supplied_defaults() {
    let mut arguments = strings(&[
        "/tmp/orbit.sock",
        ANSI_PALETTE_ARGUMENT,
        TEST_ANSI_PALETTE,
        "--",
        "/bin/sh",
    ]);
    let colors = take_ansi_palette(&mut arguments).unwrap().expect("palette option");
    assert_eq!(arguments, ["/tmp/orbit.sock", "--", "/bin/sh"].map(String::from));
    for (index, color) in colors.iter().enumerate() {
        let high = (index as u8) * 16;
        assert_eq!(*color, Rgb { r: high, g: high + 1, b: high + 2 });
    }

    for value in [
        "",
        "000000",
        "00000g",
        "000000,",
        TEST_ANSI_PALETTE.trim_end_matches(",f0f1f2"),
    ] {
        let mut arguments = strings(&[ANSI_PALETTE_ARGUMENT, value]);
        assert!(take_ansi_palette(&mut arguments).is_err(), "accepted {value:?}");
    }
    assert!(take_ansi_palette(&mut strings(&[ANSI_PALETTE_ARGUMENT])).is_err());
    assert!(
        take_ansi_palette(&mut strings(&[
            "/tmp/orbit.sock",
            "trailing",
            ANSI_PALETTE_ARGUMENT,
            TEST_ANSI_PALETTE,
            "--",
        ]))
        .is_err()
    );
    let mut duplicate = strings(&[
        ANSI_PALETTE_ARGUMENT,
        TEST_ANSI_PALETTE,
        ANSI_PALETTE_ARGUMENT,
        TEST_ANSI_PALETTE,
    ]);
    assert!(take_ansi_palette(&mut duplicate).is_err());
    let mut child_arguments = strings(&["--", "--ansi-palette-v1", "child-value"]);
    assert!(take_ansi_palette(&mut child_arguments).unwrap().is_none());
    assert_eq!(child_arguments, strings(&["--", "--ansi-palette-v1", "child-value"]));
}

#[test]
fn palette_errors_name_the_fault() {
    assert_eq!(
        parse_ansi_palette("000000"),
        Err("ANSI palette must contain exactly 16 colors")
    );
    assert_eq!(
        parse_ansi_palette("00000g"),
        Err("ANSI palette colors must be six hexadecimal digits")
    );
    let seventeen = format!("{TEST_ANSI_PALETTE},ffffff");
    assert_eq!(
        parse_ansi_palette(&seventeen),
        Err("ANSI palette must contain exactly 16 colors")
    );
    let upper = TEST_ANSI_PALETTE.to_uppercase();
    let colors = parse_ansi_palette(&upper).unwrap();
    assert_eq!(colors[10], Rgb { r: 0xa0, g: 0xa1, b: 0xa2 });
    assert_eq!(
        take_ansi_palette(&mut strings(&[
            ANSI_PALETTE_ARGUMENT,
            TEST_ANSI_PALETTE,
            ANSI_PALETTE_ARGUMENT,
        ])),
        Err("duplicate --ansi-palette-v1 argument")
    );
    assert_eq!(
        take_ansi_palette(&mut strings(&["a", "b", "c", ANSI_PALETTE_ARGUMENT, TEST_ANSI_PALETTE])),
        Err("unexpected argument before the command separator")
    );
    assert_eq!(
        take_ansi_palette(&mut strings(&[ANSI_PALETTE_ARGUMENT, "--", TEST_ANSI_PALETTE])),
        Err("missing --ansi-palette-v1 value")
    );
}

#[test]
fn management_launch_takes_three_identities() {
    let mut arguments = strings(&[
        "/tmp/orbit.sock",
        "--management-v1",
        "session-1",
        "run-1",
        "component-1",
        "--",
        "/bin/sh",
    ]);
    let launch = take_launch(&mut arguments).unwrap().expect("management option");
    assert_eq!(launch.session_id, "session-1");
    assert_eq!(launch.run_id, "run-1");
    assert_eq!(launch.component_generation, "component-1");
    assert_eq!(arguments, strings(&["/tmp/orbit.sock", "--", "/bin/sh"]));

    let mut absent = strings(&["/tmp/orbit.sock", "--", "--management-v1", "a", "b", "c"]);
    assert!(take_launch(&mut absent).unwrap().is_none());
    assert_eq!(absent.len(), 6);
}

#[test]
fn management_launch_refusals() {
    let option = "--management-v1";
    assert_eq!(
        take_launch(&mut strings(&[option, "a", "b", "c", option, "d", "e", "f"])).err(),
        Some("duplicate --management-v1 argument")
    );
    assert_eq!(
        take_launch(&mut strings(&[option, "a", "b", "--", "c"])).err(),
        Some("--management-v1 requires Session, run, and component identities")
    );
    assert_eq!(
        take_launch(&mut strings(&[option, "", "b", "c"])).err(),
        Some("Session ID must contain 1 through 128 UTF-8 bytes")
    );
    let long = "x".repeat(129);
    assert_eq!(
        take_launch(&mut strings(&[option, "a", &long, "c"])).err(),
        Some("run ID must contain 1 through 128 UTF-8 bytes")
    );
    assert_eq!(
        take_launch(&mut strings(&[option, "a", "b", ""])).err(),
        Some("component generation must contain 1 through 128 UTF-8 bytes")
    );
    let exact = "y".repeat(128);
    let launch = take_launch(&mut strings(&[option, &exact, "b", "c"])).unwrap().unwrap();
    assert_eq!(launch.session_id.len(), 128);
}
