use channel_engine::audio_server::audio_sink::{
    input_port_name, output_port_name, port_name_regex, push_decimal, INPUT_PORT_NAME_BASE,
    OUTPUT_PORT_NAME_BASE,
};

#[test]
fn names_follow_from_the_number() {
    assert_eq!(input_port_name(1), "input_port_1");
    assert_eq!(output_port_name(1), "output_port_1");
    assert_eq!(input_port_name(3), "input_port_3");
    assert_eq!(output_port_name(12), "output_port_12");
    assert_eq!(input_port_name(100), "input_port_100");
    assert_eq!(output_port_name(90_210), "output_port_90210");
}

#[test]
fn names_begin_with_their_base() {
    assert_eq!(INPUT_PORT_NAME_BASE, "input_port_");
    assert_eq!(OUTPUT_PORT_NAME_BASE, "output_port_");
    assert!(input_port_name(7).starts_with(INPUT_PORT_NAME_BASE));
    assert!(output_port_name(7).starts_with(OUTPUT_PORT_NAME_BASE));
}

#[test]
fn decimal_numerals_match_the_standard_ones() {
    for n in [0usize, 1, 9, 10, 11, 99, 100, 101, 999, 1000, 65_535, 1_000_000, usize::MAX] {
        let mut text = String::new();
        push_decimal(&mut text, n);
        assert_eq!(text, n.to_string());
    }
    for n in 0usize..2000 {
        let mut text = String::from("x");
        push_decimal(&mut text, n);
        assert_eq!(text, format!("x{}", n));
    }
}

#[test]
fn the_pattern_matches_every_port_of_the_client() {
    assert_eq!(port_name_regex("123"), "123:.*");
    assert_eq!(port_name_regex(""), ":.*");
    assert_eq!(port_name_regex("fuzz box"), "fuzz box:.*");
}
