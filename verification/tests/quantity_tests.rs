use recommender::quantity::{
    format_cpu_cores_3dp, format_cpu_value, format_mem_mib_whole, format_memory_value,
    parse_resource_value,
};

#[test]
fn cpu_below_one_millicore_is_floored_to_1m() {
    assert_eq!(format_cpu_value(0), "1m");
    assert_eq!(format_cpu_value(999), "1m");
}

#[test]
fn cpu_below_one_core_rounds_millicores_up() {
    assert_eq!(format_cpu_value(1000), "1m");
    assert_eq!(format_cpu_value(1001), "2m");
    assert_eq!(format_cpu_value(180_000), "180m");
    assert_eq!(format_cpu_value(999_999), "1000m");
}

#[test]
fn cpu_from_one_core_renders_two_decimals() {
    assert_eq!(format_cpu_value(1_000_000), "1.00");
    assert_eq!(format_cpu_value(2_300_000), "2.30");
    assert_eq!(format_cpu_value(2_305_000), "2.31"); // half up
    assert_eq!(format_cpu_value(12_344_999), "12.34");
}

#[test]
fn memory_below_one_mib_is_floored_to_1mi() {
    assert_eq!(format_memory_value(0), "1Mi");
    assert_eq!(format_memory_value(500_000), "1Mi");
    assert_eq!(format_memory_value(1_048_575), "1Mi");
}

#[test]
fn memory_below_one_gib_rounds_mib_up() {
    assert_eq!(format_memory_value(1_048_576), "1Mi");
    assert_eq!(format_memory_value(1_048_577), "2Mi");
    assert_eq!(format_memory_value(5_000_000), "5Mi");
}

#[test]
fn memory_from_one_gib_renders_two_decimals_with_gi() {
    assert_eq!(format_memory_value(1_073_741_824), "1.00Gi");
    assert_eq!(format_memory_value(5_000_000_000), "4.66Gi");
}

#[test]
fn rationale_number_formats() {
    assert_eq!(format_cpu_cores_3dp(150_000), "0.150");
    assert_eq!(format_cpu_cores_3dp(2_345_678), "2.346");
    assert_eq!(format_mem_mib_whole(134_217_728), "128");
}

#[test]
fn parse_handles_each_suffix() {
    assert_eq!(parse_resource_value("100m"), 100_000);
    assert_eq!(parse_resource_value("128Mi"), 128_000);
    assert_eq!(parse_resource_value("2Gi"), 2_048_000);
    assert_eq!(parse_resource_value("1.5"), 1_500_000);
    assert_eq!(parse_resource_value("2.30"), 2_300_000);
    assert_eq!(parse_resource_value("not set"), 0);
    assert_eq!(parse_resource_value(""), 0);
    assert_eq!(parse_resource_value("abc"), 0);
}

#[test]
fn cpu_format_parse_round_trip_within_tolerance() {
    // x in cores: 0.0005, 0.5, 2.3; microcores in, parsed value out is
    // in millicores scaled by 1000, which is microcores again.
    for &(cores, tolerance) in &[(0.0005f64, 0.001f64), (0.5, 0.001), (2.3, 0.005)] {
        let micro = (cores * 1_000_000.0).round() as u64;
        let text = format_cpu_value(micro);
        let parsed = parse_resource_value(&text) as f64 / 1_000_000.0;
        assert!(
            (parsed - cores).abs() <= tolerance,
            "cpu {} -> {} -> {}",
            cores,
            text,
            parsed
        );
    }
}

#[test]
fn memory_format_parse_round_trip_within_tolerance() {
    // x in bytes: 500000, 5_000_000, 5_000_000_000; parsed value is in
    // MiB scaled by 1000.
    let mib = 1_048_576.0f64;
    for &(bytes, tolerance) in &[
        (500_000u64, mib),
        (5_000_000, mib),
        (5_000_000_000, 0.005 * 1024.0 * mib),
    ] {
        let text = format_memory_value(bytes);
        let parsed_bytes = parse_resource_value(&text) as f64 / 1000.0 * mib;
        assert!(
            (parsed_bytes - bytes as f64).abs() <= tolerance,
            "mem {} -> {} -> {}",
            bytes,
            text,
            parsed_bytes
        );
    }
}
