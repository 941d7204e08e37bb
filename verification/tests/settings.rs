use memprobe::config::{
    default_file_name, resolve_sink, Config, ConfigError, SinkTarget, DEFAULT_INTERVAL_MS,
};

#[test]
fn default_name_holds_the_decimal_pid() {
    assert_eq!(default_file_name(1234), "memprobe-1234.csv");
    assert_eq!(default_file_name(7), "memprobe-7.csv");
    assert_eq!(default_file_name(10), "memprobe-10.csv");
    assert_eq!(default_file_name(100_000), "memprobe-100000.csv");
}

#[test]
fn default_name_of_the_smallest_and_largest_pid() {
    assert_eq!(default_file_name(0), "memprobe-0.csv");
    assert_eq!(default_file_name(u32::MAX), "memprobe-4294967295.csv");
}

#[test]
fn default_name_agrees_with_std_formatting() {
    for pid in [1u32, 9, 10, 11, 99, 100, 101, 65_535, 65_536, 4_194_304, 999_999_999] {
        assert_eq!(default_file_name(pid), format!("memprobe-{}.csv", pid));
    }
}

#[test]
fn no_flags_resolve_to_the_default_file() {
    assert_eq!(
        resolve_sink(1234, false, None),
        Ok(SinkTarget::File(String::from("memprobe-1234.csv")))
    );
}

#[test]
fn an_explicit_file_is_kept_as_given() {
    assert_eq!(
        resolve_sink(1234, false, Some(String::from("out/usage.csv"))),
        Ok(SinkTarget::File(String::from("out/usage.csv")))
    );
    assert_eq!(
        resolve_sink(1234, false, Some(String::new())),
        Ok(SinkTarget::File(String::new()))
    );
}

#[test]
fn the_stdout_flag_resolves_to_stdout() {
    assert_eq!(resolve_sink(1234, true, None), Ok(SinkTarget::Stdout));
}

#[test]
fn stdout_together_with_a_file_is_refused() {
    assert_eq!(
        resolve_sink(1234, true, Some(String::from("usage.csv"))),
        Err(ConfigError::ConflictingSinks)
    );
    assert_eq!(
        Config::resolve(1234, None, true, Some(String::from("usage.csv"))),
        Err(ConfigError::ConflictingSinks)
    );
    assert_eq!(
        Config::resolve(1234, Some(10), true, Some(String::from("memprobe-1234.csv"))),
        Err(ConfigError::ConflictingSinks)
    );
}

#[test]
fn the_conflict_is_put_in_words() {
    let text = ConfigError::ConflictingSinks.message();
    assert_eq!(text, "the table goes either to standard output or to a file, not to both");
}

#[test]
fn the_interval_defaults_to_250_milliseconds() {
    assert_eq!(DEFAULT_INTERVAL_MS, 250);
    let config = Config::resolve(1234, None, false, None).unwrap();
    assert_eq!(config.interval_ms, 250);
    assert_eq!(config.pid, 1234);
    assert_eq!(config.sink, SinkTarget::File(String::from("memprobe-1234.csv")));
}

#[test]
fn any_interval_is_accepted() {
    for ms in [0u64, 1, 249, 250, 251, 60_000, u64::MAX] {
        let config = Config::resolve(42, Some(ms), true, None).unwrap();
        assert_eq!(config.interval_ms, ms);
        assert_eq!(config.pid, 42);
        assert_eq!(config.sink, SinkTarget::Stdout);
    }
}

#[test]
fn a_config_is_resolved_field_by_field() {
    let config = Config::resolve(99, Some(1000), false, Some(String::from("a.csv"))).unwrap();
    assert_eq!(
        config,
        Config { pid: 99, interval_ms: 1000, sink: SinkTarget::File(String::from("a.csv")) }
    );
}

#[test]
fn clones_are_equal_to_their_source() {
    let config = Config::resolve(99, Some(1000), false, None).unwrap();
    assert_eq!(config.clone(), config);
    assert_eq!(SinkTarget::Stdout.clone(), SinkTarget::Stdout);
    let file = SinkTarget::File(String::from("x.csv"));
    assert_eq!(file.clone(), file);
}
