use component_runtime::args;

#[test]
fn queue_depth_validator_test_default() {
    assert!(args::queue_depth_validator(args::QUEUE_DEPTH_DEFAULT.to_string()).is_ok());
}

#[test]
fn queue_depth_validator_test_out_of_range() {
    assert!(args::queue_depth_validator((args::QUEUE_DEPTH_MAX + 1).to_string()).is_err());
}

#[test]
fn block_size_validator_test_default() {
    assert!(args::block_size_validator(args::BLOCK_SIZE_DEFAULT.to_string()).is_ok());
}

#[test]
fn block_size_validator_test_out_of_range() {
    assert!(args::block_size_validator((args::BLOCK_SIZE_MAX + 1).to_string()).is_err());
}

#[test]
fn max_io_size_validator_test_default() {
    assert!(args::max_io_size_validator(args::MAX_IO_SIZE_DEFAULT.to_string()).is_ok());
}

#[test]
fn max_io_size_validator_test_out_of_range() {
    assert!(args::max_io_size_validator((args::MAX_IO_SIZE_MAX + 1).to_string()).is_err());
}

#[test]
fn max_io_count_validator_test_default() {
    assert!(args::max_io_count_validator(args::MAX_IO_COUNT_DEFAULT.to_string()).is_ok());
}

#[test]
fn max_io_count_validator_test_out_of_range() {
    assert!(args::max_io_count_validator((args::MAX_IO_COUNT_MAX + 1).to_string()).is_err());
}

#[test]
fn thread_count_validator_test_default() {
    assert!(args::thread_count_validator(args::THREAD_COUNT_DEFAULT.to_string()).is_ok());
}

#[test]
fn thread_count_validator_test_out_of_range() {
    assert!(args::thread_count_validator((args::THREAD_COUNT_MAX + 1).to_string()).is_err());
}

#[test]
fn validators_accept_both_ends_of_their_ranges() {
    assert!(args::queue_depth_validator("1".to_string()).is_ok());
    assert!(args::queue_depth_validator("256".to_string()).is_ok());
    assert!(args::block_size_validator("1048576".to_string()).is_ok());
    assert!(args::max_io_count_validator("2000000".to_string()).is_ok());
    assert!(args::thread_count_validator("16".to_string()).is_ok());
}

#[test]
fn validators_refuse_zero() {
    assert_eq!(
        args::queue_depth_validator("0".to_string()),
        Err(" queue_depth value 0 out of range.".to_string())
    );
    assert_eq!(
        args::block_size_validator("0".to_string()),
        Err(" block_size value 0 out of range.".to_string())
    );
}

#[test]
fn validators_refuse_what_is_no_number() {
    assert_eq!(
        args::max_io_size_validator("many".to_string()),
        Err("max_io_size expects a number. Found \"many\"".to_string())
    );
    assert_eq!(
        args::thread_count_validator("".to_string()),
        Err("thread_count expects a number. Found \"\"".to_string())
    );
    assert_eq!(
        args::max_io_count_validator("-1".to_string()),
        Err("max_io_count expects a number. Found \"-1\"".to_string())
    );
}

#[test]
fn validate_range_reads_the_number_from_the_text() {
    // The number counts, not the text that was handed in beside it.
    assert!(args::validate_range("k", "7".to_string(), 7, 7).is_ok());
    assert!(args::validate_range("k", "8".to_string(), 7, 7).is_err());
    assert!(args::validate_range("k", "6".to_string(), 7, 7).is_err());
}

#[test]
fn check_range_judges_the_number_it_is_given() {
    assert_eq!(args::check_range("k", "x", Some(5), 1, 10), Ok(()));
    assert_eq!(args::check_range("k", "x", Some(1), 1, 10), Ok(()));
    assert_eq!(args::check_range("k", "x", Some(10), 1, 10), Ok(()));
    assert_eq!(
        args::check_range("k", "x", Some(11), 1, 10),
        Err(" k value x out of range.".to_string())
    );
    assert_eq!(
        args::check_range("k", "x", None, 1, 10),
        Err("k expects a number. Found \"x\"".to_string())
    );
}

#[test]
fn to_string_min_max_prints_both_ends() {
    assert_eq!(args::to_string_min_max(1, 256), "Min:1 Max:256");
    assert_eq!(args::to_string_min_max(0, u64::MAX), "Min:0 Max:18446744073709551615");
}

#[test]
fn defaults_lie_in_their_ranges() {
    assert_eq!(args::MIB, 1024 * 1024);
    assert_eq!(args::BLOCK_SIZE_DEFAULT, 8192);
    assert_eq!(args::TARGET_SIZE_DEFAULT, 20 * 1024 * 1024);
    assert!(args::QUEUE_DEPTH_MIN <= args::QUEUE_DEPTH_DEFAULT);
    assert!(args::QUEUE_DEPTH_DEFAULT <= args::QUEUE_DEPTH_MAX);
    assert!(args::MAX_IO_SIZE_DEFAULT <= args::MAX_IO_SIZE_MAX);
}

#[test]
fn parse_flag_reads_true_and_false_only() {
    assert_eq!(args::parse_flag("true"), Some(true));
    assert_eq!(args::parse_flag("false"), Some(false));
    assert_eq!(args::parse_flag("True"), None);
    assert_eq!(args::parse_flag(""), None);
}

fn default_texts() -> args::ArgTexts {
    args::ArgTexts {
        queue_depth: args::QUEUE_DEPTH_DEFAULT.to_string(),
        block_size: args::BLOCK_SIZE_DEFAULT.to_string(),
        max_io_size: args::MAX_IO_SIZE_DEFAULT.to_string(),
        align: args::ALIGN_DEFAULT.to_string(),
        max_io_count: args::MAX_IO_COUNT_DEFAULT.to_string(),
        target_length: args::TARGET_SIZE_DEFAULT.to_string(),
        thread_count: args::THREAD_COUNT_DEFAULT.to_string(),
        target_type: args::AvailableTargets::value_to_friendly_name(args::TARGET_TYPE_DEFAULT)
            .to_string(),
        sequential: args::SEQUENTIAL_DEFAULT.to_string(),
        output_config_file: args::OUTPUT_CONFIG_FILE_DEFAULT.to_string(),
        target: "/tmp/target".to_string(),
    }
}

#[test]
fn the_default_texts_give_the_default_arguments() {
    let parsed = default_texts().into_args().unwrap();
    assert_eq!(parsed.queue_depth, 40);
    assert_eq!(parsed.block_size, 8192);
    assert_eq!(parsed.max_io_size, 1048576);
    assert!(parsed.align);
    assert_eq!(parsed.max_io_count, 1000);
    assert_eq!(parsed.target_length, 20971520);
    assert_eq!(parsed.thread_count, 3);
    assert_eq!(parsed.target_type, args::AvailableTargets::FileTarget);
    assert!(parsed.sequential);
    assert_eq!(parsed.output_config_file, "/tmp/output.config");
    assert_eq!(parsed.target, "/tmp/target");
}

#[test]
fn a_text_of_the_wrong_type_gives_no_arguments() {
    let mut texts = default_texts();
    texts.align = "yes".to_string();
    assert!(texts.into_args().is_none());
    let mut texts = default_texts();
    texts.target_type = "blob".to_string();
    assert!(texts.into_args().is_none());
    let mut texts = default_texts();
    texts.block_size = "8k".to_string();
    assert!(texts.into_args().is_none());
}

#[test]
fn a_number_is_an_optional_plus_and_digits() {
    assert!(args::validate_range("k", "+7".to_string(), 7, 7).is_ok());
    assert!(args::validate_range("k", "007".to_string(), 7, 7).is_ok());
    assert!(args::validate_range("k", "0".to_string(), 0, 0).is_ok());
    assert!(args::validate_range("k", "18446744073709551615".to_string(), 0, u64::MAX).is_ok());
    for text in ["", "+", "-7", " 7", "7 ", "7_0", "0x7", "++7", "7+", "18446744073709551616"] {
        assert_eq!(
            args::validate_range("k", text.to_string(), 0, u64::MAX),
            Err(format!("k expects a number. Found \"{}\"", text))
        );
    }
    assert_eq!(args::parse_count("40"), Some(40));
    assert_eq!(args::parse_count("forty"), None);
}
