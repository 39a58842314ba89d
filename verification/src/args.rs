//! The arguments of the IO benchmark: their defaults, their ranges, and the
//! checks that the command line is held to.

use vstd::prelude::*;
use crate::text::{decimal_text, decimal_u64, is_decimal_of, parse_u64, same_text};

verus! {

/// What kind of thing the benchmark reads and writes.
#[derive(Clone, Copy, Debug, PartialEq, Eq, Structural)]
pub enum AvailableTargets {
    /// A file in a filesystem.
    FileTarget,
}

/// The name by which the command line calls a file target.
pub const FILE_TARGET_NAME: &'static str = "file";

impl AvailableTargets {
    /// The name by which the command line calls the target type.
    pub fn value_to_friendly_name(value: AvailableTargets) -> (name: &'static str)
        ensures
            name@ == FILE_TARGET_NAME@,
    {
        match value {
            AvailableTargets::FileTarget => FILE_TARGET_NAME,
        }
    }

    /// The target type that the command line calls `name`.
    pub fn friendly_name_to_value(name: &str) -> (value: Option<AvailableTargets>)
        ensures
            value == if name@ == FILE_TARGET_NAME@ {
                Some(AvailableTargets::FileTarget)
            } else {
                None
            },
    {
        if same_text(name, FILE_TARGET_NAME) {
            Some(AvailableTargets::FileTarget)
        } else {
            None
        }
    }
}

/// The arguments of one run.
#[derive(Debug)]
pub struct ParseArgs {
    /// Limit on the number of outstanding IOs: those generated but not complete.
    pub queue_depth: usize,
    /// A header is written at the start of each block; this is the block's size.
    pub block_size: u64,
    /// The largest number of bytes read or written in one operation.
    pub max_io_size: u64,
    /// Whether IOs are aligned to `block_size`.
    pub align: bool,
    /// How many IO operations to generate, not counting those that verify.
    pub max_io_count: u64,
    /// IOs are issued for offsets in `[0, target_length)`.
    pub target_length: u64,
    /// How many threads issue IOs.
    pub thread_count: usize,
    /// How the target is opened and which IO functions are called on it.
    pub target_type: AvailableTargets,
    /// Whether the target is accessed in the order of its offsets.
    pub sequential: bool,
    /// The file to which the arguments of the run are written.
    pub output_config_file: String,
    /// What the IOs are performed on.
    pub target: String,
}

pub const KIB: u64 = 1024;

pub const MIB: u64 = KIB * KIB;

pub const QUEUE_DEPTH_MIN: usize = 1;

pub const QUEUE_DEPTH_MAX: usize = 256;

pub const QUEUE_DEPTH_DEFAULT: usize = 40;

pub const BLOCK_SIZE_MIN: u64 = 1;

pub const BLOCK_SIZE_MAX: u64 = MIB;

pub const BLOCK_SIZE_DEFAULT: u64 = 8 * KIB;

pub const MAX_IO_SIZE_MIN: u64 = 1;

pub const MAX_IO_SIZE_MAX: u64 = MIB;

pub const MAX_IO_SIZE_DEFAULT: u64 = MIB;

pub const ALIGN_DEFAULT: bool = true;

pub const MAX_IO_COUNT_MIN: u64 = 1;

pub const MAX_IO_COUNT_MAX: u64 = 2_000_000;

pub const MAX_IO_COUNT_DEFAULT: u64 = 1000;

pub const TARGET_SIZE_DEFAULT: u64 = 20 * MIB;

pub const THREAD_COUNT_MIN: usize = 1;

pub const THREAD_COUNT_MAX: usize = 16;

pub const THREAD_COUNT_DEFAULT: usize = 3;

pub const TARGET_TYPE_DEFAULT: AvailableTargets = AvailableTargets::FileTarget;

pub const SEQUENTIAL_DEFAULT: bool = true;

pub const OUTPUT_CONFIG_FILE_DEFAULT: &'static str = "/tmp/output.config";

/// The text that tells the user of a range: `Min:` and the least value, then
/// ` Max:` and the greatest, each as the number is printed.
pub fn to_string_min_max(min: u64, max: u64) -> (text: String)
    ensures
        exists|least: Seq<char>, greatest: Seq<char>|
            is_decimal_of(least, min) && is_decimal_of(greatest, max) && text@ == "Min:"@ + least
                + " Max:"@ + greatest,
{
    let least = decimal_text(min);
    let greatest = decimal_text(max);
    let mut text = "Min:".to_owned();
    text.append(least.as_str());
    text.append(" Max:");
    text.append(greatest.as_str());
    text
}

/// What is said of a value that is no number.
pub open spec fn not_a_number(key: Seq<char>, val: Seq<char>) -> Seq<char> {
    key + " expects a number. Found \""@ + val + "\""@
}

/// What is said of a number outside its range.
pub open spec fn out_of_range(key: Seq<char>, val: Seq<char>) -> Seq<char> {
    " "@ + key + " value "@ + val + " out of range."@
}

/// What the check of an argument's text gives, once the text has been read as a
/// number: nothing to object where the number lies in `[min, max]`, else the
/// objection.
pub open spec fn range_verdict(
    key: Seq<char>,
    val: Seq<char>,
    number: Option<u64>,
    min: u64,
    max: u64,
) -> Result<(), Seq<char>> {
    match number {
        None => Err(not_a_number(key, val)),
        Some(number) => if min <= number <= max {
            Ok(())
        } else {
            Err(out_of_range(key, val))
        },
    }
}

/// The mathematical value of a check's result.
pub open spec fn verdict_of(checked: Result<(), String>) -> Result<(), Seq<char>> {
    match checked {
        Ok(_) => Ok(()),
        Err(text) => Err(text@),
    }
}

/// Holds the number that was read from the text `val` of the argument `key`
/// to the range `[min, max]`. `number` is `None` where the text is no number.
pub fn check_range(key: &str, val: &str, number: Option<u64>, min: u64, max: u64) -> (checked:
    Result<(), String>)
    ensures
        verdict_of(checked) == range_verdict(key@, val@, number, min, max),
{
    match number {
        None => {
            let mut text = key.to_owned();
            text.append(" expects a number. Found \"");
            text.append(val);
            text.append("\"");
            Err(text)
        },
        Some(number) => {
            if min <= number && number <= max {
                Ok(())
            } else {
                let mut text = " ".to_owned();
                text.append(key);
                text.append(" value ");
                text.append(val);
                text.append(" out of range.");
                Err(text)
            }
        },
    }
}

/// Checks that the text `val` of the argument `key` is a number in
/// `[min, max]`.
pub fn validate_range(key: &str, val: String, min: u64, max: u64) -> (checked: Result<(), String>)
    ensures
        verdict_of(checked) == range_verdict(key@, val@, decimal_u64(val@), min, max),
{
    let number = parse_u64(val.as_str());
    check_range(key, val.as_str(), number, min, max)
}

/// Checks the text of `queue_depth`.
pub fn queue_depth_validator(val: String) -> (checked: Result<(), String>)
    ensures
        verdict_of(checked) == range_verdict(
            "queue_depth"@,
            val@,
            decimal_u64(val@),
            QUEUE_DEPTH_MIN as u64,
            QUEUE_DEPTH_MAX as u64,
        ),
{
    validate_range("queue_depth", val, QUEUE_DEPTH_MIN as u64, QUEUE_DEPTH_MAX as u64)
}

/// Checks the text of `block_size`.
pub fn block_size_validator(val: String) -> (checked: Result<(), String>)
    ensures
        verdict_of(checked) == range_verdict(
            "block_size"@,
            val@,
            decimal_u64(val@),
            BLOCK_SIZE_MIN,
            BLOCK_SIZE_MAX,
        ),
{
    validate_range("block_size", val, BLOCK_SIZE_MIN, BLOCK_SIZE_MAX)
}

/// Checks the text of `max_io_size`.
pub fn max_io_size_validator(val: String) -> (checked: Result<(), String>)
    ensures
        verdict_of(checked) == range_verdict(
            "max_io_size"@,
            val@,
            decimal_u64(val@),
            MAX_IO_SIZE_MIN,
            MAX_IO_SIZE_MAX,
        ),
{
    validate_range("max_io_size", val, MAX_IO_SIZE_MIN, MAX_IO_SIZE_MAX)
}

/// Checks the text of `max_io_count`.
pub fn max_io_count_validator(val: String) -> (checked: Result<(), String>)
    ensures
        verdict_of(checked) == range_verdict(
            "max_io_count"@,
            val@,
            decimal_u64(val@),
            MAX_IO_COUNT_MIN,
            MAX_IO_COUNT_MAX,
        ),
{
    validate_range("max_io_count", val, MAX_IO_COUNT_MIN, MAX_IO_COUNT_MAX)
}

/// Checks the text of `thread_count`.
pub fn thread_count_validator(val: String) -> (checked: Result<(), String>)
    ensures
        verdict_of(checked) == range_verdict(
            "thread_count"@,
            val@,
            decimal_u64(val@),
            THREAD_COUNT_MIN as u64,
            THREAD_COUNT_MAX as u64,
        ),
{
    validate_range("thread_count", val, THREAD_COUNT_MIN as u64, THREAD_COUNT_MAX as u64)
}

/// The count that `text` writes: a number that fits the machine's word.
pub open spec fn count_of(text: Seq<char>) -> Option<usize> {
    match decimal_u64(text) {
        Some(number) => if number <= usize::MAX {
            Some(number as usize)
        } else {
            None
        },
        None => None,
    }
}

/// Reads a count from its text.
pub fn parse_count(text: &str) -> (count: Option<usize>)
    ensures
        count == count_of(text@),
{
    match parse_u64(text) {
        Some(number) => if number <= usize::MAX as u64 {
            Some(number as usize)
        } else {
            None
        },
        None => None,
    }
}

/// The truth value that `text` writes: `true` or `false`, and nothing else.
pub open spec fn flag_of(text: Seq<char>) -> Option<bool> {
    if text == "true"@ {
        Some(true)
    } else if text == "false"@ {
        Some(false)
    } else {
        None
    }
}

/// Reads a truth value from its text.
pub fn parse_flag(text: &str) -> (flag: Option<bool>)
    ensures
        flag == flag_of(text@),
{
    if same_text(text, "true") {
        Some(true)
    } else if same_text(text, "false") {
        Some(false)
    } else {
        None
    }
}

/// The texts of the arguments of one run, as the command line gave them or
/// its defaults filled them in.
#[derive(Debug)]
pub struct ArgTexts {
    pub queue_depth: String,
    pub block_size: String,
    pub max_io_size: String,
    pub align: String,
    pub max_io_count: String,
    pub target_length: String,
    pub thread_count: String,
    pub target_type: String,
    pub sequential: String,
    pub output_config_file: String,
    pub target: String,
}

impl ArgTexts {
    /// The arguments that the texts write, where each text writes a value of
    /// its argument's type.
    pub open spec fn values(&self) -> Option<ParseArgs> {
        if count_of(self.queue_depth@) is Some && decimal_u64(self.block_size@) is Some
            && decimal_u64(self.max_io_size@) is Some && flag_of(self.align@) is Some
            && decimal_u64(self.max_io_count@) is Some && decimal_u64(self.target_length@) is Some
            && count_of(self.thread_count@) is Some && self.target_type@ == FILE_TARGET_NAME@
            && flag_of(self.sequential@) is Some {
            Some(
                ParseArgs {
                    queue_depth: count_of(self.queue_depth@).unwrap(),
                    block_size: decimal_u64(self.block_size@).unwrap(),
                    max_io_size: decimal_u64(self.max_io_size@).unwrap(),
                    align: flag_of(self.align@).unwrap(),
                    max_io_count: decimal_u64(self.max_io_count@).unwrap(),
                    target_length: decimal_u64(self.target_length@).unwrap(),
                    thread_count: count_of(self.thread_count@).unwrap(),
                    target_type: AvailableTargets::FileTarget,
                    sequential: flag_of(self.sequential@).unwrap(),
                    output_config_file: self.output_config_file,
                    target: self.target,
                },
            )
        } else {
            None
        }
    }

    /// Reads the arguments from their texts. Returns nothing where a text does
    /// not write a value of its argument's type.
    pub fn into_args(self) -> (args: Option<ParseArgs>)
        ensures
            args == self.values(),
    {
        let queue_depth = parse_count(self.queue_depth.as_str());
        let block_size = parse_u64(self.block_size.as_str());
        let max_io_size = parse_u64(self.max_io_size.as_str());
        let align = parse_flag(self.align.as_str());
        let max_io_count = parse_u64(self.max_io_count.as_str());
        let target_length = parse_u64(self.target_length.as_str());
        let thread_count = parse_count(self.thread_count.as_str());
        let target_type = AvailableTargets::friendly_name_to_value(self.target_type.as_str());
        let sequential = parse_flag(self.sequential.as_str());
        if queue_depth.is_none() || block_size.is_none() || max_io_size.is_none()
            || align.is_none() || max_io_count.is_none() || target_length.is_none()
            || thread_count.is_none() || target_type.is_none() || sequential.is_none() {
            return None;
        }
        Some(
            ParseArgs {
                queue_depth: queue_depth.unwrap(),
                block_size: block_size.unwrap(),
                max_io_size: max_io_size.unwrap(),
                align: align.unwrap(),
                max_io_count: max_io_count.unwrap(),
                target_length: target_length.unwrap(),
                thread_count: thread_count.unwrap(),
                target_type: target_type.unwrap(),
                sequential: sequential.unwrap(),
                output_config_file: self.output_config_file,
                target: self.target,
            },
        )
    }
}

} // verus!
