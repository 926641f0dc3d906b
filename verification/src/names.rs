//! The names a benchmark gives to what it creates under the directory it is
//! pointed at.

use vstd::prelude::*;
use vstd::string::*;

verus! {

/// The directory that a throughput benchmark works in, under the directory
/// it is given.
pub const WORK_DIR: &'static str = ".copy_test";

/// The file that the write-latency probe creates in the directory it is
/// given.
pub const TEMP_FILE: &'static str = ".copy_test.bin";

/// What every trial file's name ends in.
pub const TRIAL_SUFFIX: &'static str = ".bin";

/// The character for one decimal digit.
pub open spec fn digit(d: nat) -> char
    recommends
        d < 10,
{
    if d == 0 {
        '0'
    } else if d == 1 {
        '1'
    } else if d == 2 {
        '2'
    } else if d == 3 {
        '3'
    } else if d == 4 {
        '4'
    } else if d == 5 {
        '5'
    } else if d == 6 {
        '6'
    } else if d == 7 {
        '7'
    } else if d == 8 {
        '8'
    } else {
        '9'
    }
}

/// `n` in decimal, without sign or leading zeros.
pub open spec fn decimal(n: nat) -> Seq<char>
    decreases n,
{
    if n < 10 {
        seq![digit(n)]
    } else {
        decimal(n / 10).push(digit(n % 10))
    }
}

/// The name of trial file `index`.
pub open spec fn spec_trial_file_name(index: u32) -> Seq<char> {
    decimal(index as nat) + TRIAL_SUFFIX@
}

fn digit_str(d: u32) -> (s: &'static str)
    requires
        d < 10,
    ensures
        s@ == seq![digit(d as nat)],
{
    proof {
        reveal_strlit("0");
        reveal_strlit("1");
        reveal_strlit("2");
        reveal_strlit("3");
        reveal_strlit("4");
        reveal_strlit("5");
        reveal_strlit("6");
        reveal_strlit("7");
        reveal_strlit("8");
        reveal_strlit("9");
    }
    match d {
        0 => "0",
        1 => "1",
        2 => "2",
        3 => "3",
        4 => "4",
        5 => "5",
        6 => "6",
        7 => "7",
        8 => "8",
        _ => "9",
    }
}

/// Writes `n` in decimal.
pub fn decimal_string(n: u32) -> (s: String)
    ensures
        s@ == decimal(n as nat),
    decreases n,
{
    if n < 10 {
        String::from_str(digit_str(n))
    } else {
        let mut s = decimal_string(n / 10);
        s.append(digit_str(n % 10));
        s
    }
}

/// The name of trial file `index`: the index in decimal, then `.bin`.
pub fn trial_file_name(index: u32) -> (name: String)
    ensures
        name@ == spec_trial_file_name(index),
{
    let mut name = decimal_string(index);
    name.append(TRIAL_SUFFIX);
    name
}

} // verus!
