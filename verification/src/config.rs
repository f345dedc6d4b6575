//! Level progression tables: gravity interval and cumulative-line thresholds
//! for levels 1 through 10.

use vstd::prelude::*;

verus! {

/// Milliseconds before a forced gravity move at the given level (1-based).
pub open spec fn spec_level_time(level: int) -> u32 {
    if level == 1 { 1000 }
    else if level == 2 { 850 }
    else if level == 3 { 700 }
    else if level == 4 { 600 }
    else if level == 5 { 500 }
    else if level == 6 { 400 }
    else if level == 7 { 300 }
    else if level == 8 { 250 }
    else if level == 9 { 221 }
    else { 190 }
}

/// Cumulative cleared-line count past which the given level (1-based) is left.
pub open spec fn spec_level_lines(level: int) -> u32 {
    if level == 1 { 20 }
    else if level == 2 { 40 }
    else if level == 3 { 60 }
    else if level == 4 { 80 }
    else if level == 5 { 100 }
    else if level == 6 { 120 }
    else if level == 7 { 140 }
    else if level == 8 { 160 }
    else if level == 9 { 180 }
    else { 200 }
}

pub fn level_time(level: u32) -> (t: u32)
    requires
        1 <= level <= 10,
    ensures
        t == spec_level_time(level as int),
{
    match level {
        1 => 1000,
        2 => 850,
        3 => 700,
        4 => 600,
        5 => 500,
        6 => 400,
        7 => 300,
        8 => 250,
        9 => 221,
        _ => 190,
    }
}

pub fn level_lines(level: u32) -> (t: u32)
    requires
        1 <= level <= 10,
    ensures
        t == spec_level_lines(level as int),
{
    match level {
        1 => 20,
        2 => 40,
        3 => 60,
        4 => 80,
        5 => 100,
        6 => 120,
        7 => 140,
        8 => 160,
        9 => 180,
        _ => 200,
    }
}

} // verus!
