use vstd::prelude::*;

verus! {

// Counter arithmetic for the card tree. Increments and merge sums saturate
// at the type bounds instead of wrapping, so the engine never panics;
// decrements stop at a per-kind floor (1 for stack counts that must stay
// positive, 0 for counts that are allowed to reach zero and be pruned, the
// type minimum for signed counts).

pub open spec fn inc_u32_spec(v: u32) -> u32 {
    if v < u32::MAX {
        (v + 1) as u32
    } else {
        v
    }
}

#[verifier::when_used_as_spec(inc_u32_spec)]
pub fn inc_u32(v: u32) -> (r: u32)
    ensures
        r == inc_u32_spec(v),
{
    if v < u32::MAX {
        v + 1
    } else {
        v
    }
}

pub open spec fn dec_floor_u32_spec(v: u32, floor: u32) -> u32 {
    if v > floor {
        (v - 1) as u32
    } else {
        v
    }
}

#[verifier::when_used_as_spec(dec_floor_u32_spec)]
pub fn dec_floor_u32(v: u32, floor: u32) -> (r: u32)
    ensures
        r == dec_floor_u32_spec(v, floor),
{
    if v > floor {
        v - 1
    } else {
        v
    }
}

pub open spec fn inc_i32_spec(v: i32) -> i32 {
    if v < i32::MAX {
        (v + 1) as i32
    } else {
        v
    }
}

#[verifier::when_used_as_spec(inc_i32_spec)]
pub fn inc_i32(v: i32) -> (r: i32)
    ensures
        r == inc_i32_spec(v),
{
    if v < i32::MAX {
        v + 1
    } else {
        v
    }
}

pub open spec fn dec_i32_spec(v: i32) -> i32 {
    if v > i32::MIN {
        (v - 1) as i32
    } else {
        v
    }
}

#[verifier::when_used_as_spec(dec_i32_spec)]
pub fn dec_i32(v: i32) -> (r: i32)
    ensures
        r == dec_i32_spec(v),
{
    if v > i32::MIN {
        v - 1
    } else {
        v
    }
}

pub open spec fn sat_add_u32_spec(a: u32, b: u32) -> u32 {
    if a + b > u32::MAX {
        u32::MAX
    } else {
        (a + b) as u32
    }
}

#[verifier::when_used_as_spec(sat_add_u32_spec)]
pub fn sat_add_u32(a: u32, b: u32) -> (r: u32)
    ensures
        r == sat_add_u32_spec(a, b),
{
    let wide: u64 = a as u64 + b as u64;
    if wide > u32::MAX as u64 {
        u32::MAX
    } else {
        wide as u32
    }
}

pub open spec fn sat_add_i32_spec(a: i32, b: i32) -> i32 {
    if a + b > i32::MAX {
        i32::MAX
    } else if a + b < i32::MIN {
        i32::MIN
    } else {
        (a + b) as i32
    }
}

#[verifier::when_used_as_spec(sat_add_i32_spec)]
pub fn sat_add_i32(a: i32, b: i32) -> (r: i32)
    ensures
        r == sat_add_i32_spec(a, b),
{
    let wide: i64 = a as i64 + b as i64;
    if wide > i32::MAX as i64 {
        i32::MAX
    } else if wide < i32::MIN as i64 {
        i32::MIN
    } else {
        wide as i32
    }
}

} // verus!
