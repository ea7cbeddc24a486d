use vstd::prelude::*;
use crate::text::{push_char, push_zero_padded, zero_padded};

verus! {

/// Relies on `Duration::subsec_millis`: the whole milliseconds of the part
/// under one second, so below 1000.
pub assume_specification[ core::time::Duration::subsec_millis ](d: &core::time::Duration) -> (r: u32)
    ensures
        r < 1000,
;

/// Relies on `Duration::as_secs`: the whole seconds.
pub assume_specification[ core::time::Duration::as_secs ](d: &core::time::Duration) -> u64;

/// `mm:ss.cc`: minutes, seconds and hundredths, each at least two digits.
pub open spec fn clock_text(secs: nat, millis: nat) -> Seq<char> {
    zero_padded(secs / 60, 2) + seq![':'] + zero_padded(secs % 60, 2) + seq!['.'] + zero_padded(
        millis / 10,
        2,
    )
}

/// Writes whole seconds and milliseconds as `mm:ss.cc`.
pub fn clock_string(secs: u64, millis: u32) -> (r: String)
    ensures
        r@ == clock_text(secs as nat, millis as nat),
{
    let mut s = String::new();
    push_zero_padded(&mut s, secs / 60, 2);
    push_char(&mut s, ':');
    push_zero_padded(&mut s, secs % 60, 2);
    push_char(&mut s, '.');
    push_zero_padded(&mut s, (millis / 10) as u64, 2);
    proof {
        assert(s@ =~= clock_text(secs as nat, millis as nat));
    }
    s
}

/// A play time as `mm:ss.cc`.
pub fn duration_to_string(duration: core::time::Duration) -> (r: String)
    ensures
        exists|secs: u64, millis: u32|
            millis < 1000 && r@ == #[trigger] clock_text(secs as nat, millis as nat),
{
    let secs = duration.as_secs();
    let millis = duration.subsec_millis();
    clock_string(secs, millis)
}

} // verus!
