//! The BLE UUIDs every modit module speaks, and a `str` comparison the
//! firmware can use to check its own copies of them.

use vstd::prelude::*;
use vstd::string::*;

verus! {

/// The one service every module advertises.
pub const SERVICE: &'static str = "937312e0-2354-11eb-9f10-fbc30a62cf30";

/// Characteristic a client writes to in order to drive the LED.
/// One byte: `0` off, anything else on.
pub const LED_WRITE: &'static str = "927312e0-2354-11eb-9f10-fbc30a62cf30";

/// Characteristic a client subscribes to for button presses.
pub const BUTTON_NOTIFY: &'static str = "917312e0-2354-11eb-9f10-fbc30a62cf30";

/// Compare two strings byte by byte.
pub fn str_eq(a: &str, b: &str) -> (same: bool)
    ensures
        same == (a@ == b@),
{
    let (x, y) = (a.as_bytes(), b.as_bytes());
    proof {
        vstd::utf8::encode_utf8_decode_utf8(a@);
        vstd::utf8::encode_utf8_decode_utf8(b@);
    }
    if x.len() != y.len() {
        return false;
    }
    let mut i: usize = 0;
    while i < x.len()
        invariant
            x@ == a.spec_bytes(),
            y@ == b.spec_bytes(),
            x@.len() == y@.len(),
            i <= x@.len(),
            forall|k: int| 0 <= k < i ==> x@[k] == y@[k],
        decreases x@.len() - i,
    {
        if x[i] != y[i] {
            return false;
        }
        i += 1;
    }
    assert(x@ =~= y@);
    true
}

} // verus!
