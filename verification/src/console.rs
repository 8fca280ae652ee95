//! The console: text goes out as its UTF-8 bytes, one firmware call each.

use crate::sbi::{console_write, SbiCall, SBI_CONSOLE_PUTCHAR};
use vstd::prelude::*;
use vstd::string::StringSliceAdditionalSpecFns;

verus! {

/// The calls that write `s` to the console: one for each byte of its UTF-8
/// form, in order.
pub fn print(s: &str) -> (calls: Vec<SbiCall>)
    ensures
        calls@.len() == s.spec_bytes().len(),
        forall|i: int|
            0 <= i < s.spec_bytes().len() ==> #[trigger] calls@[i] == (SbiCall {
                which: SBI_CONSOLE_PUTCHAR,
                arg0: s.spec_bytes()[i] as u64,
                arg1: 0,
                arg2: 0,
            }),
{
    console_write(s.as_bytes())
}

} // verus!
