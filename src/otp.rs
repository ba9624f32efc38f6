use vstd::prelude::*;

use crate::text::{append_repeated, decimal, decimal_text, pad_left};

verus! {

/// How many digits a one-time password is shown with.
pub const OTP_DIGITS: usize = 6;

/// A one-time password as it is typed or copied: its decimal digits, with
/// leading zeros up to [`OTP_DIGITS`] digits; longer codes are kept whole.
pub fn format_otp(otp: u32) -> (r: String)
    ensures
        r@ == pad_left(decimal(otp as nat), 6, '0'),
{
    let digits = decimal_text(otp as u64);
    let len = digits.unicode_len();
    if len < OTP_DIGITS {
        let mut padded = String::new();
        proof {
            reveal_strlit("0");
        }
        append_repeated(&mut padded, "0", OTP_DIGITS - len);
        padded.append(digits.as_str());
        assert(padded@ =~= pad_left(decimal(otp as nat), 6, '0'));
        padded
    } else {
        digits
    }
}

} // verus!
