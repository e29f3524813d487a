//! The identity service: it hands out one-time passwords and turns a
//! submitted password into a token. Beside it stands a delivery service
//! that only takes note of what it is sent.

use rand::Rng;
use vstd::prelude::*;

verus! {

/// Ten to the power of `n`.
pub open spec fn pow10(n: nat) -> int
    decreases n,
{
    if n == 0 {
        1
    } else {
        10 * pow10((n - 1) as nat)
    }
}

/// `rand::Rng::gen_range` on the thread's generator, for an inclusive range
/// of `i32`. The outside function panics on an empty range, which
/// `requires` rules out; of the number it returns, only that it lies in
/// the range is known.
#[verifier::external_body]
fn random_between(lower: i32, upper: i32) -> (n: i32)
    requires
        lower <= upper,
    ensures
        lower <= n <= upper,
{
    rand::thread_rng().gen_range(lower..=upper)
}

/// The powers of ten up to the ninth lie between one and a thousand
/// million.
pub proof fn lemma_pow10_bounds(n: nat)
    requires
        n <= 9,
    ensures
        1 <= pow10(n) <= 1_000_000_000,
        n > 0 ==> pow10(n) == 10 * pow10((n - 1) as nat),
{
    reveal_with_fuel(pow10, 12);
}

/// Ten to the power of `n`, for the powers that fit.
fn power_of_ten(n: u32) -> (p: i32)
    requires
        n <= 9,
    ensures
        p == pow10(n as nat),
        1 <= p <= 1_000_000_000,
{
    let mut p: i32 = 1;
    let mut i: u32 = 0;
    proof {
        lemma_pow10_bounds(0);
    }
    while i < n
        invariant
            i <= n <= 9,
            p == pow10(i as nat),
            1 <= p <= 1_000_000_000,
        decreases n - i,
    {
        proof {
            lemma_pow10_bounds((i + 1) as nat);
        }
        p = p * 10;
        i += 1;
    }
    p
}

/// A one-time password of `length` decimal digits, drawn at random: a
/// number that has exactly that many digits. The length is between 1 and
/// 9, the longest that fits the number type.
pub fn generate_otp(length: u32) -> (otp: i32)
    requires
        1 <= length <= 9,
    ensures
        pow10((length - 1) as nat) <= otp <= pow10(length as nat) - 1,
{
    let lower_bound: i32 = power_of_ten(length - 1);
    let upper_bound: i32 = power_of_ten(length) - 1;
    proof {
        lemma_pow10_bounds(length as nat);
        lemma_pow10_bounds((length - 1) as nat);
    }
    random_between(lower_bound, upper_bound)
}

/// The number of digits of a one-time password.
pub const OTP_LENGTH: u32 = 6;

/// What the identity service is asked.
#[derive(Copy, Clone, Debug, PartialEq, Eq, Structural)]
pub enum ToIdentity {
    /// A fresh one-time password.
    GetOTP,
    /// The token for a one-time password.
    SubmitOTP { data: i32 },
}

/// The identity service.
pub struct IdentityActor {}

impl IdentityActor {
    pub fn new() -> Self {
        Self {  }
    }

    /// Answers one request: a fresh password of six digits, or the token
    /// for a submitted password, which is the password itself.
    pub fn answer(&self, msg: ToIdentity) -> (reply: i32)
        ensures
            match msg {
                ToIdentity::GetOTP => 100_000 <= reply <= 999_999,
                ToIdentity::SubmitOTP { data } => reply == data,
            },
    {
        match msg {
            ToIdentity::GetOTP => {
                proof {
                    reveal_with_fuel(pow10, 8);
                }
                generate_otp(OTP_LENGTH)
            },
            ToIdentity::SubmitOTP { data } => data,
        }
    }
}

/// A delivery service that takes note of messages and keeps nothing.
pub struct DeliveryActor;

impl DeliveryActor {
    pub fn new() -> Self {
        Self {  }
    }
}

} // verus!
