use vstd::prelude::*;
use vstd::string::StringExecFns;

verus! {

/// A non-negative amount of money, counted exactly in integer cents.
///
/// The view of a `Money` value is its total number of cents.
#[derive(Debug, PartialEq, Eq, Structural, Hash, Copy, Clone)]
pub struct Money {
    cents: u32,
}

impl View for Money {
    type V = u32;

    closed spec fn view(&self) -> u32 {
        self.cents
    }
}

/// The character for one decimal digit.
pub open spec fn spec_digit(d: int) -> char {
    if d == 0 {
        '0'
    } else if d == 1 {
        '1'
    } else if d == 2 {
        '2'
    } else if d == 3 {
        '3'
    } else if d == 4 {
        '4'
    } else if d == 5 {
        '5'
    } else if d == 6 {
        '6'
    } else if d == 7 {
        '7'
    } else if d == 8 {
        '8'
    } else {
        '9'
    }
}

/// The decimal rendering of a non-negative integer, most significant
/// digit first, with no leading zeroes except for zero itself.
pub open spec fn spec_decimal(n: nat) -> Seq<char>
    decreases n,
{
    if n < 10 {
        seq![spec_digit(n as int)]
    } else {
        spec_decimal(n / 10).push(spec_digit((n % 10) as int))
    }
}

/// An amount of `cents` rendered as euros: the whole euros in decimal,
/// a comma, the remaining cents padded to two digits, and the euro sign.
pub open spec fn spec_euro_seq(cents: u32) -> Seq<char> {
    spec_decimal((cents / 100) as nat) + seq![','] + seq![
        spec_digit(((cents % 100) / 10) as int),
        spec_digit(((cents % 100) % 10) as int),
    ] + seq!['€']
}

fn digit_str(d: u32) -> (s: &'static str)
    requires
        d < 10,
    ensures
        s@ == seq![spec_digit(d as int)],
{
    match d {
        0 => {
            proof {
                reveal_strlit("0");
                assert("0"@ =~= seq![spec_digit(0)]);
            }
            "0"
        },
        1 => {
            proof {
                reveal_strlit("1");
                assert("1"@ =~= seq![spec_digit(1)]);
            }
            "1"
        },
        2 => {
            proof {
                reveal_strlit("2");
                assert("2"@ =~= seq![spec_digit(2)]);
            }
            "2"
        },
        3 => {
            proof {
                reveal_strlit("3");
                assert("3"@ =~= seq![spec_digit(3)]);
            }
            "3"
        },
        4 => {
            proof {
                reveal_strlit("4");
                assert("4"@ =~= seq![spec_digit(4)]);
            }
            "4"
        },
        5 => {
            proof {
                reveal_strlit("5");
                assert("5"@ =~= seq![spec_digit(5)]);
            }
            "5"
        },
        6 => {
            proof {
                reveal_strlit("6");
                assert("6"@ =~= seq![spec_digit(6)]);
            }
            "6"
        },
        7 => {
            proof {
                reveal_strlit("7");
                assert("7"@ =~= seq![spec_digit(7)]);
            }
            "7"
        },
        8 => {
            proof {
                reveal_strlit("8");
                assert("8"@ =~= seq![spec_digit(8)]);
            }
            "8"
        },
        _ => {
            proof {
                reveal_strlit("9");
                assert("9"@ =~= seq![spec_digit(9)]);
            }
            "9"
        },
    }
}

fn decimal_string(n: u32) -> (s: String)
    ensures
        s@ == spec_decimal(n as nat),
    decreases n,
{
    if n < 10 {
        digit_str(n).to_owned()
    } else {
        proof {
            assert(n / 10 < n) by (nonlinear_arith)
                requires
                    n >= 10,
            ;
        }
        let mut s = decimal_string(n / 10);
        s.append(digit_str(n % 10));
        proof {
            assert(s@ =~= spec_decimal((n / 10) as nat).push(spec_digit((n % 10) as int)));
        }
        s
    }
}

impl Money {
    /// Builds an amount worth `euros * 100 + cents` cents in all.
    ///
    /// `cents` is not limited to 99: any excess simply carries over into
    /// whole euros.
    pub fn new(euros: u32, cents: u8) -> (r: Money)
        requires
            euros * 100 + cents <= u32::MAX,
        ensures
            r@ == euros * 100 + cents,
    {
        Money { cents: euros * 100 + cents as u32 }
    }

    /// The whole-euro part of the amount.
    pub fn get_euros(&self) -> (r: u32)
        ensures
            r == self@ / 100,
    {
        self.cents / 100
    }

    /// The cent part of the amount, below one euro.
    pub fn get_cents(&self) -> (r: u8)
        ensures
            r == self@ % 100,
    {
        (self.cents % 100) as u8
    }

    /// The whole amount in cents.
    pub fn get_total_cents(&self) -> (r: u32)
        ensures
            r == self@,
    {
        self.cents
    }

    /// Exact addition of two amounts.
    pub fn add(self, other: Money) -> (r: Money)
        requires
            self@ + other@ <= u32::MAX,
        ensures
            r@ == self@ + other@,
    {
        Money { cents: self.cents + other.cents }
    }

    /// Exact subtraction of two amounts. An amount of money is never
    /// negative, so the subtrahend must not exceed the minuend.
    pub fn sub(self, other: Money) -> (r: Money)
        requires
            other@ <= self@,
        ensures
            r@ == self@ - other@,
    {
        Money { cents: self.cents - other.cents }
    }

    /// Exact scaling by an unsigned factor.
    pub fn mul(self, factor: u32) -> (r: Money)
        requires
            self@ * factor <= u32::MAX,
        ensures
            r@ == self@ * factor,
    {
        Money { cents: self.cents * factor }
    }

    /// Renders the amount as a euro string: euros, a comma, the cents
    /// padded to two digits, and the euro sign.
    pub fn to_euro_string(&self) -> (s: String)
        ensures
            s@ == spec_euro_seq(self@),
    {
        let mut s = decimal_string(self.cents / 100);
        s.append(",");
        let rem: u32 = self.cents % 100;
        s.append(digit_str(rem / 10));
        s.append(digit_str(rem % 10));
        s.append("€");
        proof {
            reveal_strlit(",");
            reveal_strlit("€");
            assert(","@ =~= seq![',']);
            assert("€"@ =~= seq!['€']);
            assert(s@ =~= spec_euro_seq(self@));
        }
        s
    }
}

/// The total number of cents in a sequence of amounts.
pub open spec fn sum_cents(s: Seq<Money>) -> int
    decreases s.len(),
{
    if s.len() == 0 {
        0
    } else {
        sum_cents(s.drop_last()) + s.last()@
    }
}

/// Extending a prefix by one element adds that element's cents.
pub proof fn lemma_sum_cents_take_succ(s: Seq<Money>, i: int)
    requires
        0 <= i < s.len(),
    ensures
        sum_cents(s.take(i + 1)) == sum_cents(s.take(i)) + s[i]@,
{
    assert(s.take(i + 1).drop_last() =~= s.take(i));
    assert(s.take(i + 1).last() == s[i]);
}

/// A prefix sum is non-negative and never exceeds the whole sum.
pub proof fn lemma_sum_cents_take_bound(s: Seq<Money>, i: int)
    requires
        0 <= i <= s.len(),
    ensures
        0 <= sum_cents(s.take(i)) <= sum_cents(s),
    decreases s.len() - i,
{
    lemma_sum_cents_nonneg(s.take(i));
    if i == s.len() {
        assert(s.take(i) =~= s);
    } else {
        lemma_sum_cents_take_succ(s, i);
        lemma_sum_cents_take_bound(s, i + 1);
    }
}

/// A sum of amounts is non-negative.
pub proof fn lemma_sum_cents_nonneg(s: Seq<Money>)
    ensures
        sum_cents(s) >= 0,
    decreases s.len(),
{
    if s.len() > 0 {
        lemma_sum_cents_nonneg(s.drop_last());
    }
}

/// Two amounts are the same value exactly when they are worth the same
/// number of cents.
pub proof fn lemma_money_eq(a: Money, b: Money)
    ensures
        (a == b) <==> (a@ == b@),
{
}

/// Law: for any non-negative `u1`, `c1`, `u2`, `c2` whose cent totals fit
/// and satisfy `u1 * 100 + c1 >= u2 * 100 + c2`, subtracting the amount
/// built from `(u2, c2)` from the one built from `(u1, c1)` is permitted
/// and, by the contracts of `Money::new` and `Money::sub`, yields exactly
/// `(u1 * 100 + c1) - (u2 * 100 + c2)` cents.
pub proof fn lemma_subtract_of_built(a: Money, b: Money, u1: u32, c1: u8, u2: u32, c2: u8)
    requires
        a@ == u1 * 100 + c1,
        b@ == u2 * 100 + c2,
        u1 * 100 + c1 >= u2 * 100 + c2,
    ensures
        b@ <= a@,
        a@ - b@ == (u1 * 100 + c1) - (u2 * 100 + c2),
{
}

} // verus!
