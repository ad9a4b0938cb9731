use vstd::prelude::*;

use crate::amount::{amount_text, digit_str, magnitude, push_decimal};

verus! {

/// The balances of one client, in ten-thousandths of a unit.
#[derive(Clone, Copy, Debug, PartialEq, Eq, Structural)]
pub struct Account {
    pub client: u16,
    pub available: i64,
    pub held: i64,
    pub total: i64,
    pub locked: bool,
}

impl Account {
    /// The total is the sum of the available and the held funds.
    pub open spec fn wf(self) -> bool {
        self.total == self.available + self.held
    }

    /// A fresh account: no funds, not locked.
    pub open spec fn empty(client: u16) -> Account {
        Account { client, available: 0, held: 0, total: 0, locked: false }
    }

    /// A fresh account of `client`.
    pub fn new(client: u16) -> (r: Account)
        ensures
            r == Account::empty(client),
            r.wf(),
    {
        Account { client, available: 0, held: 0, total: 0, locked: false }
    }

    /// The available, held and total funds as shown in a report, and the
    /// lock flag.
    pub fn formatted_values(&self) -> (r: (String, String, String, bool))
        ensures
            r.0@ == amount_text(self.available as int),
            r.1@ == amount_text(self.held as int),
            r.2@ == amount_text(self.total as int),
            r.3 == self.locked,
    {
        (
            Self::format_value(self.available),
            Self::format_value(self.held),
            Self::format_value(self.total),
            self.locked,
        )
    }

    /// Renders an amount of `value` ten-thousandths with one to four
    /// fractional digits, e.g. `5000000` as `500.0` and `-1234567` as
    /// `-123.4567`.
    pub fn format_value(value: i64) -> (r: String)
        ensures
            r@ == amount_text(value as int),
    {
        let m: u64 = if value < 0 {
            ((-(value + 1)) as u64) + 1
        } else {
            value as u64
        };
        assert(m as nat == magnitude(value as int));
        let mut out = String::new();
        if value < 0 {
            proof {
                reveal_strlit("-");
            }
            out.append("-");
        }
        push_decimal(&mut out, m / 10000);
        proof {
            reveal_strlit(".");
        }
        out.append(".");
        let f: u64 = m % 10000;
        out.append(digit_str(f / 1000));
        if f % 1000 != 0 {
            out.append(digit_str(f / 100 % 10));
            if f % 100 != 0 {
                out.append(digit_str(f / 10 % 10));
                if f % 10 != 0 {
                    out.append(digit_str(f % 10));
                }
            }
        }
        proof {
            assert(out@ =~= amount_text(value as int));
        }
        out
    }
}

} // verus!
