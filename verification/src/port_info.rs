//! The canonical record of one listening port, as the front end consumes
//! it: process name, port and PID, the latter two kept in their
//! string-encoded wire form and parsed to numbers on demand.

use vstd::prelude::*;
use vstd::string::StrSliceExecFns;

verus! {

/// A decimal digit.
pub open spec fn is_digit(c: char) -> bool {
    48 <= c as u32 && c as u32 <= 57
}

/// The value of a decimal digit.
pub open spec fn digit_val(c: char) -> int {
    c as u32 - 48
}

/// A nonempty string of decimal digits.
pub open spec fn is_decimal(s: Seq<char>) -> bool {
    s.len() >= 1 && forall|i: int| 0 <= i < s.len() ==> is_digit(s[i])
}

/// The number a string of decimal digits encodes.
pub open spec fn dec_value(s: Seq<char>) -> int
    decreases s.len(),
{
    if s.len() == 0 {
        0
    } else {
        dec_value(s.drop_last()) * 10 + digit_val(s.last())
    }
}

/// A digit string encodes a nonnegative number.
proof fn lemma_dec_value_nonneg(s: Seq<char>)
    requires
        forall|i: int| 0 <= i < s.len() ==> is_digit(s[i]),
    ensures
        dec_value(s) >= 0,
    decreases s.len(),
{
    if s.len() > 0 {
        assert forall|i: int| 0 <= i < s.drop_last().len() implies is_digit(s.drop_last()[i]) by {
            assert(is_digit(s[i]));
        }
        lemma_dec_value_nonneg(s.drop_last());
    }
}

/// A prefix of a digit string encodes no more than the whole string.
proof fn lemma_dec_value_prefix(s: Seq<char>, i: int)
    requires
        0 <= i <= s.len(),
        forall|k: int| 0 <= k < s.len() ==> is_digit(s[k]),
    ensures
        dec_value(s.take(i)) <= dec_value(s),
    decreases s.len(),
{
    if i == s.len() {
        assert(s.take(i) =~= s);
    } else {
        assert forall|k: int| 0 <= k < s.drop_last().len() implies is_digit(s.drop_last()[k]) by {
            assert(is_digit(s[k]));
        }
        lemma_dec_value_nonneg(s.drop_last());
        lemma_dec_value_prefix(s.drop_last(), i);
        assert(s.take(i) =~= s.drop_last().take(i));
    }
}

/// Parses a nonempty string of decimal digits whose value fits the machine
/// word.
pub fn parse_decimal(s: &str) -> (r: usize)
    requires
        is_decimal(s@),
        dec_value(s@) <= usize::MAX,
    ensures
        r as int == dec_value(s@),
{
    let n = s.unicode_len();
    let mut acc: usize = 0;
    let mut i: usize = 0;
    proof {
        assert(s@.take(0) =~= Seq::<char>::empty());
    }
    while i < n
        invariant
            n == s@.len(),
            i <= n,
            is_decimal(s@),
            dec_value(s@) <= usize::MAX,
            acc as int == dec_value(s@.take(i as int)),
        decreases n - i,
    {
        let c = s.get_char(i);
        proof {
            assert(is_digit(s@[i as int]));
            let p = s@.take(i + 1);
            assert(p.drop_last() =~= s@.take(i as int));
            assert(p.last() == s@[i as int]);
            lemma_dec_value_prefix(s@, i + 1);
        }
        let d = (c as u32 - 48) as usize;
        acc = acc * 10 + d;
        i += 1;
    }
    proof {
        assert(s@.take(n as int) =~= s@);
    }
    acc
}

/// One listening port: process name, port and PID, the latter two
/// string-encoded decimal numbers.
#[derive(Debug, Clone, PartialEq, Eq)]
pub struct PortInfo(pub String, pub String, pub String);

impl PortInfo {
    /// The name of the owning process.
    pub fn get_process_name(&self) -> (r: String)
        ensures
            r@ == self.0@,
    {
        self.0.clone()
    }

    /// The port, in its string-encoded form.
    pub fn get_port(&self) -> (r: String)
        ensures
            r@ == self.1@,
    {
        self.1.clone()
    }

    /// The PID, in its string-encoded form.
    pub fn get_pid(&self) -> (r: String)
        ensures
            r@ == self.2@,
    {
        self.2.clone()
    }

    /// The port as a number, for numeric sorting.
    pub fn get_port_as_usize(&self) -> (r: usize)
        requires
            is_decimal(self.1@),
            dec_value(self.1@) <= usize::MAX,
        ensures
            r as int == dec_value(self.1@),
    {
        parse_decimal(self.1.as_str())
    }

    /// The PID as a number, for numeric sorting.
    pub fn get_pid_as_usize(&self) -> (r: usize)
        requires
            is_decimal(self.2@),
            dec_value(self.2@) <= usize::MAX,
        ensures
            r as int == dec_value(self.2@),
    {
        parse_decimal(self.2.as_str())
    }
}

} // verus!
