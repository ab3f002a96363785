//! The identity of an artifact stream, and decimal text for its instance tag.

use vstd::prelude::*;

verus! {

/// Identifies an artifact stream. `artifact` is the stable logical name that
/// the table is keyed by; `instance` is a sequence tag kept for display only.
#[derive(Clone, Debug, PartialEq, Eq, Hash)]
pub struct Key {
    /// Frame number or tile tag; `None` when the file name carried none that fits.
    pub instance: Option<u32>,
    pub artifact: String,
}

/// The ten decimal digit characters, in order.
pub open spec fn digit_chars() -> Seq<char> {
    seq!['0', '1', '2', '3', '4', '5', '6', '7', '8', '9']
}

/// Whether `c` is an ASCII decimal digit.
pub open spec fn is_digit(c: char) -> bool {
    '0' <= c && c <= '9'
}

/// The value of one decimal digit character.
pub open spec fn digit_value(c: char) -> int {
    c as int - '0' as int
}

/// The number that a string of decimal digits writes.
pub open spec fn decimal_value(s: Seq<char>) -> int
    decreases s.len(),
{
    if s.len() == 0 {
        0
    } else {
        decimal_value(s.drop_last()) * 10 + digit_value(s.last())
    }
}

/// Whether `s` is a non-empty run of decimal digits.
pub open spec fn all_digits(s: Seq<char>) -> bool {
    s.len() > 0 && forall|i: int| 0 <= i < s.len() ==> is_digit(#[trigger] s[i])
}

/// The `u32` that `s` writes in decimal, or `None` when `s` is not a run of
/// digits or names a number past `u32::MAX`.
pub open spec fn decimal_u32(s: Seq<char>) -> Option<u32> {
    if all_digits(s) && decimal_value(s) <= u32::MAX {
        Some(decimal_value(s) as u32)
    } else {
        None
    }
}

/// The shortest decimal text of `n`.
pub open spec fn decimal_text(n: nat) -> Seq<char>
    decreases n,
{
    if n < 10 {
        seq![digit_chars()[n as int]]
    } else {
        decimal_text(n / 10) + seq![digit_chars()[(n % 10) as int]]
    }
}

/// How a key reads in messages: `artifact[instance]`, or the artifact alone.
pub open spec fn key_text(instance: Option<u32>, artifact: Seq<char>) -> Seq<char> {
    match instance {
        Some(u) => artifact + seq!['['] + decimal_text(u as nat) + seq![']'],
        None => artifact,
    }
}

proof fn lemma_decimal_monotone(s: Seq<char>, n: int)
    requires
        0 <= n <= s.len(),
        forall|i: int| 0 <= i < s.len() ==> is_digit(#[trigger] s[i]),
    ensures
        decimal_value(s.subrange(0, n)) <= decimal_value(s),
        decimal_value(s) >= 0,
    decreases s.len(),
{
    if s.len() > 0 {
        let t = s.drop_last();
        assert forall|i: int| 0 <= i < t.len() implies is_digit(#[trigger] t[i]) by {
            assert(t[i] == s[i]);
        }
        if n < s.len() {
            assert(s.subrange(0, n) == t.subrange(0, n));
            lemma_decimal_monotone(t, n);
        } else {
            assert(s.subrange(0, n) == s);
            lemma_decimal_monotone(t, 0);
        }
    } else {
        assert(s.subrange(0, n) == s);
    }
}

/// Reads a decimal `u32`; anything but a non-empty run of digits whose value
/// fits gives `None`.
pub fn parse_decimal_u32(s: &str) -> (r: Option<u32>)
    ensures
        r == decimal_u32(s@),
{
    let n = s.unicode_len();
    if n == 0 {
        return None;
    }
    let mut value: u64 = 0;
    let mut i: usize = 0;
    while i < n
        invariant
            n == s@.len(),
            0 <= i <= n,
            value == decimal_value(s@.subrange(0, i as int)),
            value <= u32::MAX,
            forall|j: int| 0 <= j < i ==> is_digit(#[trigger] s@[j]),
        decreases n - i,
    {
        let c = s.get_char(i);
        if !('0' <= c && c <= '9') {
            return None;
        }
        let d = (c as u32 - '0' as u32) as u64;
        proof {
            let p = s@.subrange(0, i as int + 1);
            assert(p.drop_last() == s@.subrange(0, i as int));
            assert(p.last() == c);
        }
        value = value * 10 + d;
        i = i + 1;
        if value > u32::MAX as u64 {
            proof {
                assert forall|j: int| 0 <= j < i implies is_digit(#[trigger] s@[j]) by {}
                if all_digits(s@) {
                    lemma_decimal_monotone(s@, i as int);
                }
            }
            return None;
        }
    }
    proof {
        assert(s@.subrange(0, n as int) == s@);
    }
    Some(value as u32)
}

/// One decimal digit as text.
fn digit_text(d: u32) -> (r: String)
    requires
        d < 10,
    ensures
        r@ == seq![digit_chars()[d as int]],
{
    let digits = "0123456789";
    proof {
        reveal_strlit("0123456789");
    }
    let one = digits.substring_char(d as usize, d as usize + 1);
    assert(one@ == seq![digit_chars()[d as int]]);
    String::from_str(one)
}

/// The shortest decimal text of `n`.
pub fn decimal(n: u32) -> (r: String)
    ensures
        r@ == decimal_text(n as nat),
    decreases n,
{
    if n < 10 {
        digit_text(n)
    } else {
        let mut r = decimal(n / 10);
        let last = digit_text(n % 10);
        r.append(last.as_str());
        r
    }
}

impl Key {
    /// The key as it reads in messages.
    pub fn to_string(&self) -> (r: String)
        ensures
            r@ == key_text(self.instance, self.artifact@),
    {
        let mut r = self.artifact.clone();
        match self.instance {
            Some(u) => {
                let open = String::from_str("[");
                let close = String::from_str("]");
                proof {
                    reveal_strlit("[");
                    reveal_strlit("]");
                }
                let digits = decimal(u);
                r.append(open.as_str());
                r.append(digits.as_str());
                r.append(close.as_str());
                r
            },
            None => r,
        }
    }
}

} // verus!
