//! Parameterized text commands. A command carries opaque statement text and
//! an ordered vector of typed parameters, referenced in the text by
//! `@P1`-style ordinal placeholders; validation happens before anything is
//! submitted, so a bad binding never reaches the wire.

use vstd::prelude::*;
use vstd::string::StrSliceExecFns;

use crate::errors::SqlError;
use crate::parse::dec_val;
use crate::parse::digit_val;
use crate::parse::is_digit;
use crate::value::supported_value;
use crate::value::SqlValue;

verus! {

/// The end of the digit run that starts at `j`: the first position at or
/// after `j` that holds no digit.
pub open spec fn digit_run_end(s: Seq<char>, j: int) -> int
    decreases s.len() - j,
{
    if j < 0 || j >= s.len() {
        if j < 0 {
            0
        } else {
            s.len() as int
        }
    } else if is_digit(s[j]) {
        digit_run_end(s, j + 1)
    } else {
        j
    }
}

proof fn lemma_digit_run(s: Seq<char>, j: int)
    requires
        0 <= j <= s.len(),
    ensures
        j <= digit_run_end(s, j) <= s.len(),
        forall|k: int| j <= k < digit_run_end(s, j) ==> is_digit(s[k]),
        digit_run_end(s, j) < s.len() ==> !is_digit(s[digit_run_end(s, j)]),
    decreases s.len() - j,
{
    if j < s.len() && is_digit(s[j]) {
        lemma_digit_run(s, j + 1);
    }
}

proof fn lemma_digit_run_unique(s: Seq<char>, j: int, r: int)
    requires
        0 <= j <= s.len(),
        j <= r <= s.len(),
        forall|k: int| j <= k < r ==> is_digit(s[k]),
        r < s.len() ==> !is_digit(s[r]),
    ensures
        digit_run_end(s, j) == r,
{
    lemma_digit_run(s, j);
    let f = digit_run_end(s, j);
    if f < r {
        assert(is_digit(s[f]));
        assert(!is_digit(s[f]));
    }
    if r < f {
        assert(is_digit(s[r]));
        assert(!is_digit(s[r]));
    }
}

/// Whether a `@P<digits>` placeholder reference starts at position `i`.
pub open spec fn placeholder_at(s: Seq<char>, i: int) -> bool {
    &&& 0 <= i
    &&& i + 2 < s.len()
    &&& s[i] == '@'
    &&& s[i + 1] == 'P'
    &&& is_digit(s[i + 2])
}

/// The ordinal such a reference names: the value of its full digit run.
pub open spec fn placeholder_ordinal(s: Seq<char>, i: int) -> nat {
    dec_val(s.subrange(i + 2, digit_run_end(s, i + 2)))
}

/// The largest ordinal referenced at or after position `i`; zero if none.
pub open spec fn max_placeholder_from(s: Seq<char>, i: int) -> nat
    decreases s.len() - i,
{
    if i < 0 || i >= s.len() {
        0
    } else {
        let rest = max_placeholder_from(s, i + 1);
        if placeholder_at(s, i) && placeholder_ordinal(s, i) > rest {
            placeholder_ordinal(s, i)
        } else {
            rest
        }
    }
}

/// The number of parameters a text requires: the largest ordinal among its
/// `@P<digits>` references, zero when it has none.
pub open spec fn max_placeholder(s: Seq<char>) -> nat {
    max_placeholder_from(s, 0)
}

/// Reads the digit run of `s` that starts at `j`: its end, its value, and
/// whether that value overflows the machine.
fn scan_ordinal(s: &str, j: usize, len: usize) -> (r: (usize, usize, bool))
    requires
        j <= len,
        len == s@.len(),
    ensures
        ({
            let (end, value, huge) = r;
            &&& j <= end <= len
            &&& end as int == digit_run_end(s@, j as int)
            &&& (!huge ==> value as nat == dec_val(s@.subrange(j as int, end as int)))
            &&& (huge ==> dec_val(s@.subrange(j as int, end as int)) > usize::MAX)
        }),
{
    let mut end: usize = j;
    let mut value: usize = 0;
    let mut huge: bool = false;
    loop
        invariant
            j <= end <= len,
            len == s@.len(),
            forall|k: int| j <= k < end ==> is_digit(s@[k]),
            !huge ==> value as nat == dec_val(s@.subrange(j as int, end as int)),
            huge ==> dec_val(s@.subrange(j as int, end as int)) > usize::MAX,
        ensures
            j <= end <= len,
            len == s@.len(),
            forall|k: int| j <= k < end ==> is_digit(s@[k]),
            end < len ==> !is_digit(s@[end as int]),
            !huge ==> value as nat == dec_val(s@.subrange(j as int, end as int)),
            huge ==> dec_val(s@.subrange(j as int, end as int)) > usize::MAX,
        decreases len - end,
    {
        if end == len {
            break ;
        }
        let c = s.get_char(end);
        let u = c as u32;
        if !(48 <= u && u <= 57) {
            break ;
        }
        let d = (u - 48) as usize;
        let ghost pref = s@.subrange(j as int, end as int);
        let ghost pref2 = s@.subrange(j as int, end as int + 1);
        proof {
            assert(pref2.drop_last() =~= pref);
            assert(pref2.last() == c);
            assert(dec_val(pref2) == dec_val(pref) * 10 + digit_val(c));
        }
        if huge {
            proof {
                assert(dec_val(pref) * 10 >= dec_val(pref));
            }
        } else if value > usize::MAX / 10 || (value == usize::MAX / 10 && d > usize::MAX % 10) {
            huge = true;
        } else {
            value = value * 10 + d;
        }
        end = end + 1;
    }
    proof {
        lemma_digit_run_unique(s@, j as int, end as int);
    }
    (end, value, huge)
}

/// Scans a command text for its placeholder references and reports how many
/// parameters they require. Nothing when that number cannot fit the
/// machine: no parameter vector could satisfy such a text.
pub fn required_parameters(text: &str) -> (r: Option<usize>)
    ensures
        (match r {
            Some(n) => n as nat == max_placeholder(text@),
            None => max_placeholder(text@) > usize::MAX,
        }),
{
    let len = text.unicode_len();
    let mut i: usize = 0;
    let mut best: usize = 0;
    let mut huge: bool = false;
    let ghost mut cur: nat = 0;
    while i < len
        invariant
            i <= len,
            len == text@.len(),
            max_placeholder(text@) == (if cur > max_placeholder_from(text@, i as int) {
                cur
            } else {
                max_placeholder_from(text@, i as int)
            }),
            !huge ==> cur == best as nat,
            huge ==> cur > usize::MAX,
        decreases len - i,
    {
        let ghost rest = max_placeholder_from(text@, i as int + 1);
        let is_ph: bool = if len >= 3 && i < len - 2 {
            text.get_char(i) == '@' && text.get_char(i + 1) == 'P' && {
                let u = text.get_char(i + 2) as u32;
                48 <= u && u <= 57
            }
        } else {
            false
        };
        proof {
            assert(is_ph == placeholder_at(text@, i as int));
        }
        if is_ph {
            let (end, value, vhuge) = scan_ordinal(text, i + 2, len);
            let ghost ord = placeholder_ordinal(text@, i as int);
            proof {
                assert(ord == dec_val(text@.subrange(i as int + 2, end as int)));
            }
            if vhuge {
                huge = true;
            } else {
                if !huge && value > best {
                    best = value;
                }
            }
            proof {
                cur = if ord > cur {
                    ord
                } else {
                    cur
                };
            }
        }
        proof {
            assert(max_placeholder_from(text@, i as int) == (if placeholder_at(text@, i as int)
                && placeholder_ordinal(text@, i as int) > rest {
                placeholder_ordinal(text@, i as int)
            } else {
                rest
            }));
        }
        i = i + 1;
    }
    proof {
        assert(max_placeholder_from(text@, len as int) == 0);
    }
    if huge {
        None
    } else {
        Some(best)
    }
}

/// A parameterized text command: opaque statement text beside its
/// positional parameters. Immutable once submitted.
#[derive(Debug, PartialEq, Eq)]
pub struct Command {
    pub text: String,
    pub params: Vec<SqlValue>,
}

/// Why a command is rejected before submission, if it is: a parameter count
/// that misses the placeholders, else a parameter the encoder cannot carry.
pub open spec fn spec_validate(text: Seq<char>, params: Seq<SqlValue>) -> Option<SqlError> {
    if max_placeholder(text) != params.len() {
        Some(SqlError::ParameterCountMismatch)
    } else if exists|k: int| 0 <= k < params.len() && !supported_value(params[k]) {
        Some(SqlError::UnsupportedParameterType)
    } else {
        None
    }
}

impl Command {
    /// A command over this text, with no parameters bound yet.
    pub fn new(text: String) -> (r: Command)
        ensures
            r.text@ == text@,
            r.params@ == Seq::<SqlValue>::empty(),
    {
        Command { text, params: Vec::new() }
    }

    /// Binds the next positional parameter.
    pub fn bind(&mut self, v: SqlValue)
        ensures
            final(self).text@ == old(self).text@,
            final(self).params@ == old(self).params@.push(v),
    {
        self.params.push(v);
    }

    /// Checks the command before any submission: the bound parameters must
    /// cover the placeholders exactly, and each value must be one the wire
    /// encoder accepts. Pure — nothing reaches the network here.
    pub fn validate(&self) -> (r: Result<(), SqlError>)
        ensures
            (match spec_validate(self.text@, self.params@) {
                None => r == Ok::<(), SqlError>(()),
                Some(e) => r == Err::<(), SqlError>(e),
            }),
    {
        let n = self.params.len();
        match required_parameters(self.text.as_str()) {
            None => {
                return Err(SqlError::ParameterCountMismatch);
            },
            Some(m) => {
                if m != n {
                    return Err(SqlError::ParameterCountMismatch);
                }
            },
        }
        let mut k: usize = 0;
        while k < n
            invariant
                k <= n,
                n == self.params@.len(),
                max_placeholder(self.text@) == self.params@.len(),
                forall|t: int| 0 <= t < k ==> supported_value(self.params@[t]),
            decreases n - k,
        {
            if !self.params[k].is_supported() {
                return Err(SqlError::UnsupportedParameterType);
            }
            k = k + 1;
        }
        Ok(())
    }
}

} // verus!
