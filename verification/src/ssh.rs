use vstd::prelude::*;

use crate::errors::NixModuleError;
use crate::strutil::{contains_char, dec_val, is_digit};

verus! {

/// The suffix of `s` after the first occurrence of `c`; empty when `c` does
/// not occur (the callers below test for an occurrence first).
pub open spec fn after_first(s: Seq<char>, c: char) -> Seq<char>
    decreases s.len(),
{
    if s.len() == 0 {
        s
    } else if s[0] == c {
        s.drop_first()
    } else {
        after_first(s.drop_first(), c)
    }
}

proof fn lemma_after_first_split(s: Seq<char>, c: char, f: int)
    requires
        0 <= f < s.len(),
        s[f] == c,
        forall|j: int| 0 <= j < f ==> s[j] != c,
    ensures
        after_first(s, c) == s.subrange(f + 1, s.len() as int),
    decreases f,
{
    if f == 0 {
        assert(after_first(s, c) == s.drop_first());
        assert(s.drop_first() =~= s.subrange(1, s.len() as int));
    } else {
        assert(s[0] != c);
        let t = s.drop_first();
        assert(t[f - 1] == c);
        assert(forall|j: int| 0 <= j < f - 1 ==> t[j] == s[j + 1] && #[trigger] t[j] != c);
        lemma_after_first_split(t, c, f - 1);
        assert(t.subrange(f, t.len() as int) =~= s.subrange(f + 1, s.len() as int));
    }
}

/// Length of the longest all-digit prefix of `s`.
pub open spec fn leading_digit_count(s: Seq<char>) -> nat
    decreases s.len(),
{
    if s.len() == 0 || !is_digit(s[0]) {
        0
    } else {
        1 + leading_digit_count(s.drop_first())
    }
}

proof fn lemma_leading_digit_count(s: Seq<char>, k: int)
    requires
        0 <= k <= s.len(),
        forall|j: int| 0 <= j < k ==> is_digit(#[trigger] s[j]),
        k == s.len() || !is_digit(s[k]),
    ensures
        leading_digit_count(s) == k,
    decreases k,
{
    if k == 0 {
    } else {
        let t = s.drop_first();
        assert(forall|j: int| 0 <= j < k - 1 ==> #[trigger] t[j] == s[j + 1]);
        lemma_leading_digit_count(t, k - 1);
    }
}

/// The version token inside the remote-shell client's version banner: what
/// follows the first `_`.
pub open spec fn version_token(o: Seq<char>) -> Seq<char> {
    after_first(o, '_')
}

/// The digit run that opens the token: the major version.
pub open spec fn major_digits(t: Seq<char>) -> Seq<char> {
    t.subrange(0, leading_digit_count(t) as int)
}

/// The digit run right after a `.` that follows the major version; empty when
/// no such run exists (the minor version then counts as 0).
pub open spec fn minor_digits(t: Seq<char>) -> Seq<char> {
    let k = leading_digit_count(t) as int;
    if k < t.len() && t[k] == '.' {
        let rest = t.subrange(k + 1, t.len() as int);
        rest.subrange(0, leading_digit_count(rest) as int)
    } else {
        Seq::empty()
    }
}

/// A banner parses when it has a `_`, at least one digit follows it, and both
/// version numbers fit in a `u64`.
pub open spec fn version_parseable(o: Seq<char>) -> bool {
    &&& contains_char(o, '_')
    &&& leading_digit_count(version_token(o)) > 0
    &&& dec_val(major_digits(version_token(o))) <= u64::MAX
    &&& dec_val(minor_digits(version_token(o))) <= u64::MAX
}

/// The host's remote-shell client version, as the two leading numeric
/// components of its banner.
pub struct SshVersion {
    pub major: u64,
    pub minor: u64,
}

fn char_is_digit(c: char) -> (r: bool)
    ensures
        r == is_digit(c),
{
    let v = c as u32;
    48 <= v && v <= 57
}

impl SshVersion {
    /// Clients at or below version 8.9 speak the legacy file-transfer
    /// protocol by default; from 9.0 on they need a compatibility flag.
    pub open spec fn spec_legacy(self) -> bool {
        self.major < 8 || (self.major == 8 && self.minor <= 9)
    }

    /// The parsed `(major, minor)` version pair.
    pub fn version(&self) -> (r: (u64, u64))
        ensures
            r.0 == self.major,
            r.1 == self.minor,
    {
        (self.major, self.minor)
    }

    /// Does the host client require the legacy transfer protocol (version at
    /// or below 8.9)?
    pub fn is_legacy(&self) -> (r: bool)
        ensures
            r == self.spec_legacy(),
    {
        self.major < 8 || (self.major == 8 && self.minor <= 9)
    }

    /// Parses the client's version banner (e.g. the output of its version
    /// flag): the numeric `major[.minor]` prefix of what follows the first
    /// `_`. Anything unparseable is a hard error of the whole run.
    pub fn parse(output: &str) -> (r: Result<SshVersion, NixModuleError>)
        ensures
            r is Ok <==> version_parseable(output@),
            r matches Ok(v) ==> {
                &&& v.major == dec_val(major_digits(version_token(output@)))
                &&& v.minor == dec_val(minor_digits(version_token(output@)))
            },
            r matches Err(e) ==> e == NixModuleError::SshError,
    {
        let n = output.unicode_len();
        let mut f: usize = 0;
        while f < n && output.get_char(f) != '_'
            invariant
                f <= n,
                n == output@.len(),
                forall|j: int| 0 <= j < f ==> output@[j] != '_',
            decreases n - f,
        {
            f = f + 1;
        }
        if f == n {
            proof {
                assert(!contains_char(output@, '_'));
            }
            return Err(NixModuleError::SshError);
        }
        let tok = output.substring_char(f + 1, n);
        proof {
            lemma_after_first_split(output@, '_', f as int);
            assert(tok@ == version_token(output@));
        }
        let tn = tok.unicode_len();
        let mut k: usize = 0;
        while k < tn && char_is_digit(tok.get_char(k))
            invariant
                k <= tn,
                tn == tok@.len(),
                forall|j: int| 0 <= j < k ==> is_digit(#[trigger] tok@[j]),
            decreases tn - k,
        {
            k = k + 1;
        }
        proof {
            lemma_leading_digit_count(tok@, k as int);
        }
        if k == 0 {
            return Err(NixModuleError::SshError);
        }
        let major = match crate::strutil::parse_u64_digits(tok, 0, k) {
            Some(v) => v,
            None => {
                proof {
                    assert(tok@.subrange(0, k as int) == major_digits(tok@));
                }
                return Err(NixModuleError::SshError);
            },
        };
        proof {
            assert(tok@.subrange(0, k as int) == major_digits(tok@));
        }
        let minor: u64;
        if k < tn && tok.get_char(k) == '.' {
            let mut m: usize = k + 1;
            while m < tn && char_is_digit(tok.get_char(m))
                invariant
                    k + 1 <= m <= tn,
                    tn == tok@.len(),
                    forall|j: int| k + 1 <= j < m ==> is_digit(#[trigger] tok@[j]),
                decreases tn - m,
            {
                m = m + 1;
            }
            let ghost rest = tok@.subrange(k as int + 1, tn as int);
            proof {
                assert(forall|j: int|
                    0 <= j < m - (k + 1) ==> #[trigger] rest[j] == tok@[j + k + 1]);
                lemma_leading_digit_count(rest, m - (k + 1));
                assert(rest.subrange(0, m - (k + 1)) =~= tok@.subrange(k as int + 1, m as int));
                assert(minor_digits(tok@) == tok@.subrange(k as int + 1, m as int));
            }
            minor = match crate::strutil::parse_u64_digits(tok, k + 1, m) {
                Some(v) => v,
                None => {
                    return Err(NixModuleError::SshError);
                },
            };
        } else {
            proof {
                assert(minor_digits(tok@) =~= Seq::<char>::empty());
                assert(dec_val(minor_digits(tok@)) == 0);
            }
            minor = 0;
        }
        Ok(SshVersion { major, minor })
    }
}

} // verus!
