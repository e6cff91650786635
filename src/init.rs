//! Start-up: the initial feed from the location fragment, and the key.
use crate::auth_key::{base64_standard, decoded_key, load_or_create, loaded_key, AuthKey};
use crate::store::{Post, State, Thread};
use vstd::prelude::*;
use vstd::string::StringSliceAdditionalSpecFns;

verus! {

broadcast use vstd::string::group_string_axioms;

/// The number written by the decimal digits `s`.
pub open spec fn digits_value(s: Seq<char>) -> int
    decreases s.len(),
{
    if s.len() == 0 {
        0
    } else {
        digits_value(s.drop_last()) * 10 + (s.last() as int - '0' as int)
    }
}

pub open spec fn all_digits(s: Seq<char>) -> bool {
    forall|i: int| 0 <= i < s.len() ==> '0' <= #[trigger] s[i] <= '9'
}

/// The `u64` that `s` writes in decimal, with an optional leading `+`.
pub open spec fn parsed_u64(s: Seq<char>) -> Option<u64> {
    let d = if s.len() > 0 && s[0] == '+' {
        s.skip(1)
    } else {
        s
    };
    if d.len() > 0 && all_digits(d) && digits_value(d) <= u64::MAX {
        Some(digits_value(d) as u64)
    } else {
        None
    }
}

/// The feed that a location fragment selects: the number after an optional
/// `#`, or the global feed 0 where there is none.
pub open spec fn feed_from_fragment(h: Seq<char>) -> u64 {
    let f = if h.len() > 0 && h[0] == '#' {
        h.skip(1)
    } else {
        h
    };
    match parsed_u64(f) {
        Some(v) => v,
        None => 0,
    }
}

proof fn lemma_digits_value_grows(s: Seq<char>, k: int)
    requires
        all_digits(s),
        0 <= k <= s.len(),
    ensures
        0 <= digits_value(s.take(k)) <= digits_value(s),
    decreases s.len(),
{
    if s.len() > 0 {
        let p = s.drop_last();
        assert(all_digits(p)) by {
            assert forall|i: int| 0 <= i < p.len() implies '0' <= #[trigger] p[i] <= '9' by {
                assert(p[i] == s[i]);
            }
        }
        if k == s.len() {
            assert(s.take(k) == s);
            lemma_digits_value_grows(p, 0);
        } else {
            assert(s.take(k) == p.take(k));
            lemma_digits_value_grows(p, k);
        }
        lemma_digits_value_grows(p, p.len() as int);
        assert(p.take(p.len() as int) == p);
        assert('0' <= s[s.len() - 1] <= '9');
    } else {
        assert(s.take(k) == s);
    }
}

/// Parses the decimal digits of `b[start..]`, as `str::parse::<u64>` does.
fn parse_digits(s: &str, b: &[u8], start: usize) -> (r: Option<u64>)
    requires
        s.is_ascii(),
        b@ == s.spec_bytes(),
        start <= b@.len(),
    ensures
        ({
            let d = s@.skip(start as int);
            r == (if d.len() > 0 && all_digits(d) && digits_value(d) <= u64::MAX {
                Some(digits_value(d) as u64)
            } else {
                None
            })
        }),
{
    proof {
        vstd::string::is_ascii_spec_bytes(s);
    }
    let ghost d = s@.skip(start as int);
    if b.len() == start {
        return None;
    }
    let mut v: u64 = 0;
    let mut i: usize = start;
    while i < b.len()
        invariant
            s.is_ascii(),
            b@ == s.spec_bytes(),
            b@.len() == s@.len(),
            forall|j: int| 0 <= j < b@.len() ==> b@[j] == s@[j] as u8,
            start <= i <= b@.len(),
            d == s@.skip(start as int),
            all_digits(d.take(i - start)),
            v == digits_value(d.take(i - start)),
        decreases b@.len() - i,
    {
        let c = b[i];
        assert(c == s@[i as int] as u8);
        assert(d[i - start] == s@[i as int]);
        if c < 48 || c > 57 {
            assert(!('0' <= d[i - start] <= '9'));
            return None;
        }
        let digit: u64 = (c - 48) as u64;
        assert(d.take(i + 1 - start).drop_last() == d.take(i - start));
        assert(digit == d[i - start] as int - '0' as int);
        if v > (u64::MAX - digit) / 10 {
            proof {
                assert(v * 10 + digit > u64::MAX) by (nonlinear_arith)
                    requires
                        v > (u64::MAX - digit) / 10,
                        digit <= 9,
                ;
                if all_digits(d) {
                    lemma_digits_value_grows(d, i + 1 - start);
                }
            }
            return None;
        }
        proof {
            assert(v * 10 + digit <= u64::MAX) by (nonlinear_arith)
                requires
                    v <= (u64::MAX - digit) / 10,
                    digit <= 9,
            ;
            assert forall|j: int| 0 <= j < i + 1 - start implies '0' <= #[trigger] d.take(
                i + 1 - start,
            )[j] <= '9' by {
                if j < i - start {
                    assert(d.take(i + 1 - start)[j] == d.take(i - start)[j]);
                }
            }
        }
        v = v * 10 + digit;
        i += 1;
    }
    assert(d.take(i - start) == d);
    Some(v)
}

/// The feed selected by the location fragment `fragment`.
pub fn feed_id(fragment: &str) -> (r: u64)
    ensures
        r == feed_from_fragment(fragment@),
{
    let ghost h = fragment@;
    let ghost f = if h.len() > 0 && h[0] == '#' {
        h.skip(1)
    } else {
        h
    };
    let ghost dd = if f.len() > 0 && f[0] == '+' {
        f.skip(1)
    } else {
        f
    };
    if !fragment.is_ascii() {
        proof {
            // A character outside ASCII is no digit.
            let i = choose|i: int| 0 <= i < h.len() && !('\0' <= #[trigger] h[i] <= '\u{7f}');
            let off: int = h.len() - dd.len();
            if h.len() > 0 && h[0] == '#' {
                assert(h[0] == '#');
            }
            if f.len() > 0 && f[0] == '+' {
                assert(f[0] == '+');
            }
            assert(off <= i);
            assert(dd[i - off] == h[i]);
        }
        return 0;
    }
    let b = fragment.as_bytes();
    proof {
        vstd::string::is_ascii_spec_bytes(fragment);
        assert(b@.len() == h.len());
    }
    let mut start: usize = 0;
    if b.len() > 0 && b[0] == 35 {
        assert(h[0] == '#');
        start = 1;
    }
    assert(f == h.skip(start as int));
    if b.len() > start && b[start] == 43 {
        assert(h[start as int] == '+');
        assert(f[0] == '+');
        start = start + 1;
    }
    assert(dd == h.skip(start as int));
    match parse_digits(fragment, b, start) {
        Some(v) => v,
        None => 0,
    }
}

/// Initial application state: the feed that the location fragment selects,
/// and the stored key where it decodes, else the freshly generated `fresh`.
/// A new key comes with the text to persist.
pub fn init(fragment: &str, stored_key: Option<&str>, fresh: AuthKey) -> (r: (State, Option<String>))
    requires
        fresh.wf(),
    ensures
        r.0.wf(),
        r.0.feed == feed_from_fragment(fragment@),
        r.0.auth_key.bytes@ == loaded_key(
            match stored_key {
                Some(s) => Some(s@),
                None => None,
            },
            fresh.bytes@,
        ),
        r.0.threads@ == Map::<u64, Thread>::empty(),
        r.0.posts@ == Map::<u64, Post>::empty(),
        r.0.mine@ == Set::<u64>::empty(),
        !r.0.options.forced_anonymity,
        r.0.options.relative_timestamps,
        match r.1 {
            Some(t) => t@ == base64_standard(fresh.bytes@) && r.0.auth_key.bytes@ == fresh.bytes@
                && decoded_key(t@) == Some(fresh.bytes@),
            None => stored_key is Some && decoded_key(stored_key->Some_0@) is Some,
        },
{
    let loaded = load_or_create(stored_key, fresh);
    let mut state = State::new(loaded.key);
    state.feed = feed_id(fragment);
    (state, loaded.to_persist)
}

} // verus!
