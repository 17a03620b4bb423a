//! Files of `key=value` lines, and unsigned numbers written in them.
use crate::text::{
    chars_eq, chars_of, lines, lines_of, seqs_of, split_once, split_once_chars, trim, trim_chars,
};
use vstd::prelude::*;

verus! {

/// Separator of a key and its value.
pub const SEP: char = '=';

/// A key and its value, as text.
pub type Entry = (Seq<char>, Seq<char>);

/// Entries of `ls`: each line, trimmed, split at its first `=`; `None`
/// when a line has no `=`.
pub open spec fn entries_of_lines(ls: Seq<Seq<char>>) -> Option<Seq<Entry>>
    decreases ls.len(),
{
    if ls.len() == 0 {
        Some(seq![])
    } else {
        match (entries_of_lines(ls.drop_last()), split_once(trim(ls.last()), '=')) {
            (Some(es), Some(kv)) => Some(es.push(kv)),
            _ => None,
        }
    }
}

/// Value of the last entry with key `key`, as a map built from the
/// entries in order would hold it.
pub open spec fn lookup(es: Seq<Entry>, key: Seq<char>) -> Option<Seq<char>>
    decreases es.len(),
{
    if es.len() == 0 {
        None
    } else if es.last().0 == key {
        Some(es.last().1)
    } else {
        lookup(es.drop_last(), key)
    }
}

/// Whether every character of `s` is an ASCII digit.
pub open spec fn all_digits(s: Seq<char>) -> bool {
    forall|i: int| 0 <= i < s.len() ==> '0' <= #[trigger] s[i] <= '9'
}

/// Value of the decimal digits `s`.
pub open spec fn digits_value(s: Seq<char>) -> nat
    decreases s.len(),
{
    if s.len() == 0 {
        0
    } else {
        digits_value(s.drop_last()) * 10 + ((s.last() as u32) - ('0' as u32)) as nat
    }
}

/// Unsigned number written in `s`, as `str::parse` reads it: an optional
/// `+`, then at least one digit and nothing else. Not bounded.
pub open spec fn parse_unsigned(s: Seq<char>) -> Option<nat> {
    let d = if s.len() > 0 && s[0] == '+' {
        s.drop_first()
    } else {
        s
    };
    if d.len() > 0 && all_digits(d) {
        Some(digits_value(d))
    } else {
        None
    }
}

/// Number written in `s` when it is at most `max` (see [`parse_unsigned`]).
pub open spec fn parse_bounded(s: Seq<char>, max: nat) -> Option<nat> {
    match parse_unsigned(s) {
        Some(n) => if n <= max {
            Some(n)
        } else {
            None
        },
        None => None,
    }
}

/// Reads the number written in `s` if it is at most `max`.
pub fn parse_number(s: &[char], max: u64) -> (r: Option<u64>)
    ensures
        match parse_bounded(s@, max as nat) {
            Some(n) => r == Some(n as u64),
            None => r is None,
        },
{
    let start: usize = if s.len() > 0 && s[0] == '+' {
        1
    } else {
        0
    };
    let ghost d = if s@.len() > 0 && s@[0] == '+' {
        s@.drop_first()
    } else {
        s@
    };
    proof {
        assert(d == s@.skip(start as int));
    }
    if start >= s.len() {
        return None;
    }
    let mut value: u64 = 0;
    let mut i: usize = start;
    while i < s.len()
        invariant
            start <= i <= s@.len(),
            start < s@.len(),
            d == s@.skip(start as int),
            d == (if s@.len() > 0 && s@[0] == '+' {
                s@.drop_first()
            } else {
                s@
            }),
            value as nat == digits_value(d.take(i - start)),
            value <= max,
            all_digits(d.take(i - start)),
        decreases s@.len() - i,
    {
        let c = s[i];
        proof {
            assert(d.take(i - start + 1).drop_last() == d.take(i - start));
            assert(d[i - start] == c);
        }
        if c < '0' || c > '9' {
            proof {
                assert(!('0' <= d[i - start] <= '9'));
                assert(!all_digits(d));
            }
            return None;
        }
        let digit = (c as u32 - '0' as u32) as u64;
        if digit > max || value > (max - digit) / 10 {
            proof {
                assert(all_digits(d.take(i - start + 1))) by {
                    assert forall|j: int| 0 <= j < d.take(i - start + 1).len() implies '0' <= #[trigger] d.take(i - start + 1)[j] <= '9' by {
                        if j < i - start {
                            assert(d.take(i - start + 1)[j] == d.take(i - start)[j]);
                        }
                    }
                }
                assert(digits_value(d.take(i - start + 1)) == value * 10 + digit);
                if digit <= max {
                    assert((value as int) * 10 + digit > max) by (nonlinear_arith)
                        requires
                            value > (max - digit) / 10,
                            digit <= max,
                    ;
                }
                if all_digits(d) {
                    lemma_digits_value_monotone(d, i - start + 1);
                }
            }
            return None;
        }
        proof {
            assert((value as int) * 10 + digit <= max) by (nonlinear_arith)
                requires
                    value <= (max - digit) / 10,
                    digit <= max,
            ;
        }
        value = value * 10 + digit;
        i = i + 1;
        proof {
            assert(all_digits(d.take(i - start))) by {
                assert forall|j: int| 0 <= j < d.take(i - start).len() implies '0' <= #[trigger] d.take(i - start)[j] <= '9' by {
                    if j < i - start - 1 {
                        assert(d.take(i - start)[j] == d.take(i - start - 1)[j]);
                    }
                }
            }
        }
    }
    proof {
        assert(d.take(d.len() as int) == d);
    }
    Some(value)
}

proof fn lemma_digits_value_monotone(d: Seq<char>, k: int)
    requires
        0 <= k <= d.len(),
        all_digits(d),
    ensures
        digits_value(d.take(k)) <= digits_value(d),
    decreases d.len() - k,
{
    if k < d.len() {
        lemma_digits_value_monotone(d, k + 1);
        assert(d.take(k + 1).drop_last() == d.take(k));
    } else {
        assert(d.take(k) == d);
    }
}


/// The lines of `ls` that are not empty.
pub open spec fn non_empty(ls: Seq<Seq<char>>) -> Seq<Seq<char>>
    decreases ls.len(),
{
    if ls.len() == 0 {
        seq![]
    } else if ls.last().len() == 0 {
        non_empty(ls.drop_last())
    } else {
        non_empty(ls.drop_last()).push(ls.last())
    }
}

/// View of exec entries.
pub open spec fn entries_view(v: Seq<(Vec<char>, Vec<char>)>) -> Seq<Entry> {
    v.map_values(|e: (Vec<char>, Vec<char>)| (e.0@, e.1@))
}

/// Entries of the text of a file (see [`entries_of_lines`]); when
/// `skip_empty`, empty lines are left out first.
pub open spec fn file_entries(text: Seq<char>, skip_empty: bool) -> Option<Seq<Entry>> {
    if skip_empty {
        entries_of_lines(non_empty(lines(text)))
    } else {
        entries_of_lines(lines(text))
    }
}

/// Reads the `key=value` entries of `text` (see [`file_entries`]).
pub fn read_entries(text: &str, skip_empty: bool) -> (r: Option<Vec<(Vec<char>, Vec<char>)>>)
    ensures
        match file_entries(text@, skip_empty) {
            Some(es) => r matches Some(v) && entries_view(v@) == es,
            None => r is None,
        },
{
    let chars = chars_of(text);
    let ls = lines_of(chars.as_slice());
    let ghost all = seqs_of(ls@);
    let ghost kept: Seq<Seq<char>> = seq![];
    let mut out: Vec<(Vec<char>, Vec<char>)> = Vec::new();
    let mut i: usize = 0;
    while i < ls.len()
        invariant
            i <= ls@.len(),
            all == seqs_of(ls@),
            all == lines(text@),
            kept == (if skip_empty {
                non_empty(all.take(i as int))
            } else {
                all.take(i as int)
            }),
            entries_of_lines(kept) == Some(entries_view(out@)),
        decreases ls@.len() - i,
    {
        proof {
            assert(all.take(i + 1).drop_last() == all.take(i as int));
            assert(all.take(i + 1).last() == ls@[i as int]@);
        }
        if skip_empty && ls[i].len() == 0 {
            i = i + 1;
        } else {
            let trimmed = trim_chars(ls[i].as_slice());
            match split_once_chars(trimmed.as_slice(), SEP) {
                Some((k, v)) => {
                    proof {
                        let old_kept = kept;
                        kept = kept.push(ls@[i as int]@);
                        assert(kept.drop_last() == old_kept);
                        assert(entries_view(out@.push((k, v))) == entries_view(out@).push((k@, v@)));
                    }
                    out.push((k, v));
                    i = i + 1;
                },
                None => {
                    proof {
                        let bad = kept.push(ls@[i as int]@);
                        assert(bad.drop_last() == kept);
                        assert(entries_of_lines(bad) is None);
                        lemma_entries_fail_extends(all, i as int + 1, skip_empty);
                    }
                    return None;
                },
            }
        }
    }
    proof {
        assert(all.take(ls@.len() as int) == all);
    }
    Some(out)
}

proof fn lemma_entries_fail_extends(all: Seq<Seq<char>>, k: int, skip_empty: bool)
    requires
        0 <= k <= all.len(),
        entries_of_lines(if skip_empty {
            non_empty(all.take(k))
        } else {
            all.take(k)
        }) is None,
    ensures
        entries_of_lines(if skip_empty {
            non_empty(all)
        } else {
            all
        }) is None,
    decreases all.len() - k,
{
    if k < all.len() {
        let a = all.take(k + 1);
        assert(a.drop_last() == all.take(k));
        if skip_empty {
            if a.last().len() != 0 {
                assert(non_empty(a).drop_last() == non_empty(all.take(k)));
            }
        }
        lemma_entries_fail_extends(all, k + 1, skip_empty);
    } else {
        assert(all.take(k) == all);
    }
}

/// Value of the last entry of `v` whose key is `key` (see [`lookup`]).
pub fn lookup_entry(v: &Vec<(Vec<char>, Vec<char>)>, key: &str) -> (r: Option<Vec<char>>)
    ensures
        match lookup(entries_view(v@), key@) {
            Some(val) => r matches Some(x) && x@ == val,
            None => r is None,
        },
{
    let mut i: usize = v.len();
    proof {
        assert(entries_view(v@).take(v@.len() as int) == entries_view(v@));
    }
    while i > 0
        invariant
            i <= v@.len(),
            lookup(entries_view(v@), key@) == lookup(entries_view(v@).take(i as int), key@),
        decreases i,
    {
        proof {
            assert(entries_view(v@).take(i as int).drop_last() == entries_view(v@).take(i - 1));
            assert(entries_view(v@).take(i as int).last() == (v@[i - 1].0@, v@[i - 1].1@));
        }
        if chars_eq(v[i - 1].0.as_slice(), key) {
            let found = crate::text::copy_range(v[i - 1].1.as_slice(), 0, v[i - 1].1.len());
            proof {
                assert(v@[i - 1].1@.subrange(0, v@[i - 1].1@.len() as int) == v@[i - 1].1@);
            }
            return Some(found);
        }
        i = i - 1;
    }
    proof {
        assert(entries_view(v@).take(0) == Seq::<Entry>::empty());
    }
    None
}

} // verus!
