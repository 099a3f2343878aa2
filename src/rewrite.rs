//! Finding the digit runs of a text and replacing those that are timestamps
//! by their renderings, each at its own place.
use crate::classify::{accepted_unit, get_dt, pow10, unit_of_length};
use crate::render::{offset_in_range, rendering_of, Opt};
use crate::text::{chars_of, string_of};
use vstd::prelude::*;

verus! {

/// Longest digit run that can be a timestamp.
pub const MAX_RUN: usize = 16;

pub open spec fn is_digit(c: char) -> bool {
    '0' <= c && c <= '9'
}

/// The value of a decimal digit.
pub open spec fn digit_value(c: char) -> int {
    (c as u32) as int - ('0' as u32) as int
}

/// The number that a run of decimal digits denotes.
pub open spec fn digits_value(d: Seq<char>) -> int
    decreases d.len(),
{
    if d.len() == 0 {
        0
    } else {
        digits_value(d.drop_last()) * 10 + digit_value(d.last())
    }
}

/// Where the run of digits that goes on from position `i` ends: the first
/// position at or after `i` that holds no digit, or the length of `s`.
pub open spec fn run_end(s: Seq<char>, i: int) -> int
    decreases s.len() - i,
{
    if 0 <= i < s.len() && is_digit(s[i]) {
        run_end(s, i + 1)
    } else {
        i
    }
}

/// What stands for a maximal digit run in the output: its rendering where it
/// is taken for a timestamp, the run itself otherwise.
pub open spec fn replacement(run: Seq<char>, opt: Opt, offset: int) -> Seq<char> {
    match accepted_unit(run.len() as int, run[0]) {
        Some(u) => rendering_of(digits_value(run), u.divisor_of(), opt, offset),
        None => run,
    }
}

/// The output for the part of `s` from position `i` on, `i` not inside a
/// digit run. A run that starts at `k` is rendered at offset `offsets[k]`
/// where local time is asked for.
pub open spec fn rewritten_from(s: Seq<char>, i: int, opt: Opt, offsets: Seq<int>) -> Seq<char>
    decreases s.len() - i,
    via rewritten_from_decreases
{
    if i < 0 || i >= s.len() {
        seq![]
    } else if !is_digit(s[i]) {
        seq![s[i]] + rewritten_from(s, i + 1, opt, offsets)
    } else {
        let e = run_end(s, i);
        replacement(s.subrange(i, e), opt, offsets[i]) + rewritten_from(s, e, opt, offsets)
    }
}

#[via_fn]
proof fn rewritten_from_decreases(s: Seq<char>, i: int, opt: Opt, offsets: Seq<int>) {
    if 0 <= i < s.len() && is_digit(s[i]) {
        lemma_run_end(s, i);
    }
}

/// The output for the whole of `s`.
pub open spec fn rewritten(s: Seq<char>, opt: Opt, offsets: Seq<int>) -> Seq<char> {
    rewritten_from(s, 0, opt, offsets)
}

/// One offset per position of a text of length `n`, each one that chrono
/// accepts.
pub open spec fn offsets_for(offsets: Seq<int>, n: nat) -> bool {
    &&& offsets.len() == n
    &&& forall|k: int| 0 <= k < n ==> offset_in_range(#[trigger] offsets[k])
}

/// The same offsets as `used` before position `i`.
pub open spec fn agrees_before(f: Seq<int>, used: Seq<int>, i: int) -> bool {
    &&& f.len() == used.len()
    &&& forall|k: int| 0 <= k < i ==> #[trigger] f[k] == used[k]
}

/// The run from `i` ends within `s`, holds digits only, and is followed by no
/// digit.
pub proof fn lemma_run_end(s: Seq<char>, i: int)
    requires
        0 <= i <= s.len(),
    ensures
        i <= run_end(s, i) <= s.len(),
        forall|k: int| i <= k < run_end(s, i) ==> is_digit(#[trigger] s[k]),
        run_end(s, i) < s.len() ==> !is_digit(s[run_end(s, i)]),
        i < s.len() && is_digit(s[i]) ==> i < run_end(s, i),
    decreases s.len() - i,
{
    if i < s.len() && is_digit(s[i]) {
        lemma_run_end(s, i + 1);
    }
}

pub proof fn lemma_pow10_monotone(a: nat, b: nat)
    requires
        a <= b,
    ensures
        1 <= pow10(a) <= pow10(b),
    decreases b,
{
    if b > 0 {
        if a < b {
            lemma_pow10_monotone(a, (b - 1) as nat);
        } else {
            lemma_pow10_monotone((b - 1) as nat, (b - 1) as nat);
        }
    }
}

/// Where the run starting at `i` begins: at the start of `s`, or after a
/// character that is no digit.
pub open spec fn starts_run(s: Seq<char>, i: int) -> bool {
    &&& 0 <= i < s.len()
    &&& is_digit(s[i])
    &&& (i == 0 || !is_digit(s[i - 1]))
}

/// No maximal digit run of `s` has between 9 and 16 digits.
pub open spec fn has_no_candidate(s: Seq<char>) -> bool {
    forall|i: int| #[trigger] starts_run(s, i) ==> !(9 <= run_end(s, i) - i <= 16)
}

/// A digit run that is not taken for a timestamp stands in the output as it
/// was.
pub proof fn lemma_rejected_run_kept(run: Seq<char>, opt: Opt, offset: int)
    requires
        run.len() > 0,
        accepted_unit(run.len() as int, run[0]) is None,
    ensures
        replacement(run, opt, offset) == run,
{
}

/// A text without a digit run of 9 to 16 digits comes out unchanged, under
/// every option and offset.
pub proof fn lemma_no_candidate_unchanged(s: Seq<char>, opt: Opt, offsets: Seq<int>)
    requires
        has_no_candidate(s),
    ensures
        rewritten(s, opt, offsets) == s,
{
    lemma_unchanged_from(s, 0, opt, offsets);
    assert(s.subrange(0, s.len() as int) =~= s);
}

proof fn lemma_unchanged_from(s: Seq<char>, i: int, opt: Opt, offsets: Seq<int>)
    requires
        has_no_candidate(s),
        0 <= i <= s.len(),
        i == 0 || i == s.len() || !is_digit(s[i - 1]) || !is_digit(s[i]),
    ensures
        rewritten_from(s, i, opt, offsets) == s.subrange(i, s.len() as int),
    decreases s.len() - i,
{
    if i < s.len() {
        if !is_digit(s[i]) {
            lemma_unchanged_from(s, i + 1, opt, offsets);
            assert(s.subrange(i, s.len() as int) =~= seq![s[i]] + s.subrange(i + 1, s.len() as int));
        } else {
            let e = run_end(s, i);
            lemma_run_end(s, i);
            assert(starts_run(s, i));
            lemma_unchanged_from(s, e, opt, offsets);
            let run = s.subrange(i, e);
            assert(unit_of_length(run.len() as int) is None);
            assert(s.subrange(i, s.len() as int) =~= run + s.subrange(e, s.len() as int));
        }
    }
}

/// Replaces each digit run of `text` that is a timestamp by its rendering.
/// In UTC the result is fixed by the text; in local time each run is seen at
/// the machine's offset for it.
pub fn rewrite(text: &str, opt: &Opt) -> (r: String)
    ensures
        exists|offsets: Seq<int>|
            offsets_for(offsets, text@.len()) && r@ == #[trigger] rewritten(text@, *opt, offsets),
        !opt.local ==> r@ == rewritten(text@, *opt, Seq::new(text@.len(), |k: int| 0int)),
{
    let s = chars_of(text);
    let n = s.len();
    let mut out: Vec<char> = Vec::new();
    let ghost mut used: Seq<int> = Seq::new(n as nat, |k: int| 0int);
    let mut i: usize = 0;
    while i < n
        invariant
            s@ == text@,
            n == s@.len(),
            i <= n,
            offsets_for(used, n as nat),
            !opt.local ==> forall|k: int| 0 <= k < n ==> #[trigger] used[k] == 0,
            forall|f: Seq<int>|
                #[trigger] agrees_before(f, used, i as int) ==> out@ + rewritten_from(
                    s@,
                    i as int,
                    *opt,
                    f,
                ) == rewritten_from(s@, 0, *opt, f),
        decreases n - i,
    {
        let c = s[i];
        if !('0' <= c && c <= '9') {
            let ghost before = out@;
            out.push(c);
            assert forall|f: Seq<int>| #[trigger] agrees_before(f, used, i + 1) implies out@
                + rewritten_from(s@, i + 1, *opt, f) == rewritten_from(s@, 0, *opt, f) by {
                assert(agrees_before(f, used, i as int));
                assert(rewritten_from(s@, i as int, *opt, f) == seq![c] + rewritten_from(
                    s@,
                    i + 1,
                    *opt,
                    f,
                ));
                assert(out@ == before + seq![c]);
            }
            i = i + 1;
        } else {
            proof {
                lemma_run_end(s@, i as int);
            }
            let mut e: usize = i + 1;
            while e < n && '0' <= s[e] && s[e] <= '9'
                invariant
                    n == s@.len(),
                    i < e <= n,
                    run_end(s@, i as int) == run_end(s@, e as int),
                decreases n - e,
            {
                e = e + 1;
            }
            proof {
                lemma_run_end(s@, e as int);
            }
            assert(run_end(s@, i as int) == e);
            let ghost run = s@.subrange(i as int, e as int);
            let ghost before = out@;
            let mut rendered: Option<String> = None;
            let ghost prev = used;
            if e - i <= MAX_RUN {
                let mut v: i64 = 0;
                let mut j: usize = i;
                proof {
                    lemma_pow10_monotone((e - i) as nat, 16);
                    reveal_with_fuel(pow10, 17);
                }
                while j < e
                    invariant
                        n == s@.len(),
                        i <= j <= e <= n,
                        e - i <= 16,
                        pow10((e - i) as nat) <= 10_000_000_000_000_000,
                        forall|k: int| i <= k < e ==> is_digit(#[trigger] s@[k]),
                        v == digits_value(s@.subrange(i as int, j as int)),
                        0 <= v < pow10((j - i) as nat),
                    decreases e - j,
                {
                    let d = s[j];
                    proof {
                        lemma_pow10_monotone((j + 1 - i) as nat, (e - i) as nat);
                        assert(s@.subrange(i as int, j + 1).drop_last() =~= s@.subrange(
                            i as int,
                            j as int,
                        ));
                    }
                    v = v * 10 + ((d as u32) - ('0' as u32)) as i64;
                    j = j + 1;
                }
                assert(s@.subrange(i as int, j as int) == run);
                rendered = get_dt(v, e - i, c, opt);
                if let Some(t) = &rendered {
                    proof {
                        let mut offset: int = 0;
                        let u = accepted_unit((e - i) as int, c).unwrap();
                        if opt.local {
                            offset = choose|o: int|
                                offset_in_range(o) && t@ == #[trigger] rendering_of(
                                    v as int,
                                    u.divisor_of(),
                                    *opt,
                                    o,
                                );
                        }
                        assert(t@ == replacement(run, *opt, offset));
                        used = used.update(i as int, offset);
                    }
                }
            }
            match rendered {
                Some(t) => {
                    let mut piece = chars_of(t.as_str());
                    out.append(&mut piece);
                },
                None => {
                    let mut k: usize = i;
                    while k < e
                        invariant
                            n == s@.len(),
                            i <= k <= e <= n,
                            out@ == before + s@.subrange(i as int, k as int),
                        decreases e - k,
                    {
                        out.push(s[k]);
                        k = k + 1;
                        assert(out@ =~= before + s@.subrange(i as int, k as int));
                    }
                    assert(replacement(run, *opt, prev[i as int]) == run);
                },
            }
            assert(out@ == before + replacement(run, *opt, used[i as int]));
            assert forall|f: Seq<int>| #[trigger] agrees_before(f, used, e as int) implies out@
                + rewritten_from(s@, e as int, *opt, f) == rewritten_from(s@, 0, *opt, f) by {
                assert(agrees_before(f, prev, i as int));
                assert(f[i as int] == used[i as int]);
                assert(rewritten_from(s@, i as int, *opt, f) == replacement(
                    run,
                    *opt,
                    f[i as int],
                ) + rewritten_from(s@, e as int, *opt, f));
                assert(before + (replacement(run, *opt, f[i as int]) + rewritten_from(
                    s@,
                    e as int,
                    *opt,
                    f,
                )) =~= out@ + rewritten_from(s@, e as int, *opt, f));
            }
            i = e;
        }
    }
    assert(agrees_before(used, used, n as int));
    assert(out@ + rewritten_from(s@, n as int, *opt, used) =~= out@);
    assert(rewritten(text@, *opt, used) == out@);
    if !opt.local {
        assert(used =~= Seq::new(text@.len(), |k: int| 0int));
    }
    string_of(&out)
}

} // verus!
