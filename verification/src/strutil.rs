//! Small string helpers: bridging between `String` and `Vec<char>`,
//! decimal numerals, and splitting a comma-separated host list.

use vstd::prelude::*;
use vstd::std_specs::iter::IteratorSpec;

verus! {

/// Relies on std's `Iterator::collect` for `String`: the collected string
/// holds exactly the iterated characters, in order.
#[verifier::external_body]
pub fn chars_to_string(v: &Vec<char>) -> (r: String)
    ensures
        r@ == v@,
{
    v.iter().collect()
}

/// The characters of `s`, in order, collected by walking `str::chars`.
pub fn str_to_chars(s: &str) -> (r: Vec<char>)
    ensures
        r@ == s@,
{
    broadcast use vstd::string::next_postcondition;
    broadcast use vstd::string::axiom_spec_iter;

    let mut it = s.chars();
    let mut v: Vec<char> = Vec::new();
    proof {
        assert(v@ + IteratorSpec::remaining(&it) =~= s@);
    }
    loop
        invariant
            it.obeys_prophetic_iter_laws(),
            IteratorSpec::decrease(&it) is Some,
            v@ + IteratorSpec::remaining(&it) == s@,
        ensures
            v@ == s@,
        decreases IteratorSpec::decrease(&it)->0,
    {
        let ghost v0 = v@;
        let ghost rem0 = IteratorSpec::remaining(&it);
        match it.next() {
            Some(c) => {
                v.push(c);
                proof {
                    assert(v0 + rem0 =~= v0.push(rem0[0]) + rem0.drop_first());
                }
            },
            None => {
                proof {
                    assert(v0 + rem0 =~= v0);
                }
                break;
            },
        }
    }
    v
}

/// The character for one decimal digit.
pub open spec fn digit_char(d: int) -> char {
    ((48 + d) as u8) as char
}

/// The decimal numeral of `n`, most significant digit first, no sign.
pub open spec fn spec_u64_dec(n: nat) -> Seq<char>
    decreases n,
{
    if n < 10 {
        seq![digit_char(n as int)]
    } else {
        spec_u64_dec(n / 10).push(digit_char((n % 10) as int))
    }
}

/// The decimal numeral of `n`, with a leading minus sign when negative.
pub open spec fn spec_i64_dec(n: int) -> Seq<char> {
    if n >= 0 {
        spec_u64_dec(n as nat)
    } else {
        seq!['-'] + spec_u64_dec((-n) as nat)
    }
}

fn u64_dec_chars(n: u64) -> (r: Vec<char>)
    ensures
        r@ == spec_u64_dec(n as nat),
    decreases n,
{
    let d: u8 = 48 + (n % 10) as u8;
    if n < 10 {
        let mut r: Vec<char> = Vec::new();
        r.push(d as char);
        assert(r@ =~= seq![digit_char(n as int)]);
        r
    } else {
        let mut r = u64_dec_chars(n / 10);
        r.push(d as char);
        r
    }
}

/// Formats an integer as its decimal numeral.
pub fn i64_to_string(n: i64) -> (r: String)
    ensures
        r@ == spec_i64_dec(n as int),
{
    if n >= 0 {
        let digits = u64_dec_chars(n as u64);
        chars_to_string(&digits)
    } else {
        // Magnitude of `n`, computed without overflowing `i64` at `i64::MIN`.
        let m: u64 = ((-(n + 1)) as u64) + 1;
        assert(m == -(n as int));
        let digits = u64_dec_chars(m);
        let mut all: Vec<char> = Vec::new();
        all.push('-');
        let mut rest = digits;
        all.append(&mut rest);
        assert(all@ =~= spec_i64_dec(n as int));
        chars_to_string(&all)
    }
}

/// The pieces of `s` between its commas, in order. An empty string is one
/// empty piece; a trailing comma yields a trailing empty piece.
pub open spec fn spec_split_commas(s: Seq<char>) -> Seq<Seq<char>>
    decreases s.len(),
{
    if s.len() == 0 {
        seq![Seq::<char>::empty()]
    } else if s.last() == ',' {
        spec_split_commas(s.drop_last()).push(Seq::<char>::empty())
    } else {
        let p = spec_split_commas(s.drop_last());
        p.update(p.len() - 1, p.last().push(s.last()))
    }
}

proof fn lemma_split_nonempty(s: Seq<char>)
    ensures
        spec_split_commas(s).len() >= 1,
    decreases s.len(),
{
    if s.len() != 0 && s.last() != ',' {
        lemma_split_nonempty(s.drop_last());
    }
}

/// Splits `s` at every comma.
pub fn split_commas(s: &str) -> (r: Vec<String>)
    ensures
        r@.map_values(|p: String| p@) == spec_split_commas(s@),
{
    let chars = str_to_chars(s);
    let mut parts: Vec<String> = Vec::new();
    let mut cur: Vec<char> = Vec::new();
    let mut i: usize = 0;
    proof {
        assert(s@.subrange(0, 0) =~= Seq::<char>::empty());
        assert(parts@.map_values(|p: String| p@).push(cur@) =~= spec_split_commas(
            s@.subrange(0, 0),
        ));
    }
    while i < chars.len()
        invariant
            chars@ == s@,
            i <= chars@.len(),
            parts@.map_values(|p: String| p@).push(cur@) == spec_split_commas(
                s@.subrange(0, i as int),
            ),
        decreases chars@.len() - i,
    {
        let ghost pre = s@.subrange(0, i as int);
        let ghost post = s@.subrange(0, i as int + 1);
        let ghost m0 = parts@.map_values(|p: String| p@);
        let ghost cur0 = cur@;
        proof {
            assert(post.drop_last() =~= pre);
            lemma_split_nonempty(pre);
        }
        let c = chars[i];
        if c == ',' {
            let done = chars_to_string(&cur);
            parts.push(done);
            cur = Vec::new();
            proof {
                assert(parts@.map_values(|p: String| p@) =~= m0.push(cur0));
                assert(spec_split_commas(post) == spec_split_commas(pre).push(
                    Seq::<char>::empty(),
                ));
                assert(parts@.map_values(|p: String| p@).push(cur@) =~= spec_split_commas(post));
            }
        } else {
            cur.push(c);
            proof {
                let p = spec_split_commas(pre);
                assert(p == m0.push(cur0));
                assert(spec_split_commas(post) == p.update(p.len() - 1, p.last().push(c)));
                assert(p.last() == cur0);
                assert(p.update(p.len() - 1, cur0.push(c)) =~= m0.push(cur0.push(c)));
            }
        }
        i = i + 1;
    }
    proof {
        assert(s@.subrange(0, s@.len() as int) =~= s@);
    }
    let ghost m1 = parts@.map_values(|p: String| p@);
    let done = chars_to_string(&cur);
    let ghost cur1 = cur@;
    parts.push(done);
    proof {
        assert(parts@.map_values(|p: String| p@) =~= m1.push(cur1));
    }
    parts
}

} // verus!
