//! The generation parser: turns a range string `"a-b"` or a comma list
//! `"a,b,c"` into a validated, duplicate-free set of generation numbers, each
//! in [1, 9], failing with `InvalidGeneration` on anything else.

use vstd::prelude::*;

use crate::error::Error;
use crate::text::{find_char, find_char_exec, lemma_find_char, lemma_find_char_at, lemma_split_on,
    split_on};

verus! {

broadcast use vstd::group_vstd_default;

/// A generation number is valid when it lies in the closed interval [1, 9].
pub open spec fn valid_generation(g: u8) -> bool {
    1 <= g <= 9
}

/// Whether `c` is a decimal digit.
pub open spec fn is_digit_char(c: char) -> bool {
    48 <= c as int <= 57
}

/// The numeric value of the digit `c`.
pub open spec fn digit_val(c: char) -> int {
    c as int - 48
}

/// The digit character for a value in [0, 9].
pub open spec fn digit_char(g: u8) -> char {
    ((48 + g) as u8) as char
}

/// Whether `s` is a non-empty run of decimal digits.
pub open spec fn all_digits(s: Seq<char>) -> bool {
    s.len() > 0 && forall|i: int| 0 <= i < s.len() ==> is_digit_char(#[trigger] s[i])
}

/// The decimal value of a digit run.
pub open spec fn dec_val(s: Seq<char>) -> int
    decreases s.len(),
{
    if s.len() == 0 {
        0
    } else {
        dec_val(s.drop_last()) * 10 + digit_val(s.last())
    }
}

/// Whether the token `s` denotes a single valid generation: a non-empty digit
/// run whose value lies in [1, 9].
pub open spec fn gen_token_ok(s: Seq<char>) -> bool {
    all_digits(s) && 1 <= dec_val(s) <= 9
}

/// `s` with every repetition of an earlier element removed: the elements of
/// `s`, each kept at its first occurrence.
pub open spec fn dedup(s: Seq<u8>) -> Seq<u8>
    decreases s.len(),
{
    if s.len() == 0 {
        s
    } else if s.drop_last().contains(s.last()) {
        dedup(s.drop_last())
    } else {
        dedup(s.drop_last()).push(s.last())
    }
}

/// Deduplication keeps exactly the elements of `s`, each once.
pub proof fn lemma_dedup(s: Seq<u8>)
    ensures
        dedup(s).to_set() == s.to_set(),
        dedup(s).no_duplicates(),
    decreases s.len(),
{
    broadcast use {vstd::seq_lib::group_seq_properties,
        vstd::seq::Seq::lemma_push_to_set_commute};

    if s.len() == 0 {
        assert(dedup(s).to_set() =~= s.to_set());
    } else {
        let butlast = s.drop_last();
        lemma_dedup(butlast);
        assert(s =~= butlast.push(s.last()));
        if butlast.contains(s.last()) {
            assert(dedup(s).to_set() =~= s.to_set());
        } else {
            assert(dedup(s).to_set() =~= dedup(butlast).to_set().insert(s.last()));
            assert(dedup(s).to_set() =~= s.to_set());
            assert(dedup(s).no_duplicates()) by {
                assert(!dedup(butlast).contains(s.last())) by {
                    assert(!butlast.to_set().contains(s.last()));
                    assert(!dedup(butlast).to_set().contains(s.last()));
                }
            }
        }
    }
}

/// Deduplication neither loses nor invents elements.
pub proof fn lemma_dedup_contains(s: Seq<u8>, x: u8)
    ensures
        dedup(s).contains(x) == s.contains(x),
{
    lemma_dedup(s);
    assert(dedup(s).to_set().contains(x) == s.to_set().contains(x));
}

/// What parsing a generation string yields, if anything: for `"a-b"` the
/// inclusive range, for a comma list the listed values with duplicates
/// removed. `None` on any malformed token, out-of-range value, or empty
/// expansion.
pub open spec fn spec_parse_gens(s: Seq<char>) -> Option<Seq<u8>> {
    if s.contains('-') {
        let i = find_char(s, '-');
        let lo = s.take(i);
        let hi = s.skip(i + 1);
        if gen_token_ok(lo) && gen_token_ok(hi) && dec_val(lo) <= dec_val(hi) {
            Some(Seq::new((dec_val(hi) - dec_val(lo) + 1) as nat, |k: int| (dec_val(lo) + k) as u8))
        } else {
            None
        }
    } else {
        let toks = split_on(s, ',');
        if forall|i: int| 0 <= i < toks.len() ==> gen_token_ok(#[trigger] toks[i]) {
            Some(dedup(toks.map_values(|t: Seq<char>| dec_val(t) as u8)))
        } else {
            None
        }
    }
}

/// A non-empty set of generations, as first parsed: a range expands in
/// ascending order, a comma list keeps first occurrences in input order.
#[derive(Debug)]
pub struct Generations(pub Vec<u8>);

impl Generations {
    /// Every member is a valid generation; the parser only ever builds
    /// well-formed values.
    pub open spec fn wf(&self) -> bool {
        forall|i: int| 0 <= i < self.0@.len() ==> valid_generation(#[trigger] self.0@[i])
    }
}

/// The comma-separated rendering of a sequence of generations, one digit
/// each.
pub open spec fn gens_text(s: Seq<u8>) -> Seq<char>
    decreases s.len(),
{
    if s.len() == 0 {
        Seq::empty()
    } else if s.len() == 1 {
        seq![digit_char(s[0])]
    } else {
        gens_text(s.drop_last()) + seq![',', digit_char(s.last())]
    }
}

/// Renders a sequence of generations as a comma-separated list of digits.
pub fn gens_to_text(v: &Vec<u8>) -> (r: String)
    requires
        forall|i: int| 0 <= i < v@.len() ==> valid_generation(#[trigger] v@[i]),
    ensures
        r@ == gens_text(v@),
{
    let mut out = String::new();
    let mut i: usize = 0;
    proof {
        assert(v@.take(0) =~= Seq::<u8>::empty());
    }
    while i < v.len()
        invariant
            i <= v@.len(),
            forall|j: int| 0 <= j < v@.len() ==> valid_generation(#[trigger] v@[j]),
            out@ == gens_text(v@.take(i as int)),
        decreases v@.len() - i,
    {
        if i > 0 {
            out.append(",");
        }
        let g = v[i];
        match g {
            1u8 => out.append("1"),
            2u8 => out.append("2"),
            3u8 => out.append("3"),
            4u8 => out.append("4"),
            5u8 => out.append("5"),
            6u8 => out.append("6"),
            7u8 => out.append("7"),
            8u8 => out.append("8"),
            _ => out.append("9"),
        }
        proof {
            reveal_strlit(",");
            reveal_strlit("1");
            reveal_strlit("2");
            reveal_strlit("3");
            reveal_strlit("4");
            reveal_strlit("5");
            reveal_strlit("6");
            reveal_strlit("7");
            reveal_strlit("8");
            reveal_strlit("9");
            let cur = v@.take(i + 1);
            assert(cur.drop_last() =~= v@.take(i as int));
            assert(cur.last() == v@[i as int]);
            assert(out@ =~= gens_text(cur));
        }
        i += 1;
    }
    proof {
        assert(v@.take(v@.len() as int) =~= v@);
    }
    out
}

/// Range law: for any `1 <= a <= b <= 9`, the string `"a-b"` parses to
/// exactly the ascending run `a, a+1, ..., b`, whose set is `{a, ..., b}`.
pub proof fn lemma_parse_range(a: u8, b: u8)
    requires
        1 <= a <= b <= 9,
    ensures
        spec_parse_gens(seq![digit_char(a), '-', digit_char(b)]) == Some(
            Seq::new((b - a + 1) as nat, |k: int| (a + k) as u8),
        ),
        Seq::new((b - a + 1) as nat, |k: int| (a + k) as u8).to_set() == Set::new(
            |x: u8| a <= x <= b,
        ),
{
    let s = seq![digit_char(a), '-', digit_char(b)];
    assert(digit_char(a) as int == 48 + a);
    assert(digit_char(b) as int == 48 + b);
    assert(s[1] == '-');
    assert(s[0] != '-');
    assert(s.contains('-'));
    lemma_find_char_at(s, '-', 1);
    let lo = s.take(1);
    let hi = s.skip(2);
    assert(lo =~= seq![digit_char(a)]);
    assert(hi =~= seq![digit_char(b)]);
    assert(dec_val(lo) == a) by {
        assert(lo.drop_last() =~= Seq::<char>::empty());
        assert(dec_val(Seq::<char>::empty()) == 0);
        assert(lo.last() == digit_char(a));
    }
    assert(dec_val(hi) == b) by {
        assert(hi.drop_last() =~= Seq::<char>::empty());
        assert(dec_val(Seq::<char>::empty()) == 0);
        assert(hi.last() == digit_char(b));
    }
    assert(all_digits(lo));
    assert(all_digits(hi));
    let g = Seq::new((b - a + 1) as nat, |k: int| (a + k) as u8);
    assert(g.to_set() =~= Set::new(|x: u8| a <= x <= b)) by {
        assert forall|x: u8| a <= x <= b implies g.to_set().contains(x) by {
            assert(g[x - a] == x);
        }
    }
}

/// Comma-list law: two lists whose token values form the same set parse to
/// the same set of generations, and both results are duplicate-free; the
/// order of tokens is irrelevant to the resulting set.
pub proof fn lemma_parse_list_order_independent(s1: Seq<char>, s2: Seq<char>, g1: Seq<u8>, g2: Seq<
    u8,
>)
    requires
        !s1.contains('-'),
        !s2.contains('-'),
        spec_parse_gens(s1) == Some(g1),
        spec_parse_gens(s2) == Some(g2),
        split_on(s1, ',').map_values(|t: Seq<char>| dec_val(t) as u8).to_set() == split_on(
            s2,
            ',',
        ).map_values(|t: Seq<char>| dec_val(t) as u8).to_set(),
    ensures
        g1.to_set() == g2.to_set(),
        g1.no_duplicates(),
        g2.no_duplicates(),
{
    lemma_dedup(split_on(s1, ',').map_values(|t: Seq<char>| dec_val(t) as u8));
    lemma_dedup(split_on(s2, ',').map_values(|t: Seq<char>| dec_val(t) as u8));
}

/// Validity law: whatever parses at all is a non-empty, duplicate-free
/// sequence of generations in [1, 9]; everything else is rejected.
pub proof fn lemma_parse_gens_valid(s: Seq<char>, g: Seq<u8>)
    requires
        spec_parse_gens(s) == Some(g),
    ensures
        g.len() > 0,
        forall|i: int| 0 <= i < g.len() ==> valid_generation(#[trigger] g[i]),
        g.no_duplicates(),
{
    if s.contains('-') {
        let d = find_char(s, '-');
        let lo = s.take(d);
        let hi = s.skip(d + 1);
        let a = dec_val(lo);
        let b = dec_val(hi);
        assert(g =~= Seq::new((b - a + 1) as nat, |k: int| (a + k) as u8));
        assert(forall|i: int| 0 <= i < g.len() ==> valid_generation(#[trigger] g[i])) by {
            assert(forall|i: int| 0 <= i < g.len() ==> #[trigger] g[i] == a + i);
        }
        assert(g.no_duplicates()) by {
            assert(forall|i: int| 0 <= i < g.len() ==> #[trigger] g[i] == a + i);
        }
    } else {
        let toks = split_on(s, ',');
        let vals = toks.map_values(|t: Seq<char>| dec_val(t) as u8);
        lemma_dedup(vals);
        lemma_split_on(s, ',');
        assert(g.len() > 0) by {
            assert(vals.contains(vals[0]));
            assert(vals.to_set().contains(vals[0]));
            assert(g.to_set().contains(vals[0]));
            assert(g.contains(vals[0]));
        }
        assert(forall|i: int| 0 <= i < g.len() ==> valid_generation(#[trigger] g[i])) by {
            assert forall|i: int| 0 <= i < g.len() implies valid_generation(#[trigger] g[i]) by {
                assert(g.contains(g[i]));
                assert(g.to_set().contains(g[i]));
                assert(vals.to_set().contains(g[i]));
                assert(vals.contains(g[i]));
                let j = choose|j: int| 0 <= j < vals.len() && vals[j] == g[i];
                assert(gen_token_ok(toks[j]));
            }
        }
    }
}

/// Parses one token of a generation string. Yields the token's value exactly
/// when the token is a digit run valued in [1, 9].
fn parse_gen_token(t: &str) -> (r: Option<u8>)
    ensures
        match r {
            Some(v) => gen_token_ok(t@) && v == dec_val(t@),
            None => !gen_token_ok(t@),
        },
{
    let len = t.unicode_len();
    if len == 0 {
        return None;
    }
    // acc tracks the token's value, saturated at 10 so that it never
    // overflows and still witnesses any value above 9.
    let mut acc: u32 = 0;
    let mut i: usize = 0;
    proof {
        assert(t@.take(0) =~= Seq::<char>::empty());
    }
    while i < len
        invariant
            len == t@.len(),
            i <= len,
            forall|j: int| 0 <= j < i ==> is_digit_char(#[trigger] t@[j]),
            acc == if dec_val(t@.take(i as int)) <= 9 {
                dec_val(t@.take(i as int))
            } else {
                10int
            },
        decreases len - i,
    {
        let c = t.get_char(i);
        let u = c as u32;
        if u < 48 || u > 57 {
            return None;
        }
        let d = u - 48;
        proof {
            let pre = t@.take(i as int);
            let cur = t@.take(i + 1);
            assert(cur.drop_last() =~= pre);
            assert(cur.last() == t@[i as int]);
            assert(dec_val(cur) == dec_val(pre) * 10 + digit_val(t@[i as int]));
        }
        acc = acc * 10 + d;
        if acc > 9 {
            acc = 10;
        }
        i += 1;
    }
    proof {
        assert(t@.take(len as int) =~= t@);
    }
    if 1 <= acc && acc <= 9 {
        Some(acc as u8)
    } else {
        None
    }
}

/// Whether `v` already holds `x`.
pub(crate) fn vec_contains_u8(v: &Vec<u8>, x: u8) -> (r: bool)
    ensures
        r == v@.contains(x),
{
    let mut i: usize = 0;
    while i < v.len()
        invariant
            i <= v@.len(),
            forall|j: int| 0 <= j < i ==> v@[j] != x,
        decreases v@.len() - i,
    {
        if v[i] == x {
            return true;
        }
        i += 1;
    }
    false
}

impl Generations {
    /// Parses a generation string: an inclusive range `"a-b"` or a comma
    /// list `"a,b,c"`. Every resulting generation lies in [1, 9] and the
    /// result is non-empty and duplicate-free; any other input fails with
    /// `InvalidGeneration` carrying the original string.
    pub fn from_str(input: &str) -> (r: Result<Generations, Error>)
        ensures
            match r {
                Ok(g) => spec_parse_gens(input@) == Some(g.0@) && g.wf(),
                Err(e) => spec_parse_gens(input@) is None && (e matches Error::InvalidGeneration(
                    raw,
                ) && raw@ == input@),
            },
    {
        let len = input.unicode_len();
        match find_char_exec(input, '-') {
            Some(i) => {
                proof {
                    lemma_find_char(input@, '-');
                }
                let lo_tok = input.substring_char(0, i);
                let hi_tok = input.substring_char(i + 1, len);
                proof {
                    assert(lo_tok@ =~= input@.take(i as int));
                    assert(hi_tok@ =~= input@.skip(i + 1));
                }
                match (parse_gen_token(lo_tok), parse_gen_token(hi_tok)) {
                    (Some(a), Some(b)) => {
                        if a <= b {
                            let mut v: Vec<u8> = Vec::new();
                            let mut g: u8 = a;
                            while g <= b
                                invariant
                                    a <= g <= b + 1,
                                    b <= 9,
                                    v@ =~= Seq::new((g - a) as nat, |k: int| (a + k) as u8),
                                decreases b + 1 - g,
                            {
                                v.push(g);
                                proof {
                                    assert(v@ =~= Seq::new(
                                        (g + 1 - a) as nat,
                                        |k: int| (a + k) as u8,
                                    ));
                                }
                                g = g + 1;
                            }
                            proof {
                                lemma_parse_gens_valid(input@, v@);
                            }
                            Ok(Generations(v))
                        } else {
                            Err(Error::InvalidGeneration(input.to_owned()))
                        }
                    },
                    _ => Err(Error::InvalidGeneration(input.to_owned())),
                }
            },
            None => {
                let toks_vals = Self::parse_list(input);
                match toks_vals {
                    Some(v) => {
                        proof {
                            lemma_parse_gens_valid(input@, v@);
                        }
                        Ok(Generations(v))
                    },
                    None => Err(Error::InvalidGeneration(input.to_owned())),
                }
            },
        }
    }

    /// Parses the comma-list grammar, returning the deduplicated values when
    /// every token is a valid generation.
    fn parse_list(input: &str) -> (r: Option<Vec<u8>>)
        requires
            !input@.contains('-'),
        ensures
            match r {
                Some(v) => spec_parse_gens(input@) == Some(v@),
                None => spec_parse_gens(input@) is None,
            },
    {
        let len = input.unicode_len();
        let mut gens: Vec<u8> = Vec::new();
        let mut start: usize = 0;
        let mut i: usize = 0;
        let ghost mut done: Seq<Seq<char>> = Seq::empty();
        proof {
            assert(input@.skip(0) =~= input@);
            assert(split_on(input@, ',') =~= done + split_on(input@.skip(0), ','));
            assert(done.map_values(|t: Seq<char>| dec_val(t) as u8) =~= Seq::<u8>::empty());
        }
        while i < len
            invariant
                len == input@.len(),
                !input@.contains('-'),
                start <= i <= len,
                forall|j: int| start <= j < i ==> input@[j] != ',',
                split_on(input@, ',') == done + split_on(input@.skip(start as int), ','),
                forall|j: int| 0 <= j < done.len() ==> gen_token_ok(#[trigger] done[j]),
                gens@ == dedup(done.map_values(|t: Seq<char>| dec_val(t) as u8)),
            decreases len - i,
        {
            let c = input.get_char(i);
            if c == ',' {
                let tok = input.substring_char(start, i);
                proof {
                    let rest = input@.skip(start as int);
                    assert(rest[i - start] == ',');
                    lemma_find_char_at(rest, ',', i - start);
                    assert(rest.take(i - start) =~= tok@);
                    assert(rest.skip(i - start + 1) =~= input@.skip(i + 1));
                    assert(split_on(rest, ',') == seq![tok@] + split_on(input@.skip(i + 1), ','));
                }
                match parse_gen_token(tok) {
                    Some(val) => {
                        let dup = vec_contains_u8(&gens, val);
                        proof {
                            let vals = done.map_values(|t: Seq<char>| dec_val(t) as u8);
                            let vals2 = (done + seq![tok@]).map_values(
                                |t: Seq<char>| dec_val(t) as u8,
                            );
                            assert(vals2 =~= vals.push(val));
                            assert(vals2.drop_last() =~= vals);
                            lemma_dedup_contains(vals, val);
                            assert(done + split_on(input@.skip(start as int), ',') =~= (done + seq![
                                tok@,
                            ]) + split_on(input@.skip(i + 1), ','));
                        }
                        if !dup {
                            gens.push(val);
                        }
                        proof {
                            done = done + seq![tok@];
                        }
                        start = i + 1;
                    },
                    None => {
                        proof {
                            let toks = split_on(input@, ',');
                            assert(toks.len() >= done.len() + 1);
                            assert(toks[done.len() as int] == tok@);
                            assert(!gen_token_ok(toks[done.len() as int]));
                        }
                        return None;
                    },
                }
            }
            i += 1;
        }
        let tok = input.substring_char(start, len);
        proof {
            let rest = input@.skip(start as int);
            assert(!rest.contains(',')) by {
                assert(forall|k: int| 0 <= k < rest.len() ==> rest[k] == input@[start + k]);
            }
            assert(rest =~= tok@);
            assert(split_on(rest, ',') == seq![tok@]);
        }
        match parse_gen_token(tok) {
            Some(val) => {
                let dup = vec_contains_u8(&gens, val);
                proof {
                    let vals = done.map_values(|t: Seq<char>| dec_val(t) as u8);
                    let vals2 = (done + seq![tok@]).map_values(|t: Seq<char>| dec_val(t) as u8);
                    assert(vals2 =~= vals.push(val));
                    assert(vals2.drop_last() =~= vals);
                    lemma_dedup_contains(vals, val);
                    assert(done + split_on(input@.skip(start as int), ',') =~= done + seq![tok@]);
                }
                if !dup {
                    gens.push(val);
                }
                proof {
                    done = done + seq![tok@];
                    let toks = split_on(input@, ',');
                    assert(forall|j: int| 0 <= j < toks.len() ==> gen_token_ok(#[trigger] toks[j]));
                }
                Some(gens)
            },
            None => {
                proof {
                    let toks = split_on(input@, ',');
                    assert(toks.len() >= done.len() + 1);
                    assert(toks[done.len() as int] == tok@);
                    assert(!gen_token_ok(toks[done.len() as int]));
                }
                None
            },
        }
    }
}

} // verus!
