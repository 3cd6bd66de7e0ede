//! Field normalizers: comma-splitting, duration formatting, player-count and
//! shot-code parsing, each specified against a mathematical model of the text.

use vstd::prelude::*;
use vstd::string::StringExecFns;

use crate::text::{
    chars_to_string, find_idx, is_space, lemma_find_idx_at, lemma_split_if_len,
    lemma_split_if_none, lemma_split_if_step, lemma_trim_start_done, lemma_trim_start_skip,
    space_char, split_if, str_to_chars, subvec, trim_chars, trim_spec, trim_start_spec,
};

verus! {

/// The comma predicate used by `split_csv_spec`.
pub open spec fn comma_pred() -> spec_fn(char) -> bool {
    |c: char| c == ','
}

/// The parenthesis predicate used by `duration_spec`.
pub open spec fn paren_pred() -> spec_fn(char) -> bool {
    |c: char| c == '(' || c == ')'
}

/// The whitespace predicate used by `first_word`.
pub open spec fn space_pred() -> spec_fn(char) -> bool {
    |c: char| is_space(c)
}

/// Trimming as a function value, for element-wise mapping.
pub open spec fn trim_fn() -> spec_fn(Seq<char>) -> Seq<char> {
    |t: Seq<char>| trim_spec(t)
}

/// The comma-separated pieces of `s`, each trimmed: `n` commas give `n + 1`
/// pieces, so the empty input gives one empty piece.
pub open spec fn split_csv_spec(s: Seq<char>) -> Seq<Seq<char>> {
    split_if(s, comma_pred()).map_values(trim_fn())
}

/// Splits a comma-separated string into a vector of trimmed strings.
pub fn split_to_vec(data: &str) -> (r: Vec<String>)
    ensures
        r.deep_view() == split_csv_spec(data@),
{
    let v = str_to_chars(data);
    let n = v.len();
    let mut res: Vec<String> = Vec::new();
    let mut start: usize = 0;
    let mut i: usize = 0;
    proof {
        assert(v@.skip(0) =~= v@);
        assert(res.deep_view() + split_if(v@, comma_pred()).map_values(trim_fn()) =~= split_if(
            v@,
            comma_pred(),
        ).map_values(trim_fn()));
    }
    while i < n
        invariant
            start <= i <= n,
            n == v@.len(),
            v@ == data@,
            forall|k: int| start <= k < i ==> v@[k] != ',',
            res.deep_view() + split_if(v@.skip(start as int), comma_pred()).map_values(trim_fn())
                == split_csv_spec(v@),
        decreases n - i,
    {
        if v[i] == ',' {
            let piece = subvec(&v, start, i);
            let trimmed = trim_chars(&piece);
            let s = chars_to_string(&trimmed);
            let ghost old_res = res.deep_view();
            res.push(s);
            proof {
                let tail = v@.skip(start as int);
                assert forall|k: int| 0 <= k < i as int - start as int implies !(comma_pred())(
                    #[trigger] tail[k],
                ) by {
                    assert(tail[k] == v@[start as int + k]);
                }
                assert((comma_pred())(tail[i as int - start as int]));
                lemma_split_if_step(tail, comma_pred(), i as int - start as int);
                assert(tail.take(i as int - start as int) =~= v@.subrange(start as int, i as int));
                assert(tail.skip(i as int - start as int + 1) =~= v@.skip(i as int + 1));
                assert(res.deep_view() =~= old_res.push(trim_spec(v@.subrange(
                    start as int,
                    i as int,
                ))));
                assert((seq![tail.take(i as int - start as int)] + split_if(
                    v@.skip(i as int + 1),
                    comma_pred(),
                )).map_values(trim_fn()) =~= seq![trim_spec(v@.subrange(start as int, i as int))]
                    + split_if(v@.skip(i as int + 1), comma_pred()).map_values(trim_fn()));
                assert(res.deep_view() + split_if(v@.skip(i as int + 1), comma_pred()).map_values(
                    trim_fn(),
                ) =~= old_res + (seq![trim_spec(v@.subrange(start as int, i as int))] + split_if(
                    v@.skip(i as int + 1),
                    comma_pred(),
                ).map_values(trim_fn())));
            }
            start = i + 1;
        }
        i += 1;
    }
    let piece = subvec(&v, start, n);
    let trimmed = trim_chars(&piece);
    let s = chars_to_string(&trimmed);
    let ghost old_res = res.deep_view();
    res.push(s);
    proof {
        let tail = v@.skip(start as int);
        assert forall|k: int| 0 <= k < tail.len() implies !(comma_pred())(#[trigger] tail[k]) by {
            assert(tail[k] == v@[start as int + k]);
        }
        lemma_split_if_none(tail, comma_pred());
        assert(tail =~= v@.subrange(start as int, n as int));
        assert(seq![tail].map_values(trim_fn()) =~= seq![trim_spec(tail)]);
        assert(res.deep_view() =~= old_res.push(trim_spec(tail)));
        assert(res.deep_view() =~= old_res + seq![tail].map_values(trim_fn()));
    }
    res
}

/// A decimal digit.
pub open spec fn is_digit(c: char) -> bool {
    48 <= c as int && c as int <= 57
}

/// The numeric value of a digit character.
pub open spec fn digit_val(c: char) -> int {
    c as int - 48
}

/// Whether every character of `s` is a decimal digit.
pub open spec fn all_digits(s: Seq<char>) -> bool {
    forall|k: int| 0 <= k < s.len() ==> is_digit(#[trigger] s[k])
}

/// The base-ten value of a digit sequence.
pub open spec fn digits_val(s: Seq<char>) -> int
    decreases s.len(),
{
    if s.len() == 0 {
        0
    } else {
        digits_val(s.drop_last()) * 10 + digit_val(s.last())
    }
}

pub proof fn lemma_digits_val_nonneg(s: Seq<char>)
    requires
        all_digits(s),
    ensures
        digits_val(s) >= 0,
    decreases s.len(),
{
    if s.len() > 0 {
        assert forall|k: int| 0 <= k < s.drop_last().len() implies is_digit(
            #[trigger] s.drop_last()[k],
        ) by {
            assert(s.drop_last()[k] == s[k]);
        }
        lemma_digits_val_nonneg(s.drop_last());
        assert(is_digit(s.last()));
    }
}

/// A digit sequence is worth at least any of its prefixes.
pub proof fn lemma_digits_val_prefix(s: Seq<char>, n: int)
    requires
        all_digits(s),
        0 <= n <= s.len(),
    ensures
        digits_val(s.take(n)) <= digits_val(s),
    decreases s.len(),
{
    if n < s.len() {
        assert forall|k: int| 0 <= k < s.drop_last().len() implies is_digit(
            #[trigger] s.drop_last()[k],
        ) by {
            assert(s.drop_last()[k] == s[k]);
        }
        lemma_digits_val_nonneg(s.drop_last());
        lemma_digits_val_prefix(s.drop_last(), n);
        assert(s.drop_last().take(n) =~= s.take(n));
        assert(is_digit(s.last()));
    } else {
        assert(s.take(n) =~= s);
    }
}

/// The value `str::parse::<i32>` gives to `s`: an optional sign followed by
/// one or more decimal digits, read in base ten, if it fits in an `i32`.
pub open spec fn parse_i32_spec(s: Seq<char>) -> Option<i32> {
    let neg = s.len() > 0 && s[0] == '-';
    let signed = s.len() > 0 && (s[0] == '-' || s[0] == '+');
    let ds = if signed {
        s.skip(1)
    } else {
        s
    };
    if ds.len() > 0 && all_digits(ds) {
        let v = if neg {
            -digits_val(ds)
        } else {
            digits_val(ds)
        };
        if -0x8000_0000 <= v && v <= 0x7fff_ffff {
            Some(v as i32)
        } else {
            None
        }
    } else {
        None
    }
}

/// The numeric value of a digit character, if it is one.
fn digit_of(c: char) -> (r: Option<u8>)
    ensures
        is_digit(c) ==> r == Some((digit_val(c)) as u8),
        !is_digit(c) ==> r is None,
{
    let cu = c as u32;
    if 48 <= cu && cu <= 57 {
        Some((cu - 48) as u8)
    } else {
        None
    }
}

/// Parses a decimal integer with an optional sign, as `str::parse::<i32>` does.
fn parse_i32_chars(v: &Vec<char>) -> (r: Option<i32>)
    ensures
        r == parse_i32_spec(v@),
{
    let n = v.len();
    if n == 0 {
        return None;
    }
    let signed = v[0] == '-' || v[0] == '+';
    let neg = v[0] == '-';
    let start: usize = if signed {
        1
    } else {
        0
    };
    if n == start {
        return None;
    }
    let ghost ds = v@.skip(start as int);
    let mut i: usize = start;
    let mut acc: u64 = 0;
    proof {
        assert(v@.subrange(start as int, start as int) =~= Seq::<char>::empty());
        if !signed {
            assert(v@.skip(0) =~= v@);
        }
    }
    while i < n
        invariant
            start <= i <= n,
            n == v@.len(),
            n > start,
            start == if signed {
                1int
            } else {
                0int
            },
            signed == (v@[0] == '-' || v@[0] == '+'),
            neg == (v@[0] == '-'),
            ds == if signed {
                v@.skip(1)
            } else {
                v@
            },
            forall|k: int| start <= k < i ==> is_digit(#[trigger] v@[k]),
            acc == digits_val(v@.subrange(start as int, i as int)),
            acc <= 0x8000_0000,
        decreases n - i,
    {
        let c = v[i];
        let d: u64 = match digit_of(c) {
            Some(d8) => d8 as u64,
            None => {
                proof {
                    assert(ds[i as int - start as int] == v@[i as int]);
                    assert(!all_digits(ds));
                }
                return None;
            },
        };
        proof {
            assert(is_digit(v@[i as int]));
            assert(d == digit_val(v@[i as int]));
        }
        acc = acc * 10 + d;
        proof {
            let pre = v@.subrange(start as int, i as int);
            let ext = v@.subrange(start as int, i as int + 1);
            assert(ext =~= pre.push(v@[i as int]));
            assert(ext.drop_last() =~= pre);
            assert(ext.last() == v@[i as int]);
            assert(acc == digits_val(ext));
        }
        if acc > 0x8000_0000 {
            proof {
                if all_digits(ds) {
                    let m = i as int + 1 - start as int;
                    assert(v@.subrange(start as int, i as int + 1) =~= ds.take(m));
                    lemma_digits_val_prefix(ds, m);
                    lemma_digits_val_nonneg(ds);
                    assert(digits_val(ds) > 0x8000_0000);
                }
            }
            return None;
        }
        i += 1;
    }
    proof {
        assert(v@.subrange(start as int, n as int) =~= ds);
        assert forall|k: int| 0 <= k < ds.len() implies is_digit(#[trigger] ds[k]) by {
            assert(ds[k] == v@[start as int + k]);
        }
    }
    if neg {
        if acc == 0x8000_0000 {
            Some(i32::MIN)
        } else {
            Some(-(acc as i32))
        }
    } else {
        if acc == 0x8000_0000 {
            None
        } else {
            Some(acc as i32)
        }
    }
}

/// `s` without its newline characters.
pub open spec fn drop_newlines(s: Seq<char>) -> Seq<char>
    decreases s.len(),
{
    if s.len() == 0 {
        seq![]
    } else if s.last() == '\n' {
        drop_newlines(s.drop_last())
    } else {
        drop_newlines(s.drop_last()).push(s.last())
    }
}

/// Minute-marker replacement as a function value: each apostrophe becomes `m`.
pub open spec fn quote_m_fn() -> spec_fn(char) -> char {
    |c: char| if c == '\'' {
        'm'
    } else {
        c
    }
}

/// `s` with each apostrophe replaced by the letter `m`.
pub open spec fn quote_to_m(s: Seq<char>) -> Seq<char> {
    s.map_values(quote_m_fn())
}

/// The normalized duration: newlines dropped; with exactly two parenthesis
/// characters, the text before the first and the text between the two are
/// joined as `"<main> - <sub>"`, the minute marker replaced and the ends
/// trimmed in each; otherwise the cleaned text itself, treated the same way.
pub open spec fn duration_spec(raw: Seq<char>) -> Seq<char> {
    let cleaned = drop_newlines(raw);
    let parts = split_if(cleaned, paren_pred());
    if parts.len() == 3 {
        trim_spec(quote_to_m(parts[0])) + " - "@ + trim_spec(quote_to_m(parts[1]))
    } else {
        trim_spec(quote_to_m(cleaned))
    }
}

/// Executable test matching `paren_pred`.
fn paren_char(c: char) -> (r: bool)
    ensures
        r == (paren_pred())(c),
{
    c == '(' || c == ')'
}

/// `v` with each apostrophe replaced by the letter `m`.
fn replace_quotes(v: &Vec<char>) -> (r: Vec<char>)
    ensures
        r@ == quote_to_m(v@),
{
    let mut r: Vec<char> = Vec::new();
    let mut i: usize = 0;
    proof {
        assert(r@ =~= quote_to_m(v@.take(0)));
    }
    while i < v.len()
        invariant
            i <= v@.len(),
            r@ == quote_to_m(v@.take(i as int)),
        decreases v@.len() - i,
    {
        let c = v[i];
        if c == '\'' {
            r.push('m');
        } else {
            r.push(c);
        }
        proof {
            assert(quote_to_m(v@.take(i as int + 1)) =~= quote_to_m(v@.take(i as int)).push(
                (quote_m_fn())(v@[i as int]),
            ));
        }
        i += 1;
    }
    proof {
        assert(v@.take(v@.len() as int) =~= v@);
    }
    r
}

/// The minute-marker replacement and trim applied to a whole cleaned text.
fn duration_fallback(cl: &Vec<char>) -> (r: String)
    ensures
        r@ == trim_spec(quote_to_m(cl@)),
{
    let replaced = replace_quotes(cl);
    let trimmed = trim_chars(&replaced);
    chars_to_string(&trimmed)
}

/// Processes a raw duration text into its readable format.
pub fn process_duration(raw_duration: &str) -> (r: String)
    ensures
        r@ == duration_spec(raw_duration@),
{
    let v = str_to_chars(raw_duration);
    let mut cl: Vec<char> = Vec::new();
    let mut i: usize = 0;
    proof {
        assert(cl@ =~= drop_newlines(v@.take(0)));
    }
    while i < v.len()
        invariant
            i <= v@.len(),
            cl@ == drop_newlines(v@.take(i as int)),
        decreases v@.len() - i,
    {
        let c = v[i];
        if c != '\n' {
            cl.push(c);
        }
        proof {
            assert(v@.take(i as int + 1).drop_last() =~= v@.take(i as int));
            assert(v@.take(i as int + 1).last() == v@[i as int]);
        }
        i += 1;
    }
    proof {
        assert(v@.take(v@.len() as int) =~= v@);
        assert(cl@ == drop_newlines(raw_duration@));
    }
    let n = cl.len();
    let mut p1: usize = 0;
    while p1 < n && !paren_char(cl[p1])
        invariant
            p1 <= n,
            n == cl@.len(),
            forall|k: int| 0 <= k < p1 ==> !(paren_pred())(#[trigger] cl@[k]),
        decreases n - p1,
    {
        p1 += 1;
    }
    if p1 == n {
        proof {
            lemma_split_if_none(cl@, paren_pred());
        }
        return duration_fallback(&cl);
    }
    let mut p2: usize = p1 + 1;
    while p2 < n && !paren_char(cl[p2])
        invariant
            p1 < p2 <= n,
            n == cl@.len(),
            forall|k: int| p1 < k < p2 ==> !(paren_pred())(#[trigger] cl@[k]),
        decreases n - p2,
    {
        p2 += 1;
    }
    proof {
        lemma_split_if_step(cl@, paren_pred(), p1 as int);
    }
    let ghost tail1 = cl@.skip(p1 as int + 1);
    if p2 == n {
        proof {
            assert forall|k: int| 0 <= k < tail1.len() implies !(paren_pred())(
                #[trigger] tail1[k],
            ) by {
                assert(tail1[k] == cl@[p1 as int + 1 + k]);
            }
            lemma_split_if_none(tail1, paren_pred());
            assert(split_if(cl@, paren_pred()).len() == 2);
        }
        return duration_fallback(&cl);
    }
    proof {
        assert forall|k: int| 0 <= k < p2 as int - p1 as int - 1 implies !(paren_pred())(
            #[trigger] tail1[k],
        ) by {
            assert(tail1[k] == cl@[p1 as int + 1 + k]);
        }
        assert(tail1[p2 as int - p1 as int - 1] == cl@[p2 as int]);
        lemma_split_if_step(tail1, paren_pred(), p2 as int - p1 as int - 1);
    }
    let ghost tail2 = tail1.skip(p2 as int - p1 as int);
    proof {
        assert(tail2 =~= cl@.skip(p2 as int + 1));
    }
    let mut p3: usize = p2 + 1;
    while p3 < n && !paren_char(cl[p3])
        invariant
            p2 < p3 <= n,
            n == cl@.len(),
            forall|k: int| p2 < k < p3 ==> !(paren_pred())(#[trigger] cl@[k]),
        decreases n - p3,
    {
        p3 += 1;
    }
    if p3 < n {
        proof {
            assert forall|k: int| 0 <= k < p3 as int - p2 as int - 1 implies !(paren_pred())(
                #[trigger] tail2[k],
            ) by {
                assert(tail2[k] == cl@[p2 as int + 1 + k]);
            }
            assert(tail2[p3 as int - p2 as int - 1] == cl@[p3 as int]);
            lemma_split_if_step(tail2, paren_pred(), p3 as int - p2 as int - 1);
            lemma_split_if_len(tail2.skip(p3 as int - p2 as int), paren_pred());
            assert(split_if(cl@, paren_pred()).len() >= 4);
        }
        return duration_fallback(&cl);
    }
    proof {
        assert forall|k: int| 0 <= k < tail2.len() implies !(paren_pred())(
            #[trigger] tail2[k],
        ) by {
            assert(tail2[k] == cl@[p2 as int + 1 + k]);
        }
        lemma_split_if_none(tail2, paren_pred());
        assert(split_if(cl@, paren_pred()).len() == 3);
        assert(split_if(cl@, paren_pred())[0] == cl@.take(p1 as int));
        assert(split_if(cl@, paren_pred())[1] == tail1.take(p2 as int - p1 as int - 1));
        assert(tail1.take(p2 as int - p1 as int - 1) =~= cl@.subrange(
            p1 as int + 1,
            p2 as int,
        ));
        assert(cl@.take(p1 as int) =~= cl@.subrange(0, p1 as int));
    }
    let main_part = subvec(&cl, 0, p1);
    let sub_part = subvec(&cl, p1 + 1, p2);
    let main_repl = replace_quotes(&main_part);
    let main_trim = trim_chars(&main_repl);
    let sub_repl = replace_quotes(&sub_part);
    let sub_trim = trim_chars(&sub_repl);
    let mut out = chars_to_string(&main_trim);
    out.append(" - ");
    let sub_str = chars_to_string(&sub_trim);
    out.append(sub_str.as_str());
    out
}

/// The first whitespace-separated word of `s` (empty if there is none).
pub open spec fn first_word(s: Seq<char>) -> Seq<char> {
    let t = trim_start_spec(s);
    t.take(find_idx(t, space_pred()))
}

/// What shot-code parsing yields: the first word of `s` read as an integer.
pub open spec fn golpe_spec(s: Seq<char>) -> Option<i32> {
    parse_i32_spec(first_word(s))
}

/// Extracts the number that begins a shot description, if there is one.
pub fn process_golpe(golpe: &str) -> (r: Option<i32>)
    ensures
        r == golpe_spec(golpe@),
{
    let v = str_to_chars(golpe);
    let n = v.len();
    let mut a: usize = 0;
    while a < n && space_char(v[a])
        invariant
            a <= n,
            n == v@.len(),
            forall|k: int| 0 <= k < a ==> is_space(#[trigger] v@[k]),
        decreases n - a,
    {
        a += 1;
    }
    let mut b: usize = a;
    while b < n && !space_char(v[b])
        invariant
            a <= b <= n,
            n == v@.len(),
            forall|k: int| a <= k < b ==> !is_space(#[trigger] v@[k]),
        decreases n - b,
    {
        b += 1;
    }
    let w = subvec(&v, a, b);
    proof {
        lemma_trim_start_skip(v@, a as int);
        let t = v@.skip(a as int);
        assert(t.len() == 0 || !is_space(t[0]));
        lemma_trim_start_done(t);
        assert forall|k: int| 0 <= k < b as int - a as int implies !(space_pred())(
            #[trigger] t[k],
        ) by {
            assert(t[k] == v@[a as int + k]);
        }
        if (b as int - a as int) < t.len() {
            assert(t[b as int - a as int] == v@[b as int]);
        }
        lemma_find_idx_at(t, space_pred(), b as int - a as int);
        assert(t.take(b as int - a as int) =~= v@.subrange(a as int, b as int));
    }
    parse_i32_chars(&w)
}

/// The player counts read from a sequence of tokens: the first word of each
/// token parsed as an integer, tokens without one dropped.
pub open spec fn num_jugadores_spec(ts: Seq<Seq<char>>) -> Seq<i32>
    decreases ts.len(),
{
    if ts.len() == 0 {
        seq![]
    } else {
        let rest = num_jugadores_spec(ts.drop_last());
        match golpe_spec(ts.last()) {
            Some(x) => rest.push(x),
            None => rest,
        }
    }
}

/// Extracts the numbers of players from strings such as `"4 JUGADORES"`.
pub fn process_num_jugadores(players: Vec<String>) -> (r: Vec<i32>)
    ensures
        r@ == num_jugadores_spec(players.deep_view()),
{
    let mut r: Vec<i32> = Vec::new();
    let mut i: usize = 0;
    proof {
        assert(players.deep_view().take(0) =~= Seq::<Seq<char>>::empty());
    }
    while i < players.len()
        invariant
            i <= players@.len(),
            players.deep_view().len() == players@.len(),
            r@ == num_jugadores_spec(players.deep_view().take(i as int)),
        decreases players@.len() - i,
    {
        let d = players[i].as_str();
        match process_golpe(d) {
            Some(x) => { r.push(x) },
            None => {},
        }
        proof {
            let dv = players.deep_view();
            assert(dv.take(i as int + 1).drop_last() =~= dv.take(i as int));
            assert(dv.take(i as int + 1).last() == dv[i as int]);
            assert(dv[i as int] == players@[i as int]@);
        }
        i += 1;
    }
    proof {
        assert(players.deep_view().take(players@.len() as int) =~= players.deep_view());
    }
    r
}

} // verus!
