use vstd::prelude::*;

verus! {

/// The fields of `s` split on every occurrence of `sep`.
/// There is always at least one field; a separator at the very start or
/// end of `s` contributes an empty field.
pub open spec fn spec_split(s: Seq<char>, sep: char) -> Seq<Seq<char>>
    decreases s.len(),
{
    if s.len() == 0 {
        seq![Seq::<char>::empty()]
    } else if s[0] == sep {
        seq![Seq::<char>::empty()].add(spec_split(s.skip(1), sep))
    } else {
        let rest = spec_split(s.skip(1), sep);
        seq![seq![s[0]].add(rest[0])].add(rest.skip(1))
    }
}

pub proof fn lemma_split_nonempty(s: Seq<char>, sep: char)
    ensures
        spec_split(s, sep).len() >= 1,
    decreases s.len(),
{
    if s.len() == 0 {
    } else if s[0] == sep {
        lemma_split_nonempty(s.skip(1), sep);
    } else {
        lemma_split_nonempty(s.skip(1), sep);
    }
}

/// Splits `s` on every occurrence of `sep`, matching `spec_split`.
pub fn split_on(s: &str, sep: char) -> (r: Vec<String>)
    ensures
        r.deep_view() == spec_split(s@, sep),
{
    let n = s.unicode_len();
    let mut fields: Vec<String> = Vec::new();
    let mut start: usize = 0;
    let mut i: usize = 0;
    proof {
        lemma_split_nonempty(s@, sep);
        let t_0 = spec_split(s@, sep);
        assert(s@.skip(0) =~= s@);
        assert(s@.subrange(0, 0).add(t_0[0]) =~= t_0[0]);
        assert(fields.deep_view().add(seq![t_0[0]].add(t_0.skip(1))) =~= t_0);
    }
    while i < n
        invariant
            start <= i <= n,
            n == s@.len(),
            spec_split(s@.skip(i as int), sep).len() >= 1,
            spec_split(s@, sep) == fields.deep_view().add(
                seq![s@.subrange(start as int, i as int).add(
                    spec_split(s@.skip(i as int), sep)[0],
                )].add(spec_split(s@.skip(i as int), sep).skip(1)),
            ),
        decreases n - i,
    {
        let ghost t_i = spec_split(s@.skip(i as int), sep);
        proof {
            assert(s@.skip(i as int).len() > 0);
            assert(s@.skip(i as int)[0] == s@[i as int]);
            assert(s@.skip(i as int).skip(1) =~= s@.skip(i as int + 1));
            lemma_split_nonempty(s@.skip(i as int + 1), sep);
        }
        let ghost t_next = spec_split(s@.skip(i as int + 1), sep);
        let c = s.get_char(i);
        if c == sep {
            let field = String::from_str(s.substring_char(start, i));
            proof {
                assert(t_i =~= seq![Seq::<char>::empty()].add(t_next));
                assert(t_i[0] =~= Seq::<char>::empty());
                assert(t_i.skip(1) =~= t_next);
                assert(s@.subrange(start as int, i as int).add(t_i[0]) =~= s@.subrange(
                    start as int,
                    i as int,
                ));
            }
            let ghost pre = fields.deep_view();
            fields.push(field);
            proof {
                assert(fields.deep_view() =~= pre.push(field@));
                assert(s@.subrange(i as int + 1, i as int + 1).add(t_next[0]) =~= t_next[0]);
                assert(seq![t_next[0]].add(t_next.skip(1)) =~= t_next);
                assert(spec_split(s@, sep) =~= fields.deep_view().add(
                    seq![s@.subrange(i as int + 1, i as int + 1).add(t_next[0])].add(
                        t_next.skip(1),
                    ),
                ));
            }
            start = i + 1;
        } else {
            proof {
                assert(t_i =~= seq![seq![s@[i as int]].add(t_next[0])].add(t_next.skip(1)));
                assert(s@.subrange(start as int, i as int + 1) =~= s@.subrange(
                    start as int,
                    i as int,
                ).add(seq![s@[i as int]]));
                assert(s@.subrange(start as int, i as int + 1).add(t_next[0]) =~= s@.subrange(
                    start as int,
                    i as int,
                ).add(t_i[0]));
                assert(t_i.skip(1) =~= t_next.skip(1));
            }
        }
        i = i + 1;
    }
    let last = String::from_str(s.substring_char(start, n));
    proof {
        assert(s@.skip(n as int) =~= Seq::<char>::empty());
        let t_n = spec_split(s@.skip(n as int), sep);
        assert(t_n =~= seq![Seq::<char>::empty()]);
        assert(t_n.skip(1) =~= Seq::<Seq<char>>::empty());
        assert(s@.subrange(start as int, n as int).add(t_n[0]) =~= s@.subrange(
            start as int,
            n as int,
        ));
    }
    let ghost pre = fields.deep_view();
    fields.push(last);
    proof {
        assert(fields.deep_view() =~= pre.push(last@));
        assert(fields.deep_view() =~= spec_split(s@, sep));
    }
    fields
}

/// A whitespace character as far as trailing trimming is concerned.
pub open spec fn spec_is_ws(c: char) -> bool {
    c == ' ' || c == '\t' || c == '\n' || c == '\r'
}

/// `s` with every trailing whitespace character removed.
pub open spec fn spec_trim_end(s: Seq<char>) -> Seq<char>
    decreases s.len(),
{
    if s.len() == 0 {
        s
    } else if spec_is_ws(s.last()) {
        spec_trim_end(s.drop_last())
    } else {
        s
    }
}

/// Character-wise string equality.
pub fn str_eq(a: &str, b: &str) -> (r: bool)
    ensures
        r == (a@ == b@),
{
    let na = a.unicode_len();
    let nb = b.unicode_len();
    if na != nb {
        return false;
    }
    let mut i: usize = 0;
    while i < na
        invariant
            i <= na,
            na == a@.len(),
            na == b@.len(),
            forall|j: int| 0 <= j < i ==> a@[j] == b@[j],
        decreases na - i,
    {
        if s_ne_at(a, b, i) {
            return false;
        }
        i = i + 1;
    }
    proof {
        assert(a@ =~= b@);
    }
    true
}

/// Compares one character of two equal-length strings.
fn s_ne_at(a: &str, b: &str, i: usize) -> (r: bool)
    requires
        i < a@.len(),
        i < b@.len(),
    ensures
        r == (a@[i as int] != b@[i as int]),
{
    a.get_char(i) != b.get_char(i)
}

/// Does `s` start with `prefix`?
pub fn starts_with(s: &str, prefix: &str) -> (r: bool)
    ensures
        r == (prefix@.len() <= s@.len() && s@.take(prefix@.len() as int) == prefix@),
{
    let np = prefix.unicode_len();
    let ns = s.unicode_len();
    if np > ns {
        return false;
    }
    let head = s.substring_char(0, np);
    proof {
        assert(head@ =~= s@.take(np as int));
    }
    str_eq(head, prefix)
}

/// `s` with trailing whitespace removed, as `spec_trim_end` describes.
pub fn trim_end_str<'a>(s: &'a str) -> (r: &'a str)
    ensures
        r@ == spec_trim_end(s@),
{
    let n = s.unicode_len();
    let mut k: usize = n;
    proof {
        assert(s@.take(n as int) =~= s@);
    }
    while k > 0 && is_ws_at(s, k - 1)
        invariant
            k <= n,
            n == s@.len(),
            spec_trim_end(s@) == spec_trim_end(s@.take(k as int)),
        decreases k,
    {
        proof {
            assert(s@.take(k as int).last() == s@[k as int - 1]);
            assert(s@.take(k as int).drop_last() =~= s@.take(k as int - 1));
        }
        k = k - 1;
    }
    let r = s.substring_char(0, k);
    proof {
        if k > 0 {
            assert(s@.take(k as int).last() == s@[k as int - 1]);
        }
        assert(spec_trim_end(s@.take(k as int)) == s@.take(k as int));
        assert(r@ =~= s@.take(k as int));
    }
    r
}

/// Is the character at `i` whitespace?
fn is_ws_at(s: &str, i: usize) -> (r: bool)
    requires
        i < s@.len(),
    ensures
        r == spec_is_ws(s@[i as int]),
{
    let c = s.get_char(i);
    c == ' ' || c == '\t' || c == '\n' || c == '\r'
}

/// The elements of `ts` concatenated with `sep` between neighbours.
pub open spec fn spec_join(ts: Seq<Seq<char>>, sep: Seq<char>) -> Seq<char>
    decreases ts.len(),
{
    if ts.len() == 0 {
        Seq::<char>::empty()
    } else if ts.len() == 1 {
        ts[0]
    } else {
        ts[0].add(sep).add(spec_join(ts.skip(1), sep))
    }
}

pub proof fn lemma_join_push(ts: Seq<Seq<char>>, sep: Seq<char>, x: Seq<char>)
    ensures
        spec_join(ts.push(x), sep) == if ts.len() == 0 {
            x
        } else {
            spec_join(ts, sep).add(sep).add(x)
        },
    decreases ts.len(),
{
    if ts.len() == 0 {
        assert(ts.push(x) =~= seq![x]);
    } else {
        assert(ts.push(x)[0] == ts[0]);
        assert(ts.push(x).skip(1) =~= ts.skip(1).push(x));
        lemma_join_push(ts.skip(1), sep, x);
        if ts.len() == 1 {
            assert(spec_join(ts.push(x), sep) =~= spec_join(ts, sep).add(sep).add(x));
        } else {
            assert(ts[0].add(sep).add(spec_join(ts.skip(1), sep).add(sep).add(x)) =~= ts[0].add(
                sep,
            ).add(spec_join(ts.skip(1), sep)).add(sep).add(x));
        }
    }
}

/// Joins the strings of `ts` with single spaces, matching `spec_join`.
pub fn join_spaces(ts: &Vec<String>) -> (r: String)
    ensures
        r@ == spec_join(ts.deep_view(), " "@),
{
    let mut acc = String::new();
    let mut i: usize = 0;
    while i < ts.len()
        invariant
            i <= ts@.len(),
            ts.deep_view().len() == ts@.len(),
            acc@ == spec_join(ts.deep_view().take(i as int), " "@),
        decreases ts@.len() - i,
    {
        proof {
            lemma_join_push(ts.deep_view().take(i as int), " "@, ts.deep_view()[i as int]);
            assert(ts.deep_view().take(i as int).push(ts.deep_view()[i as int]) =~= ts.deep_view()
                .take(i as int + 1));
        }
        if i > 0 {
            acc.append(" ");
        }
        acc.append(ts[i].as_str());
        i = i + 1;
    }
    proof {
        assert(ts.deep_view().take(ts@.len() as int) =~= ts.deep_view());
    }
    acc
}

/// `s` with every occurrence of `pat` replaced by `rep`, scanning left to
/// right without overlap.
pub open spec fn spec_replace(s: Seq<char>, pat: Seq<char>, rep: Seq<char>) -> Seq<char>
    decreases s.len(),
{
    if s.len() == 0 {
        s
    } else if 0 < pat.len() <= s.len() && s.take(pat.len() as int) == pat {
        rep.add(spec_replace(s.skip(pat.len() as int), pat, rep))
    } else {
        seq![s[0]].add(spec_replace(s.skip(1), pat, rep))
    }
}

/// Replaces every occurrence of `pat` in `s` by `rep`, matching
/// `spec_replace`.
pub fn replace_all(s: &str, pat: &str, rep: &str) -> (r: String)
    requires
        pat@.len() > 0,
    ensures
        r@ == spec_replace(s@, pat@, rep@),
{
    let n = s.unicode_len();
    let np = pat.unicode_len();
    let mut acc = String::new();
    let mut i: usize = 0;
    proof {
        assert(s@.skip(0) =~= s@);
    }
    while i < n
        invariant
            i <= n,
            n == s@.len(),
            np == pat@.len(),
            np > 0,
            spec_replace(s@, pat@, rep@) == acc@.add(spec_replace(s@.skip(i as int), pat@, rep@)),
        decreases n - i,
    {
        let ghost tail = s@.skip(i as int);
        let matched = if np <= n - i {
            let window = s.substring_char(i, i + np);
            proof {
                assert(window@ =~= tail.take(np as int));
            }
            str_eq(window, pat)
        } else {
            false
        };
        if matched {
            acc.append(rep);
            i = i + np;
            proof {
                assert(tail.skip(np as int) =~= s@.skip(i as int));
            }
        } else {
            let one = s.substring_char(i, i + 1);
            proof {
                assert(one@ =~= seq![s@[i as int]]);
                assert(tail[0] == s@[i as int]);
                assert(tail.skip(1) =~= s@.skip(i as int + 1));
            }
            acc.append(one);
            i = i + 1;
        }
    }
    proof {
        assert(s@.skip(n as int) =~= Seq::<char>::empty());
    }
    acc
}

/// The decimal digit character for `d`.
pub open spec fn spec_digit(d: int) -> char {
    if d == 0 {
        '0'
    } else if d == 1 {
        '1'
    } else if d == 2 {
        '2'
    } else if d == 3 {
        '3'
    } else if d == 4 {
        '4'
    } else if d == 5 {
        '5'
    } else if d == 6 {
        '6'
    } else if d == 7 {
        '7'
    } else if d == 8 {
        '8'
    } else {
        '9'
    }
}

/// The decimal digit string of a non-negative number.
pub open spec fn spec_dec_nat(n: int) -> Seq<char>
    decreases n,
{
    if n < 10 {
        seq![spec_digit(n)]
    } else {
        spec_dec_nat(n / 10).push(spec_digit(n % 10))
    }
}

/// The decimal string of `n`, a leading minus sign for negatives.
pub open spec fn spec_dec_int(n: int) -> Seq<char> {
    if n < 0 {
        seq!['-'].add(spec_dec_nat(-n))
    } else {
        spec_dec_nat(n)
    }
}

/// A one-character string for the digit `d`.
fn digit_str(d: u64) -> (r: &'static str)
    requires
        d < 10,
    ensures
        r@ == seq![spec_digit(d as int)],
{
    proof {
        reveal_strlit("0");
        reveal_strlit("1");
        reveal_strlit("2");
        reveal_strlit("3");
        reveal_strlit("4");
        reveal_strlit("5");
        reveal_strlit("6");
        reveal_strlit("7");
        reveal_strlit("8");
        reveal_strlit("9");
    }
    let r = if d == 0 {
        "0"
    } else if d == 1 {
        "1"
    } else if d == 2 {
        "2"
    } else if d == 3 {
        "3"
    } else if d == 4 {
        "4"
    } else if d == 5 {
        "5"
    } else if d == 6 {
        "6"
    } else if d == 7 {
        "7"
    } else if d == 8 {
        "8"
    } else {
        "9"
    };
    proof {
        assert(r@ =~= seq![spec_digit(d as int)]);
    }
    r
}

/// The decimal digits of `n`, matching `spec_dec_nat`.
pub fn fmt_u64(n: u64) -> (r: String)
    ensures
        r@ == spec_dec_nat(n as int),
    decreases n,
{
    if n < 10 {
        String::from_str(digit_str(n))
    } else {
        let mut s = fmt_u64(n / 10);
        s.append(digit_str(n % 10));
        proof {
            assert(spec_dec_nat(n as int / 10).add(seq![spec_digit(n as int % 10)])
                =~= spec_dec_nat(n as int / 10).push(spec_digit(n as int % 10)));
        }
        s
    }
}

/// Is `c` a decimal digit?
pub open spec fn spec_is_digit(c: char) -> bool {
    48 <= c as u32 <= 57
}

/// The numeric value of the digit `c`.
pub open spec fn spec_digit_val(c: char) -> int {
    c as u32 - 48
}

/// Are all characters of `s` decimal digits?
pub open spec fn all_digits(s: Seq<char>) -> bool {
    forall|i: int| 0 <= i < s.len() ==> spec_is_digit(#[trigger] s[i])
}

/// The value of a digit string read in base ten.
pub open spec fn spec_digits_val(s: Seq<char>) -> int
    decreases s.len(),
{
    if s.len() == 0 {
        0
    } else {
        spec_digits_val(s.drop_last()) * 10 + spec_digit_val(s.last())
    }
}

pub proof fn lemma_digits_val_nonneg(s: Seq<char>)
    requires
        all_digits(s),
    ensures
        spec_digits_val(s) >= 0,
    decreases s.len(),
{
    if s.len() > 0 {
        assert(all_digits(s.drop_last()));
        lemma_digits_val_nonneg(s.drop_last());
    }
}

pub proof fn lemma_digits_val_prefix(s: Seq<char>, j: int)
    requires
        all_digits(s),
        0 <= j <= s.len(),
    ensures
        spec_digits_val(s.take(j)) <= spec_digits_val(s),
    decreases s.len() - j,
{
    if j == s.len() {
        assert(s.take(j) =~= s);
    } else {
        assert(all_digits(s.drop_last()));
        assert(s.take(j) =~= s.drop_last().take(j));
        lemma_digits_val_prefix(s.drop_last(), j);
        lemma_digits_val_nonneg(s.drop_last());
    }
}

/// What `s` denotes as a signed 32-bit decimal literal: an optional sign,
/// then one or more digits, the value within the 32-bit range.
pub open spec fn spec_parse_i32(s: Seq<char>) -> Option<int> {
    let negative = s.len() > 0 && s[0] == '-';
    let body = if s.len() > 0 && (s[0] == '-' || s[0] == '+') {
        s.skip(1)
    } else {
        s
    };
    if body.len() == 0 || !all_digits(body) {
        None
    } else {
        let v = if negative {
            -spec_digits_val(body)
        } else {
            spec_digits_val(body)
        };
        if -2147483648 <= v <= 2147483647 {
            Some(v)
        } else {
            None
        }
    }
}

/// Parses `s` as a signed 32-bit decimal number, matching `spec_parse_i32`.
pub fn parse_i32(s: &str) -> (r: Option<i32>)
    ensures
        match r {
            Some(v) => spec_parse_i32(s@) == Some(v as int),
            None => spec_parse_i32(s@) is None,
        },
{
    let n = s.unicode_len();
    let mut start: usize = 0;
    let mut negative = false;
    if n > 0 {
        let c0 = s.get_char(0);
        if c0 == '-' || c0 == '+' {
            negative = c0 == '-';
            start = 1;
        }
    }
    let ghost body = if start == 1 {
        s@.skip(1)
    } else {
        s@
    };
    proof {
        if start == 0 {
            assert(body =~= s@.skip(0));
        }
    }
    if start >= n {
        return None;
    }
    let mut acc: u64 = 0;
    let mut i: usize = start;
    while i < n
        invariant
            start <= i <= n,
            n == s@.len(),
            start <= 1,
            negative == (s@.len() > 0 && s@[0] == '-'),
            (start == 1) == (s@.len() > 0 && (s@[0] == '-' || s@[0] == '+')),
            body == s@.skip(start as int),
            body.len() == n - start,
            all_digits(body.take(i - start)),
            acc as int == spec_digits_val(body.take(i - start)),
            acc <= 2147483648,
        decreases n - i,
    {
        let c = s.get_char(i);
        let u = c as u32;
        proof {
            assert(body[i - start] == s@[i as int]);
        }
        if u < 48 || u > 57 {
            proof {
                assert(!spec_is_digit(body[i - start]));
                assert(!all_digits(body));
            }
            return None;
        }
        acc = acc * 10 + ((u - 48) as u64);
        proof {
            assert(body.take(i - start + 1).drop_last() =~= body.take(i - start));
            assert(body.take(i - start + 1).last() == body[i - start]);
        }
        if acc > 2147483648 {
            proof {
                assert(acc as int == spec_digits_val(body.take(i - start + 1)));
                let bspec = if s@.len() > 0 && (s@[0] == '-' || s@[0] == '+') {
                    s@.skip(1)
                } else {
                    s@
                };
                assert(bspec == body);
                if all_digits(body) {
                    lemma_digits_val_prefix(body, i - start + 1);
                    assert(spec_digits_val(body) >= acc as int);
                    assert(spec_digits_val(body) > 2147483648);
                    assert(spec_parse_i32(s@) is None);
                } else {
                    assert(spec_parse_i32(s@) is None);
                }
            }
            return None;
        }
        i = i + 1;
    }
    proof {
        assert(body.take(n - start) =~= body);
    }
    if negative {
        let v: i32 = (-(acc as i64)) as i32;
        Some(v)
    } else {
        if acc > 2147483647 {
            return None;
        }
        Some(acc as i32)
    }
}

/// The decimal string of `n`, matching `spec_dec_int`.
pub fn fmt_i64(n: i64) -> (r: String)
    ensures
        r@ == spec_dec_int(n as int),
{
    if n >= 0 {
        fmt_u64(n as u64)
    } else {
        let m: u64 = ((-(n + 1)) as u64) + 1;
        proof {
            reveal_strlit("-");
        }
        let mut s = String::from_str("-");
        let digits = fmt_u64(m);
        s.append(digits.as_str());
        proof {
            assert(s@ =~= seq!['-'].add(spec_dec_nat(m as int)));
        }
        s
    }
}

} // verus!
