use vstd::prelude::*;

use crate::strutil::{spec_split, split_on, starts_with, str_eq};

verus! {

/// A word character: an ASCII letter, digit or underscore.
pub open spec fn is_word_char(c: char) -> bool {
    (48 <= c as u32 <= 57) || (65 <= c as u32 <= 90) || (97 <= c as u32 <= 122) || c == '_'
}

/// A character allowed in an option name: a word character or a hyphen.
pub open spec fn is_name_char(c: char) -> bool {
    is_word_char(c) || c == '-'
}

/// Length of the longest prefix of `s` made of option-name characters.
pub open spec fn name_run(s: Seq<char>) -> int
    decreases s.len(),
{
    if s.len() == 0 || !is_name_char(s[0]) {
        0
    } else {
        1 + name_run(s.skip(1))
    }
}

/// Length of the longest prefix of `s` made of word characters.
pub open spec fn word_run(s: Seq<char>) -> int
    decreases s.len(),
{
    if s.len() == 0 || !is_word_char(s[0]) {
        0
    } else {
        1 + word_run(s.skip(1))
    }
}

pub proof fn lemma_name_run_is(s: Seq<char>, k: int)
    requires
        0 <= k <= s.len(),
        forall|t: int| 0 <= t < k ==> is_name_char(#[trigger] s[t]),
        k == s.len() || !is_name_char(s[k]),
    ensures
        name_run(s) == k,
    decreases k,
{
    if k > 0 {
        assert(forall|t: int| 0 <= t < k - 1 ==> #[trigger] s.skip(1)[t] == s[t + 1]);
        if k - 1 < s.skip(1).len() {
            assert(s.skip(1)[k - 1] == s[k]);
        }
        lemma_name_run_is(s.skip(1), k - 1);
    }
}

pub proof fn lemma_word_run_is(s: Seq<char>, k: int)
    requires
        0 <= k <= s.len(),
        forall|t: int| 0 <= t < k ==> is_word_char(#[trigger] s[t]),
        k == s.len() || !is_word_char(s[k]),
    ensures
        word_run(s) == k,
    decreases k,
{
    if k > 0 {
        assert(forall|t: int| 0 <= t < k - 1 ==> #[trigger] s.skip(1)[t] == s[t + 1]);
        if k - 1 < s.skip(1).len() {
            assert(s.skip(1)[k - 1] == s[k]);
        }
        lemma_word_run_is(s.skip(1), k - 1);
    }
}

/// Tries to read `<name> <quoted-or-bare-value>` from the text that
/// follows the option prefix: a non-empty name run, a space, an optional
/// opening quote, then a non-empty word run as the value.
pub open spec fn spec_match_rest(rest: Seq<char>) -> Option<(Seq<char>, Seq<char>)> {
    let n = name_run(rest);
    if n == 0 || n >= rest.len() || rest[n] != ' ' {
        None
    } else {
        let after = rest.skip(n + 1);
        let after2 = if after.len() > 0 && after[0] == '"' {
            after.skip(1)
        } else {
            after
        };
        let v = word_run(after2);
        if v == 0 {
            None
        } else {
            Some((rest.take(n), after2.take(v)))
        }
    }
}

/// The first place in `line` where the option prefix is followed by a
/// well-shaped `name value` pair; the name and value found there.
pub open spec fn spec_find_thumbs(line: Seq<char>) -> Option<(Seq<char>, Seq<char>)>
    decreases line.len(),
{
    if line.len() == 0 {
        None
    } else if "@thumbs-"@.len() <= line.len() && line.take("@thumbs-"@.len() as int)
        == "@thumbs-"@ && spec_match_rest(line.skip("@thumbs-"@.len() as int)) is Some {
        spec_match_rest(line.skip("@thumbs-"@.len() as int))
    } else {
        spec_find_thumbs(line.skip(1))
    }
}

/// The option names that translate to a bare boolean flag.
pub open spec fn is_boolean_name(n: Seq<char>) -> bool {
    n == "reverse"@ || n == "unique"@ || n == "contrast"@
}

/// The option names that translate to a flag carrying a quoted value.
pub open spec fn is_string_name(n: Seq<char>) -> bool {
    n == "position"@ || n == "fg-color"@ || n == "bg-color"@ || n == "hint-bg-color"@
        || n == "hint-fg-color"@ || n == "select-fg-color"@ || n == "select-bg-color"@
}

/// Does the option name begin with the regexp prefix?
pub open spec fn is_regexp_name(n: Seq<char>) -> bool {
    "regexp"@.len() <= n.len() && n.take("regexp"@.len() as int) == "regexp"@
}

/// The picker tokens one recognised option turns into: `--<name>` for a
/// boolean, `--<name> '<value>'` for a string option, `--regexp '<value>'`
/// for a regexp option, nothing otherwise.
pub open spec fn spec_tokens_for(name: Seq<char>, value: Seq<char>) -> Seq<Seq<char>> {
    if is_boolean_name(name) {
        seq!["--"@.add(name)]
    } else if is_string_name(name) {
        seq!["--"@.add(name), "'"@.add(value).add("'"@)]
    } else if is_regexp_name(name) {
        seq!["--regexp"@, "'"@.add(value).add("'"@)]
    } else {
        Seq::<Seq<char>>::empty()
    }
}

/// What one line of the option dump contributes.
pub open spec fn spec_line_tokens(line: Seq<char>) -> Seq<Seq<char>> {
    match spec_find_thumbs(line) {
        Some((name, value)) => spec_tokens_for(name, value),
        None => Seq::<Seq<char>>::empty(),
    }
}

/// What a whole option dump contributes, line by line, order kept.
pub open spec fn spec_lines_tokens(lines: Seq<Seq<char>>) -> Seq<Seq<char>>
    decreases lines.len(),
{
    if lines.len() == 0 {
        Seq::<Seq<char>>::empty()
    } else {
        spec_line_tokens(lines[0]).add(spec_lines_tokens(lines.skip(1)))
    }
}

pub proof fn lemma_lines_tokens_push(lines: Seq<Seq<char>>, x: Seq<char>)
    ensures
        spec_lines_tokens(lines.push(x)) == spec_lines_tokens(lines).add(spec_line_tokens(x)),
    decreases lines.len(),
{
    if lines.len() == 0 {
        assert(lines.push(x) =~= seq![x]);
        assert(lines.push(x).skip(1) =~= Seq::<Seq<char>>::empty());
        assert(spec_lines_tokens(lines.push(x).skip(1)) == Seq::<Seq<char>>::empty());
        assert(spec_lines_tokens(lines.push(x)) == spec_line_tokens(x).add(
            spec_lines_tokens(lines.push(x).skip(1)),
        ));
        assert(spec_lines_tokens(lines.push(x)) =~= spec_line_tokens(x));
        assert(spec_lines_tokens(lines).add(spec_line_tokens(x)) =~= spec_line_tokens(x));
    } else {
        assert(lines.push(x)[0] == lines[0]);
        assert(lines.push(x).skip(1) =~= lines.skip(1).push(x));
        lemma_lines_tokens_push(lines.skip(1), x);
        assert(spec_line_tokens(lines[0]).add(
            spec_lines_tokens(lines.skip(1)).add(spec_line_tokens(x)),
        ) =~= spec_line_tokens(lines[0]).add(spec_lines_tokens(lines.skip(1))).add(
            spec_line_tokens(x),
        ));
    }
}

/// The three translation shapes, stated of every dump line: a recognised
/// boolean option becomes the single token `--<name>`; a recognised
/// string option becomes `--<name>` and its quoted value; a regexp
/// option becomes `--regexp` and its quoted value; any other line
/// contributes nothing at all.
pub proof fn lemma_option_shapes(line: Seq<char>)
    ensures
        match spec_find_thumbs(line) {
            Some((name, value)) => {
                &&& is_boolean_name(name) ==> spec_line_tokens(line) == seq!["--"@.add(name)]
                &&& !is_boolean_name(name) && is_string_name(name) ==> spec_line_tokens(line)
                    == seq!["--"@.add(name), "'"@.add(value).add("'"@)]
                &&& !is_boolean_name(name) && !is_string_name(name) && is_regexp_name(name)
                    ==> spec_line_tokens(line) == seq!["--regexp"@, "'"@.add(value).add("'"@)]
                &&& !is_boolean_name(name) && !is_string_name(name) && !is_regexp_name(name)
                    ==> spec_line_tokens(line) == Seq::<Seq<char>>::empty()
            },
            None => spec_line_tokens(line) == Seq::<Seq<char>>::empty(),
        },
{
}

/// Is the character at `i` an option-name character?
fn is_name_char_at(s: &str, i: usize) -> (r: bool)
    requires
        i < s@.len(),
    ensures
        r == is_name_char(s@[i as int]),
{
    let u = s.get_char(i) as u32;
    (48 <= u && u <= 57) || (65 <= u && u <= 90) || (97 <= u && u <= 122) || u == 95 || u == 45
}

/// Is the character at `i` a word character?
fn is_word_char_at(s: &str, i: usize) -> (r: bool)
    requires
        i < s@.len(),
    ensures
        r == is_word_char(s@[i as int]),
{
    let u = s.get_char(i) as u32;
    (48 <= u && u <= 57) || (65 <= u && u <= 90) || (97 <= u && u <= 122) || u == 95
}

/// Reads the name and value of an option pair whose prefix ends at `q`,
/// matching `spec_match_rest` on the text from `q` on.
fn match_rest(line: &str, q: usize) -> (r: Option<(String, String)>)
    requires
        q <= line@.len(),
    ensures
        match r {
            Some(nv) => spec_match_rest(line@.skip(q as int)) == Some((nv.0@, nv.1@)),
            None => spec_match_rest(line@.skip(q as int)) is None,
        },
{
    let ghost rest = line@.skip(q as int);
    let n = line.unicode_len();
    let mut j = q;
    while j < n && is_name_char_at(line, j)
        invariant
            q <= j <= n,
            n == line@.len(),
            rest == line@.skip(q as int),
            forall|t: int| q <= t < j ==> is_name_char(#[trigger] line@[t]),
        decreases n - j,
    {
        j = j + 1;
    }
    proof {
        assert(forall|t: int| 0 <= t < j - q ==> #[trigger] rest[t] == line@[t + q]);
        if j < n {
            assert(rest[j - q] == line@[j as int]);
        }
        lemma_name_run_is(rest, j - q);
    }
    if j == q {
        return None;
    }
    if j >= n {
        return None;
    }
    if line.get_char(j) != ' ' {
        return None;
    }
    let mut k = j + 1;
    let ghost after = rest.skip(j - q + 1);
    proof {
        assert(after =~= line@.skip(k as int));
        if after.len() > 0 {
            assert(after[0] == line@[k as int]);
        }
    }
    if k < n && line.get_char(k) == '"' {
        k = k + 1;
    }
    let ghost after2 = line@.skip(k as int);
    proof {
        assert(after2 =~= if after.len() > 0 && after[0] == '"' {
            after.skip(1)
        } else {
            after
        });
    }
    let mut m = k;
    while m < n && is_word_char_at(line, m)
        invariant
            k <= m <= n,
            n == line@.len(),
            after2 == line@.skip(k as int),
            forall|t: int| k <= t < m ==> is_word_char(#[trigger] line@[t]),
        decreases n - m,
    {
        m = m + 1;
    }
    proof {
        assert(forall|t: int| 0 <= t < m - k ==> #[trigger] after2[t] == line@[t + k]);
        if m < n {
            assert(after2[m - k] == line@[m as int]);
        }
        lemma_word_run_is(after2, m - k);
    }
    if m == k {
        return None;
    }
    let name = String::from_str(line.substring_char(q, j));
    let value = String::from_str(line.substring_char(k, m));
    proof {
        assert(name@ =~= rest.take(j - q));
        assert(value@ =~= after2.take(m - k));
    }
    Some((name, value))
}

/// Finds the first recognisable option pair in `line`, matching
/// `spec_find_thumbs`.
fn find_thumbs(line: &str) -> (r: Option<(String, String)>)
    ensures
        match r {
            Some(nv) => spec_find_thumbs(line@) == Some((nv.0@, nv.1@)),
            None => spec_find_thumbs(line@) is None,
        },
{
    let n = line.unicode_len();
    let mut p: usize = 0;
    proof {
        assert(line@.skip(0) =~= line@);
    }
    while p < n
        invariant
            p <= n,
            n == line@.len(),
            spec_find_thumbs(line@) == spec_find_thumbs(line@.skip(p as int)),
        decreases n - p,
    {
        let ghost tail = line@.skip(p as int);
        proof {
            assert(tail.skip(1) =~= line@.skip(p as int + 1));
        }
        let prefixed = if n - p >= 8 {
            let w = line.substring_char(p, p + 8);
            proof {
                assert(w@ =~= tail.take(8));
            }
            str_eq(w, "@thumbs-")
        } else {
            false
        };
        proof {
            reveal_strlit("@thumbs-");
        }
        if prefixed {
            proof {
                assert(line@.skip(p as int + 8) =~= tail.skip(8));
            }
            match match_rest(line, p + 8) {
                Some(nv) => {
                    return Some(nv);
                },
                None => {},
            }
        }
        p = p + 1;
    }
    proof {
        assert(line@.skip(n as int) =~= Seq::<char>::empty());
    }
    None
}

/// The executable tokens for one recognised option, matching
/// `spec_tokens_for`.
fn tokens_for(name: &str, value: &str) -> (r: Vec<String>)
    ensures
        r.deep_view() == spec_tokens_for(name@, value@),
{
    let mut out: Vec<String> = Vec::new();
    if str_eq(name, "reverse") || str_eq(name, "unique") || str_eq(name, "contrast") {
        let mut t = String::from_str("--");
        t.append(name);
        out.push(t);
        proof {
            assert(out.deep_view() =~= spec_tokens_for(name@, value@));
        }
    } else if str_eq(name, "position") || str_eq(name, "fg-color") || str_eq(name, "bg-color")
        || str_eq(name, "hint-bg-color") || str_eq(name, "hint-fg-color") || str_eq(
        name,
        "select-fg-color",
    ) || str_eq(name, "select-bg-color") {
        let mut t = String::from_str("--");
        t.append(name);
        out.push(t);
        let mut v = String::from_str("'");
        v.append(value);
        v.append("'");
        out.push(v);
        proof {
            assert(out.deep_view() =~= spec_tokens_for(name@, value@));
        }
    } else if starts_with(name, "regexp") {
        out.push(String::from_str("--regexp"));
        let mut v = String::from_str("'");
        v.append(value);
        v.append("'");
        out.push(v);
        proof {
            assert(out.deep_view() =~= spec_tokens_for(name@, value@));
        }
    } else {
        proof {
            assert(out.deep_view() =~= spec_tokens_for(name@, value@));
        }
    }
    out
}

/// Translates a whole option dump into picker flags, line by line in
/// order, matching `spec_lines_tokens` over the dump's lines.
pub fn translate_options(dump: &str) -> (r: Vec<String>)
    ensures
        r.deep_view() == spec_lines_tokens(spec_split(dump@, '\n')),
{
    let lines = split_on(dump, '\n');
    let ghost lv = spec_split(dump@, '\n');
    let mut acc: Vec<String> = Vec::new();
    let mut i: usize = 0;
    proof {
        assert(lv.take(0) =~= Seq::<Seq<char>>::empty());
        assert(acc.deep_view() =~= spec_lines_tokens(lv.take(0)));
    }
    while i < lines.len()
        invariant
            i <= lines@.len(),
            lv == spec_split(dump@, '\n'),
            lines.deep_view() == lv,
            lines.deep_view().len() == lines@.len(),
            acc.deep_view() == spec_lines_tokens(lv.take(i as int)),
        decreases lines@.len() - i,
    {
        let ghost pre = acc.deep_view();
        proof {
            lemma_lines_tokens_push(lv.take(i as int), lv[i as int]);
            assert(lv.take(i as int).push(lv[i as int]) =~= lv.take(i as int + 1));
        }
        match find_thumbs(lines[i].as_str()) {
            Some(nv) => {
                let ts = tokens_for(nv.0.as_str(), nv.1.as_str());
                let mut j: usize = 0;
                while j < ts.len()
                    invariant
                        j <= ts@.len(),
                        ts.deep_view().len() == ts@.len(),
                        acc.deep_view() == pre.add(ts.deep_view().take(j as int)),
                    decreases ts@.len() - j,
                {
                    let ghost mid = acc.deep_view();
                    acc.push(ts[j].clone());
                    proof {
                        assert(acc.deep_view() =~= mid.push(ts.deep_view()[j as int]));
                        assert(mid.push(ts.deep_view()[j as int]) =~= pre.add(
                            ts.deep_view().take(j as int + 1),
                        ));
                    }
                    j = j + 1;
                }
                proof {
                    assert(ts.deep_view().take(ts@.len() as int) =~= ts.deep_view());
                    assert(acc.deep_view() =~= spec_lines_tokens(lv.take(i as int + 1)));
                }
            },
            None => {
                proof {
                    assert(acc.deep_view() =~= spec_lines_tokens(lv.take(i as int + 1)));
                }
            },
        }
        i = i + 1;
    }
    proof {
        assert(lv.take(lines@.len() as int) =~= lv);
    }
    acc
}

} // verus!
