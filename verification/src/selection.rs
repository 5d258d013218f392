use vstd::prelude::*;

use crate::strutil::{spec_replace, spec_trim_end, replace_all, str_eq, trim_end_str};

verus! {

/// The two halves of a selection payload `<flag>:<text>`, split on the
/// first colon only; `None` when no colon is present.
pub open spec fn spec_selection(s: Seq<char>) -> Option<(Seq<char>, Seq<char>)>
    decreases s.len(),
{
    if s.len() == 0 {
        None
    } else if s[0] == ':' {
        Some((Seq::<char>::empty(), s.skip(1)))
    } else {
        match spec_selection(s.skip(1)) {
            Some((flag, text)) => Some((seq![s[0]].add(flag), text)),
            None => None,
        }
    }
}

pub proof fn lemma_selection_at(s: Seq<char>, i: int)
    requires
        0 <= i < s.len(),
        s[i] == ':',
        forall|t: int| 0 <= t < i ==> s[t] != ':',
    ensures
        spec_selection(s) == Some((s.take(i), s.skip(i + 1))),
    decreases i,
{
    if i == 0 {
        assert(s.take(0) =~= Seq::<char>::empty());
    } else {
        assert(forall|t: int| 0 <= t < s.skip(1).len() ==> #[trigger] s.skip(1)[t] == s[t + 1]);
        lemma_selection_at(s.skip(1), i - 1);
        assert(seq![s[0]].add(s.skip(1).take(i - 1)) =~= s.take(i));
        assert(s.skip(1).skip(i) =~= s.skip(i + 1));
    }
}

pub proof fn lemma_selection_none(s: Seq<char>)
    requires
        forall|t: int| 0 <= t < s.len() ==> s[t] != ':',
    ensures
        spec_selection(s) is None,
    decreases s.len(),
{
    if s.len() > 0 {
        assert(forall|t: int| 0 <= t < s.skip(1).len() ==> #[trigger] s.skip(1)[t] == s[t + 1]);
        lemma_selection_none(s.skip(1));
    }
}

/// Splitting on the first colon undoes the `<flag>:<text>` encoding: for
/// any flag free of colons and any text at all, the decoded flag and text
/// are exactly the encoded ones, colons inside the text preserved.
pub proof fn lemma_selection_round_trip(flag: Seq<char>, text: Seq<char>)
    requires
        forall|t: int| 0 <= t < flag.len() ==> flag[t] != ':',
    ensures
        spec_selection(flag.add(seq![':']).add(text)) == Some((flag, text)),
{
    let s = flag.add(seq![':']).add(text);
    assert(s[flag.len() as int] == ':');
    assert(forall|t: int| 0 <= t < flag.len() ==> #[trigger] s[t] == flag[t]);
    lemma_selection_at(s, flag.len() as int);
    assert(s.take(flag.len() as int) =~= flag);
    assert(s.skip(flag.len() as int + 1) =~= text);
}

/// Splits a selection payload on its first colon, matching
/// `spec_selection`.
pub fn decode_selection(s: &str) -> (r: Option<(String, String)>)
    ensures
        match r {
            Some(p) => spec_selection(s@) == Some((p.0@, p.1@)),
            None => spec_selection(s@) is None,
        },
{
    let n = s.unicode_len();
    let mut i: usize = 0;
    while i < n && s.get_char(i) != ':'
        invariant
            i <= n,
            n == s@.len(),
            forall|t: int| 0 <= t < i ==> s@[t] != ':',
        decreases n - i,
    {
        i = i + 1;
    }
    if i == n {
        proof {
            lemma_selection_none(s@);
        }
        return None;
    }
    proof {
        lemma_selection_at(s@, i as int);
    }
    let flag = String::from_str(s.substring_char(0, i));
    let text = String::from_str(s.substring_char(i + 1, n));
    proof {
        assert(flag@ =~= s@.take(i as int));
        assert(text@ =~= s@.skip(i as int + 1));
    }
    Some((flag, text))
}

/// The shell command the dispatcher runs for a payload: nothing when the
/// payload has no colon; otherwise the paste template when the trimmed
/// flag is `true`, else the copy template, with every `{}` replaced by
/// the trimmed text.
pub open spec fn spec_command_line(
    content: Seq<char>,
    command: Seq<char>,
    upcase_command: Seq<char>,
) -> Option<Seq<char>> {
    match spec_selection(content) {
        None => None,
        Some((flag, text)) => {
            let template = if spec_trim_end(flag) == "true"@ {
                upcase_command
            } else {
                command
            };
            Some(spec_replace(template, "{}"@, spec_trim_end(text)))
        },
    }
}

/// Builds the dispatcher's shell command for a payload, matching
/// `spec_command_line`.
pub fn build_command(content: &str, command: &str, upcase_command: &str) -> (r: Option<String>)
    ensures
        match r {
            Some(c) => spec_command_line(content@, command@, upcase_command@) == Some(c@),
            None => spec_command_line(content@, command@, upcase_command@) is None,
        },
{
    match decode_selection(content) {
        None => None,
        Some(p) => {
            let trimmed_flag = trim_end_str(p.0.as_str());
            let template = if str_eq(trimmed_flag, "true") {
                upcase_command
            } else {
                command
            };
            let trimmed_text = trim_end_str(p.1.as_str());
            proof {
                reveal_strlit("{}");
            }
            Some(replace_all(template, "{}", trimmed_text))
        },
    }
}

} // verus!
