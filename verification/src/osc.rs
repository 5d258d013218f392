use vstd::prelude::*;

verus! {

/// What `base64::encode` returns on the UTF-8 bytes of `s`: a pure
/// function of the text alone, named rather than restated.
pub uninterp spec fn base64_of(s: Seq<char>) -> Seq<char>;

/// Relies on `base64::encode` (standard alphabet, padded output): the
/// encoding depends on the input bytes alone, and empty input encodes to
/// the empty string.
#[verifier::external_body]
fn base64_encode(text: &str) -> (r: String)
    ensures
        r@ == base64_of(text@),
        text@.len() == 0 ==> r@.len() == 0,
{
    base64::encode(text.as_bytes())
}

/// `s` with every escape byte doubled, as the multiplexer's passthrough
/// envelope demands of its payload.
pub open spec fn spec_double_esc(s: Seq<char>) -> Seq<char>
    decreases s.len(),
{
    if s.len() == 0 {
        s
    } else if s[0] == '\x1b' {
        seq!['\x1b', '\x1b'].add(spec_double_esc(s.skip(1)))
    } else {
        seq![s[0]].add(spec_double_esc(s.skip(1)))
    }
}

/// Doubles every escape character of `s`, matching `spec_double_esc`.
fn double_esc(s: &str) -> (r: String)
    ensures
        r@ == spec_double_esc(s@),
{
    let n = s.unicode_len();
    let mut acc = String::new();
    let mut i: usize = 0;
    proof {
        assert(s@.skip(0) =~= s@);
    }
    while i < n
        invariant
            i <= n,
            n == s@.len(),
            spec_double_esc(s@) == acc@.add(spec_double_esc(s@.skip(i as int))),
        decreases n - i,
    {
        let ghost tail = s@.skip(i as int);
        proof {
            assert(tail[0] == s@[i as int]);
            assert(tail.skip(1) =~= s@.skip(i as int + 1));
        }
        let c = s.get_char(i);
        if c == '\x1b' {
            acc.append("\x1b\x1b");
            proof {
                reveal_strlit("\x1b\x1b");
            }
        } else {
            let one = s.substring_char(i, i + 1);
            proof {
                assert(one@ =~= seq![s@[i as int]]);
            }
            acc.append(one);
        }
        i = i + 1;
    }
    proof {
        assert(s@.skip(n as int) =~= Seq::<char>::empty());
    }
    acc
}

/// The clipboard escape for `text`: the base64 of the text inside an
/// OSC 52 sequence, that sequence's escape bytes doubled, and the whole
/// wrapped in the multiplexer's device-control passthrough envelope.
pub open spec fn spec_osc52(text: Seq<char>) -> Seq<char> {
    "\x1bPtmux;"@.add(
        spec_double_esc("\x1b]52;0;"@.add(base64_of(text)).add("\x07"@)),
    ).add("\x1b\\"@)
}

/// Builds the passthrough-wrapped clipboard escape for `text`, matching
/// `spec_osc52`.
pub fn osc52_sequence(text: &str) -> (r: String)
    ensures
        r@ == spec_osc52(text@),
{
    let mut inner = String::from_str("\x1b]52;0;");
    let encoded = base64_encode(text);
    inner.append(encoded.as_str());
    inner.append("\x07");
    let mut out = String::from_str("\x1bPtmux;");
    let doubled = double_esc(inner.as_str());
    out.append(doubled.as_str());
    out.append("\x1b\\");
    out
}

} // verus!
