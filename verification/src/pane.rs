use vstd::prelude::*;

use crate::strutil::{spec_split, split_on, parse_i32, spec_parse_i32, str_eq};
use crate::SwapError;

verus! {

/// One row of the multiplexer's pane listing, as the probe reads it:
/// the pane's handle, its copy-mode flag, and — only when that flag is
/// `"1"` — its height and scroll offset.
#[derive(Debug)]
pub struct PaneDescriptor {
    pub id: String,
    pub in_copy_mode: String,
    pub height: Option<i32>,
    pub scroll_position: Option<i32>,
}

/// The mathematical shadow of a `PaneDescriptor`.
#[verifier::ext_equal]
pub ghost struct SpecPane {
    pub id: Seq<char>,
    pub in_copy_mode: Seq<char>,
    pub height: Option<int>,
    pub scroll_position: Option<int>,
}

impl View for PaneDescriptor {
    type V = SpecPane;

    open spec fn view(&self) -> SpecPane {
        SpecPane {
            id: self.id@,
            in_copy_mode: self.in_copy_mode@,
            height: match self.height {
                Some(h) => Some(h as int),
                None => None,
            },
            scroll_position: match self.scroll_position {
                Some(p) => Some(p as int),
                None => None,
            },
        }
    }
}

/// Scans the rows in order for the first whose fifth field is the active
/// marker. A row with fewer than five fields reached on the way is
/// malformed; running out of rows means no pane is active.
pub open spec fn spec_find_active(rows: Seq<Seq<char>>) -> Result<Seq<Seq<char>>, SwapError>
    decreases rows.len(),
{
    if rows.len() == 0 {
        Err(SwapError::NoActivePane)
    } else {
        let f = spec_split(rows[0], ':');
        if f.len() < 5 {
            Err(SwapError::MalformedPaneRow)
        } else if f[4] == "active"@ {
            Ok(f)
        } else {
            spec_find_active(rows.skip(1))
        }
    }
}

/// What the probe makes of a full pane listing: the active row's id and
/// copy-mode flag, and its height and scroll offset parsed as numbers
/// exactly when the flag is `"1"`.
pub open spec fn spec_active_pane(out: Seq<char>) -> Result<SpecPane, SwapError> {
    match spec_find_active(spec_split(out, '\n')) {
        Err(e) => Err(e),
        Ok(f) => {
            if f[1] == "1"@ {
                match (spec_parse_i32(f[2]), spec_parse_i32(f[3])) {
                    (Some(h), Some(p)) => Ok(
                        SpecPane {
                            id: f[0],
                            in_copy_mode: f[1],
                            height: Some(h),
                            scroll_position: Some(p),
                        },
                    ),
                    _ => Err(SwapError::MalformedNumber),
                }
            } else {
                Ok(
                    SpecPane {
                        id: f[0],
                        in_copy_mode: f[1],
                        height: None,
                        scroll_position: None,
                    },
                )
            }
        },
    }
}

/// Finds the active pane in a pane listing, matching `spec_active_pane`.
pub fn parse_pane_listing(out: &str) -> (r: Result<PaneDescriptor, SwapError>)
    ensures
        match r {
            Ok(d) => spec_active_pane(out@) == Ok::<SpecPane, SwapError>(d@),
            Err(e) => spec_active_pane(out@) == Err::<SpecPane, SwapError>(e),
        },
{
    let lines = split_on(out, '\n');
    let ghost rows = spec_split(out@, '\n');
    let mut i: usize = 0;
    proof {
        assert(rows.skip(0) =~= rows);
    }
    while i < lines.len()
        invariant
            i <= lines@.len(),
            rows == spec_split(out@, '\n'),
            lines.deep_view() == rows,
            lines.deep_view().len() == lines@.len(),
            spec_find_active(rows) == spec_find_active(rows.skip(i as int)),
        decreases lines@.len() - i,
    {
        let ghost tail = rows.skip(i as int);
        proof {
            assert(tail[0] == rows[i as int]);
            assert(tail.skip(1) =~= rows.skip(i as int + 1));
        }
        let fields = split_on(lines[i].as_str(), ':');
        proof {
            assert(lines@[i as int]@ == rows[i as int]);
        }
        if fields.len() < 5 {
            return Err(SwapError::MalformedPaneRow);
        }
        let ghost f = spec_split(rows[i as int], ':');
        proof {
            assert(fields.deep_view()[4] == f[4]);
        }
        if str_eq(fields[4].as_str(), "active") {
            let id = fields[0].clone();
            let in_copy_mode = fields[1].clone();
            proof {
                assert(fields.deep_view()[0] == f[0]);
                assert(fields.deep_view()[1] == f[1]);
            }
            if str_eq(in_copy_mode.as_str(), "1") {
                proof {
                    assert(fields.deep_view()[2] == f[2]);
                    assert(fields.deep_view()[3] == f[3]);
                }
                let height = match parse_i32(fields[2].as_str()) {
                    Some(h) => h,
                    None => {
                        return Err(SwapError::MalformedNumber);
                    },
                };
                let scroll_position = match parse_i32(fields[3].as_str()) {
                    Some(p) => p,
                    None => {
                        return Err(SwapError::MalformedNumber);
                    },
                };
                return Ok(
                    PaneDescriptor {
                        id,
                        in_copy_mode,
                        height: Some(height),
                        scroll_position: Some(scroll_position),
                    },
                );
            } else {
                return Ok(
                    PaneDescriptor { id, in_copy_mode, height: None, scroll_position: None },
                );
            }
        }
        i = i + 1;
    }
    proof {
        assert(rows.skip(lines@.len() as int) =~= Seq::<Seq<char>>::empty());
    }
    Err(SwapError::NoActivePane)
}

/// For every listing whose rows each carry at least five fields and in
/// which exactly one row bears the active marker, the scan returns that
/// row's fields — and so that row's id — whatever the order of the rows.
pub proof fn lemma_unique_active_row(rows: Seq<Seq<char>>, k: int)
    requires
        forall|j: int| 0 <= j < rows.len() ==> spec_split(#[trigger] rows[j], ':').len() >= 5,
        0 <= k < rows.len(),
        spec_split(rows[k], ':')[4] == "active"@,
        forall|j: int|
            0 <= j < rows.len() && j != k ==> spec_split(#[trigger] rows[j], ':')[4] != "active"@,
    ensures
        spec_find_active(rows) == Ok::<Seq<Seq<char>>, SwapError>(spec_split(rows[k], ':')),
    decreases k,
{
    if k == 0 {
    } else {
        assert(rows.skip(1)[k - 1] == rows[k]);
        assert(forall|j: int|
            0 <= j < rows.skip(1).len() ==> #[trigger] rows.skip(1)[j] == rows[j + 1]);
        lemma_unique_active_row(rows.skip(1), k - 1);
    }
}

/// For every listing whose rows each carry at least five fields and in
/// which exactly one row — row `k` — bears the active marker, whatever
/// descriptor the probe hands back carries row `k`'s id, whatever the
/// order of the rows.
pub proof fn lemma_unique_active_id(out: Seq<char>, k: int)
    requires
        forall|j: int|
            0 <= j < spec_split(out, '\n').len() ==> spec_split(
                #[trigger] spec_split(out, '\n')[j],
                ':',
            ).len() >= 5,
        0 <= k < spec_split(out, '\n').len(),
        spec_split(spec_split(out, '\n')[k], ':')[4] == "active"@,
        forall|j: int|
            0 <= j < spec_split(out, '\n').len() && j != k ==> spec_split(
                #[trigger] spec_split(out, '\n')[j],
                ':',
            )[4] != "active"@,
    ensures
        spec_active_pane(out) matches Ok(p) ==> p.id == spec_split(
            spec_split(out, '\n')[k],
            ':',
        )[0],
{
    lemma_unique_active_row(spec_split(out, '\n'), k);
}

/// The height and scroll offset of the probed pane are populated exactly
/// when its copy-mode flag is the literal `"1"`.
pub proof fn lemma_copy_mode_fields(out: Seq<char>)
    ensures
        spec_active_pane(out) matches Ok(p) ==> ((p.height is Some <==> p.in_copy_mode == "1"@)
            && (p.scroll_position is Some <==> p.in_copy_mode == "1"@)),
{
}

} // verus!
