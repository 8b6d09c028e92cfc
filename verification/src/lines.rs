//! Splitting JSONL bytes into lines, the two ways the store reads them.

use vstd::prelude::*;

verus! {

/// How the ends of lines are trimmed.
#[derive(Debug, Clone, Copy, PartialEq, Eq, Structural)]
pub enum LineMode {
    /// As `BufRead::lines`: a newline-terminated line loses one `\r`
    /// before its `\n`; the unterminated last line is kept as it is.
    Inbox,
    /// Every trailing `\r` is trimmed from every line.
    Replay,
}

/// `l` without one trailing carriage return.
pub open spec fn trim_one_cr(l: Seq<u8>) -> Seq<u8> {
    if l.len() > 0 && l.last() == 13u8 {
        l.drop_last()
    } else {
        l
    }
}

/// `l` without any trailing carriage returns.
pub open spec fn trim_all_cr(l: Seq<u8>) -> Seq<u8>
    decreases l.len(),
{
    if l.len() > 0 && l.last() == 13u8 {
        trim_all_cr(l.drop_last())
    } else {
        l
    }
}

/// A completed line, trimmed as `mode` says; `terminated` when it ended
/// with `\n`.
pub open spec fn finish_line(mode: LineMode, l: Seq<u8>, terminated: bool) -> Seq<u8> {
    match mode {
        LineMode::Inbox => if terminated { trim_one_cr(l) } else { l },
        LineMode::Replay => trim_all_cr(l),
    }
}

/// The non-empty lines completed within `b`, and the bytes of the line
/// still open at its end.
pub open spec fn scan_lines(mode: LineMode, b: Seq<u8>) -> (Seq<Seq<u8>>, Seq<u8>)
    decreases b.len(),
{
    if b.len() == 0 {
        (Seq::empty(), Seq::empty())
    } else {
        let (done, cur) = scan_lines(mode, b.drop_last());
        if b.last() == 10u8 {
            let l = finish_line(mode, cur, true);
            (if l.len() > 0 { done.push(l) } else { done }, Seq::empty())
        } else {
            (done, cur.push(b.last()))
        }
    }
}

/// The non-empty lines of `b`, trimmed as `mode` says.
pub open spec fn text_lines(mode: LineMode, b: Seq<u8>) -> Seq<Seq<u8>> {
    let (done, cur) = scan_lines(mode, b);
    let l = finish_line(mode, cur, false);
    if l.len() > 0 {
        done.push(l)
    } else {
        done
    }
}

/// The byte sequences of a vector of byte vectors.
pub open spec fn byte_views(v: Seq<Vec<u8>>) -> Seq<Seq<u8>> {
    Seq::new(v.len(), |i: int| v[i]@)
}

fn finish(mode: LineMode, cur: Vec<u8>, terminated: bool) -> (l: Vec<u8>)
    ensures
        l@ == finish_line(mode, cur@, terminated),
{
    let mut l = cur;
    match mode {
        LineMode::Inbox => {
            if terminated && l.len() > 0 && l[l.len() - 1] == 13u8 {
                let _ = l.pop();
            }
        },
        LineMode::Replay => {
            let ghost orig = l@;
            while l.len() > 0 && l[l.len() - 1] == 13u8
                invariant
                    trim_all_cr(l@) == trim_all_cr(orig),
                decreases l@.len(),
            {
                let ghost before = l@;
                let _ = l.pop();
                proof {
                    assert(l@ =~= before.drop_last());
                }
            }
        },
    }
    proof {
        if mode == LineMode::Inbox && terminated && cur@.len() > 0 && cur@.last() == 13u8 {
            assert(l@ =~= cur@.drop_last());
        }
    }
    l
}

/// Splits `b` into its non-empty lines, trimmed as `mode` says.
pub fn split_lines(mode: LineMode, b: &[u8]) -> (lines: Vec<Vec<u8>>)
    ensures
        byte_views(lines@) == text_lines(mode, b@),
{
    let mut done: Vec<Vec<u8>> = Vec::new();
    let mut cur: Vec<u8> = Vec::new();
    let mut i: usize = 0;
    while i < b.len()
        invariant
            0 <= i <= b@.len(),
            (byte_views(done@), cur@) == scan_lines(mode, b@.take(i as int)),
        decreases b@.len() - i,
    {
        proof {
            assert(b@.take(i + 1).drop_last() =~= b@.take(i as int));
            assert(b@.take(i + 1).last() == b@[i as int]);
        }
        if b[i] == 10u8 {
            let mut full: Vec<u8> = Vec::new();
            std::mem::swap(&mut full, &mut cur);
            let l = finish(mode, full, true);
            if l.len() > 0 {
                let ghost old_done = done@;
                done.push(l);
                proof {
                    assert(byte_views(done@) =~= byte_views(old_done).push(l@));
                }
            }
            proof {
                assert(cur@ =~= Seq::<u8>::empty());
            }
        } else {
            cur.push(b[i]);
        }
        i = i + 1;
    }
    proof {
        assert(b@.take(i as int) =~= b@);
    }
    let l = finish(mode, cur, false);
    if l.len() > 0 {
        let ghost old_done = done@;
        done.push(l);
        proof {
            assert(byte_views(done@) =~= byte_views(old_done).push(l@));
        }
    }
    done
}

/// No line comes out empty.
pub proof fn lemma_lines_nonempty(mode: LineMode, b: Seq<u8>, i: int)
    requires
        0 <= i < text_lines(mode, b).len(),
    ensures
        text_lines(mode, b)[i].len() > 0,
{
    lemma_scan_nonempty(mode, b, i);
}

proof fn lemma_scan_nonempty(mode: LineMode, b: Seq<u8>, i: int)
    ensures
        0 <= i < scan_lines(mode, b).0.len() ==> scan_lines(mode, b).0[i].len() > 0,
    decreases b.len(),
{
    if b.len() > 0 {
        lemma_scan_nonempty(mode, b.drop_last(), i);
    }
}

/// No line holds a newline byte.
pub proof fn lemma_lines_have_no_newline(mode: LineMode, b: Seq<u8>, i: int, j: int)
    requires
        0 <= i < text_lines(mode, b).len(),
        0 <= j < text_lines(mode, b)[i].len(),
    ensures
        text_lines(mode, b)[i][j] != 10u8,
{
    lemma_scan_no_newline(mode, b);
    let (done, cur) = scan_lines(mode, b);
    lemma_finish_sub(mode, cur, false);
    let l = finish_line(mode, cur, false);
    if l.len() > 0 && i == done.len() {
        assert(text_lines(mode, b)[i] == l);
        assert(l[j] == cur[j]);
    } else {
        assert(text_lines(mode, b)[i] == done[i]);
    }
}

proof fn lemma_finish_sub(mode: LineMode, l: Seq<u8>, terminated: bool)
    ensures
        finish_line(mode, l, terminated).len() <= l.len(),
        forall|j: int| 0 <= j < finish_line(mode, l, terminated).len() ==> #[trigger] finish_line(mode, l, terminated)[j] == l[j],
    decreases l.len(),
{
    let f = finish_line(mode, l, terminated);
    match mode {
        LineMode::Inbox => {
            if terminated && l.len() > 0 && l.last() == 13u8 {
                assert forall|j: int| 0 <= j < f.len() implies #[trigger] f[j] == l[j] by {
                    assert(l.drop_last()[j] == l[j]);
                }
            }
        },
        LineMode::Replay => {
            if l.len() > 0 && l.last() == 13u8 {
                lemma_finish_sub(mode, l.drop_last(), terminated);
                assert(f == finish_line(mode, l.drop_last(), terminated));
                assert forall|j: int| 0 <= j < f.len() implies #[trigger] f[j] == l[j] by {
                    assert(l.drop_last()[j] == l[j]);
                }
            }
        },
    }
}

proof fn lemma_scan_no_newline(mode: LineMode, b: Seq<u8>)
    ensures
        forall|j: int| 0 <= j < scan_lines(mode, b).1.len() ==> #[trigger] scan_lines(mode, b).1[j] != 10u8,
        forall|i: int, j: int| 0 <= i < scan_lines(mode, b).0.len() && 0 <= j < scan_lines(mode, b).0[i].len()
            ==> #[trigger] scan_lines(mode, b).0[i][j] != 10u8,
    decreases b.len(),
{
    if b.len() > 0 {
        lemma_scan_no_newline(mode, b.drop_last());
        let (done, cur) = scan_lines(mode, b.drop_last());
        lemma_finish_sub(mode, cur, true);
        let (done2, cur2) = scan_lines(mode, b);
        if b.last() == 10u8 {
            let l = finish_line(mode, cur, true);
            assert forall|i: int, j: int| 0 <= i < done2.len() && 0 <= j < done2[i].len() implies #[trigger] done2[i][j] != 10u8 by {
                if i < done.len() {
                    assert(done2[i] == done[i]);
                } else {
                    assert(done2[i] == l);
                    assert(l[j] == cur[j]);
                }
            }
        } else {
            assert forall|j: int| 0 <= j < cur2.len() implies #[trigger] cur2[j] != 10u8 by {
                if j < cur.len() {
                    assert(cur2[j] == cur[j]);
                }
            }
        }
    }
}

} // verus!
