use vstd::prelude::*;

verus! {

/// A half-open byte range `[beg, end)` in one file's content.
#[derive(Clone, Copy, Debug, PartialEq, Eq, Structural)]
pub struct Match {
    pub beg: usize,
    pub end: usize,
}

/// Ranges lie inside a content of `len` bytes, in order, and do not overlap.
pub open spec fn matches_wf(ms: Seq<Match>, len: nat) -> bool {
    &&& forall|i: int| 0 <= i < ms.len() ==> ms[i].beg <= ms[i].end && ms[i].end <= len
    &&& forall|i: int| 0 <= i < ms.len() - 1 ==> ms[i].end <= #[trigger] ms[i + 1].beg
}

/// Where copying resumes after the first `k` matches have been handled.
pub open spec fn cursor(ms: Seq<Match>, k: int) -> int {
    if k <= 0 {
        0
    } else {
        ms[k - 1].end as int
    }
}

/// The bytes written for one match: its replacement, or the original bytes.
pub open spec fn chosen(src: Seq<u8>, m: Match, rep: Seq<u8>, accept: bool) -> Seq<u8> {
    if accept {
        rep
    } else {
        src.subrange(m.beg as int, m.end as int)
    }
}

/// The output after the first `k` matches: each gap copied, then each match resolved.
pub open spec fn written(
    src: Seq<u8>,
    ms: Seq<Match>,
    reps: Seq<Seq<u8>>,
    accept: Seq<bool>,
    k: nat,
) -> Seq<u8>
    decreases k,
{
    if k == 0 {
        Seq::empty()
    } else {
        let j = k - 1;
        written(src, ms, reps, accept, j as nat) + src.subrange(cursor(ms, j), ms[j].beg as int)
            + chosen(src, ms[j], reps[j], accept[j])
    }
}

/// The whole new content: every match resolved, then the trailing bytes.
pub open spec fn rewritten(
    src: Seq<u8>,
    ms: Seq<Match>,
    reps: Seq<Seq<u8>>,
    accept: Seq<bool>,
) -> Seq<u8> {
    written(src, ms, reps, accept, ms.len()) + src.subrange(
        cursor(ms, ms.len() as int),
        src.len() as int,
    )
}

/// The content with every match replaced: the gaps of the original kept as
/// they are, the replacements in order between them.
pub open spec fn interleaved(src: Seq<u8>, ms: Seq<Match>, reps: Seq<Seq<u8>>, k: nat) -> Seq<u8>
    decreases k,
{
    if k == 0 {
        Seq::empty()
    } else {
        let j = k - 1;
        interleaved(src, ms, reps, j as nat) + src.subrange(cursor(ms, j), ms[j].beg as int)
            + reps[j]
    }
}

pub open spec fn reps_view(reps: Seq<Vec<u8>>) -> Seq<Seq<u8>> {
    reps.map_values(|v: Vec<u8>| v@)
}

proof fn lemma_declined_prefix(
    src: Seq<u8>,
    ms: Seq<Match>,
    reps: Seq<Seq<u8>>,
    accept: Seq<bool>,
    k: nat,
)
    requires
        matches_wf(ms, src.len()),
        k <= ms.len(),
        accept.len() == ms.len(),
        forall|i: int| 0 <= i < accept.len() ==> !accept[i],
    ensures
        written(src, ms, reps, accept, k) == src.subrange(0, cursor(ms, k as int)),
    decreases k,
{
    if k > 0 {
        let j = (k - 1) as int;
        lemma_declined_prefix(src, ms, reps, accept, j as nat);
        if j > 0 {
            assert(ms[j - 1].end <= ms[(j - 1) + 1].beg);
        }
        assert(src.subrange(0, cursor(ms, j)) + src.subrange(cursor(ms, j), ms[j].beg as int)
            + src.subrange(ms[j].beg as int, ms[j].end as int) =~= src.subrange(0, ms[j].end as int));
    }
}

/// Declining every match leaves the content byte for byte as it was.
pub proof fn lemma_decline_all_keeps_content(
    src: Seq<u8>,
    ms: Seq<Match>,
    reps: Seq<Seq<u8>>,
    accept: Seq<bool>,
)
    requires
        matches_wf(ms, src.len()),
        accept.len() == ms.len(),
        forall|i: int| 0 <= i < accept.len() ==> !accept[i],
    ensures
        rewritten(src, ms, reps, accept) == src,
{
    lemma_declined_prefix(src, ms, reps, accept, ms.len());
    if ms.len() > 0 {
        assert(ms[ms.len() - 1].end <= src.len());
    }
    assert(src.subrange(0, cursor(ms, ms.len() as int)) + src.subrange(
        cursor(ms, ms.len() as int),
        src.len() as int,
    ) =~= src);
}

proof fn lemma_accepted_prefix(
    src: Seq<u8>,
    ms: Seq<Match>,
    reps: Seq<Seq<u8>>,
    accept: Seq<bool>,
    k: nat,
)
    requires
        k <= ms.len(),
        accept.len() == ms.len(),
        forall|i: int| 0 <= i < accept.len() ==> accept[i],
    ensures
        written(src, ms, reps, accept, k) == interleaved(src, ms, reps, k),
    decreases k,
{
    if k > 0 {
        lemma_accepted_prefix(src, ms, reps, accept, (k - 1) as nat);
    }
}

/// Accepting every match gives the original bytes before the first match,
/// each replacement in order with the original bytes between matches, and
/// the original trailing bytes, with no other change.
pub proof fn lemma_accept_all_interleaves(
    src: Seq<u8>,
    ms: Seq<Match>,
    reps: Seq<Seq<u8>>,
    accept: Seq<bool>,
)
    requires
        matches_wf(ms, src.len()),
        accept.len() == ms.len(),
        forall|i: int| 0 <= i < accept.len() ==> accept[i],
    ensures
        rewritten(src, ms, reps, accept) == interleaved(src, ms, reps, ms.len()) + src.subrange(
            cursor(ms, ms.len() as int),
            src.len() as int,
        ),
{
    lemma_accepted_prefix(src, ms, reps, accept, ms.len());
}

/// Appends `src[from..to]` to `out`.
fn push_range(out: &mut Vec<u8>, src: &[u8], from: usize, to: usize)
    requires
        from <= to <= src@.len(),
    ensures
        final(out)@ == old(out)@ + src@.subrange(from as int, to as int),
{
    let ghost start = out@;
    let mut i: usize = from;
    while i < to
        invariant
            from <= i <= to <= src@.len(),
            out@ == start + src@.subrange(from as int, i as int),
        decreases to - i,
    {
        out.push(src[i]);
        assert(src@.subrange(from as int, i + 1) =~= src@.subrange(from as int, i as int).push(
            src@[i as int],
        ));
        i = i + 1;
    }
}

/// Builds the new content of a file: the bytes between matches copied,
/// each match written as its replacement where `accept` holds, as its
/// original bytes elsewhere, and the bytes after the last match copied.
pub fn splice(src: &[u8], matches: &[Match], reps: &Vec<Vec<u8>>, accept: &Vec<bool>) -> (r: Vec<u8>)
    requires
        matches_wf(matches@, src@.len()),
        reps@.len() == matches@.len(),
        accept@.len() == matches@.len(),
    ensures
        r@ == rewritten(src@, matches@, reps_view(reps@), accept@),
{
    let ghost rv = reps_view(reps@);
    let mut out: Vec<u8> = Vec::new();
    let mut i: usize = 0;
    let mut k: usize = 0;
    while k < matches.len()
        invariant
            matches_wf(matches@, src@.len()),
            reps@.len() == matches@.len(),
            accept@.len() == matches@.len(),
            rv == reps_view(reps@),
            k <= matches@.len(),
            i as int == cursor(matches@, k as int),
            i <= src@.len(),
            out@ == written(src@, matches@, rv, accept@, k as nat),
        decreases matches@.len() - k,
    {
        let m = matches[k];
        if k > 0 {
            assert(matches@[k - 1].end <= matches@[(k - 1) + 1].beg);
        }
        push_range(&mut out, src, i, m.beg);
        if accept[k] {
            let rep = &reps[k];
            let ghost before = out@;
            let mut t: usize = 0;
            while t < rep.len()
                invariant
                    t <= rep@.len(),
                    out@ == before + rep@.subrange(0, t as int),
                decreases rep@.len() - t,
            {
                out.push(rep[t]);
                assert(rep@.subrange(0, t + 1) =~= rep@.subrange(0, t as int).push(rep@[t as int]));
                t = t + 1;
            }
            assert(rep@.subrange(0, rep@.len() as int) =~= rep@);
            assert(rv[k as int] == reps@[k as int]@);
        } else {
            push_range(&mut out, src, m.beg, m.end);
        }
        i = m.end;
        k = k + 1;
    }
    push_range(&mut out, src, i, src.len());
    out
}

} // verus!
