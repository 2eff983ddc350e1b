use vstd::prelude::*;

verus! {

/// The pieces of `s` between newline bytes.
pub open spec fn split_bytes(s: Seq<u8>) -> Seq<Seq<u8>>
    decreases s.len(),
{
    if s.len() == 0 {
        seq![Seq::empty()]
    } else {
        let r = split_bytes(s.drop_last());
        if s.last() == 10u8 {
            r.push(Seq::empty())
        } else {
            r.update(r.len() - 1, r.last().push(s.last()))
        }
    }
}

pub proof fn lemma_split_bytes_len(s: Seq<u8>)
    ensures
        split_bytes(s).len() >= 1,
    decreases s.len(),
{
    if s.len() > 0 {
        lemma_split_bytes_len(s.drop_last());
    }
}

/// A line loses the carriage return before its newline.
pub open spec fn strip_cr_byte(x: Seq<u8>) -> Seq<u8> {
    if x.len() > 0 && x.last() == 13u8 {
        x.drop_last()
    } else {
        x
    }
}

/// The lines among the pieces, without carriage returns; empty lines are
/// left out.
pub open spec fn kept_lines(pieces: Seq<Seq<u8>>) -> Seq<Seq<u8>>
    decreases pieces.len(),
{
    if pieces.len() == 0 {
        Seq::empty()
    } else {
        let rest = kept_lines(pieces.drop_last());
        let l = strip_cr_byte(pieces.last());
        if l.len() > 0 {
            rest.push(l)
        } else {
            rest
        }
    }
}

/// The lines of a JSON Lines file: the non-empty pieces between newlines,
/// each without a carriage return before its newline.
pub open spec fn spec_split_lines(bytes: Seq<u8>) -> Seq<Seq<u8>> {
    kept_lines(split_bytes(bytes))
}

pub open spec fn bytes_view(v: Seq<Vec<u8>>) -> Seq<Seq<u8>> {
    v.map_values(|x: Vec<u8>| x@)
}

fn push_kept(out: &mut Vec<Vec<u8>>, cur: Vec<u8>)
    ensures
        bytes_view(final(out)@) == if strip_cr_byte(cur@).len() > 0 {
            bytes_view(old(out)@).push(strip_cr_byte(cur@))
        } else {
            bytes_view(old(out)@)
        },
{
    let mut cur = cur;
    if cur.len() > 0 && cur[cur.len() - 1] == 13u8 {
        cur.pop();
    }
    if cur.len() > 0 {
        let ghost before = out@;
        let ghost c = cur@;
        out.push(cur);
        assert(bytes_view(out@) =~= bytes_view(before).push(c));
    }
}

/// Splits a JSON Lines file into its lines.
pub fn split_lines(bytes: &[u8]) -> (r: Vec<Vec<u8>>)
    ensures
        bytes_view(r@) == spec_split_lines(bytes@),
{
    let mut out: Vec<Vec<u8>> = Vec::new();
    let mut cur: Vec<u8> = Vec::new();
    let mut i: usize = 0;
    assert(bytes@.take(0) =~= Seq::<u8>::empty());
    assert(bytes_view(out@) =~= Seq::<Seq<u8>>::empty());
    while i < bytes.len()
        invariant
            i <= bytes.len(),
            split_bytes(bytes@.take(i as int)).len() >= 1,
            cur@ == split_bytes(bytes@.take(i as int)).last(),
            bytes_view(out@) == kept_lines(split_bytes(bytes@.take(i as int)).drop_last()),
        decreases bytes.len() - i,
    {
        let ghost t = bytes@.take(i + 1);
        let ghost r = split_bytes(bytes@.take(i as int));
        assert(t.drop_last() =~= bytes@.take(i as int));
        assert(t.last() == bytes@[i as int]);
        let b = bytes[i];
        if b == 10u8 {
            assert(split_bytes(t) == r.push(Seq::empty()));
            assert(r.push(Seq::empty()).drop_last() =~= r);
            assert(r =~= r.drop_last().push(r.last()));
            push_kept(&mut out, cur);
            cur = Vec::new();
            assert(cur@ =~= Seq::<u8>::empty());
        } else {
            cur.push(b);
            assert(split_bytes(t) == r.update(r.len() - 1, r.last().push(b)));
            assert(r.update(r.len() - 1, r.last().push(b)).drop_last() =~= r.drop_last());
        }
        i = i + 1;
        proof {
            lemma_split_bytes_len(bytes@.take(i as int));
        }
    }
    assert(bytes@.take(i as int) =~= bytes@);
    let ghost whole = split_bytes(bytes@);
    assert(whole =~= whole.drop_last().push(whole.last()));
    push_kept(&mut out, cur);
    out
}

} // verus!
