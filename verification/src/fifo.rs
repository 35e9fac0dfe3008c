//! First-in-first-out laws of the log, stated over its abstract model.
//!
//! A log's view is the sequence of its payloads, head to tail. `append` pushes
//! a payload at the back of the view and a successful `pop` removes the front,
//! so a run of calls is modelled by `appended` and `drained` below, and
//! `lemma_fifo_round_trip` is the FIFO law: appending any values to an empty
//! log and then popping until empty returns exactly those values, in order.

use vstd::prelude::*;

verus! {

/// The view of a log that held `s` after appending each value of `vs` in
/// order: each append pushes one value at the back, as `append` ensures.
pub open spec fn appended(s: Seq<Seq<char>>, vs: Seq<Seq<char>>) -> Seq<Seq<char>>
    decreases vs.len(),
{
    if vs.len() == 0 {
        s
    } else {
        appended(s.push(vs[0]), vs.subrange(1, vs.len() as int))
    }
}

/// The values returned by popping a log that holds `s` until it is empty, in
/// the order they are returned: each pop removes the front, as `pop` ensures.
pub open spec fn drained(s: Seq<Seq<char>>) -> Seq<Seq<char>>
    decreases s.len(),
{
    if s.len() == 0 {
        Seq::empty()
    } else {
        seq![s[0]] + drained(s.subrange(1, s.len() as int))
    }
}

/// Appending `vs` to a log that holds `s` leaves it holding `s` followed by
/// `vs`.
pub proof fn lemma_appended_concat(s: Seq<Seq<char>>, vs: Seq<Seq<char>>)
    ensures
        appended(s, vs) == s + vs,
    decreases vs.len(),
{
    if vs.len() == 0 {
        assert(appended(s, vs) =~= s + vs);
    } else {
        lemma_appended_concat(s.push(vs[0]), vs.subrange(1, vs.len() as int));
        assert(s.push(vs[0]) + vs.subrange(1, vs.len() as int) =~= s + vs);
    }
}

/// Popping a log that holds `s` until it is empty returns exactly `s`: the
/// values come back first-in, first-out.
pub proof fn lemma_drained_identity(s: Seq<Seq<char>>)
    ensures
        drained(s) == s,
    decreases s.len(),
{
    if s.len() == 0 {
        assert(drained(s) =~= s);
    } else {
        lemma_drained_identity(s.subrange(1, s.len() as int));
        assert(seq![s[0]] + s.subrange(1, s.len() as int) =~= s);
    }
}

/// Popping the only element leaves nothing behind: what remains of a
/// one-element log is the empty sequence, so the pop that follows finds the
/// log empty and returns no value.
pub proof fn lemma_pop_only_element(s: Seq<Seq<char>>)
    requires
        s.len() == 1,
    ensures
        s.subrange(1, s.len() as int) == Seq::<Seq<char>>::empty(),
{
    assert(s.subrange(1, 1) =~= Seq::<Seq<char>>::empty());
}

/// The FIFO round trip: appending the values `vs` to an empty log and then
/// popping until empty returns exactly `vs`, in order.
pub proof fn lemma_fifo_round_trip(vs: Seq<Seq<char>>)
    ensures
        drained(appended(Seq::empty(), vs)) == vs,
{
    lemma_appended_concat(Seq::empty(), vs);
    assert(appended(Seq::empty(), vs) =~= vs);
    lemma_drained_identity(vs);
}

} // verus!
