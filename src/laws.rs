use vstd::prelude::*;
use crate::reader::{EventView, ReadView, ReaderPhase, ReaderState, emitted, initial_state, is_terminal, lossy_text, read_step};
use crate::registry::{after_cleanup, Slot};

verus! {

/// The decoded texts of the data reads before the first read that ends the stream.
pub open spec fn chunks(rs: Seq<ReadView>) -> Seq<Seq<char>>
    decreases rs.len(),
{
    if rs.len() == 0 || is_terminal(rs[0]) {
        Seq::empty()
    } else {
        seq![lossy_text(rs[0]->Data_0)] + chunks(rs.drop_first())
    }
}

/// `cs` without the chunks that repeat the one before them, `prev` standing before the first.
pub open spec fn collapse(prev: Seq<char>, cs: Seq<Seq<char>>) -> Seq<Seq<char>>
    decreases cs.len(),
{
    if cs.len() == 0 {
        Seq::empty()
    } else if cs[0] == prev {
        collapse(prev, cs.drop_first())
    } else {
        seq![cs[0]] + collapse(cs[0], cs.drop_first())
    }
}

/// The texts of the output events, in order.
pub open spec fn output_texts(evs: Seq<EventView>) -> Seq<Seq<char>>
    decreases evs.len(),
{
    if evs.len() == 0 {
        Seq::empty()
    } else {
        let rest = output_texts(evs.drop_first());
        match evs[0] {
            EventView::Output(_, t) => seq![t] + rest,
            _ => rest,
        }
    }
}

/// The session id an event is tagged with.
pub open spec fn event_id(e: EventView) -> Seq<char> {
    match e {
        EventView::Ready(id) => id,
        EventView::Output(id, _) => id,
        EventView::Exit(id) => id,
    }
}

/// All events a session ever emits: `ready`, then what its reader loop emits.
pub open spec fn session_events(id: Seq<char>, generation: u64, rs: Seq<ReadView>) -> Seq<EventView> {
    seq![EventView::Ready(id)] + emitted(initial_state(id, generation), rs)
}

proof fn lemma_emitted_inactive(s: ReaderState, rs: Seq<ReadView>)
    requires
        s.phase != ReaderPhase::Running,
    ensures
        emitted(s, rs) == Seq::<EventView>::empty(),
    decreases rs.len(),
{
    if rs.len() > 0 {
        lemma_emitted_inactive(s, rs.drop_first());
        assert(emitted(s, rs) =~= Seq::<EventView>::empty() + emitted(s, rs.drop_first()));
    }
}

proof fn lemma_emitted_running(s: ReaderState, rs: Seq<ReadView>)
    requires
        s.phase == ReaderPhase::Running,
    ensures
        forall|i: int|
            0 <= i < emitted(s, rs).len() ==> !(#[trigger] emitted(s, rs)[i] is Ready) && event_id(
                emitted(s, rs)[i],
            ) == s.id,
        forall|i: int|
            0 <= i < emitted(s, rs).len() && (#[trigger] emitted(s, rs)[i] is Exit) ==> i
                == emitted(s, rs).len() - 1,
        (exists|j: int| 0 <= j < rs.len() && is_terminal(#[trigger] rs[j])) ==> emitted(s, rs).len()
            > 0 && emitted(s, rs).last() == EventView::Exit(s.id),
        output_texts(emitted(s, rs)) == collapse(s.previous, chunks(rs)),
    decreases rs.len(),
{
    let ev = emitted(s, rs);
    if rs.len() == 0 {
        return;
    }
    let rest = rs.drop_first();
    let (s1, e) = read_step(s, rs[0]);
    if is_terminal(rs[0]) {
        lemma_emitted_inactive(s1, rest);
        assert(ev =~= seq![EventView::Exit(s.id)]);
        assert(output_texts(ev.drop_first()) == Seq::<Seq<char>>::empty());
        assert(chunks(rs) == Seq::<Seq<char>>::empty());
        return;
    }
    lemma_emitted_running(s1, rest);
    let tail = emitted(s1, rest);
    if (exists|j: int| 0 <= j < rs.len() && is_terminal(#[trigger] rs[j])) {
        let j = choose|j: int| 0 <= j < rs.len() && is_terminal(#[trigger] rs[j]);
        assert(j > 0);
        assert(is_terminal(rest[j - 1]));
    }
    let t = lossy_text(rs[0]->Data_0);
    assert(chunks(rs) == seq![t] + chunks(rest));
    assert((seq![t] + chunks(rest)).drop_first() =~= chunks(rest));
    if t == s.previous {
        assert(ev =~= tail);
    } else {
        let o = EventView::Output(s.id, t);
        assert(ev =~= seq![o] + tail);
        assert(ev.drop_first() =~= tail);
        assert(ev[0] == o);
        if (exists|j: int| 0 <= j < rs.len() && is_terminal(#[trigger] rs[j])) {
            assert(ev.last() == tail.last());
        }
        assert forall|i: int| 0 <= i < ev.len() && (#[trigger] ev[i] is Exit) implies i == ev.len()
            - 1 by {
            assert(i > 0);
            assert(ev[i] == tail[i - 1]);
        }
        assert forall|i: int| 0 <= i < ev.len() implies !(#[trigger] ev[i] is Ready) && event_id(
            ev[i],
        ) == s.id by {
            if i > 0 {
                assert(ev[i] == tail[i - 1]);
            }
        }
    }
}

/// Output ordering: a session emits exactly one `ready`, first; its output
/// events carry the decoded chunks in the order they were read, a chunk that
/// repeats the one before it being forwarded once; at most one `exit` comes,
/// always last, and it comes whenever the stream ends. Every event is tagged
/// with the session's id.
pub proof fn lemma_session_event_order(id: Seq<char>, generation: u64, rs: Seq<ReadView>)
    ensures
        session_events(id, generation, rs)[0] == EventView::Ready(id),
        forall|i: int|
            0 < i < session_events(id, generation, rs).len() ==> !(#[trigger] session_events(
                id,
                generation,
                rs,
            )[i] is Ready),
        forall|i: int|
            0 <= i < session_events(id, generation, rs).len() ==> event_id(
                #[trigger] session_events(id, generation, rs)[i],
            ) == id,
        forall|i: int|
            0 <= i < session_events(id, generation, rs).len() && (#[trigger] session_events(
                id,
                generation,
                rs,
            )[i] is Exit) ==> i == session_events(id, generation, rs).len() - 1,
        (exists|j: int| 0 <= j < rs.len() && is_terminal(#[trigger] rs[j])) ==> session_events(
            id,
            generation,
            rs,
        ).last() == EventView::Exit(id),
        output_texts(session_events(id, generation, rs)) == collapse(Seq::empty(), chunks(rs)),
{
    let s = initial_state(id, generation);
    let tail = emitted(s, rs);
    let evs = session_events(id, generation, rs);
    lemma_emitted_running(s, rs);
    assert(evs.drop_first() =~= tail);
    assert forall|i: int| 0 < i < evs.len() implies evs[i] == tail[i - 1] by {}
    if (exists|j: int| 0 <= j < rs.len() && is_terminal(#[trigger] rs[j])) {
        assert(evs.last() == tail.last());
    }
}

/// Teardown race: whether an explicit close or the reader loop's own cleanup
/// comes first, the registry ends with no entry for the session and the rest
/// untouched; and once the stream ends, the loop emits exactly one `exit`,
/// as its last event. Close emits nothing.
pub proof fn lemma_teardown_race<H>(
    m: Map<Seq<char>, Slot<H>>,
    id: Seq<char>,
    generation: u64,
    rs: Seq<ReadView>,
)
    requires
        m.contains_key(id) ==> m[id].0 == generation,
        exists|j: int| 0 <= j < rs.len() && is_terminal(#[trigger] rs[j]),
    ensures
        after_cleanup(m.remove(id), id, generation) == m.remove(id),
        after_cleanup(m, id, generation).remove(id) == m.remove(id),
        !m.remove(id).contains_key(id),
        emitted(initial_state(id, generation), rs).len() > 0,
        emitted(initial_state(id, generation), rs).last() == EventView::Exit(id),
        forall|i: int|
            0 <= i < emitted(initial_state(id, generation), rs).len() - 1 ==> !(
            #[trigger] emitted(initial_state(id, generation), rs)[i] is Exit),
{
    lemma_emitted_running(initial_state(id, generation), rs);
    assert(m.remove(id).remove(id) =~= m.remove(id));
}

/// Close is idempotent: closing an id twice leaves what closing it once does,
/// with no entry for the id, whether or not it was live.
pub proof fn lemma_close_twice<H>(m: Map<Seq<char>, Slot<H>>, id: Seq<char>)
    ensures
        m.remove(id).remove(id) == m.remove(id),
        !m.remove(id).contains_key(id),
        !m.contains_key(id) ==> m.remove(id) == m,
{
    assert(m.remove(id).remove(id) =~= m.remove(id));
    if !m.contains_key(id) {
        assert(m.remove(id) =~= m);
    }
}

/// Single ownership across a restart: start tears the old session down
/// (close) before the new one is installed, so no moment holds two handles for
/// the id; afterwards the id holds exactly the new handle and every other
/// session is as it was.
pub proof fn lemma_restart_single_owner<H>(
    m0: Map<Seq<char>, Slot<H>>,
    id: Seq<char>,
    generation: u64,
    h: H,
)
    ensures
        !m0.remove(id).contains_key(id),
        m0.remove(id).insert(id, (generation, h))[id] == (generation, h),
        m0.remove(id).insert(id, (generation, h)).remove(id) == m0.remove(id),
        m0.remove(id).insert(id, (generation, h)) == m0.insert(id, (generation, h)),
{
    assert(m0.remove(id).insert(id, (generation, h)).remove(id) =~= m0.remove(id));
    assert(m0.remove(id).insert(id, (generation, h)) =~= m0.insert(id, (generation, h)));
}

/// A reader loop that outlives its session never ends the session that
/// replaced it under the same id: its cleanup, under the old generation,
/// leaves the registry as the restart made it.
pub proof fn lemma_stale_cleanup_keeps_restart<H>(
    m: Map<Seq<char>, Slot<H>>,
    id: Seq<char>,
    old_generation: u64,
    new_generation: u64,
    h: H,
)
    requires
        old_generation != new_generation,
    ensures
        after_cleanup(m.insert(id, (new_generation, h)), id, old_generation) == m.insert(
            id,
            (new_generation, h),
        ),
        after_cleanup(m.insert(id, (new_generation, h)), id, old_generation)[id] == (
            new_generation,
            h,
        ),
{
}

} // verus!
