//! Debug-draw gizmos: a line list accumulated during a frame, handed out
//! for drawing once per frame, and pruned to its persistent entries.
//!
//! The context is an explicit value the caller owns and passes around —
//! no process-wide state.

use vstd::prelude::*;

use crate::scene::Vec3B;

verus! {

/// One debug line: its endpoints as float bit patterns, and whether it
/// survives the frame it was drawn in.
#[derive(Clone, Copy, Debug, PartialEq, Eq)]
pub struct GizmoLine {
    pub persist: bool,
    pub p0: Vec3B,
    pub p1: Vec3B,
}

/// The debug-draw context: the lines accumulated for the next frame.
#[derive(Debug)]
pub struct Gizmos {
    pub lines: Vec<GizmoLine>,
}

/// A fresh, empty debug-draw context.
pub fn init_gizmos() -> (g: Gizmos)
    ensures
        g.lines@.len() == 0,
{
    Gizmos { lines: Vec::new() }
}

/// Queues one line; a persistent line survives the frames it is drawn in.
pub fn gizmos_add_line(g: &mut Gizmos, persist: bool, p0: Vec3B, p1: Vec3B)
    ensures
        final(g).lines@ == old(g).lines@.push(GizmoLine { persist, p0, p1 }),
{
    g.lines.push(GizmoLine { persist, p0, p1 });
}

/// Takes the lines to draw this frame, in the order they were queued, and
/// keeps only the persistent ones for the next frame.
pub fn draw_gizmos(g: &mut Gizmos) -> (to_draw: Vec<GizmoLine>)
    ensures
        to_draw@ == old(g).lines@,
        final(g).lines@ == old(g).lines@.filter(|l: GizmoLine| l.persist),
{
    let mut to_draw: Vec<GizmoLine> = Vec::new();
    let mut kept: Vec<GizmoLine> = Vec::new();
    let mut i: usize = 0;
    proof {
        reveal(Seq::filter);
        assert(old(g).lines@.subrange(0, 0).filter(|l: GizmoLine| l.persist) =~= Seq::<
            GizmoLine,
        >::empty());
    }
    while i < g.lines.len()
        invariant
            i <= g.lines.len(),
            g.lines@ == old(g).lines@,
            to_draw@ == old(g).lines@.subrange(0, i as int),
            kept@ == old(g).lines@.subrange(0, i as int).filter(|l: GizmoLine| l.persist),
        decreases g.lines.len() - i,
    {
        let line = g.lines[i];
        to_draw.push(line);
        if line.persist {
            kept.push(line);
        }
        i = i + 1;
        proof {
            reveal(Seq::filter);
            assert(to_draw@ =~= old(g).lines@.subrange(0, i as int));
            assert(old(g).lines@.subrange(0, i as int).drop_last() =~= old(g).lines@.subrange(
                0,
                i - 1,
            ));
            assert(old(g).lines@.subrange(0, i as int).last() == line);
            assert(kept@ =~= old(g).lines@.subrange(0, i as int).filter(
                |l: GizmoLine| l.persist,
            ));
        }
    }
    proof {
        assert(old(g).lines@.subrange(0, old(g).lines@.len() as int) =~= old(g).lines@);
        assert(to_draw@ =~= old(g).lines@);
    }
    g.lines = kept;
    to_draw
}

} // verus!
