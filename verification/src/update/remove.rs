//! The `REMOVE` clause of an update expression.
use vstd::prelude::*;

use crate::path::Path;
use crate::text::{join, lemma_join_push, write_str};
use crate::update::{Update, UpdateV};

verus! {

/// The `REMOVE` clause: the attributes to remove, in order.
pub struct Remove {
    pub paths: Vec<Path>,
}

/// A `REMOVE` clause with these paths, as it appears in an expression.
pub open spec fn render_remove(paths: Seq<Path>) -> Seq<char> {
    "REMOVE "@ + join(paths.map_values(|p: Path| p.render()), seq![',', ' '])
}

impl Remove {
    /// Removes the attribute at `path`.
    pub fn new(path: Path) -> (r: Remove)
        ensures
            r.paths@ == seq![path],
    {
        let mut paths = Vec::new();
        paths.push(path);
        Remove { paths }
    }

    /// Removes the attributes at these paths.
    pub fn from_paths(paths: Vec<Path>) -> (r: Remove)
        ensures
            r.paths == paths,
    {
        Remove { paths }
    }

    /// This clause, then the actions of `other`.
    pub fn and(self, other: Update) -> (r: Update)
        ensures
            r@ == UpdateV::remove_only(self.paths@).and_spec(other@),
    {
        Update::new_remove(self).and(other)
    }

    /// Appends the clause as it appears in an expression: `REMOVE`, then the
    /// paths separated by `, `.
    pub fn write_to(&self, out: &mut String)
        ensures
            final(out)@ == old(out)@ + render_remove(self.paths@),
    {
        write_str(out, "REMOVE ");
        let ghost start = out@;
        let ghost parts = self.paths@.map_values(|p: Path| p.render());
        let mut i: usize = 0;
        while i < self.paths.len()
            invariant
                i <= self.paths@.len(),
                parts == self.paths@.map_values(|p: Path| p.render()),
                out@ == start + join(parts.take(i as int), seq![',', ' ']),
            decreases self.paths@.len() - i,
        {
            if i > 0 {
                out.push(',');
                out.push(' ');
            }
            self.paths[i].write_to(out);
            proof {
                lemma_join_push(parts.take(i as int), seq![',', ' '], parts[i as int]);
                assert(parts.take(i + 1) =~= parts.take(i as int).push(parts[i as int]));
            }
            i = i + 1;
            assert(out@ =~= start + join(parts.take(i as int), seq![',', ' ']));
        }
        assert(parts.take(i as int) =~= parts);
        assert(final(out)@ =~= old(out)@ + render_remove(self.paths@));
    }

    /// The clause as it appears in an expression.
    pub fn to_string(&self) -> (r: String)
        ensures
            r@ == render_remove(self.paths@),
    {
        let mut out = String::new();
        self.write_to(&mut out);
        assert(out@ =~= render_remove(self.paths@));
        out
    }
}


/// A `REMOVE` clause of one action is `REMOVE`, a space, and that action.
pub proof fn lemma_render_remove_one(a: Path)
    ensures
        render_remove(seq![a]) == "REMOVE "@ + a.render(),
{
    assert(seq![a].map_values(|x: Path| x.render()) =~= seq![a.render()]);
}

/// The `REMOVE` clause of two runs of actions, one after the other, writes
/// every action of both in order: the first run's clause, `, `, then the
/// second run's actions (its clause without the leading `REMOVE`).
pub proof fn lemma_render_remove_concat(a: Seq<Path>, b: Seq<Path>)
    requires
        a.len() > 0,
        b.len() > 0,
    ensures
        render_remove(a + b) == render_remove(a) + seq![',', ' '] + render_remove(b).skip(7),
{
    let f = |x: Path| x.render();
    assert((a + b).map_values(f) =~= a.map_values(f) + b.map_values(f));
    crate::text::lemma_join_concat(a.map_values(f), b.map_values(f), seq![',', ' ']);
    reveal_strlit("REMOVE ");
    assert(render_remove(b).skip(7) =~= join(b.map_values(f), seq![',', ' ']));
    assert(render_remove(a + b) =~= render_remove(a) + seq![',', ' '] + render_remove(b).skip(7));
}

} // verus!
