//! Liveness reconciliation: the pods that the broker believes alive on a
//! node but that the orchestrator no longer runs there.
use vstd::prelude::*;
use crate::proto::same_text;

verus! {

/// The names of `alive` that `running` lacks, in order.
pub open spec fn missing(alive: Seq<Seq<char>>, running: Seq<Seq<char>>) -> Seq<Seq<char>>
    decreases alive.len(),
{
    if alive.len() == 0 {
        Seq::empty()
    } else {
        let rest = missing(alive.drop_last(), running);
        if running.contains(alive.last()) {
            rest
        } else {
            rest.push(alive.last())
        }
    }
}

pub open spec fn names_view(v: Seq<String>) -> Seq<Seq<char>> {
    v.map_values(|s: String| s@)
}

fn contains_name(v: &[String], n: &String) -> (r: bool)
    ensures
        r == names_view(v@).contains(n@),
{
    let mut i: usize = 0;
    while i < v.len()
        invariant
            0 <= i <= v@.len(),
            forall|j: int| 0 <= j < i ==> (#[trigger] v@[j])@ != n@,
        decreases v@.len() - i,
    {
        if same_text(v[i].as_str(), n.as_str()) {
            assert(names_view(v@)[i as int] == n@);
            return true;
        }
        i = i + 1;
    }
    false
}

/// The pods to mark dead: those the broker lists alive on the node
/// (`db_alive`) that the orchestrator does not run there (`running`), in
/// the broker's order.
pub fn pods_to_mark_dead(db_alive: &[String], running: &[String]) -> (r: Vec<String>)
    ensures
        names_view(r@) == missing(names_view(db_alive@), names_view(running@)),
{
    let mut out: Vec<String> = Vec::new();
    let ghost alive = names_view(db_alive@);
    let mut i: usize = 0;
    while i < db_alive.len()
        invariant
            0 <= i <= db_alive@.len(),
            alive == names_view(db_alive@),
            names_view(out@) == missing(alive.subrange(0, i as int), names_view(running@)),
        decreases db_alive@.len() - i,
    {
        assert(alive.subrange(0, i + 1).drop_last() =~= alive.subrange(0, i as int));
        if !contains_name(running, &db_alive[i]) {
            let ghost before = out@;
            out.push(db_alive[i].clone());
            assert(names_view(out@) =~= names_view(before).push(db_alive@[i as int]@));
        }
        i = i + 1;
    }
    assert(alive.subrange(0, alive.len() as int) =~= alive);
    out
}

} // verus!
