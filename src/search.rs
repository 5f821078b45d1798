//! The resolution of one identifier from the payloads its sources gave.
use vstd::prelude::*;
use crate::merge::{MergeError, fold_biobricks, folded};
use crate::types::{Biobrick, BiobrickView, biobrick_views};

verus! {

/// Why an identifier did not resolve to a record.
#[derive(Clone, Copy, Debug, PartialEq, Eq, Structural)]
pub enum ResolveError {
    /// No source gave a candidate, or the merged record has no sequence.
    NotFound,
    /// Two candidates name different parts.
    IntegrityViolation,
}

pub open spec fn opt_views(v: Seq<Option<Biobrick>>) -> Seq<Option<BiobrickView>> {
    v.map_values(|o: Option<Biobrick>| match o {
        Some(b) => Some(b@),
        None => None,
    })
}

/// The candidates among the sources' outcomes, in their order.
pub open spec fn candidates_of(rs: Seq<Option<BiobrickView>>) -> Seq<BiobrickView>
    decreases rs.len(),
{
    if rs.len() == 0 {
        seq![]
    } else {
        match rs.last() {
            Some(b) => candidates_of(rs.drop_last()).push(b),
            None => candidates_of(rs.drop_last()),
        }
    }
}

/// What the sources' outcomes resolve to: their candidates folded in order,
/// unless there is none, they disagree on the id, or the record has size zero.
pub open spec fn resolved(rs: Seq<Option<BiobrickView>>) -> Result<BiobrickView, ResolveError> {
    let cs = candidates_of(rs);
    if cs.len() == 0 {
        Err(ResolveError::NotFound)
    } else {
        match folded(cs) {
            Ok(r) => if r.size == 0 {
                Err(ResolveError::NotFound)
            } else {
                Ok(r)
            },
            Err(_) => Err(ResolveError::IntegrityViolation),
        }
    }
}

/// Resolves an identifier from the outcome of each source, in registration
/// order: a source that gave nothing is left out, the candidates are folded
/// in that order, and an empty result is reported as not found.
pub fn resolve(results: Vec<Option<Biobrick>>) -> (r: Result<Biobrick, ResolveError>)
    ensures
        r matches Ok(b) ==> resolved(opt_views(results@)) == Ok::<BiobrickView, ResolveError>(b@),
        r matches Err(e) ==> resolved(opt_views(results@)) == Err::<BiobrickView, ResolveError>(e),
{
    let ghost all = results@;
    let mut found: Vec<Biobrick> = Vec::new();
    for o in it: results.into_iter()
        invariant
            it.seq() == all,
            biobrick_views(found@) == candidates_of(opt_views(all.take(it.index() as int))),
    {
        let ghost i = it.index() as int;
        proof {
            assert(o == all[i]);
            assert(opt_views(all.take(i + 1)).drop_last() == opt_views(all.take(i)));
        }
        match o {
            Some(b) => {
                found.push(b);
                assert(biobrick_views(found@) == biobrick_views(found@.drop_last()).push(b@));
            },
            None => {},
        }
    }
    assert(all.take(all.len() as int) == all);
    if found.len() == 0 {
        return Err(ResolveError::NotFound);
    }
    match fold_biobricks(found) {
        Ok(b) => if b.metadata.size == 0 {
            Err(ResolveError::NotFound)
        } else {
            Ok(b)
        },
        Err(MergeError::IdMismatch) => Err(ResolveError::IntegrityViolation),
    }
}

} // verus!
