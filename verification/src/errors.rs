//! The error taxonomy of a run, the causal-chain formatter, and the checks
//! that gate cross-referencing after every concurrent task has joined.
use vstd::prelude::*;

verus! {

/// What went wrong, by kind.
#[derive(Debug, PartialEq, Eq, Structural, Clone, Copy)]
pub enum ErrorKind {
    /// Filesystem access failed.
    IOError,
    /// Network, protocol, authentication or proxy negotiation failed.
    TransportError,
    /// A manifest, feed or identifier did not parse.
    FormatError,
    /// Expected data is missing: a tree entry, or a nonempty advisory set.
    DataIntegrityError,
    /// The advisory database is older than the acceptable threshold.
    StalenessError,
}

/// An error of the run: its kind and its causal chain, outermost first,
/// one message per wrapping layer.
pub struct RunError {
    pub kind: ErrorKind,
    pub chain: Vec<String>,
}

impl RunError {
    /// Builds an error with a single-message chain.
    pub fn new(kind: ErrorKind, msg: String) -> (r: RunError)
        ensures
            r.kind == kind,
            r.chain@.map_values(|m: String| m@) == seq![msg@],
    {
        let mut chain: Vec<String> = Vec::new();
        chain.push(msg);
        proof {
            assert(chain@.map_values(|m: String| m@) =~= seq![chain@[0]@]);
        }
        RunError { kind, chain }
    }

    /// Wraps the error in one more layer of context.
    pub fn wrap(self, msg: String) -> (r: RunError)
        ensures
            r.kind == self.kind,
            r.chain@.map_values(|m: String| m@) == seq![msg@] + self.chain@.map_values(
                |m: String| m@,
            ),
    {
        let mut chain: Vec<String> = Vec::new();
        chain.push(msg);
        let mut rest = self.chain;
        chain.append(&mut rest);
        proof {
            assert(chain@.map_values(|m: String| m@) =~= seq![msg@] + self.chain@.map_values(
                |m: String| m@,
            ));
        }
        RunError { kind: self.kind, chain }
    }
}

/// The rendition of a causal chain: each message on its own indented line.
pub open spec fn chain_text(msgs: Seq<Seq<char>>) -> Seq<char>
    decreases msgs.len(),
{
    if msgs.len() == 0 {
        Seq::empty()
    } else {
        chain_text(msgs.drop_last()) + "\n\t"@ + msgs.last()
    }
}

/// Renders a causal chain for diagnosis: one indented line per layer.
pub fn format_chain(chain: &Vec<String>) -> (out: String)
    ensures
        out@ == chain_text(chain@.map_values(|m: String| m@)),
{
    let mut out = String::new();
    let mut i: usize = 0;
    proof {
        assert(chain@.map_values(|m: String| m@).subrange(0, 0) =~= Seq::<Seq<char>>::empty());
    }
    while i < chain.len()
        invariant
            i <= chain@.len(),
            out@ == chain_text(chain@.map_values(|m: String| m@).subrange(0, i as int)),
        decreases chain@.len() - i,
    {
        let ghost mapped = chain@.map_values(|m: String| m@);
        proof {
            assert(mapped.subrange(0, i + 1).drop_last() =~= mapped.subrange(0, i as int));
            assert(mapped.subrange(0, i + 1).last() == chain@[i as int]@);
        }
        out.append("\n\t");
        out.append(chain[i].as_str());
        i = i + 1;
    }
    proof {
        assert(chain@.map_values(|m: String| m@).subrange(0, chain@.len() as int) =~= chain@
            .map_values(|m: String| m@));
    }
    out
}

/// Checks the advisory database after a successful synchronization: it must
/// be fresh, and an empty advisory set is a data-integrity fault, never a
/// valid empty result.
pub fn check_advisory_db(fresh: bool, advisory_count: usize) -> (r: Result<(), RunError>)
    ensures
        r is Ok <==> fresh && advisory_count > 0,
        !fresh ==> (r matches Err(e) && e.kind is StalenessError),
        fresh && advisory_count == 0 ==> (r matches Err(e) && e.kind is DataIntegrityError),
{
    if !fresh {
        Err(RunError::new(ErrorKind::StalenessError, String::from_str("advisory database is stale")))
    } else if advisory_count == 0 {
        Err(
            RunError::new(
                ErrorKind::DataIntegrityError,
                String::from_str("advisory database holds no advisories"),
            ),
        )
    } else {
        Ok(())
    }
}

/// Checks every joined result in the order the run requires: the two
/// auxiliary tasks first, then advisory-database freshness and emptiness,
/// then the primary overlay. Cross-referencing may proceed only on `Ok`.
pub fn post_join_gate(
    registry: Result<(), RunError>,
    advisory_sync: Result<(), RunError>,
    advisory_fresh: bool,
    advisory_count: usize,
    primary: Result<(), RunError>,
) -> (r: Result<(), RunError>)
    ensures
        r is Ok <==> registry is Ok && advisory_sync is Ok && advisory_fresh && advisory_count > 0
            && primary is Ok,
        (registry matches Err(e) ==> r == Err::<(), RunError>(e)),
        registry is Ok ==> (advisory_sync matches Err(e) ==> r == Err::<(), RunError>(e)),
        registry is Ok && advisory_sync is Ok && !advisory_fresh ==> (r matches Err(e) && e.kind
            is StalenessError),
        registry is Ok && advisory_sync is Ok && advisory_fresh && advisory_count == 0 ==> (r
            matches Err(e) && e.kind is DataIntegrityError),
        registry is Ok && advisory_sync is Ok && advisory_fresh && advisory_count > 0 ==> (primary
            matches Err(e) ==> r == Err::<(), RunError>(e)),
{
    match registry {
        Err(e) => {
            return Err(e);
        },
        Ok(_) => {},
    }
    match advisory_sync {
        Err(e) => {
            return Err(e);
        },
        Ok(_) => {},
    }
    match check_advisory_db(advisory_fresh, advisory_count) {
        Err(e) => {
            return Err(e);
        },
        Ok(_) => {},
    }
    match primary {
        Err(e) => {
            return Err(e);
        },
        Ok(_) => {},
    }
    Ok(())
}

} // verus!
