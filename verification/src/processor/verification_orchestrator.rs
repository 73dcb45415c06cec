//! The chain of verification functions run before a capability.

use vstd::prelude::*;
use crate::error::ValenceError;
use crate::pubkey::zero_bytes;
use crate::processor::execution_engine::ExecutionContext;
use crate::text::{owned, decimal, push_decimal};

verus! {

/// Runs verification chains.
pub struct VerificationOrchestrator;

/// The outcome of a verification chain.
#[derive(Debug)]
pub struct VerificationResult {
    pub success: bool,
    pub verified_functions: Vec<[u8; 32]>,
    pub details: Vec<String>,
}

/// The abstract value of a verification result.
pub struct ChainView {
    pub success: bool,
    pub verified: Seq<Seq<u8>>,
    pub details: Seq<Seq<char>>,
}

/// The abstract value of a verification result.
pub open spec fn chain_view(r: VerificationResult) -> ChainView {
    ChainView {
        success: r.success,
        verified: r.verified_functions@.map_values(|h: [u8; 32]| h@),
        details: r.details@.map_values(|s: String| s@),
    }
}

/// The hashes as byte sequences.
pub open spec fn hashes_view(v: Seq<[u8; 32]>) -> Seq<Seq<u8>> {
    v.map_values(|h: [u8; 32]| h@)
}

/// Whether the verification function with hash `h` passes in the context:
/// by its first byte, a check that the caller is set (below 0x40), that a
/// session is (below 0x80), that the input is at most 1024 bytes (below
/// 0xC0), or none.
pub open spec fn verification_passes(h: Seq<u8>, ctx: ExecutionContext) -> bool {
    if h[0] < 0x40 {
        ctx.caller.bytes@ != zero_bytes()
    } else if h[0] < 0x80 {
        ctx.session is Some
    } else if h[0] < 0xC0 {
        ctx.input_data@.len() <= 1024
    } else {
        true
    }
}

/// `vs` and `ds` in front of what `r` verified and reported.
pub open spec fn prepend(vs: Seq<Seq<u8>>, ds: Seq<Seq<char>>, r: Result<ChainView, ValenceError>) -> Result<ChainView, ValenceError> {
    match r {
        Ok(v) => Ok(ChainView { success: v.success, verified: vs + v.verified, details: ds + v.details }),
        Err(e) => Err(e),
    }
}

/// The report of the `n`-th verification.
pub open spec fn step_detail(n: nat, passed: bool) -> Seq<char> {
    "Verification "@ + decimal(n) + if passed { " passed"@ } else { " failed"@ }
}

/// The chain run from the function at `i` on: a zero hash is refused with
/// `ExecutionFailed`; a passing function is recorded and the chain goes on;
/// the first failing one is reported and ends it.
pub open spec fn chain_from(fns: Seq<Seq<u8>>, ctx: ExecutionContext, i: int) -> Result<ChainView, ValenceError>
    decreases fns.len() - i,
{
    if i < 0 || i >= fns.len() {
        Ok(ChainView { success: true, verified: seq![], details: seq![] })
    } else if fns[i] == zero_bytes() {
        Err(ValenceError::ExecutionFailed)
    } else if verification_passes(fns[i], ctx) {
        prepend(seq![fns[i]], seq![step_detail((i + 1) as nat, true)], chain_from(fns, ctx, i + 1))
    } else {
        Ok(ChainView { success: false, verified: seq![], details: seq![step_detail((i + 1) as nat, false)] })
    }
}

/// The outcome of the verification chain.
pub open spec fn chain_outcome(fns: Seq<Seq<u8>>, ctx: ExecutionContext) -> Result<ChainView, ValenceError> {
    if fns.len() == 0 {
        Ok(ChainView { success: true, verified: seq![], details: seq!["No verification functions required"@] })
    } else {
        chain_from(fns, ctx, 0)
    }
}

/// From `i` on, a chain verifies a run of the functions in their order, and
/// succeeds exactly when that run reaches the end.
proof fn lemma_chain_from_prefix(fns: Seq<Seq<u8>>, ctx: ExecutionContext, i: int)
    requires
        0 <= i <= fns.len(),
    ensures
        chain_from(fns, ctx, i) matches Ok(v) ==> {
            &&& v.verified.len() <= fns.len() - i
            &&& v.verified == fns.subrange(i, i + v.verified.len())
            &&& (v.success <==> v.verified.len() == fns.len() - i)
        },
    decreases fns.len() - i,
{
    if i < fns.len() && fns[i] != zero_bytes() && verification_passes(fns[i], ctx) {
        lemma_chain_from_prefix(fns, ctx, i + 1);
        match chain_from(fns, ctx, i + 1) {
            Ok(v) => {
                assert(seq![fns[i]] + v.verified =~= fns.subrange(i, i + 1 + v.verified.len()));
            }
            Err(_) => {}
        }
    } else if i == fns.len() {
        assert(fns.subrange(i, i) =~= Seq::<Seq<u8>>::empty());
    } else {
        assert(fns.subrange(i, i) =~= Seq::<Seq<u8>>::empty());
    }
}

/// A verification chain that runs to the end verifies the functions in
/// their order, one by one; one that stops verified those before the first
/// that failed: what it verified is always a prefix of the list, and the
/// chain succeeds exactly when that prefix is the whole list.
pub proof fn lemma_chain_verifies_prefix(fns: Seq<Seq<u8>>, ctx: ExecutionContext)
    ensures
        chain_outcome(fns, ctx) matches Ok(v) ==> {
            &&& v.verified.len() <= fns.len()
            &&& v.verified == fns.take(v.verified.len() as int)
            &&& (v.success <==> v.verified == fns)
        },
{
    if fns.len() == 0 {
        assert(fns.take(0) =~= Seq::<Seq<u8>>::empty());
        assert(fns =~= Seq::<Seq<u8>>::empty());
    } else {
        lemma_chain_from_prefix(fns, ctx, 0);
        match chain_outcome(fns, ctx) {
            Ok(v) => {
                assert(fns.subrange(0, v.verified.len() as int) =~= fns.take(v.verified.len() as int));
                if v.verified.len() == fns.len() {
                    assert(fns.take(fns.len() as int) =~= fns);
                }
            }
            Err(_) => {}
        }
    }
}

impl VerificationOrchestrator {
    /// Runs the verification functions in order: see `chain_outcome`.
    pub fn run_verification_chain(verification_functions: &Vec<[u8; 32]>, execution_context: &ExecutionContext) -> (r: Result<VerificationResult, ValenceError>)
        ensures
            match (r, chain_outcome(hashes_view(verification_functions@), *execution_context)) {
                (Ok(res), Ok(v)) => chain_view(res) == v,
                (Err(e), Err(f)) => e == f,
                _ => false,
            },
    {
        let ghost fns = hashes_view(verification_functions@);
        if verification_functions.len() == 0 {
            let mut details: Vec<String> = Vec::new();
            details.push(owned("No verification functions required"));
            let r = VerificationResult { success: true, verified_functions: Vec::new(), details };
            assert(chain_view(r).verified =~= Seq::<Seq<u8>>::empty());
            assert(chain_view(r).details =~= seq!["No verification functions required"@]);
            return Ok(r);
        }
        let mut verified: Vec<[u8; 32]> = Vec::new();
        let mut details: Vec<String> = Vec::new();
        let mut i: usize = 0;
        assert(hashes_view(verified@) =~= Seq::<Seq<u8>>::empty());
        assert(details@.map_values(|s: String| s@) =~= Seq::<Seq<char>>::empty());
        while i < verification_functions.len()
            invariant
                i <= verification_functions.len(),
                fns == hashes_view(verification_functions@),
                fns.len() > 0,
                chain_from(fns, *execution_context, 0)
                    == prepend(hashes_view(verified@), details@.map_values(|s: String| s@), chain_from(fns, *execution_context, i as int)),
            decreases verification_functions.len() - i,
        {
            let h = &verification_functions[i];
            assert(fns[i as int] == h@);
            match Self::validate_verification_function(h) {
                Ok(()) => {}
                Err(e) => { return Err(e); }
            }
            let passed = Self::execute_verification(h, execution_context);
            let mut line = owned("Verification ");
            push_decimal(&mut line, i as u64 + 1);
            let ghost vs = hashes_view(verified@);
            let ghost ds = details@.map_values(|s: String| s@);
            if passed {
                line.append(" passed");
                details.push(line);
                verified.push(*h);
                proof {
                    assert(hashes_view(verified@) =~= vs + seq![h@]);
                    assert(details@.map_values(|s: String| s@) =~= ds + seq![step_detail((i + 1) as nat, true)]);
                    let rest = chain_from(fns, *execution_context, i + 1);
                    match rest {
                        Ok(v) => {
                            assert(vs + (seq![h@] + v.verified) =~= (vs + seq![h@]) + v.verified);
                            assert(ds + (seq![step_detail((i + 1) as nat, true)] + v.details) =~= (ds + seq![step_detail((i + 1) as nat, true)]) + v.details);
                        }
                        Err(_) => {}
                    }
                }
            } else {
                line.append(" failed");
                details.push(line);
                let r = VerificationResult { success: false, verified_functions: verified, details };
                assert(chain_view(r).verified =~= vs + Seq::<Seq<u8>>::empty());
                assert(chain_view(r).details =~= ds + seq![step_detail((i + 1) as nat, false)]);
                return Ok(r);
            }
            i += 1;
        }
        let r = VerificationResult { success: true, verified_functions: verified, details };
        assert(chain_view(r).verified =~= hashes_view(verified@) + Seq::<Seq<u8>>::empty());
        assert(chain_view(r).details =~= details@.map_values(|s: String| s@) + Seq::<Seq<char>>::empty());
        Ok(r)
    }

    /// Runs one verification function: see `verification_passes`.
    fn execute_verification(function_hash: &[u8; 32], context: &ExecutionContext) -> (r: bool)
        ensures
            r == verification_passes(function_hash@, *context),
    {
        let b = function_hash[0];
        if b < 0x40 {
            !context.caller.is_default()
        } else if b < 0x80 {
            context.session.is_some()
        } else if b < 0xC0 {
            context.input_data.len() <= 1024
        } else {
            true
        }
    }

    /// Refuses the zero hash with `ExecutionFailed`.
    pub fn validate_verification_function(function_hash: &[u8; 32]) -> (r: Result<(), ValenceError>)
        ensures
            function_hash@ == zero_bytes() ==> r == Err::<(), ValenceError>(ValenceError::ExecutionFailed),
            function_hash@ != zero_bytes() ==> r is Ok,
    {
        let mut i: usize = 0;
        while i < 32
            invariant
                i <= 32,
                forall|j: int| 0 <= j < i ==> function_hash@[j] == 0u8,
            decreases 32 - i,
        {
            if function_hash[i] != 0 {
                return Ok(());
            }
            i += 1;
        }
        assert(function_hash@ =~= zero_bytes());
        Err(ValenceError::ExecutionFailed)
    }

    /// Whether every result holds.
    pub fn aggregate_results(results: &Vec<bool>) -> (r: bool)
        ensures
            r == (forall|i: int| 0 <= i < results@.len() ==> results@[i]),
    {
        let mut i: usize = 0;
        while i < results.len()
            invariant
                i <= results.len(),
                forall|j: int| 0 <= j < i ==> results@[j],
            decreases results.len() - i,
        {
            if !results[i] {
                return false;
            }
            i += 1;
        }
        true
    }
}

} // verus!
