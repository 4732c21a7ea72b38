//! Capturing the tokens that a describe export reports through the describe
//! callback, one run at a time.
use vstd::prelude::*;
use crate::sandbox::{HostFunc, HostValue};

verus! {

/// Why a run inside the sandbox cannot be trusted.
#[derive(Clone, Copy, Debug, PartialEq, Eq)]
pub enum HostCallError {
    /// A host function other than the describe callback was called.
    NotDescribe,
    /// The describe callback was called with this many arguments, not one.
    WrongArity(usize),
    /// The describe callback's argument was not a 32-bit integer.
    WrongArgType,
    /// The describe export returned a value.
    ReturnedValue,
}

/// What one host call means: the token it reports, or why it is refused. The
/// token is the argument's 32 bits read as unsigned.
pub open spec fn call_outcome(func: HostFunc, args: Seq<HostValue>) -> Result<u32, HostCallError> {
    if func != HostFunc::Describe {
        Err(HostCallError::NotDescribe)
    } else if args.len() != 1 {
        Err(HostCallError::WrongArity(args.len() as usize))
    } else {
        match args[0] {
            HostValue::I32(v) => Ok(v as u32),
            _ => Err(HostCallError::WrongArgType),
        }
    }
}

/// One host call made by an export: the function called and its arguments.
pub struct HostCall {
    pub func: HostFunc,
    pub args: Vec<HostValue>,
}

/// The tokens a fresh run collects over `calls`, the first `n` of them, or
/// the first refused call.
pub open spec fn tokens_upto(calls: Seq<HostCall>, n: int) -> Result<Seq<u32>, HostCallError>
    decreases n,
{
    if n <= 0 {
        Ok(seq![])
    } else {
        match tokens_upto(calls, n - 1) {
            Err(e) => Err(e),
            Ok(ts) => match call_outcome(calls[n - 1].func, calls[n - 1].args@) {
                Ok(t) => Ok(ts.push(t)),
                Err(e) => Err(e),
            },
        }
    }
}

/// What a run yields whose export made `calls` and then returned `returned`.
pub open spec fn run_outcome(calls: Seq<HostCall>, returned: Option<HostValue>) -> Result<
    Seq<u32>,
    HostCallError,
> {
    match tokens_upto(calls, calls.len() as int) {
        Err(e) => Err(e),
        Ok(ts) => if returned is Some {
            Err(HostCallError::ReturnedValue)
        } else {
            Ok(ts)
        },
    }
}

/// The accumulator of one run of one describe export.
pub struct DescriptorRun {
    tokens: Vec<u32>,
}

impl View for DescriptorRun {
    type V = Seq<u32>;

    /// The tokens reported so far, in call order.
    closed spec fn view(&self) -> Seq<u32> {
        self.tokens@
    }
}

impl DescriptorRun {
    /// A fresh run, with no tokens yet.
    pub fn new() -> (r: DescriptorRun)
        ensures
            r@ == Seq::<u32>::empty(),
    {
        DescriptorRun { tokens: Vec::new() }
    }

    /// Handles one call from the sandbox to host function `func`. A call of
    /// the describe callback with one `i32` argument appends that argument,
    /// read as unsigned; every other call is refused and changes nothing.
    pub fn invoke(&mut self, func: HostFunc, args: &Vec<HostValue>) -> (r: Result<(), HostCallError>)
        ensures
            match call_outcome(func, args@) {
                Ok(t) => r is Ok && final(self)@ == old(self)@.push(t),
                Err(e) => r == Err::<(), HostCallError>(e) && final(self)@ == old(self)@,
            },
    {
        if let HostFunc::Unreachable = func {
            return Err(HostCallError::NotDescribe);
        }
        if args.len() != 1 {
            return Err(HostCallError::WrongArity(args.len()));
        }
        match args[0] {
            HostValue::I32(v) => {
                self.tokens.push(#[verifier::truncate] (v as u32));
                Ok(())
            },
            _ => Err(HostCallError::WrongArgType),
        }
    }

    /// Ends the run once the export has returned `returned`: the tokens in
    /// call order when it returned nothing, else an error.
    pub fn finish(self, returned: Option<HostValue>) -> (r: Result<Vec<u32>, HostCallError>)
        ensures
            returned is None ==> r is Ok && r->Ok_0@ == self@,
            returned is Some ==> r == Err::<Vec<u32>, HostCallError>(HostCallError::ReturnedValue),
    {
        match returned {
            None => Ok(self.tokens),
            Some(_) => Err(HostCallError::ReturnedValue),
        }
    }
}

/// Runs a fresh `DescriptorRun` over the host calls an export made, in
/// order, and ends it with what the export returned. The first refused call
/// stops the run, and no tokens are handed out then.
pub fn replay(calls: &Vec<HostCall>, returned: Option<HostValue>) -> (r: Result<Vec<u32>, HostCallError>)
    ensures
        match run_outcome(calls@, returned) {
            Ok(ts) => r is Ok && r->Ok_0@ == ts,
            Err(e) => r == Err::<Vec<u32>, HostCallError>(e),
        },
{
    let mut run = DescriptorRun::new();
    let mut i: usize = 0;
    while i < calls.len()
        invariant
            i <= calls@.len(),
            tokens_upto(calls@, i as int) == Ok::<Seq<u32>, HostCallError>(run@),
        decreases calls@.len() - i,
    {
        let res = run.invoke(calls[i].func, &calls[i].args);
        if let Err(e) = res {
            proof {
                lemma_refusal_persists(calls@, i + 1, calls@.len() as int);
            }
            return Err(e);
        }
        i = i + 1;
    }
    run.finish(returned)
}

/// Once a call of a run is refused, the run stays refused.
proof fn lemma_refusal_persists(calls: Seq<HostCall>, m: int, n: int)
    requires
        0 <= m <= n,
        tokens_upto(calls, m) is Err,
    ensures
        tokens_upto(calls, n) == tokens_upto(calls, m),
    decreases n - m,
{
    if n > m {
        lemma_refusal_persists(calls, m, n - 1);
    }
}

/// A run in which the export calls a host function other than the describe
/// callback fails, and hands out no tokens.
pub proof fn lemma_stray_call_fails(calls: Seq<HostCall>, returned: Option<HostValue>, i: int)
    requires
        0 <= i < calls.len(),
        calls[i].func == HostFunc::Unreachable,
    ensures
        run_outcome(calls, returned) is Err,
{
    lemma_stray_prefix_fails(calls, i, calls.len() as int);
}

proof fn lemma_stray_prefix_fails(calls: Seq<HostCall>, i: int, n: int)
    requires
        0 <= i < n <= calls.len(),
        calls[i].func == HostFunc::Unreachable,
    ensures
        tokens_upto(calls, n) is Err,
    decreases n,
{
    if n - 1 > i {
        lemma_stray_prefix_fails(calls, i, n - 1);
    }
}

/// A run whose host calls are all accepted yields exactly the tokens those
/// calls report, in call order, and no others.
pub proof fn lemma_accepted_calls_tokens(calls: Seq<HostCall>)
    requires
        forall|i: int| 0 <= i < calls.len() ==> call_outcome(#[trigger] calls[i].func, calls[i].args@) is Ok,
    ensures
        tokens_upto(calls, calls.len() as int) == Ok::<Seq<u32>, HostCallError>(
            Seq::new(calls.len(), |i: int| call_outcome(calls[i].func, calls[i].args@)->Ok_0),
        ),
{
    lemma_tokens_of_accepted(calls, calls.len() as int);
}

proof fn lemma_tokens_of_accepted(calls: Seq<HostCall>, n: int)
    requires
        0 <= n <= calls.len(),
        forall|i: int| 0 <= i < calls.len() ==> call_outcome(#[trigger] calls[i].func, calls[i].args@) is Ok,
    ensures
        tokens_upto(calls, n) == Ok::<Seq<u32>, HostCallError>(
            Seq::new(n as nat, |i: int| call_outcome(calls[i].func, calls[i].args@)->Ok_0),
        ),
    decreases n,
{
    if n > 0 {
        lemma_tokens_of_accepted(calls, n - 1);
        assert(call_outcome(calls[n - 1].func, calls[n - 1].args@) is Ok);
        assert(Seq::new((n - 1) as nat, |i: int| call_outcome(calls[i].func, calls[i].args@)->Ok_0).push(
            call_outcome(calls[n - 1].func, calls[n - 1].args@)->Ok_0,
        ) =~= Seq::new(n as nat, |i: int| call_outcome(calls[i].func, calls[i].args@)->Ok_0));
    } else {
        assert(Seq::new(0, |i: int| call_outcome(calls[i].func, calls[i].args@)->Ok_0) =~= Seq::<
            u32,
        >::empty());
    }
}

} // verus!
