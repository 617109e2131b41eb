//! Callbacks registered for an event.
use vstd::prelude::*;

use std::marker::PhantomData;

verus! {

/// The callbacks registered for an event, in the order of registration.
#[verifier::reject_recursive_types(Args)]
#[verifier::reject_recursive_types(R)]
pub struct EventHandlers<F: Fn(&Args) -> R, Args, R> {
    _args: PhantomData<Args>,
    _r: PhantomData<R>,
    callbacks: Vec<F>,
}

impl<F, Args, R: Sized> EventHandlers<F, Args, R> where F: Fn(&Args) -> R {
    /// The callbacks registered, in order.
    pub closed spec fn callbacks(&self) -> Seq<F> {
        self.callbacks@
    }

    /// Handlers with no callback.
    pub fn new() -> (res: Self)
        ensures
            res.callbacks() == Seq::<F>::empty(),
    {
        EventHandlers { _args: PhantomData, _r: PhantomData, callbacks: Vec::new() }
    }

    /// Calls every callback with the arguments, in the order of registration, and gives
    /// their results in that order.
    pub fn invoke_callback(&self, args: Args) -> (res: Vec<R>)
        requires
            forall|i: int| 0 <= i < self.callbacks().len() ==> call_requires(
                #[trigger] self.callbacks()[i],
                (&args,),
            ),
        ensures
            invoked(self.callbacks(), &args, res@),
    {
        let mut results: Vec<R> = Vec::new();
        let n = self.callbacks.len();
        let mut i: usize = 0;
        while i < n
            invariant
                n == self.callbacks@.len(),
                i <= n,
                results@.len() == i,
                forall|j: int| 0 <= j < n ==> call_requires(#[trigger] self.callbacks()[j], (&args,)),
                forall|j: int| 0 <= j < i ==> call_ensures(#[trigger] self.callbacks()[j], (&args,), results@[j]),
            decreases n - i,
        {
            assert(call_requires(self.callbacks()[i as int], (&args,)));
            let r = (self.callbacks[i])(&args);
            results.push(r);
            i = i + 1;
        }
        results
    }

    /// Registers a callback after those already registered.
    pub fn register_callback(&mut self, callback: F)
        ensures
            final(self).callbacks() == old(self).callbacks().push(callback),
    {
        self.callbacks.push(callback);
    }
}

/// Whether `results` are what calling each of `callbacks` with `args`, in order, may give.
pub open spec fn invoked<F: Fn(&Args) -> R, Args, R>(callbacks: Seq<F>, args: &Args, results: Seq<R>) -> bool {
    &&& results.len() == callbacks.len()
    &&& forall|i: int| 0 <= i < results.len() ==> call_ensures(
        #[trigger] callbacks[i],
        (args,),
        results[i],
    )
}

/// A callback registered after others is called last: the results of calling the callbacks
/// registered before it and then it are what the earlier callbacks give, in order, then what
/// it gives.
pub proof fn lemma_register_then_invoke<F: Fn(&Args) -> R, Args, R>(
    before: Seq<F>,
    callback: F,
    args: &Args,
    results: Seq<R>,
)
    requires
        invoked(before.push(callback), args, results),
    ensures
        results.len() == before.len() + 1,
        invoked(before, args, results.drop_last()),
        call_ensures(callback, (args,), results.last()),
{
    let n = before.len() as int;
    assert(before.push(callback)[n] == callback);
    assert forall|i: int| 0 <= i < results.drop_last().len() implies call_ensures(
        #[trigger] before[i],
        (args,),
        results.drop_last()[i],
    ) by {
        assert(before.push(callback)[i] == before[i]);
    }
}

} // verus!
