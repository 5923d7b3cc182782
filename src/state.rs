use std::sync::Arc;
use vstd::prelude::*;

verus! {

/// A request paired with the shared state handle of the pipeline.
#[derive(Debug, Clone)]
pub struct RequestState<T, S> {
    pub request: T,
    pub state: Arc<S>,
}

impl<T, S> RequestState<T, S> {
    pub fn new(request: T, state: Arc<S>) -> (r: Self)
        ensures
            r.request == request,
            r.state == state,
    {
        RequestState { request, state }
    }
}

/// A layer that hands one shared state handle to every request.
#[derive(Clone)]
pub struct StateLayer<S> {
    state: Arc<S>,
}

impl<S> StateLayer<S> {
    /// The handle that every service built by this layer forwards.
    pub closed spec fn handle(&self) -> Arc<S> {
        self.state
    }

    pub fn new(state: Arc<S>) -> (r: Self)
        ensures
            r.handle() == state,
    {
        StateLayer { state }
    }

    /// Wraps `inner`, sharing this layer's handle with the new service.
    pub fn layer<Inner>(&self, inner: Inner) -> (r: StateService<Inner, S>)
        ensures
            r.inner() == inner,
            r.handle() == self.handle(),
    {
        StateService { inner, state: Arc::clone(&self.state) }
    }
}

/// The service built by [`StateLayer`]: it forwards each request to `inner`
/// inside a [`RequestState`].
#[derive(Clone)]
pub struct StateService<Inner, S> {
    inner: Inner,
    state: Arc<S>,
}

impl<Inner, S> StateService<Inner, S> {
    pub closed spec fn inner(&self) -> Inner {
        self.inner
    }

    pub closed spec fn handle(&self) -> Arc<S> {
        self.state
    }

    /// The service that requests are forwarded to.
    pub fn inner_mut(&mut self) -> (r: &mut Inner)
        ensures
            *r == old(self).inner(),
            final(self).inner() == *final(r),
            final(self).handle() == old(self).handle(),
    {
        &mut self.inner
    }

    /// The envelope that `inner` receives for the request `req`.
    pub fn wrap<T>(&self, req: T) -> (r: RequestState<T, S>)
        ensures
            r.request == req,
            r.state == self.handle(),
    {
        RequestState::new(req, Arc::clone(&self.state))
    }
}

/// Two requests that pass through one state service carry the same handle,
/// and it is the handle of the layer that built the service.
pub proof fn lemma_state_identity<Inner, S, T>(
    layer: StateLayer<S>,
    inner: Inner,
    svc: StateService<Inner, S>,
    x: T,
    y: T,
    a: RequestState<T, S>,
    b: RequestState<T, S>,
)
    requires
        StateLayer::<S>::layer::<Inner>.ensures((&layer, inner), svc),
        StateService::<Inner, S>::wrap::<T>.ensures((&svc, x), a),
        StateService::<Inner, S>::wrap::<T>.ensures((&svc, y), b),
    ensures
        a.state == b.state,
        a.state == layer.handle(),
        a.request == x,
        b.request == y,
{
}

} // verus!
