//! What sends requests.

use crate::signed::SignedRequest;
use std::rc::Rc;
use std::sync::Arc;
use std::time::Duration;
use vstd::prelude::*;

verus! {

/// Trait for implementing HTTP Request/Response
pub trait DispatchSignedRequest {
    /// What the bodies of streamed requests come from.
    type Stream;

    /// The future response value.
    type Future;

    /// Dispatch Request, and then return a Response
    fn dispatch(
        &self,
        request: SignedRequest<Self::Stream>,
        timeout: Option<Duration>,
    ) -> Self::Future;
}

impl<D: DispatchSignedRequest> DispatchSignedRequest for Rc<D> {
    type Stream = D::Stream;

    type Future = D::Future;

    fn dispatch(
        &self,
        request: SignedRequest<Self::Stream>,
        timeout: Option<Duration>,
    ) -> (future: Self::Future)
        ensures
            call_ensures(D::dispatch, (&**self, request, timeout), future),
    {
        D::dispatch(&**self, request, timeout)
    }
}

impl<D: DispatchSignedRequest> DispatchSignedRequest for Arc<D> {
    type Stream = D::Stream;

    type Future = D::Future;

    fn dispatch(
        &self,
        request: SignedRequest<Self::Stream>,
        timeout: Option<Duration>,
    ) -> (future: Self::Future)
        ensures
            call_ensures(D::dispatch, (&**self, request, timeout), future),
    {
        D::dispatch(&**self, request, timeout)
    }
}

} // verus!
