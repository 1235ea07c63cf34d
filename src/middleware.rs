//! The admission middleware: a layer that wraps a service with a scheme, the
//! per-request decision, and the deferred result handed back to the caller.

use vstd::prelude::*;
use vstd::string::StringSliceAdditionalSpecFns;
use crate::auth::{basic_value, bearer_value, header_bytes_ok, AuthorizeRequest, Basic, Bearer};
use crate::message::{Request, Response};

verus! {

/// Wraps services in [`RequireAuthorization`] with a copy of its scheme.
#[derive(Debug, Clone)]
pub struct RequireAuthorizationLayer<T> {
    auth: T,
}

impl<T> RequireAuthorizationLayer<T> {
    /// The scheme that every wrapped service gets a copy of.
    pub closed spec fn scheme(&self) -> T {
        self.auth
    }
}

impl RequireAuthorizationLayer<Bearer> {
    /// A layer that admits requests whose `authorization` header is `Bearer {token}`.
    pub fn bearer(token: &str) -> (r: RequireAuthorizationLayer<Bearer>)
        requires
            header_bytes_ok(bearer_value(token.spec_bytes())),
        ensures
            r.scheme()@ == bearer_value(token.spec_bytes()),
    {
        RequireAuthorizationLayer::custom(Bearer::new(token))
    }
}

impl RequireAuthorizationLayer<Basic> {
    /// A layer that admits requests whose `authorization` header is `Basic`
    /// followed by the base64 encoding of `username:password`.
    pub fn basic(username: &str, password: &str) -> (r: RequireAuthorizationLayer<Basic>)
        ensures
            r.scheme()@ == basic_value(username.spec_bytes(), password.spec_bytes()),
    {
        RequireAuthorizationLayer::custom(Basic::new(username, password))
    }
}

impl<T: AuthorizeRequest> RequireAuthorizationLayer<T> {
    /// A layer with a scheme of the caller's own.
    pub fn custom(auth: T) -> (r: RequireAuthorizationLayer<T>)
        ensures
            r.scheme() == auth,
    {
        RequireAuthorizationLayer { auth }
    }
}

impl<T: Clone> RequireAuthorizationLayer<T> {
    /// Wraps `inner`, giving the new service its own copy of the scheme.
    pub fn layer<S>(&self, inner: S) -> (r: RequireAuthorization<S, T>)
        ensures
            r.service() == inner,
            cloned(self.scheme(), r.scheme()),
    {
        RequireAuthorization::new(inner, self.auth.clone())
    }
}

/// A service that admits a request to `inner` only when its scheme accepts it.
#[derive(Debug, Clone)]
pub struct RequireAuthorization<S, T> {
    inner: S,
    auth: T,
}

/// What the middleware does with one request.
pub enum Admission<B> {
    /// Hand this request to the inner service and adopt its result as it is.
    Forward(Request<B>),
    /// Answer at once with this response; the inner service is not called.
    Reject(Response),
}

impl<S, T> RequireAuthorization<S, T> {
    /// The wrapped service.
    pub closed spec fn service(&self) -> S {
        self.inner
    }

    /// The scheme that decides admission.
    pub closed spec fn scheme(&self) -> T {
        self.auth
    }

    /// Wraps `inner` with `auth`.
    pub fn new(inner: S, auth: T) -> (r: RequireAuthorization<S, T>)
        ensures
            r.service() == inner,
            r.scheme() == auth,
    {
        RequireAuthorization { inner, auth }
    }

    /// The wrapped service.
    pub fn get_ref(&self) -> (r: &S)
        ensures
            *r == self.service(),
    {
        &self.inner
    }

    /// The wrapped service, to be driven by the caller (its readiness is this
    /// service's readiness).
    pub fn get_mut(&mut self) -> (r: &mut S)
        ensures
            *r == old(self).service(),
            final(self).service() == *final(r),
            final(self).scheme() == old(self).scheme(),
    {
        &mut self.inner
    }

    /// Gives up the wrapper and returns the wrapped service.
    pub fn into_inner(self) -> (r: S)
        ensures
            r == self.service(),
    {
        self.inner
    }
}

impl<S> RequireAuthorization<S, Bearer> {
    /// Wraps `inner` so that it admits requests whose `authorization` header is `Bearer {token}`.
    pub fn bearer(inner: S, token: &str) -> (r: RequireAuthorization<S, Bearer>)
        requires
            header_bytes_ok(bearer_value(token.spec_bytes())),
        ensures
            r.service() == inner,
            r.scheme()@ == bearer_value(token.spec_bytes()),
    {
        RequireAuthorization::custom(inner, Bearer::new(token))
    }
}

impl<S> RequireAuthorization<S, Basic> {
    /// Wraps `inner` so that it admits requests whose `authorization` header is
    /// `Basic` followed by the base64 encoding of `username:password`.
    pub fn basic(inner: S, username: &str, password: &str) -> (r: RequireAuthorization<S, Basic>)
        ensures
            r.service() == inner,
            r.scheme()@ == basic_value(username.spec_bytes(), password.spec_bytes()),
    {
        RequireAuthorization::custom(inner, Basic::new(username, password))
    }
}

impl<S, T: AuthorizeRequest> RequireAuthorization<S, T> {
    /// Wraps `inner` with a scheme of the caller's own.
    pub fn custom(inner: S, auth: T) -> (r: RequireAuthorization<S, T>)
        ensures
            r.service() == inner,
            r.scheme() == auth,
    {
        RequireAuthorization { inner, auth }
    }

    /// Decides one request. An admitted request is forwarded with the
    /// decision's output attached and its body untouched; a rejected one is
    /// answered by the scheme's rejection. The wrapped service is never touched.
    pub fn call<B>(&mut self, request: Request<B>) -> (r: Admission<B>)
        ensures
            final(self).service() == old(self).service(),
            final(self).scheme() == old(self).scheme(),
            old(self).scheme().accepts(request.headers@) <==> r is Forward,
            r matches Admission::Forward(f) ==> {
                &&& f.body == request.body
                &&& exists|o: T::Output|
                    f.headers@ == #[trigger] old(self).scheme().annotated(request.headers@, o)
            },
            r matches Admission::Reject(res) ==> old(self).scheme().is_rejection(
                request.headers@,
                res,
            ),
    {
        let mut request = request;
        match self.auth.authorize(&request) {
            Some(output) => {
                let ghost o = output;
                let ghost before = request.headers@;
                self.auth.on_authorized(&mut request, output);
                assert(request.headers@ == old(self).scheme().annotated(before, o));
                Admission::Forward(request)
            },
            None => {
                let res = self.auth.unauthorized_response(&request);
                Admission::Reject(res)
            },
        }
    }
}

/// The two states of a deferred result.
pub enum Kind<F> {
    /// The inner service's result, still in flight.
    Future(F),
    /// A rejection, until it is taken.
    Error(Option<Response>),
}

/// The deferred result of one call through the middleware.
pub struct ResponseFuture<F> {
    pub kind: Kind<F>,
}

/// What one poll of a deferred result asks of its driver.
pub enum Step {
    /// Poll the inner service's result and return what it gives, unchanged.
    Delegate,
    /// The call is complete with this response.
    Ready(Response),
}

impl<F> ResponseFuture<F> {
    /// Whether the rejection this result held has already been handed out.
    pub open spec fn is_spent(&self) -> bool {
        self.kind matches Kind::Error(None)
    }

    /// The result that follows the inner service's result.
    pub fn forward(future: F) -> (r: ResponseFuture<F>)
        ensures
            r.kind == Kind::Future(future),
    {
        ResponseFuture { kind: Kind::Future(future) }
    }

    /// The result that completes at once with `response`.
    pub fn reject(response: Response) -> (r: ResponseFuture<F>)
        ensures
            r.kind == Kind::<F>::Error(Some(response)),
    {
        ResponseFuture { kind: Kind::Error(Some(response)) }
    }

    /// One poll. A forwarding result delegates and stays as it is; a rejection
    /// is handed out once and the result is then spent.
    pub fn poll(&mut self) -> (r: Step)
        requires
            !old(self).is_spent(),
        ensures
            old(self).kind matches Kind::Future(_) ==> r is Delegate && *final(self) == *old(self),
            old(self).kind matches Kind::Error(Some(res)) ==> r == Step::Ready(res)
                && final(self).is_spent(),
    {
        match &mut self.kind {
            Kind::Future(_) => Step::Delegate,
            Kind::Error(slot) => {
                let res = slot.take();
                match res {
                    Some(res) => Step::Ready(res),
                    None => {
                        proof {
                            assert(false);
                        }
                        Step::Delegate
                    },
                }
            },
        }
    }
}

} // verus!
