//! The callbacks that an application registers: one run when a client is
//! disconnected, one that authenticates a client, and one that receives responses.
use vstd::prelude::*;

verus! {

/// The registered callbacks. `D` is called with a client id, `A` with a client id
/// and an authentication code and answers whether it passed and the client's group,
/// `R` with a client id, a message id, whether the response reported success, and
/// its content.
pub struct Handlers<
    D: Fn(&str),
    A: Fn(&str, &str) -> (bool, String),
    R: Fn(&str, &str, bool, &str),
> {
    disconnect: Option<D>,
    auth: Option<A>,
    response: Option<R>,
}

impl<
    D: Fn(&str),
    A: Fn(&str, &str) -> (bool, String),
    R: Fn(&str, &str, bool, &str),
> Handlers<D, A, R> {
    #[verifier::type_invariant]
    closed spec fn callable(self) -> bool {
        &&& (self.disconnect matches Some(d) ==> forall|c: &str| call_requires(d, (c,)))
        &&& (self.auth matches Some(a) ==> forall|c: &str, k: &str| call_requires(a, (c, k)))
        &&& (self.response matches Some(h) ==> forall|c: &str, m: &str, s: bool, x: &str|
            call_requires(h, (c, m, s, x)))
    }

    /// The registered disconnect callback.
    pub closed spec fn disconnect_handler(self) -> Option<D> {
        self.disconnect
    }

    /// The registered authentication callback.
    pub closed spec fn auth_handler(self) -> Option<A> {
        self.auth
    }

    /// The registered response callback.
    pub closed spec fn response_handler(self) -> Option<R> {
        self.response
    }

    /// `reply` is an answer that authenticating `client_id` with a code whose text is
    /// `code` can give: `(false, "")` with no callback registered, else one that the
    /// callback may return.
    pub open spec fn auth_reply(self, client_id: &str, code: Seq<char>, reply: (bool, String)) -> bool {
        match self.auth_handler() {
            None => !reply.0 && reply.1@ == Seq::<char>::empty(),
            Some(a) => exists|k: &str| k@ == code && call_ensures(a, (client_id, k), reply),
        }
    }
}

impl<
    D: Fn(&str),
    A: Fn(&str, &str) -> (bool, String),
    R: Fn(&str, &str, bool, &str),
> Handlers<D, A, R> {
    /// Authenticating `client_id` with a code whose text is `code` can answer with a
    /// failure.
    pub open spec fn auth_can_refuse(self, client_id: &str, code: Seq<char>) -> bool {
        exists|g: String| self.auth_reply(client_id, code, (false, g))
    }

    /// The response callback, if registered, has run on `client_id`, a message id
    /// whose text is `msg_id`, `success`, and content whose text is `content`.
    pub open spec fn response_delivered(
        self,
        client_id: &str,
        msg_id: Seq<char>,
        success: bool,
        content: Seq<char>,
    ) -> bool {
        self.response_handler() matches Some(h) ==> exists|m: &str, x: &str|
            m@ == msg_id && x@ == content && call_ensures(h, (client_id, m, success, x), ())
    }
}

/// A registry with no callbacks.
pub fn new_handlers<
    D: Fn(&str),
    A: Fn(&str, &str) -> (bool, String),
    R: Fn(&str, &str, bool, &str),
>() -> (h: Handlers<D, A, R>)
    ensures
        h.disconnect_handler() is None,
        h.auth_handler() is None,
        h.response_handler() is None,
{
    Handlers { disconnect: None, auth: None, response: None }
}

/// Registers the callback run when a client is disconnected, replacing any earlier.
pub fn register_disconnect_handler<
    D: Fn(&str),
    A: Fn(&str, &str) -> (bool, String),
    R: Fn(&str, &str, bool, &str),
>(handlers: &mut Handlers<D, A, R>, f: D)
    requires
        forall|c: &str| call_requires(f, (c,)),
    ensures
        final(handlers).disconnect_handler() == Some(f),
        final(handlers).auth_handler() == old(handlers).auth_handler(),
        final(handlers).response_handler() == old(handlers).response_handler(),
{
    proof {
        use_type_invariant(&*handlers);
    }
    handlers.disconnect = Some(f);
}

/// Runs the disconnect callback, if one is registered, for `client_id`.
pub fn trigger_disconnect<
    D: Fn(&str),
    A: Fn(&str, &str) -> (bool, String),
    R: Fn(&str, &str, bool, &str),
>(handlers: &Handlers<D, A, R>, client_id: &str)
    ensures
        handlers.disconnect_handler() matches Some(d) ==> call_ensures(d, (client_id,), ()),
{
    proof {
        use_type_invariant(handlers);
    }
    if let Some(d) = &handlers.disconnect {
        d(client_id);
    }
}

/// Registers the authentication callback, replacing any earlier.
pub fn register_auth_handler<
    D: Fn(&str),
    A: Fn(&str, &str) -> (bool, String),
    R: Fn(&str, &str, bool, &str),
>(handlers: &mut Handlers<D, A, R>, f: A)
    requires
        forall|c: &str, k: &str| call_requires(f, (c, k)),
    ensures
        final(handlers).auth_handler() == Some(f),
        final(handlers).disconnect_handler() == old(handlers).disconnect_handler(),
        final(handlers).response_handler() == old(handlers).response_handler(),
{
    proof {
        use_type_invariant(&*handlers);
    }
    handlers.auth = Some(f);
}

/// Asks the authentication callback about `client_id` and `code`; without a
/// callback the answer is a failure with an empty group.
pub fn trigger_auth<
    D: Fn(&str),
    A: Fn(&str, &str) -> (bool, String),
    R: Fn(&str, &str, bool, &str),
>(handlers: &Handlers<D, A, R>, client_id: &str, code: &str) -> (r: (bool, String))
    ensures
        handlers.auth_handler() is None ==> !r.0 && r.1@ == Seq::<char>::empty(),
        handlers.auth_handler() matches Some(a) ==> call_ensures(a, (client_id, code), r),
        handlers.auth_reply(client_id, code@, r),
{
    proof {
        use_type_invariant(handlers);
    }
    match &handlers.auth {
        Some(a) => a(client_id, code),
        None => (false, String::new()),
    }
}

/// Registers the callback that receives responses, replacing any earlier.
pub fn register_response_callback_handler<
    D: Fn(&str),
    A: Fn(&str, &str) -> (bool, String),
    R: Fn(&str, &str, bool, &str),
>(handlers: &mut Handlers<D, A, R>, f: R)
    requires
        forall|c: &str, m: &str, s: bool, x: &str| call_requires(f, (c, m, s, x)),
    ensures
        final(handlers).response_handler() == Some(f),
        final(handlers).disconnect_handler() == old(handlers).disconnect_handler(),
        final(handlers).auth_handler() == old(handlers).auth_handler(),
{
    proof {
        use_type_invariant(&*handlers);
    }
    handlers.response = Some(f);
}

/// Hands a response to the response callback, if one is registered.
pub fn trigger_response_callback<
    D: Fn(&str),
    A: Fn(&str, &str) -> (bool, String),
    R: Fn(&str, &str, bool, &str),
>(handlers: &Handlers<D, A, R>, client_id: &str, msg_id: &str, success: bool, content: &str)
    ensures
        handlers.response_handler() matches Some(h) ==> call_ensures(
            h,
            (client_id, msg_id, success, content),
            (),
        ),
{
    proof {
        use_type_invariant(handlers);
    }
    if let Some(h) = &handlers.response {
        h(client_id, msg_id, success, content);
    }
}

} // verus!
