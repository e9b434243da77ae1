//! The credential middleware: an authenticator, the layer made from it, and
//! the service that the layer wraps around a transport.

use crate::error::{AttachError, AuthConfigError};
use crate::headers::{
    authorization_name, authorization_text, header_map_contents, parse_header_value,
    try_insert_header, valid_value,
};
use http::header::{HeaderMap, HeaderValue};
use std::sync::Arc;
use vstd::prelude::*;
use vstd::string::*;
use vstd::utf8::*;

verus! {

/// `String::from` on a string slice: the string holds the slice's text.
pub assume_specification<'a, 'b>[ <String as From<&'a str>>::from ](s: &'b str) -> (r: String)
    ensures
        r@ == s@,
;

/// How outbound requests are credentialed.
#[derive(Debug)]
pub enum Authenticator {
    /// Requests pass through untouched.
    NoAuth,
    /// Every request carries the token as a bearer credential.
    Token { token: String },
}

/// The text of the credential header for a token: `Bearer `, then the token.
pub open spec fn bearer(token: Seq<char>) -> Seq<char> {
    seq!['B', 'e', 'a', 'r', 'e', 'r', ' '] + token
}

/// A header table after a credential was attached: unchanged when there is
/// no credential, else with the credential as the one `authorization` value.
pub open spec fn attached(
    credential: Option<Seq<u8>>,
    headers: Map<Seq<char>, Seq<Seq<u8>>>,
) -> Map<Seq<char>, Seq<Seq<u8>>> {
    match credential {
        None => headers,
        Some(bytes) => headers.insert(authorization_text(), seq![bytes]),
    }
}

impl Authenticator {
    /// The token, if there is one.
    pub open spec fn token_spec(self) -> Option<Seq<char>> {
        match self {
            Authenticator::NoAuth => None,
            Authenticator::Token { token } => Some(token@),
        }
    }

    /// The bytes of the credential header that this authenticator asks
    /// for, if it asks for one.
    pub open spec fn credential(self) -> Option<Seq<u8>> {
        match self {
            Authenticator::NoAuth => None,
            Authenticator::Token { token } => Some(encode_utf8(bearer(token@))),
        }
    }

    /// Whether the credential, if there is one, can stand in a header.
    pub open spec fn valid(self) -> bool {
        match self.credential() {
            None => true,
            Some(bytes) => valid_value(bytes),
        }
    }

    /// The authenticator that attaches `token` as a bearer credential. The
    /// token is what `token` converts into; for a string slice, its text.
    pub fn from_static<S: Into<String>>(token: S) -> (r: Authenticator)
        ensures
            r matches Authenticator::Token { token: t } && call_ensures(
                <S as Into<String>>::into,
                (token,),
                t,
            ),
    {
        Authenticator::Token { token: token.into() }
    }

    /// The token, if there is one.
    pub fn token(&self) -> (r: Option<&str>)
        ensures
            match r {
                Some(t) => self.token_spec() == Some(t@),
                None => self.token_spec() is None,
            },
    {
        match self {
            Authenticator::NoAuth => None,
            Authenticator::Token { token } => Some(token.as_str()),
        }
    }

    /// The text of the credential header, if this authenticator asks for one.
    pub fn header_text(&self) -> (r: Option<String>)
        ensures
            match r {
                Some(text) => self.token_spec() is Some && text@ == bearer(
                    self.token_spec()->Some_0,
                ) && self.credential() == Some(encode_utf8(text@)),
                None => self.token_spec() is None,
            },
    {
        match self {
            Authenticator::NoAuth => None,
            Authenticator::Token { token } => {
                proof {
                    reveal_strlit("Bearer ");
                    assert("Bearer "@ =~= seq!['B', 'e', 'a', 'r', 'e', 'r', ' ']);
                }
                let text = String::from_str("Bearer ").concat(token.as_str());
                Some(text)
            },
        }
    }

    /// Checks that the credential can be sent: `InvalidCredential` exactly
    /// when the credential holds a byte that a header value may not carry.
    pub fn check(&self) -> (r: Result<(), AuthConfigError>)
        ensures
            r == if self.valid() {
                Ok::<(), AuthConfigError>(())
            } else {
                Err::<(), AuthConfigError>(AuthConfigError::InvalidCredential)
            },
    {
        match self.header_text() {
            None => Ok(()),
            Some(text) => match parse_header_value(text.as_str()) {
                Ok(_) => Ok(()),
                Err(_) => Err(AuthConfigError::InvalidCredential),
            },
        }
    }

    /// Attaches the credential, if there is one, to a request's headers,
    /// replacing whatever `authorization` held. With `NoAuth` the headers
    /// stay untouched. On any error the headers hold what they held.
    pub fn attach(&self, headers: &mut HeaderMap<HeaderValue>) -> (r: Result<(), AttachFailure>)
        ensures
            match r {
                Ok(()) => self.valid() && header_map_contents(*final(headers)) == attached(
                    self.credential(),
                    header_map_contents(*old(headers)),
                ),
                Err(e) => {
                    &&& self.credential() is Some
                    &&& header_map_contents(*final(headers)) == header_map_contents(*old(headers))
                    &&& e == AttachFailure::Credential(AuthConfigError::InvalidCredential)
                        <==> !self.valid()
                    &&& e == AttachFailure::Headers(AttachError::HeaderTableFull)
                        <==> self.valid()
                },
            },
    {
        match self.header_text() {
            None => Ok(()),
            Some(text) => match parse_header_value(text.as_str()) {
                Err(_) => Err(AttachFailure::Credential(AuthConfigError::InvalidCredential)),
                Ok(value) => match try_insert_header(headers, authorization_name(), value) {
                    Ok(_) => Ok(()),
                    Err(_) => Err(AttachFailure::Headers(AttachError::HeaderTableFull)),
                },
            },
        }
    }

    /// Makes the layer that wraps transports with this authenticator, or
    /// fails with `InvalidCredential` when the credential cannot be sent.
    pub fn into_layer(self) -> (r: Result<AuthenticatorLayer, AuthConfigError>)
        ensures
            match r {
                Ok(layer) => self.valid() && layer.authenticator() == self,
                Err(e) => !self.valid() && e == AuthConfigError::InvalidCredential,
            },
    {
        match self.check() {
            Ok(()) => Ok(AuthenticatorLayer { checked: Checked { authenticator: Arc::new(self) } }),
            Err(e) => Err(e),
        }
    }
}

/// What attaching does to a request's headers. `NoAuth` never attaches a
/// credential: the headers stay as they are. A token always leaves exactly
/// one `authorization` value, `Bearer ` followed by the token, and leaves
/// every other header as it was.
pub proof fn lemma_credential_header(
    authenticator: Authenticator,
    headers: Map<Seq<char>, Seq<Seq<u8>>>,
)
    ensures
        authenticator is NoAuth ==> attached(authenticator.credential(), headers) == headers,
        authenticator matches Authenticator::Token { token } ==> {
            let after = attached(authenticator.credential(), headers);
            &&& after.contains_key(authorization_text())
            &&& after[authorization_text()] == seq![encode_utf8(bearer(token@))]
            &&& forall|name: Seq<char>|
                name != authorization_text() ==> (after.contains_key(name)
                    <==> headers.contains_key(name)) && after[name] == headers[name]
        },
{
}

/// Two services that share an authenticator prepare requests alike: what
/// one attaches to a request, the other attaches too.
pub proof fn lemma_duplicates_attach_alike<S>(
    first: AuthenticatorService<S>,
    second: AuthenticatorService<S>,
    headers: Map<Seq<char>, Seq<Seq<u8>>>,
)
    requires
        second.authenticator() == first.authenticator(),
    ensures
        attached(second.authenticator().credential(), headers) == attached(
            first.authenticator().credential(),
            headers,
        ),
{
}

/// A token made of printable ASCII characters gives a credential that can
/// be sent.
pub proof fn lemma_printable_token_valid(token: Seq<char>)
    requires
        forall|i: int| 0 <= i < token.len() ==> ' ' <= #[trigger] token[i] <= '~',
    ensures
        valid_value(encode_utf8(bearer(token))),
{
    let text = bearer(token);
    assert forall|i: int| 0 <= i < text.len() implies ' ' <= #[trigger] text[i] <= '~' by {
        if i >= 7 {
            assert(text[i] == token[i - 7]);
        }
    }
    assert(is_ascii_chars(text));
    is_ascii_chars_encode_utf8(text);
    let bytes = encode_utf8(text);
    assert forall|i: int| 0 <= i < bytes.len() implies crate::headers::value_byte_ok(
        #[trigger] bytes[i],
    ) by {
        assert(text[i] as u8 == bytes[i]);
        assert(' ' <= text[i] <= '~');
    }
}

impl Clone for Authenticator {
    /// An authenticator equal to this one.
    fn clone(&self) -> (r: Authenticator)
        ensures
            r == *self,
    {
        match self {
            Authenticator::NoAuth => Authenticator::NoAuth,
            Authenticator::Token { token } => Authenticator::Token { token: token.clone() },
        }
    }
}

impl Default for Authenticator {
    /// No authentication.
    fn default() -> (r: Authenticator)
        ensures
            r == Authenticator::NoAuth,
    {
        Authenticator::NoAuth
    }
}

/// Why `Authenticator::attach` attached nothing.
#[derive(Clone, Copy, Debug, PartialEq, Eq, Structural)]
pub enum AttachFailure {
    /// The credential cannot stand in a header.
    Credential(AuthConfigError),
    /// The request's headers took no further header.
    Headers(AttachError),
}

/// `Arc::clone`: another pointer to the same shared value.
#[verifier::external_body]
fn share(authenticator: &Arc<Authenticator>) -> (r: Arc<Authenticator>)
    ensures
        *r == **authenticator,
{
    Arc::clone(authenticator)
}

/// An authenticator that was checked: its credential, if it has one, can
/// be sent. Layers and services share one by reference count.
#[derive(Debug)]
struct Checked {
    authenticator: Arc<Authenticator>,
}

impl Checked {
    #[verifier::type_invariant]
    spec fn sendable(self) -> bool {
        self.authenticator.valid()
    }

    /// The authenticator that was checked.
    closed spec fn get(self) -> Authenticator {
        *self.authenticator
    }

    /// Another reference to the same authenticator.
    fn share(&self) -> (r: Checked)
        ensures
            r.get() == self.get(),
            self.get().valid(),
    {
        proof {
            use_type_invariant(self);
        }
        Checked { authenticator: share(&self.authenticator) }
    }

    /// Attaches the credential; being checked, it cannot be refused as
    /// invalid, so the one failure left is a full header table.
    fn attach(&self, headers: &mut HeaderMap<HeaderValue>) -> (r: Result<(), AttachError>)
        ensures
            self.get().valid(),
            match r {
                Ok(()) => header_map_contents(*final(headers)) == attached(
                    self.get().credential(),
                    header_map_contents(*old(headers)),
                ),
                Err(e) => {
                    &&& e == AttachError::HeaderTableFull
                    &&& self.get().credential() is Some
                    &&& header_map_contents(*final(headers)) == header_map_contents(*old(headers))
                },
            },
    {
        proof {
            use_type_invariant(self);
        }
        match self.authenticator.attach(headers) {
            Ok(()) => Ok(()),
            Err(_) => Err(AttachError::HeaderTableFull),
        }
    }
}

/// Wraps transports in the credential middleware. A layer exists only for
/// an authenticator whose credential can be sent.
#[derive(Debug)]
pub struct AuthenticatorLayer {
    checked: Checked,
}

impl AuthenticatorLayer {
    /// The authenticator that every service of this layer shares.
    pub closed spec fn authenticator(self) -> Authenticator {
        self.checked.get()
    }

    /// Wraps `inner`: the service shares this layer's authenticator and
    /// owns `inner`.
    pub fn layer<S>(&self, inner: S) -> (service: AuthenticatorService<S>)
        ensures
            service.authenticator() == self.authenticator(),
            service.inner_spec() == inner,
            self.authenticator().valid(),
    {
        AuthenticatorService { inner, checked: self.checked.share() }
    }
}

impl Clone for AuthenticatorLayer {
    /// A layer that shares this layer's authenticator.
    fn clone(&self) -> (r: AuthenticatorLayer)
        ensures
            r.authenticator() == self.authenticator(),
    {
        AuthenticatorLayer { checked: self.checked.share() }
    }
}

/// Whether a transport can take a request now.
#[derive(Debug, PartialEq, Eq)]
pub enum Readiness<E> {
    /// Not yet; ask again when woken.
    Pending,
    /// Ready for one request.
    Ready,
    /// The transport has failed.
    Failed(E),
}

/// A transport wrapped in the credential middleware.
#[derive(Debug)]
pub struct AuthenticatorService<S> {
    inner: S,
    checked: Checked,
}

impl<S> AuthenticatorService<S> {
    /// The authenticator that this service shares with its layer.
    pub closed spec fn authenticator(self) -> Authenticator {
        self.checked.get()
    }

    /// The wrapped transport.
    pub closed spec fn inner_spec(self) -> S {
        self.inner
    }

    /// The wrapped transport.
    pub fn inner(&self) -> (r: &S)
        ensures
            *r == self.inner_spec(),
    {
        &self.inner
    }

    /// The wrapped transport, to drive it: to ask for its readiness and to
    /// dispatch a prepared request. The authenticator is out of reach.
    pub fn inner_mut(&mut self) -> (r: &mut S)
        ensures
            *r == old(self).inner_spec(),
            final(self).inner_spec() == *final(r),
            final(self).authenticator() == old(self).authenticator(),
    {
        &mut self.inner
    }

    /// The readiness of the middleware is the readiness of the wrapped
    /// transport, handed on as it is: ready only when the transport is, and
    /// with the transport's own error when it has failed.
    pub fn poll_ready<E>(&self, inner: Readiness<E>) -> (r: Readiness<E>)
        ensures
            r == inner,
            r is Ready <==> inner is Ready,
    {
        inner
    }

    /// Prepares a request for dispatch: attaches the credential, if the
    /// authenticator has one, to the request's headers. With `NoAuth` this
    /// always succeeds and changes nothing. The one error is a header table
    /// that takes no further header, and then the headers are untouched.
    pub fn call(&self, headers: &mut HeaderMap<HeaderValue>) -> (r: Result<(), AttachError>)
        ensures
            self.authenticator().valid(),
            match r {
                Ok(()) => header_map_contents(*final(headers)) == attached(
                    self.authenticator().credential(),
                    header_map_contents(*old(headers)),
                ),
                Err(e) => {
                    &&& e == AttachError::HeaderTableFull
                    &&& self.authenticator().credential() is Some
                    &&& header_map_contents(*final(headers)) == header_map_contents(*old(headers))
                },
            },
    {
        self.checked.attach(headers)
    }
}

impl<S: Clone> Clone for AuthenticatorService<S> {
    /// A duplicate with a transport handle of its own, cloned from this
    /// service's, and the same shared authenticator.
    fn clone(&self) -> (r: AuthenticatorService<S>)
        ensures
            r.authenticator() == self.authenticator(),
            cloned(self.inner_spec(), r.inner_spec()),
    {
        AuthenticatorService { inner: self.inner.clone(), checked: self.checked.share() }
    }
}

} // verus!
