//! The decisions of one ACME (HTTP-01) certificate issuance: which
//! authorizations are answered, which challenge answers are published for
//! the proxy to serve, and when they are withdrawn again.
use vstd::prelude::*;

use crate::proxy::{acme_challenge_prefix, answers_challenge, challenge_token, ChallengeStore, ProxyRequest};
use crate::text::{concat2, is_prefix, push_str, views};

verus! {

/// Status of an ACME authorization.
#[derive(Debug, Clone, Copy, PartialEq, Eq, Structural)]
pub enum AuthzStatus {
    Pending,
    Valid,
    Invalid,
    Revoked,
    Expired,
    Deactivated,
}

/// Status of an ACME order.
#[derive(Debug, Clone, Copy, PartialEq, Eq, Structural)]
pub enum OrderState {
    Pending,
    Ready,
    Processing,
    Valid,
    Invalid,
}

/// The name an authorization status is reported with.
pub open spec fn authz_status_name(s: AuthzStatus) -> Seq<char> {
    match s {
        AuthzStatus::Pending => "Pending"@,
        AuthzStatus::Valid => "Valid"@,
        AuthzStatus::Invalid => "Invalid"@,
        AuthzStatus::Revoked => "Revoked"@,
        AuthzStatus::Expired => "Expired"@,
        AuthzStatus::Deactivated => "Deactivated"@,
    }
}

/// The name an order status is reported with.
pub open spec fn order_state_name(s: OrderState) -> Seq<char> {
    match s {
        OrderState::Pending => "Pending"@,
        OrderState::Ready => "Ready"@,
        OrderState::Processing => "Processing"@,
        OrderState::Valid => "Valid"@,
        OrderState::Invalid => "Invalid"@,
    }
}

fn authz_status_text(s: AuthzStatus) -> (r: &'static str)
    ensures
        r@ == authz_status_name(s),
{
    match s {
        AuthzStatus::Pending => "Pending",
        AuthzStatus::Valid => "Valid",
        AuthzStatus::Invalid => "Invalid",
        AuthzStatus::Revoked => "Revoked",
        AuthzStatus::Expired => "Expired",
        AuthzStatus::Deactivated => "Deactivated",
    }
}

fn order_state_text(s: OrderState) -> (r: &'static str)
    ensures
        r@ == order_state_name(s),
{
    match s {
        OrderState::Pending => "Pending",
        OrderState::Ready => "Ready",
        OrderState::Processing => "Processing",
        OrderState::Valid => "Valid",
        OrderState::Invalid => "Invalid",
    }
}

/// What to do with one authorization of an order.
#[derive(Debug, Clone, Copy, PartialEq, Eq, Structural)]
pub enum AuthzAction {
    /// Already valid: nothing to do.
    Skip,
    /// Its HTTP-01 answer is published: tell the server it is ready.
    SetReady,
}

/// One issuance for one domain, with the challenge tokens it published.
pub struct Issuance {
    domain: String,
    placed: Vec<String>,
}

impl Issuance {
    /// The domain being issued for.
    pub closed spec fn target(&self) -> Seq<char> {
        self.domain@
    }

    /// The domain being issued for.
    pub fn domain(&self) -> (r: &str)
        ensures
            r@ == self.target(),
    {
        self.domain.as_str()
    }

    /// The tokens this issuance published, in order.
    pub closed spec fn placed(&self) -> Seq<Seq<char>> {
        views(self.placed@)
    }

    /// A fresh issuance for `domain`, with nothing published.
    pub fn new(domain: String) -> (r: Issuance)
        ensures
            r.target() == domain@,
            r.placed() == Seq::<Seq<char>>::empty(),
    {
        let r = Issuance { domain, placed: Vec::new() };
        assert(r.placed() =~= Seq::<Seq<char>>::empty());
        r
    }

    /// Handles one authorization: a valid one is skipped; a pending one is
    /// answered over HTTP-01 (`http01` holds the challenge's token and key
    /// authorization, when the server offered one), publishing the answer
    /// in `challenges` for the proxy to serve; any other status, or a
    /// pending authorization without an HTTP-01 challenge, fails the
    /// issuance with the message returned.
    pub fn on_authorization(
        &mut self,
        challenges: &mut ChallengeStore,
        status: AuthzStatus,
        http01: Option<(String, String)>,
    ) -> (r: Result<AuthzAction, String>)
        requires
            old(challenges).wf(),
        ensures
            final(challenges).wf(),
            final(self).target() == old(self).target(),
            match status {
                AuthzStatus::Valid => {
                    &&& r == Ok::<AuthzAction, String>(AuthzAction::Skip)
                    &&& final(challenges).map() == old(challenges).map()
                    &&& final(self).placed() == old(self).placed()
                },
                AuthzStatus::Pending => match http01 {
                    Some((token, key)) => {
                        &&& r == Ok::<AuthzAction, String>(AuthzAction::SetReady)
                        &&& final(challenges).map() == old(challenges).map().insert(token@, key@)
                        &&& final(self).placed() == old(self).placed().push(token@)
                    },
                    None => {
                        &&& r matches Err(m) && m@ == "ACME server did not offer an http-01 challenge for "@
                            + old(self).target()
                        &&& final(challenges).map() == old(challenges).map()
                        &&& final(self).placed() == old(self).placed()
                    },
                },
                _ => {
                    &&& r matches Err(m) && m@ == "unexpected authorization status for "@
                        + old(self).target() + ": "@ + authz_status_name(status)
                    &&& final(challenges).map() == old(challenges).map()
                    &&& final(self).placed() == old(self).placed()
                },
            },
    {
        match status {
            AuthzStatus::Valid => Ok(AuthzAction::Skip),
            AuthzStatus::Pending => match http01 {
                Some((token, key)) => {
                    let ghost prev = self.placed@;
                    challenges.insert(token.clone(), key);
                    self.placed.push(token);
                    assert(views(self.placed@) =~= views(prev).push(self.placed@.last()@));
                    Ok(AuthzAction::SetReady)
                },
                None => Err(concat2("ACME server did not offer an http-01 challenge for ", self.domain.as_str())),
            },
            _ => {
                let mut m = concat2("unexpected authorization status for ", self.domain.as_str());
                push_str(&mut m, ": ");
                push_str(&mut m, authz_status_text(status));
                Err(m)
            },
        }
    }

    /// The order was polled (`polled` is the status reached, or the error
    /// that ended polling): every answer this issuance published is
    /// withdrawn from `challenges`, whatever the outcome; then the order
    /// must be ready for the certificate to be requested.
    pub fn on_order_polled(&mut self, challenges: &mut ChallengeStore, polled: Result<OrderState, String>) -> (r: Result<
        (),
        String,
    >)
        requires
            old(challenges).wf(),
        ensures
            final(challenges).wf(),
            final(self).target() == old(self).target(),
            final(self).placed() == Seq::<Seq<char>>::empty(),
            final(challenges).map() == old(challenges).map().remove_keys(old(self).placed().to_set()),
            match polled {
                Ok(OrderState::Ready) => r is Ok,
                Ok(s) => r matches Err(m) && m@ == "order for "@ + old(self).target()
                    + " did not become ready (status: "@ + order_state_name(s) + ")"@,
                Err(e) => r matches Err(m) && m@ == e@,
            },
    {
        let mut i: usize = 0;
        let ghost start = challenges.map();
        while i < self.placed.len()
            invariant
                challenges.wf(),
                i <= self.placed@.len(),
                challenges.map() == start.remove_keys(views(self.placed@).take(i as int).to_set()),
            decreases self.placed@.len() - i,
        {
            challenges.remove(self.placed[i].as_str());
            proof {
                let t = views(self.placed@);
                assert(t.take(i + 1).to_set() =~= t.take(i as int).to_set().insert(t[i as int])) by {
                    assert(t.take(i + 1) =~= t.take(i as int).push(t[i as int]));
                    t.take(i as int).lemma_push_to_set_commute(t[i as int]);
                }
                assert(challenges.map() =~= start.remove_keys(t.take(i + 1).to_set()));
            }
            i = i + 1;
        }
        assert(views(self.placed@).take(self.placed@.len() as int) =~= views(self.placed@));
        self.placed = Vec::new();
        assert(self.placed() =~= Seq::<Seq<char>>::empty());
        match polled {
            Ok(OrderState::Ready) => Ok(()),
            Ok(s) => {
                let mut m = concat2("order for ", self.domain.as_str());
                push_str(&mut m, " did not become ready (status: ");
                push_str(&mut m, order_state_text(s));
                push_str(&mut m, ")");
                Err(m)
            },
            Err(e) => Err(e),
        }
    }
}

/// A published challenge answer is what the proxy serves: a plain-HTTP
/// request for the challenge path of a published token is answered (with
/// the key authorization stored under that token, as `plan_request`
/// states).
pub proof fn law_published_challenge_is_answered(
    store: Map<Seq<char>, Seq<char>>,
    token: Seq<char>,
    key: Seq<char>,
    req: ProxyRequest,
)
    requires
        !req.is_https,
        req.path@ == acme_challenge_prefix() + token,
    ensures
        challenge_token(req.path@) == Some(token),
        answers_challenge(req, store.insert(token, key)),
        store.insert(token, key)[token] == key,
{
    let p = acme_challenge_prefix();
    assert(req.path@.subrange(0, p.len() as int) =~= p);
    assert(is_prefix(p, req.path@));
    assert(req.path@.subrange(p.len() as int, req.path@.len() as int) =~= token);
}

} // verus!
