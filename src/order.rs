use crate::error::{Category, CertError};
use vstd::prelude::*;

verus! {

/// The status of an ACME order.
#[derive(Clone, Copy, Debug, PartialEq, Eq, Structural)]
pub enum OrderStatus {
    Pending,
    Ready,
    Processing,
    Valid,
    Invalid,
}

/// The status of one authorization of an order.
#[derive(Clone, Copy, Debug, PartialEq, Eq, Structural)]
pub enum AuthorizationStatus {
    Pending,
    Valid,
    Invalid,
    Revoked,
    Expired,
}

/// The kind of a challenge offered for an authorization.
#[derive(Clone, Copy, Debug, PartialEq, Eq, Structural)]
pub enum ChallengeKind {
    Http01,
    Dns01,
    TlsAlpn01,
    Other,
}

/// One challenge offered for an authorization.
#[derive(Clone, Debug)]
pub struct ChallengeInfo {
    pub kind: ChallengeKind,
    pub token: String,
    pub url: String,
}

/// One authorization of an order: the domain it is for, its status and
/// the challenges that can prove it.
#[derive(Clone, Debug)]
pub struct AuthorizationInfo {
    pub identifier: String,
    pub status: AuthorizationStatus,
    pub challenges: Vec<ChallengeInfo>,
}

/// An HTTP-01 challenge this session must answer: the domain, the token
/// to serve and the URL that signals readiness.
#[derive(Clone, Debug)]
pub struct PendingChallenge {
    pub identifier: String,
    pub token: String,
    pub url: String,
}

impl PendingChallenge {
    pub open spec fn view_of(self) -> (Seq<char>, Seq<char>, Seq<char>) {
        (self.identifier@, self.token@, self.url@)
    }
}

/// A new order must still be pending; any other status ends the attempt.
pub fn check_new_order(status: OrderStatus) -> (r: Result<(), CertError>)
    ensures
        r is Ok <==> status == OrderStatus::Pending,
        r is Err ==> r matches Err(CertError::Fail { category: Category::OrderStatus, .. }),
{
    match status {
        OrderStatus::Pending => Ok(()),
        _ => Err(
            CertError::Fail {
                category: Category::OrderStatus,
                message: String::from_str("order is not pending"),
            },
        ),
    }
}

/// The index of the first HTTP-01 challenge at or after `k`.
pub open spec fn http01_from(cs: Seq<ChallengeInfo>, k: int) -> Option<int>
    decreases cs.len() - k,
{
    if k < 0 || k >= cs.len() {
        None
    } else if cs[k].kind == ChallengeKind::Http01 {
        Some(k)
    } else {
        http01_from(cs, k + 1)
    }
}

/// Why no challenge plan could be made.
#[derive(Clone, Copy, Debug, PartialEq, Eq, Structural)]
pub enum PlanFault {
    /// A pending authorization offers no HTTP-01 challenge.
    MissingHttp01,
    /// An authorization is neither pending nor valid.
    UnexpectedStatus,
}

/// What one authorization asks of the session: nothing when it is valid
/// already, its first HTTP-01 challenge when it is pending.
pub open spec fn authorization_step(a: AuthorizationInfo) -> Result<
    Option<(Seq<char>, Seq<char>, Seq<char>)>,
    PlanFault,
> {
    match a.status {
        AuthorizationStatus::Valid => Ok(None),
        AuthorizationStatus::Pending => match http01_from(a.challenges@, 0) {
            None => Err(PlanFault::MissingHttp01),
            Some(j) => Ok(Some((a.identifier@, a.challenges@[j].token@, a.challenges@[j].url@))),
        },
        _ => Err(PlanFault::UnexpectedStatus),
    }
}

/// The challenges to answer for the authorizations, in their order, or
/// the fault of the first authorization that cannot be handled.
pub open spec fn challenge_plan(authzs: Seq<AuthorizationInfo>) -> Result<
    Seq<(Seq<char>, Seq<char>, Seq<char>)>,
    PlanFault,
>
    decreases authzs.len(),
{
    if authzs.len() == 0 {
        Ok(Seq::empty())
    } else {
        match challenge_plan(authzs.drop_last()) {
            Err(f) => Err(f),
            Ok(p) => match authorization_step(authzs.last()) {
                Err(f) => Err(f),
                Ok(None) => Ok(p),
                Ok(Some(c)) => Ok(p.push(c)),
            },
        }
    }
}

/// The views of a list of pending challenges.
pub open spec fn challenge_views(v: Seq<PendingChallenge>) -> Seq<(Seq<char>, Seq<char>, Seq<char>)> {
    v.map_values(|c: PendingChallenge| c.view_of())
}

fn first_http01(cs: &Vec<ChallengeInfo>) -> (r: Option<usize>)
    ensures
        r matches Some(j) ==> http01_from(cs@, 0) == Some(j as int) && j < cs@.len(),
        r is None ==> http01_from(cs@, 0) is None,
{
    let mut j: usize = 0;
    while j < cs.len()
        invariant
            j <= cs.len(),
            http01_from(cs@, 0) == http01_from(cs@, j as int),
        decreases cs.len() - j,
    {
        if cs[j].kind == ChallengeKind::Http01 {
            return Some(j);
        }
        j = j + 1;
    }
    None
}

/// Works out the HTTP-01 challenges of an order's authorizations: valid
/// authorizations are skipped, pending ones give their first HTTP-01
/// challenge, and any other status is an error.
pub fn pending_challenges(authzs: &Vec<AuthorizationInfo>) -> (r: Result<Vec<PendingChallenge>, CertError>)
    ensures
        r matches Ok(v) <==> challenge_plan(authzs@) is Ok,
        r matches Ok(v) ==> challenge_plan(authzs@) == Ok::<_, PlanFault>(challenge_views(v@)),
        r matches Err(CertError::NotFound { .. }) <==> challenge_plan(authzs@) == Err::<
            Seq<(Seq<char>, Seq<char>, Seq<char>)>,
            _,
        >(PlanFault::MissingHttp01),
        r matches Err(CertError::Fail { category: Category::AuthorizationStatus, .. })
            <==> challenge_plan(authzs@) == Err::<Seq<(Seq<char>, Seq<char>, Seq<char>)>, _>(
            PlanFault::UnexpectedStatus,
        ),
        r is Err ==> r matches Err(CertError::NotFound { .. }) || r matches Err(
            CertError::Fail { category: Category::AuthorizationStatus, .. },
        ),
{
    let mut out: Vec<PendingChallenge> = Vec::new();
    let mut i: usize = 0;
    assert(authzs@.subrange(0, 0) =~= Seq::<AuthorizationInfo>::empty());
    assert(challenge_views(out@) =~= Seq::empty());
    while i < authzs.len()
        invariant
            i <= authzs.len(),
            challenge_plan(authzs@.subrange(0, i as int)) == Ok::<_, PlanFault>(challenge_views(out@)),
        decreases authzs.len() - i,
    {
        let a = &authzs[i];
        let ghost pre = authzs@.subrange(0, i as int);
        let ghost next = authzs@.subrange(0, i + 1);
        assert(next.drop_last() =~= pre);
        assert(next.last() == authzs@[i as int]);
        match a.status {
            AuthorizationStatus::Valid => {},
            AuthorizationStatus::Pending => {
                match first_http01(&a.challenges) {
                    None => {
                        proof {
                            lemma_plan_stops(authzs@, i as int);
                        }
                        return Err(
                            CertError::NotFound { message: String::from_str("Http01 challenge not found") },
                        );
                    },
                    Some(j) => {
                        let c = &a.challenges[j];
                        let ghost before = out@;
                        out.push(
                            PendingChallenge {
                                identifier: a.identifier.clone(),
                                token: c.token.clone(),
                                url: c.url.clone(),
                            },
                        );
                        assert(challenge_views(out@) =~= challenge_views(before).push(
                            out@.last().view_of(),
                        ));
                    },
                }
            },
            _ => {
                proof {
                    lemma_plan_stops(authzs@, i as int);
                }
                return Err(
                    CertError::Fail {
                        category: Category::AuthorizationStatus,
                        message: String::from_str("authorization is neither pending nor valid"),
                    },
                );
            },
        }
        i = i + 1;
    }
    assert(authzs@.subrange(0, authzs@.len() as int) =~= authzs@);
    Ok(out)
}

/// Once the authorization at `i` cannot be handled, the plan of every
/// longer prefix fails with the same fault.
proof fn lemma_plan_stops(authzs: Seq<AuthorizationInfo>, i: int)
    requires
        0 <= i < authzs.len(),
        challenge_plan(authzs.subrange(0, i)) is Ok,
        authorization_step(authzs[i]) is Err,
    ensures
        challenge_plan(authzs) == Err::<Seq<(Seq<char>, Seq<char>, Seq<char>)>, _>(
            authorization_step(authzs[i])->Err_0,
        ),
    decreases authzs.len(),
{
    if authzs.len() == i + 1 {
        assert(authzs.drop_last() =~= authzs.subrange(0, i));
    } else {
        let shorter = authzs.drop_last();
        assert(shorter.subrange(0, i) =~= authzs.subrange(0, i));
        lemma_plan_stops(shorter, i);
    }
}

/// The domains the signing request names: those of the challenges the
/// session answered, in their order.
pub fn certificate_names(challenges: &Vec<PendingChallenge>) -> (r: Vec<String>)
    ensures
        r@.len() == challenges@.len(),
        forall|k: int| 0 <= k < r@.len() ==> r@[k]@ == challenges@[k].identifier@,
{
    let mut names: Vec<String> = Vec::new();
    let mut i: usize = 0;
    while i < challenges.len()
        invariant
            i <= challenges.len(),
            names@.len() == i,
            forall|k: int| 0 <= k < i ==> names@[k]@ == challenges@[k].identifier@,
        decreases challenges.len() - i,
    {
        names.push(challenges[i].identifier.clone());
        i = i + 1;
    }
    names
}

} // verus!
