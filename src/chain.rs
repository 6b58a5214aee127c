use vstd::prelude::*;
use crate::retry::{drive, Outcome, Step};

verus! {

/// The kinds of authentication method that can be attached to a new user,
/// in the order in which they are attached.
#[derive(PartialEq, Eq, Structural, Clone, Copy, Debug)]
pub enum SideEffectKind {
    Phone,
    Email,
}

/// A dependent call declared by a record: attach a method with this value.
#[derive(Clone, Debug)]
pub struct SideEffect {
    pub kind: SideEffectKind,
    pub value: String,
}

/// A dependent call ready to be sent.
#[derive(Clone, Debug)]
pub struct DependentCall {
    pub kind: SideEffectKind,
    pub endpoint: String,
    pub value: String,
}

/// What follows a successful primary call.
#[derive(Debug)]
pub enum ChainPlan {
    /// The record declares no dependent call.
    NoneDeclared,
    /// Dependent calls are declared but the response carried no identifier:
    /// they are skipped with a warning.
    MissingId,
    /// These calls run one after the other, in this order.
    Calls(Vec<DependentCall>),
}

/// A dependent call as `(kind, endpoint, value)`.
pub type CallView = (SideEffectKind, Seq<char>, Seq<char>);

pub enum PlanView {
    NoneDeclared,
    MissingId,
    Calls(Seq<CallView>),
}

impl View for SideEffect {
    type V = (SideEffectKind, Seq<char>);

    open spec fn view(&self) -> (SideEffectKind, Seq<char>) {
        (self.kind, self.value@)
    }
}

impl View for DependentCall {
    type V = CallView;

    open spec fn view(&self) -> CallView {
        (self.kind, self.endpoint@, self.value@)
    }
}

impl View for ChainPlan {
    type V = PlanView;

    open spec fn view(&self) -> PlanView {
        match self {
            ChainPlan::NoneDeclared => PlanView::NoneDeclared,
            ChainPlan::MissingId => PlanView::MissingId,
            ChainPlan::Calls(v) => PlanView::Calls(v@.map_values(|c: DependentCall| c@)),
        }
    }
}

/// The sub-resource that a kind of method is attached under.
pub open spec fn subresource(kind: SideEffectKind) -> Seq<char> {
    match kind {
        SideEffectKind::Phone => "phoneMethods"@,
        SideEffectKind::Email => "emailMethods"@,
    }
}

/// `{endpoint}/{id}/authentication/{subresource}`.
pub open spec fn dependent_endpoint(endpoint: Seq<char>, id: Seq<char>, kind: SideEffectKind) -> Seq<
    char,
> {
    endpoint + "/"@ + id + "/authentication/"@ + subresource(kind)
}

/// The side effects of a record with these optional values: phone first,
/// then email, each only where a value is present.
pub open spec fn effects_spec(phone: Option<Seq<char>>, email: Option<Seq<char>>) -> Seq<
    (SideEffectKind, Seq<char>),
> {
    let p: Seq<(SideEffectKind, Seq<char>)> = match phone {
        Some(v) => seq![(SideEffectKind::Phone, v)],
        None => Seq::empty(),
    };
    let e: Seq<(SideEffectKind, Seq<char>)> = match email {
        Some(v) => seq![(SideEffectKind::Email, v)],
        None => Seq::empty(),
    };
    p + e
}

/// The plan after a successful primary call against `endpoint` whose response
/// carried the identifier `id`, if any.
pub open spec fn plan_spec(
    endpoint: Seq<char>,
    id: Option<Seq<char>>,
    effects: Seq<(SideEffectKind, Seq<char>)>,
) -> PlanView {
    if effects.len() == 0 {
        PlanView::NoneDeclared
    } else {
        match id {
            None => PlanView::MissingId,
            Some(i) => PlanView::Calls(
                effects.map_values(
                    |e: (SideEffectKind, Seq<char>)| (e.0, dependent_endpoint(endpoint, i, e.0), e.1),
                ),
            ),
        }
    }
}

pub open spec fn opt_view(s: Option<&str>) -> Option<Seq<char>> {
    match s {
        Some(v) => Some(v@),
        None => None,
    }
}

pub fn dependent_endpoint_of(endpoint: &str, id: &str, kind: SideEffectKind) -> (r: String)
    ensures
        r@ == dependent_endpoint(endpoint@, id@, kind),
{
    let mut r = String::from_str(endpoint);
    r.append("/");
    r.append(id);
    r.append("/authentication/");
    match kind {
        SideEffectKind::Phone => r.append("phoneMethods"),
        SideEffectKind::Email => r.append("emailMethods"),
    }
    r
}

/// Decides what follows a successful primary call.
pub fn plan_dependents(endpoint: &str, id: Option<&str>, effects: &Vec<SideEffect>) -> (r:
    ChainPlan)
    ensures
        r@ == plan_spec(endpoint@, opt_view(id), effects@.map_values(|e: SideEffect| e@)),
{
    let ghost effs = effects@.map_values(|e: SideEffect| e@);
    if effects.len() == 0 {
        return ChainPlan::NoneDeclared;
    }
    match id {
        None => ChainPlan::MissingId,
        Some(i) => {
            let ghost want = effs.map_values(
                |e: (SideEffectKind, Seq<char>)| (e.0, dependent_endpoint(endpoint@, i@, e.0), e.1),
            );
            let mut calls: Vec<DependentCall> = Vec::new();
            let mut k: usize = 0;
            while k < effects.len()
                invariant
                    k <= effects@.len(),
                    effs == effects@.map_values(|e: SideEffect| e@),
                    want == effs.map_values(
                        |e: (SideEffectKind, Seq<char>)|
                            (e.0, dependent_endpoint(endpoint@, i@, e.0), e.1),
                    ),
                    calls@.map_values(|c: DependentCall| c@) == want.take(k as int),
                decreases effects@.len() - k,
            {
                let e = &effects[k];
                let call = DependentCall {
                    kind: e.kind,
                    endpoint: dependent_endpoint_of(endpoint, i, e.kind),
                    value: e.value.clone(),
                };
                let ghost before = calls@;
                calls.push(call);
                assert(calls@.map_values(|c: DependentCall| c@) =~= want.take(k + 1)) by {
                    assert(calls@ == before.push(call));
                    assert(effs[k as int] == effects@[k as int]@);
                    assert(want[k as int] == call@);
                    assert(calls@.map_values(|c: DependentCall| c@) =~= before.map_values(
                        |c: DependentCall| c@,
                    ).push(call@));
                    assert(want.take(k + 1) =~= want.take(k as int).push(want[k as int]));
                }
                k += 1;
            }
            assert(want.take(k as int) =~= want);
            ChainPlan::Calls(calls)
        },
    }
}

pub open spec fn opt_string_view(s: Option<String>) -> Option<Seq<char>> {
    match s {
        Some(v) => Some(v@),
        None => None,
    }
}

/// One unit of migration work, as far as the engine reads it: the key that
/// its log lines carry and the methods to attach once the user exists.
#[derive(Clone, Debug)]
pub struct PendingOperation {
    correlation_key: String,
    phone: Option<String>,
    email: Option<String>,
}

impl PendingOperation {
    pub closed spec fn key(&self) -> Seq<char> {
        self.correlation_key@
    }

    pub closed spec fn phone_spec(&self) -> Option<Seq<char>> {
        opt_string_view(self.phone)
    }

    pub closed spec fn email_spec(&self) -> Option<Seq<char>> {
        opt_string_view(self.email)
    }

    pub fn new(correlation_key: String, phone: Option<String>, email: Option<String>) -> (r:
        PendingOperation)
        ensures
            r.key() == correlation_key@,
            r.phone_spec() == opt_string_view(phone),
            r.email_spec() == opt_string_view(email),
    {
        PendingOperation { correlation_key, phone, email }
    }

    pub fn correlation_key(&self) -> (r: &str)
        ensures
            r@ == self.key(),
    {
        self.correlation_key.as_str()
    }

    /// The dependent calls that the record declares, phone before email.
    pub fn side_effects(&self) -> (r: Vec<SideEffect>)
        ensures
            r@.map_values(|e: SideEffect| e@) == effects_spec(self.phone_spec(), self.email_spec()),
    {
        let mut r: Vec<SideEffect> = Vec::new();
        match &self.phone {
            Some(v) => r.push(SideEffect { kind: SideEffectKind::Phone, value: v.clone() }),
            None => {},
        }
        let ghost mid = r@;
        match &self.email {
            Some(v) => r.push(SideEffect { kind: SideEffectKind::Email, value: v.clone() }),
            None => {},
        }
        proof {
            let p: Seq<(SideEffectKind, Seq<char>)> = match self.phone_spec() {
                Some(v) => seq![(SideEffectKind::Phone, v)],
                None => Seq::empty(),
            };
            assert(mid.map_values(|e: SideEffect| e@) =~= p);
            assert(r@.map_values(|e: SideEffect| e@) =~= effects_spec(
                self.phone_spec(),
                self.email_spec(),
            ));
        }
        r
    }
}

/// A record that declares only a phone method gets exactly one dependent
/// call after its user is created: to `{endpoint}/{id}/authentication/phoneMethods`,
/// carrying the phone number.
pub proof fn lemma_phone_effect_one_call(endpoint: Seq<char>, id: Seq<char>, phone: Seq<char>)
    ensures
        plan_spec(endpoint, Some(id), effects_spec(Some(phone), None)) == PlanView::Calls(
            seq![(SideEffectKind::Phone, endpoint + "/"@ + id + "/authentication/"@ + "phoneMethods"@, phone)],
        ),
{
    let effs = effects_spec(Some(phone), None);
    assert(effs =~= seq![(SideEffectKind::Phone, phone)]);
    let calls = effs.map_values(
        |e: (SideEffectKind, Seq<char>)| (e.0, dependent_endpoint(endpoint, id, e.0), e.1),
    );
    assert(calls =~= seq![(SideEffectKind::Phone, endpoint + "/"@ + id + "/authentication/"@ + "phoneMethods"@, phone)]);
}

/// A dependent call runs its own retry sequence, which depends on its own
/// outcomes alone: answered first by a usable rate limit and then by success,
/// it waits exactly once, for exactly the directed time, and then finishes.
pub proof fn lemma_dependent_retry_is_its_own(wait_secs: u64)
    ensures
        drive(seq![Outcome::RateLimited { wait_secs }, Outcome::Success]) == seq![
            Step::Retry { wait_secs },
            Step::Finish { outcome: Outcome::Success },
        ],
{
    let d = seq![Outcome::RateLimited { wait_secs }, Outcome::Success];
    assert(d.drop_first() =~= seq![Outcome::Success]);
    assert(drive(d.drop_first()) == seq![Step::Finish { outcome: Outcome::Success }]);
    assert(seq![Step::Retry { wait_secs }] + seq![Step::Finish { outcome: Outcome::Success }]
        =~= seq![Step::Retry { wait_secs }, Step::Finish { outcome: Outcome::Success }]);
}

} // verus!
