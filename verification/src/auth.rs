//! Replacing the node's credential without restarting the process.
//!
//! Enrolling again takes several steps that only the surrounding program can perform: opening the
//! credential store, clearing it, asking a person. [`Authenticator`] holds what they need and says
//! which comes next.

use vstd::prelude::*;

verus! {

/// Everything needed to enroll this node again from scratch.
pub struct Authenticator {
    pub server_url: String,
    pub profile: String,
    pub node_name: String,
    pub platform: String,
    pub scopes: Vec<String>,
}

/// How far a re-login or a logout has come. An error is what the step that failed said.
pub enum AuthEvent {
    Begun,
    StoreOpened(Result<(), String>),
    StoreCleared(Result<(), String>),
    EnrollerMade(Result<(), String>),
    /// The grant gave a bearer; what is shown of it.
    Bearer(Result<String, String>),
}

/// What has to be done next.
pub enum AuthStep {
    OpenStore,
    ClearStore,
    MakeEnroller,
    AskForBearer,
    /// Put the fresh grant in place of the credential in use. The re-login is then over; this is
    /// what is shown of its bearer.
    Swap(String),
    /// A logout is over.
    Done,
    Failed(String),
}

#[verifier::ext_equal]
pub enum StepView {
    OpenStore,
    ClearStore,
    MakeEnroller,
    AskForBearer,
    Swap(Seq<char>),
    Done,
    Failed(Seq<char>),
}

impl View for AuthStep {
    type V = StepView;

    open spec fn view(&self) -> StepView {
        match self {
            AuthStep::OpenStore => StepView::OpenStore,
            AuthStep::ClearStore => StepView::ClearStore,
            AuthStep::MakeEnroller => StepView::MakeEnroller,
            AuthStep::AskForBearer => StepView::AskForBearer,
            AuthStep::Swap(s) => StepView::Swap(s@),
            AuthStep::Done => StepView::Done,
            AuthStep::Failed(e) => StepView::Failed(e@),
        }
    }
}

/// What follows in a re-login.
pub open spec fn next_in_relogin(ev: AuthEvent) -> StepView {
    match ev {
        AuthEvent::Begun => StepView::OpenStore,
        AuthEvent::StoreOpened(Ok(_)) => StepView::ClearStore,
        AuthEvent::StoreCleared(Ok(_)) => StepView::MakeEnroller,
        AuthEvent::EnrollerMade(Ok(_)) => StepView::AskForBearer,
        AuthEvent::Bearer(Ok(prefix)) => StepView::Swap(prefix@),
        AuthEvent::StoreOpened(Err(e)) => StepView::Failed(e@),
        AuthEvent::StoreCleared(Err(e)) => StepView::Failed(e@),
        AuthEvent::EnrollerMade(Err(e)) => StepView::Failed(e@),
        AuthEvent::Bearer(Err(e)) => StepView::Failed(e@),
    }
}

/// What follows in a logout.
pub open spec fn next_in_logout(ev: AuthEvent) -> StepView {
    match ev {
        AuthEvent::Begun => StepView::OpenStore,
        AuthEvent::StoreOpened(Ok(_)) => StepView::ClearStore,
        AuthEvent::StoreOpened(Err(e)) => StepView::Failed(e@),
        AuthEvent::StoreCleared(Err(e)) => StepView::Failed(e@),
        _ => StepView::Done,
    }
}

impl Authenticator {
    pub fn new(
        server_url: String,
        profile: String,
        node_name: String,
        platform: String,
        scopes: Vec<String>,
    ) -> (a: Authenticator)
        ensures
            a == (Authenticator { server_url, profile, node_name, platform, scopes }),
    {
        Authenticator { server_url, profile, node_name, platform, scopes }
    }

    /// The scopes that are asked for.
    pub fn scopes(&self) -> (r: &[String])
        ensures
            r@ == self.scopes@,
    {
        self.scopes.as_slice()
    }

    /// What follows in enrolling again, interactively.
    ///
    /// The stored credential is cleared first so that enrollment takes place rather than a quiet
    /// refresh of the one already on disk: a refresh reuses the old grant, and the whole point of a
    /// re-login is to get a new one, possibly with different scopes.
    pub fn relogin(&self, ev: AuthEvent) -> (step: AuthStep)
        ensures
            step@ == next_in_relogin(ev),
    {
        match ev {
            AuthEvent::Begun => AuthStep::OpenStore,
            AuthEvent::StoreOpened(Ok(_)) => AuthStep::ClearStore,
            AuthEvent::StoreCleared(Ok(_)) => AuthStep::MakeEnroller,
            AuthEvent::EnrollerMade(Ok(_)) => AuthStep::AskForBearer,
            AuthEvent::Bearer(Ok(prefix)) => AuthStep::Swap(prefix),
            AuthEvent::StoreOpened(Err(e)) => AuthStep::Failed(e),
            AuthEvent::StoreCleared(Err(e)) => AuthStep::Failed(e),
            AuthEvent::EnrollerMade(Err(e)) => AuthStep::Failed(e),
            AuthEvent::Bearer(Err(e)) => AuthStep::Failed(e),
        }
    }

    /// What follows in forgetting the stored credential. The process keeps running on the token it
    /// already holds until the connection drops: nothing has been revoked server-side.
    pub fn logout(&self, ev: AuthEvent) -> (step: AuthStep)
        ensures
            step@ == next_in_logout(ev),
    {
        match ev {
            AuthEvent::Begun => AuthStep::OpenStore,
            AuthEvent::StoreOpened(Ok(_)) => AuthStep::ClearStore,
            AuthEvent::StoreOpened(Err(e)) => AuthStep::Failed(e),
            AuthEvent::StoreCleared(Err(e)) => AuthStep::Failed(e),
            _ => AuthStep::Done,
        }
    }
}

/// The credential in use is replaced only once a fresh grant has given a bearer, and a logout never
/// replaces it; whatever fails ends the attempt.
pub proof fn law_a_credential_is_replaced_only_by_a_working_one(ev: AuthEvent)
    ensures
        next_in_relogin(ev) is Swap <==> (ev matches AuthEvent::Bearer(Ok(_))),
        next_in_relogin(ev) is MakeEnroller <==> (ev matches AuthEvent::StoreCleared(Ok(_))),
        !(next_in_logout(ev) is Swap),
        !(next_in_logout(ev) is MakeEnroller),
        !(next_in_logout(ev) is AskForBearer),
{
}

} // verus!
