//! Shared data model of the audit: flagged accounts, per-backend
//! outcomes, and the result of constructing a backend from
//! configuration values.

use crate::aws::AWSService;
use crate::github::GithubService;
use crate::slack::SlackService;
use vstd::prelude::*;

verus! {

/// One constructed, configured backend: the set of audited platforms
/// is closed, so a backend is a variant, not an open plugin.
pub enum Backend {
    Aws(AWSService),
    Github(GithubService),
    Slack(SlackService),
}

impl Backend {
    /// The backend's presentation name.
    pub open spec fn spec_name(&self) -> Seq<char> {
        match self {
            Backend::Aws(s) => s.spec_name(),
            Backend::Github(s) => s.spec_name(),
            Backend::Slack(s) => s.spec_name(),
        }
    }

    pub fn service_name(&self) -> (r: String)
        ensures
            r@ == self.spec_name(),
    {
        match self {
            Backend::Aws(s) => s.service_name(),
            Backend::Github(s) => s.service_name(),
            Backend::Slack(s) => s.service_name(),
        }
    }
}

/// One recognized configuration option of a factory: its name, its
/// description, and the hint shown for its argument value.
pub struct OptDef {
    pub name: String,
    pub desc: String,
    pub hint: String,
}

/// `d` is the option named `name`, with description `desc` and
/// argument hint `hint`.
pub open spec fn opt_is(d: OptDef, name: Seq<char>, desc: Seq<char>, hint: Seq<char>) -> bool {
    d.name@ == name && d.desc@ == desc && d.hint@ == hint
}

/// What constructing a backend from configuration values yields:
/// exactly one of "not configured for this run", "configured but
/// missing required fields" (naming exactly the absent ones), or a
/// ready backend. Never a partial backend.
pub enum CreateServiceResult {
    NotConfigured,
    MissingRequiredFields(Vec<String>),
    Ready(Backend),
}

/// One account that the audit flagged: it lacks two-factor
/// authentication, or (in name-check mode) a display name.
/// `details` is a free-form annotation used only for display;
/// `None` means no annotation.
#[derive(Debug)]
pub struct User {
    pub name: String,
    pub email: Option<String>,
    pub details: Option<String>,
}

/// The mathematical content of a [`User`]: each string as a sequence
/// of characters.
pub struct UserView {
    pub name: Seq<char>,
    pub email: Option<Seq<char>>,
    pub details: Option<Seq<char>>,
}

impl View for User {
    type V = UserView;

    open spec fn view(&self) -> UserView {
        UserView { name: self.name@, email: self.email.deep_view(), details: self.details.deep_view() }
    }
}

impl DeepView for User {
    type V = UserView;

    open spec fn deep_view(&self) -> UserView {
        self.view()
    }
}

impl UserView {
    /// A flagged account carries a non-empty name.
    pub open spec fn wf(self) -> bool {
        self.name.len() > 0
    }
}

/// A successful audit of one backend: the backend's name and the
/// flagged accounts in the order the platform returned them.
#[derive(Debug)]
pub struct GetUsersResult {
    pub service_name: String,
    pub users: Vec<User>,
}

impl GetUsersResult {
    /// Names of flagged accounts are unique within one backend's result,
    /// and every account is well formed.
    pub open spec fn wf(self) -> bool {
        &&& forall|i: int, j: int|
            0 <= i < j < self.users@.len() ==> self.users@[i]@.name != self.users@[j]@.name
        &&& forall|i: int| 0 <= i < self.users@.len() ==> (#[trigger] self.users@[i]@).wf()
    }
}

/// A failed audit of one backend: the backend's name and a
/// human-readable message. A failure never aborts sibling backends.
#[derive(Debug)]
pub struct GetUsersError {
    pub service_name: String,
    pub error_message: String,
}

/// One audited platform. Each backend decodes its platform's records
/// into its own record type and owns the predicate that decides which
/// records are flagged, and how a flagged record reads in the report.
pub trait Service: Sized {
    /// The decoded per-account record of this backend's platform.
    type Rec;

    /// The backend's presentation name.
    spec fn spec_name(&self) -> Seq<char>;

    /// The flagging predicate: does this record need attention?
    spec fn spec_flags(&self, rec: Self::Rec) -> bool;

    /// The flagged account a flagged record turns into.
    spec fn spec_user(&self, rec: Self::Rec) -> UserView;

    fn service_name(&self) -> (r: String)
        ensures
            r@ == self.spec_name(),
    ;

    fn flags(&self, rec: &Self::Rec) -> (r: bool)
        ensures
            r == self.spec_flags(*rec),
    ;

    fn make_user(&self, rec: &Self::Rec) -> (r: User)
        ensures
            r@ == self.spec_user(*rec),
    ;
}

/// The flagged accounts among `records`, in record order: the backend's
/// flagging predicate selects the survivors and `spec_user` renders each.
pub open spec fn spec_flagged<S: Service>(svc: S, records: Seq<S::Rec>) -> Seq<UserView>
    decreases records.len(),
{
    if records.len() == 0 {
        Seq::empty()
    } else {
        let rest = spec_flagged(svc, records.drop_last());
        if svc.spec_flags(records.last()) {
            rest.push(svc.spec_user(records.last()))
        } else {
            rest
        }
    }
}

proof fn lemma_flagged_push<S: Service>(svc: S, records: Seq<S::Rec>, rec: S::Rec)
    ensures
        spec_flagged(svc, records.push(rec)) == if svc.spec_flags(rec) {
            spec_flagged(svc, records).push(svc.spec_user(rec))
        } else {
            spec_flagged(svc, records)
        },
{
    assert(records.push(rec).drop_last() =~= records);
}

/// Flagging distributes over concatenation: the flagged accounts of
/// two runs of records, taken together, are the first run's flagged
/// accounts followed by the second's. In particular, pages merged by
/// the paginated fetcher keep page order and within-page order.
pub proof fn lemma_flagged_append<S: Service>(svc: S, a: Seq<S::Rec>, b: Seq<S::Rec>)
    ensures
        spec_flagged(svc, a + b) == spec_flagged(svc, a) + spec_flagged(svc, b),
    decreases b.len(),
{
    if b.len() == 0 {
        assert(a + b =~= a);
        assert(spec_flagged(svc, a) + spec_flagged(svc, b) =~= spec_flagged(svc, a));
    } else {
        assert((a + b).drop_last() =~= a + b.drop_last());
        assert((a + b).last() == b.last());
        lemma_flagged_append(svc, a, b.drop_last());
        if svc.spec_flags(b.last()) {
            assert((spec_flagged(svc, a) + spec_flagged(svc, b.drop_last())).push(
                svc.spec_user(b.last()),
            ) =~= spec_flagged(svc, a) + spec_flagged(svc, b.drop_last()).push(
                svc.spec_user(b.last()),
            ));
        }
    }
}

/// Apply a backend's flagging predicate to its decoded records,
/// preserving the order the platform returned them in.
pub fn flag_records_of<S: Service>(svc: &S, records: &Vec<S::Rec>) -> (r: GetUsersResult)
    ensures
        r.service_name@ == svc.spec_name(),
        r.users.deep_view() == spec_flagged(*svc, records@),
{
    let mut users: Vec<User> = Vec::new();
    let mut i: usize = 0;
    while i < records.len()
        invariant
            i <= records@.len(),
            users.deep_view() == spec_flagged(*svc, records@.take(i as int)),
        decreases records@.len() - i,
    {
        let ghost prev = users.deep_view();
        let rec = &records[i];
        if svc.flags(rec) {
            let u = svc.make_user(rec);
            users.push(u);
            proof {
                assert(users.deep_view() =~= prev.push(svc.spec_user(records@[i as int])));
            }
        }
        proof {
            assert(records@.take(i as int).push(records@[i as int]) =~= records@.take(
                i as int + 1,
            ));
            lemma_flagged_push(*svc, records@.take(i as int), records@[i as int]);
        }
        i += 1;
    }
    proof {
        assert(records@.take(records@.len() as int) =~= records@);
    }
    GetUsersResult { service_name: svc.service_name(), users }
}

} // verus!
