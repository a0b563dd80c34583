//! The chat-service backend: flags workspace members that are active,
//! not bots, and have two-factor authentication disabled, and annotates
//! each flagged member with the role its owner and admin flags imply.

use crate::service::{
    flag_records_of, opt_is, spec_flagged, Backend, CreateServiceResult, GetUsersError,
    GetUsersResult, OptDef, Service, User, UserView,
};
use vstd::prelude::*;

verus! {

/// One member of the chat workspace, as the platform's user listing
/// reports it. The protection and role flags may be absent on entries
/// that do not carry them (bots, deleted members); an absent flag is
/// treated as unset, never as a fault.
pub struct SlackMember {
    pub name: String,
    pub deleted: bool,
    pub is_bot: Option<bool>,
    pub has_2fa: Option<bool>,
    pub email: Option<String>,
    pub is_owner: Option<bool>,
    pub is_admin: Option<bool>,
}

/// The decoded body of the platform's member-listing call: its own
/// `ok` verdict, its error text when `ok` is false, and the members.
pub struct SlackUserListResponse {
    pub ok: bool,
    pub error: Option<String>,
    pub members: Vec<SlackMember>,
}

/// The chat-service backend, bound to its API token.
pub struct SlackService {
    pub token: String,
}

/// The annotation derived from the two independent role flags.
pub open spec fn spec_annotation(owner: bool, admin: bool) -> Option<Seq<char>> {
    if owner && admin {
        Some("Owner/Admin"@)
    } else if owner {
        Some("Owner"@)
    } else if admin {
        Some("Admin"@)
    } else {
        None
    }
}

/// Render the annotation of a member with the given role flags.
pub fn annotation(owner: bool, admin: bool) -> (r: Option<String>)
    ensures
        r.deep_view() == spec_annotation(owner, admin),
{
    if owner && admin {
        Some(String::from_str("Owner/Admin"))
    } else if owner {
        Some(String::from_str("Owner"))
    } else if admin {
        Some(String::from_str("Admin"))
    } else {
        None
    }
}

/// An absent boolean flag reads as unset.
fn flag_is_set(b: &Option<bool>) -> (r: bool)
    ensures
        r == (*b == Some(true)),
{
    match b {
        Some(x) => *x,
        None => false,
    }
}

impl Service for SlackService {
    type Rec = SlackMember;

    open spec fn spec_name(&self) -> Seq<char> {
        "Slack"@
    }

    /// A member is flagged iff it is not deleted, not a bot, and its
    /// two-factor flag is false or absent.
    open spec fn spec_flags(&self, m: SlackMember) -> bool {
        !m.deleted && m.is_bot != Some(true) && m.has_2fa != Some(true)
    }

    open spec fn spec_user(&self, m: SlackMember) -> UserView {
        UserView {
            name: m.name@,
            email: m.email.deep_view(),
            details: spec_annotation(m.is_owner == Some(true), m.is_admin == Some(true)),
        }
    }

    fn service_name(&self) -> (r: String) {
        String::from_str("Slack")
    }

    fn flags(&self, m: &SlackMember) -> (r: bool) {
        !m.deleted && !flag_is_set(&m.is_bot) && !flag_is_set(&m.has_2fa)
    }

    fn make_user(&self, m: &SlackMember) -> (r: User) {
        let email = match &m.email {
            Some(e) => Some(e.clone()),
            None => None,
        };
        User {
            name: m.name.clone(),
            email,
            details: annotation(flag_is_set(&m.is_owner), flag_is_set(&m.is_admin)),
        }
    }
}

/// The failure message built from the platform's own error verdict.
pub open spec fn spec_slack_error_message(error: Option<Seq<char>>) -> Seq<char> {
    match error {
        Some(e) => "Slack API error: "@ + e,
        None => "Slack API error: unknown error"@,
    }
}

impl SlackService {
    /// Audit the workspace from the decoded member listing. A response
    /// whose own verdict is an error becomes a failure outcome carrying
    /// the platform's error text; it never aborts sibling backends.
    pub fn get_users(&self, response: &SlackUserListResponse) -> (r: Result<
        GetUsersResult,
        GetUsersError,
    >)
        ensures
            response.ok ==> (r matches Ok(out) && out.service_name@ == self.spec_name()
                && out.users.deep_view() == spec_flagged(*self, response.members@)),
            !response.ok ==> (r matches Err(e) && e.service_name@ == self.spec_name()
                && e.error_message@ == spec_slack_error_message(response.error.deep_view())),
    {
        if response.ok {
            Ok(flag_records_of(self, &response.members))
        } else {
            let msg = match &response.error {
                Some(e) => String::from_str("Slack API error: ").concat(e.as_str()),
                None => String::from_str("Slack API error: unknown error"),
            };
            Err(GetUsersError { service_name: self.service_name(), error_message: msg })
        }
    }
}

/// Builds the chat-service backend from its configuration values.
pub struct SlackServiceFactory;

/// Everything constructing the chat-service backend promises: a token
/// present means a ready backend bound to it; an absent token means
/// this run does not audit the chat service.
pub open spec fn spec_slack_create_post(token: Option<String>, r: CreateServiceResult) -> bool {
    match token {
        Some(t) => r == CreateServiceResult::Ready(Backend::Slack(SlackService { token: t })),
        None => r == CreateServiceResult::NotConfigured,
    }
}

impl SlackServiceFactory {
    /// The chat service's one recognized configuration option.
    pub fn add_options(&self, opts: &mut Vec<OptDef>)
        ensures
            final(opts)@.len() == old(opts)@.len() + 1,
            forall|i: int| 0 <= i < old(opts)@.len() ==> final(opts)@[i] == old(opts)@[i],
            opt_is(
                final(opts)@.last(),
                "slack-token"@,
                "Slack token (https://api.slack.com/web#authentication)"@,
                "token"@,
            ),
    {
        opts.push(
            OptDef {
                name: String::from_str("slack-token"),
                desc: String::from_str("Slack token (https://api.slack.com/web#authentication)"),
                hint: String::from_str("token"),
            },
        );
    }

    /// Construct the backend, with no side effects: construction only
    /// binds the supplied values.
    pub fn create_service(&self, token: Option<String>) -> (r: CreateServiceResult)
        ensures
            spec_slack_create_post(token, r),
    {
        match token {
            Some(token) => CreateServiceResult::Ready(Backend::Slack(SlackService { token })),
            None => CreateServiceResult::NotConfigured,
        }
    }
}

/// Construction is idempotent: two constructions from the same
/// configuration yield equal results (construction reads nothing but
/// its arguments and has no side effects).
pub proof fn lemma_slack_construction_idempotent(
    token: Option<String>,
    r1: CreateServiceResult,
    r2: CreateServiceResult,
)
    requires
        spec_slack_create_post(token, r1),
        spec_slack_create_post(token, r2),
    ensures
        r1 == r2,
{
}

/// Every flagged account's name is some member's name, the names stay
/// pairwise distinct where the members' names are, and non-empty where
/// the members' names are.
proof fn lemma_slack_flagged_names(svc: SlackService, members: Seq<SlackMember>)
    requires
        forall|i: int, j: int|
            0 <= i < j < members.len() ==> (#[trigger] members[i]).name@ != (
            #[trigger] members[j]).name@,
    ensures
        forall|x: int|
            0 <= x < spec_flagged(svc, members).len() ==> exists|m: int|
                0 <= m < members.len() && (#[trigger] spec_flagged(svc, members)[x]).name == (
                #[trigger] members[m]).name@,
        forall|x: int, y: int|
            0 <= x < y < spec_flagged(svc, members).len() ==> (#[trigger] spec_flagged(
                svc,
                members,
            )[x]).name != (#[trigger] spec_flagged(svc, members)[y]).name,
    decreases members.len(),
{
    if members.len() > 0 {
        let prefix = members.drop_last();
        let rest = spec_flagged(svc, prefix);
        let flagged = spec_flagged(svc, members);
        assert(forall|m: int| 0 <= m < prefix.len() ==> (#[trigger] prefix[m]) == members[m]);
        lemma_slack_flagged_names(svc, prefix);
        assert forall|x: int| 0 <= x < flagged.len() implies exists|m: int|
            0 <= m < members.len() && (#[trigger] flagged[x]).name == (
            #[trigger] members[m]).name@ by {
            if x < rest.len() {
                let m = choose|m: int|
                    0 <= m < prefix.len() && (#[trigger] rest[x]).name == (
                    #[trigger] prefix[m]).name@;
                assert(flagged[x] == rest[x]);
                assert(flagged[x].name == members[m].name@);
            } else {
                assert(flagged[x].name == members[members.len() - 1].name@);
            }
        }
        assert forall|x: int, y: int| 0 <= x < y < flagged.len() implies (
        #[trigger] flagged[x]).name != (#[trigger] flagged[y]).name by {
            if y < rest.len() {
                assert(flagged[x] == rest[x] && flagged[y] == rest[y]);
            } else {
                assert(flagged[y].name == members[members.len() - 1].name@);
                let m = choose|m: int|
                    0 <= m < prefix.len() && (#[trigger] rest[x]).name == (
                    #[trigger] prefix[m]).name@;
                assert(flagged[x].name == members[m].name@);
                assert(members[m].name@ != members[members.len() - 1].name@);
            }
        }
    }
}

/// Data-model invariant of a successful chat-service outcome: where
/// the platform's members carry non-empty, pairwise distinct names,
/// the flagged accounts of the outcome do too.
pub proof fn lemma_slack_result_wf(
    svc: SlackService,
    members: Seq<SlackMember>,
    out: GetUsersResult,
)
    requires
        out.users.deep_view() == spec_flagged(svc, members),
        forall|i: int| 0 <= i < members.len() ==> (#[trigger] members[i]).name@.len() > 0,
        forall|i: int, j: int|
            0 <= i < j < members.len() ==> (#[trigger] members[i]).name@ != (
            #[trigger] members[j]).name@,
    ensures
        out.wf(),
{
    lemma_slack_flagged_names(svc, members);
    let flagged = spec_flagged(svc, members);
    assert(forall|x: int| 0 <= x < out.users@.len() ==> (#[trigger] out.users@[x])@ == flagged[x]);
    assert forall|x: int| 0 <= x < out.users@.len() implies (#[trigger] out.users@[x]@).wf() by {
        let m = choose|m: int|
            0 <= m < members.len() && (#[trigger] flagged[x]).name == (#[trigger] members[m]).name@;
        assert(members[m].name@.len() > 0);
    }
}

/// Flagging law of the chat service: a deleted member is never flagged,
/// whatever its other fields; a bot is never flagged; a member with
/// two-factor authentication enabled is never flagged; an active,
/// non-bot member whose two-factor flag is false or absent is flagged.
pub proof fn lemma_slack_flagging(svc: SlackService, m: SlackMember)
    ensures
        m.deleted ==> !svc.spec_flags(m),
        m.is_bot == Some(true) ==> !svc.spec_flags(m),
        m.has_2fa == Some(true) ==> !svc.spec_flags(m),
        (!m.deleted && m.is_bot != Some(true) && m.has_2fa != Some(true)) ==> svc.spec_flags(m),
{
}

/// Annotation law of the chat service: owner and admin together read
/// "Owner/Admin", owner alone "Owner", admin alone "Admin", and a
/// member with neither role carries no annotation.
pub proof fn lemma_slack_annotation()
    ensures
        spec_annotation(true, true) == Some("Owner/Admin"@),
        spec_annotation(true, false) == Some("Owner"@),
        spec_annotation(false, true) == Some("Admin"@),
        spec_annotation(false, false) == None::<Seq<char>>,
{
}

} // verus!
