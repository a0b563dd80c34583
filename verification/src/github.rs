//! The code-host backend: audits an organization's members through a
//! paginated listing, following the "next" relation of each page's link
//! header until the chain ends, and flags members per the active mode
//! (two-factor disabled, or missing display name in name-check mode).

use crate::service::{
    flag_records_of, opt_is, spec_flagged, Backend, CreateServiceResult, GetUsersError,
    GetUsersResult, OptDef, Service, User, UserView,
};
use vstd::prelude::*;

verus! {

// ---------------------------------------------------------------------
// Link-header parsing: a header is a comma-separated list of elements,
// each of the form `<url>; rel="name"`, optionally preceded by spaces
// (the separator after a comma). Only the "next" relation is consulted.
// ---------------------------------------------------------------------

/// `s` without its leading spaces.
pub open spec fn spec_strip_leading_spaces(s: Seq<char>) -> Seq<char>
    decreases s.len(),
{
    if s.len() > 0 && s[0] == ' ' {
        spec_strip_leading_spaces(s.drop_first())
    } else {
        s
    }
}

proof fn lemma_strip_leading_spaces(s: Seq<char>, lo: int)
    requires
        0 <= lo <= s.len(),
        forall|k: int| 0 <= k < lo ==> s[k] == ' ',
        lo < s.len() ==> s[lo] != ' ',
    ensures
        spec_strip_leading_spaces(s) == s.subrange(lo, s.len() as int),
    decreases lo,
{
    if lo == 0 {
        assert(s.subrange(0, s.len() as int) =~= s);
    } else {
        assert(s[0] == ' ');
        lemma_strip_leading_spaces(s.drop_first(), lo - 1);
        assert(s.drop_first().subrange(lo - 1, s.drop_first().len() as int) =~= s.subrange(
            lo,
            s.len() as int,
        ));
    }
}

/// The comma-separated elements of a header.
pub open spec fn spec_split_commas(s: Seq<char>) -> Seq<Seq<char>>
    decreases s.len(),
{
    match s.index_of_first(',') {
        Some(i) => if 0 <= i < s.len() {
            seq![s.take(i)] + spec_split_commas(s.subrange(i + 1, s.len() as int))
        } else {
            seq![s]
        },
        None => seq![s],
    }
}

/// The relation name of the tail of an element, after the closing `>`:
/// exactly `; rel="name"`.
pub open spec fn spec_parse_rel(rest: Seq<char>) -> Option<Seq<char>> {
    let p = "; rel=\""@;
    if rest.len() > p.len() && rest.take(p.len() as int) == p && rest.last() == '"' {
        Some(rest.subrange(p.len() as int, rest.len() - 1))
    } else {
        None
    }
}

/// One element of a link header: its URL and its relation name, or
/// `None` where the element is not of the form `<url>; rel="name"`.
pub open spec fn spec_parse_link_part(part: Seq<char>) -> Option<(Seq<char>, Seq<char>)> {
    let t = spec_strip_leading_spaces(part);
    if t.len() == 0 || t[0] != '<' {
        None
    } else {
        match t.index_of_first('>') {
            Some(j) => if 1 <= j < t.len() {
                match spec_parse_rel(t.subrange(j + 1, t.len() as int)) {
                    Some(rel) => Some((t.subrange(1, j), rel)),
                    None => None,
                }
            } else {
                None
            },
            None => None,
        }
    }
}

pub open spec fn spec_next_url_in(parts: Seq<Seq<char>>) -> Option<Seq<char>>
    decreases parts.len(),
{
    if parts.len() == 0 {
        None
    } else {
        match spec_parse_link_part(parts[0]) {
            Some(pr) => if pr.1 == "next"@ {
                Some(pr.0)
            } else {
                spec_next_url_in(parts.drop_first())
            },
            None => spec_next_url_in(parts.drop_first()),
        }
    }
}

/// The URL of the first element of the header whose relation is
/// "next"; `None` when no element carries that relation.
pub open spec fn spec_next_url(header: Seq<char>) -> Option<Seq<char>> {
    spec_next_url_in(spec_split_commas(header))
}

/// Index of the first occurrence of `c` in `s` at or after `from`, or
/// the length of `s` when there is none.
fn find_char_from(s: &str, c: char, from: usize, n: usize) -> (r: usize)
    requires
        n == s@.len(),
        from <= n,
    ensures
        from <= r <= n,
        r < n ==> s@[r as int] == c,
        forall|k: int| from <= k < r ==> s@[k] != c,
{
    let mut i = from;
    while i < n
        invariant
            from <= i <= n == s@.len(),
            forall|k: int| from <= k < i ==> s@[k] != c,
        decreases n - i,
    {
        if s.get_char(i) == c {
            return i;
        }
        i += 1;
    }
    n
}

/// Split a link header on the commas that separate its elements.
fn split_commas(s: &str) -> (parts: Vec<String>)
    ensures
        parts.deep_view() == spec_split_commas(s@),
{
    let n = s.unicode_len();
    let mut parts: Vec<String> = Vec::new();
    let mut start: usize = 0;
    proof {
        assert(s@.subrange(0, n as int) =~= s@);
        assert(parts.deep_view() + spec_split_commas(s@) =~= spec_split_commas(s@));
    }
    loop
        invariant_except_break
            start <= n,
            n == s@.len(),
            spec_split_commas(s@) == parts.deep_view() + spec_split_commas(
                s@.subrange(start as int, n as int),
            ),
        ensures
            parts.deep_view() == spec_split_commas(s@),
        decreases n - start,
    {
        let ghost prev = parts.deep_view();
        let ghost suffix = s@.subrange(start as int, n as int);
        let j = find_char_from(s, ',', start, n);
        if j < n {
            parts.push(s.substring_char(start, j).to_owned());
            proof {
                suffix.index_of_first_ensures(',');
                assert(suffix[j - start] == ',');
                assert(suffix.contains(','));
                let i0 = suffix.index_of_first(',').unwrap();
                assert(suffix[i0] == ',');
                assert(forall|k: int| 0 <= k < i0 ==> suffix[k] != ',');
                assert(i0 == j - start) by {
                    if i0 < j - start {
                        assert(s@[i0 + start] != ',');
                        assert(suffix[i0] == s@[i0 + start]);
                    }
                }
                assert(suffix.take(i0) =~= s@.subrange(start as int, j as int));
                assert(suffix.subrange(i0 + 1, suffix.len() as int) =~= s@.subrange(
                    j as int + 1,
                    n as int,
                ));
                assert(parts.deep_view() =~= prev.push(s@.subrange(start as int, j as int)));
                assert(prev + (seq![suffix.take(i0)] + spec_split_commas(
                    suffix.subrange(i0 + 1, suffix.len() as int),
                )) =~= parts.deep_view() + spec_split_commas(
                    s@.subrange(j as int + 1, n as int),
                ));
            }
            start = j + 1;
        } else {
            parts.push(s.substring_char(start, n).to_owned());
            proof {
                suffix.index_of_first_ensures(',');
                assert(!suffix.contains(',')) by {
                    if suffix.contains(',') {
                        let w = choose|w: int| 0 <= w < suffix.len() && suffix[w] == ',';
                        assert(s@[w + start] == ',');
                    }
                }
                assert(suffix =~= s@.subrange(start as int, n as int));
                assert(parts.deep_view() =~= prev.push(suffix));
                assert(prev + seq![suffix] =~= parts.deep_view());
            }
            break ;
        }
    }
    parts
}

/// Parse one element of a link header into its URL and relation name.
fn parse_link_part(part: &str) -> (r: Option<(String, String)>)
    ensures
        r matches Some(pr) ==> spec_parse_link_part(part@) == Some((pr.0@, pr.1@)),
        r is None ==> spec_parse_link_part(part@) is None,
{
    let n = part.unicode_len();
    let ghost t = spec_strip_leading_spaces(part@);
    let mut lo: usize = 0;
    while lo < n && part.get_char(lo) == ' '
        invariant
            lo <= n,
            n == part@.len(),
            forall|k: int| 0 <= k < lo ==> part@[k] == ' ',
        decreases n - lo,
    {
        lo += 1;
    }
    proof {
        lemma_strip_leading_spaces(part@, lo as int);
    }
    if lo == n {
        return None;
    }
    if part.get_char(lo) != '<' {
        return None;
    }
    let j = find_char_from(part, '>', lo + 1, n);
    proof {
        t.index_of_first_ensures('>');
    }
    if j == n {
        proof {
            assert(!t.contains('>')) by {
                if t.contains('>') {
                    let w = choose|w: int| 0 <= w < t.len() && t[w] == '>';
                    assert(t[w] == part@[w + lo]);
                }
            }
        }
        return None;
    }
    let ghost i0 = t.index_of_first('>').unwrap();
    proof {
        assert(t[j - lo] == '>');
        assert(t.contains('>'));
        assert(i0 == j - lo) by {
            if i0 < j - lo {
                assert(t[i0] == part@[i0 + lo]);
                if i0 == 0 {
                    assert(t[0] == '<');
                } else {
                    assert(part@[i0 + lo] != '>');
                }
            }
        }
        reveal_strlit("; rel=\"");
    }
    if n - (j + 1) < 8 {
        return None;
    }
    let prefix = part.substring_char(j + 1, j + 8).to_owned();
    let ghost rest = t.subrange(i0 + 1, t.len() as int);
    proof {
        assert(rest =~= part@.subrange(j as int + 1, n as int));
        assert(rest.take(7) =~= part@.subrange(j as int + 1, j as int + 8));
    }
    if !(prefix == String::from_str("; rel=\"")) {
        return None;
    }
    if part.get_char(n - 1) != '"' {
        proof {
            assert(rest.last() == part@[n - 1]);
        }
        return None;
    }
    let url = part.substring_char(lo + 1, j).to_owned();
    let rel = part.substring_char(j + 8, n - 1).to_owned();
    proof {
        assert(rest.last() == part@[n - 1]);
        assert(t.subrange(1, i0) =~= part@.subrange(lo as int + 1, j as int));
        assert(rest.subrange(7, rest.len() - 1) =~= part@.subrange(j as int + 8, n as int - 1));
    }
    Some((url, rel))
}

/// The URL of the first "next" relation in a link header, or `None`
/// when the header declares none: the pagination-terminal state.
pub fn next_url(header: &str) -> (r: Option<String>)
    ensures
        r.deep_view() == spec_next_url(header@),
{
    let parts = split_commas(header);
    let ghost all = parts.deep_view();
    let mut i: usize = 0;
    proof {
        assert(all.skip(0) =~= all);
    }
    while i < parts.len()
        invariant
            i <= parts@.len(),
            all == parts.deep_view(),
            all == spec_split_commas(header@),
            spec_next_url(header@) == spec_next_url_in(all.skip(i as int)),
        decreases parts@.len() - i,
    {
        proof {
            assert(all.skip(i as int)[0] == all[i as int]);
            assert(all.skip(i as int).drop_first() =~= all.skip(i as int + 1));
        }
        match parse_link_part(parts[i].as_str()) {
            Some(pr) => {
                if pr.1 == String::from_str("next") {
                    return Some(pr.0);
                }
                proof {
                    assert(pr.1@ != "next"@);
                }
            },
            None => {},
        }
        i += 1;
    }
    proof {
        assert(all.skip(parts@.len() as int) =~= Seq::<Seq<char>>::empty());
    }
    None
}

// ---------------------------------------------------------------------
// The backend itself.
// ---------------------------------------------------------------------

/// A member of the audited organization, as one listing page reports it.
pub struct GithubMember {
    pub login: String,
}

/// The profile fetched by the secondary per-member lookup, used for
/// name-check mode and for email enrichment.
pub struct GithubProfile {
    pub name: Option<String>,
    pub email: Option<String>,
}

/// One member together with the result of its secondary profile
/// lookup: `None` where no lookup was made, `Some(Err(m))` where the
/// lookup itself failed with message `m`.
pub struct GithubRecord {
    pub member: GithubMember,
    pub profile: Option<Result<GithubProfile, String>>,
}

/// The code-host backend, bound to its endpoint, organization and
/// credentials. In name-check mode the audit lists all members and
/// flags those missing a display name instead of those lacking
/// two-factor authentication (the listing itself is filtered
/// server-side in the normal mode).
pub struct GithubService {
    pub endpoint: String,
    pub org: String,
    pub username: String,
    pub password: String,
    pub name_check: bool,
}

/// The display name a record's profile lookup found, if any.
pub open spec fn spec_display_name(rec: GithubRecord) -> Option<Seq<char>> {
    match rec.profile {
        Some(Ok(p)) => p.name.deep_view(),
        _ => None,
    }
}

impl Service for GithubService {
    type Rec = GithubRecord;

    open spec fn spec_name(&self) -> Seq<char> {
        "Github"@
    }

    /// In the normal mode every listed member is flagged: the listing
    /// query is already filtered to members with two-factor
    /// authentication disabled. In name-check mode a member is flagged
    /// iff its display name is absent or empty.
    open spec fn spec_flags(&self, rec: GithubRecord) -> bool {
        if !self.name_check {
            true
        } else {
            match spec_display_name(rec) {
                Some(nm) => nm.len() == 0,
                None => true,
            }
        }
    }

    open spec fn spec_user(&self, rec: GithubRecord) -> UserView {
        UserView {
            name: rec.member.login@,
            email: match rec.profile {
                Some(Ok(p)) => p.email.deep_view(),
                _ => None,
            },
            details: None,
        }
    }

    fn service_name(&self) -> (r: String) {
        String::from_str("Github")
    }

    fn flags(&self, rec: &GithubRecord) -> (r: bool) {
        if !self.name_check {
            true
        } else {
            match &rec.profile {
                Some(Ok(p)) => match &p.name {
                    Some(nm) => nm.as_str().unicode_len() == 0,
                    None => true,
                },
                _ => true,
            }
        }
    }

    fn make_user(&self, rec: &GithubRecord) -> (r: User) {
        let email = match &rec.profile {
            Some(Ok(p)) => match &p.email {
                Some(e) => Some(e.clone()),
                None => None,
            },
            _ => None,
        };
        User { name: rec.member.login.clone(), email, details: None }
    }
}

/// The message of the first failed profile lookup among the records.
pub open spec fn spec_first_lookup_failure(records: Seq<GithubRecord>) -> Option<Seq<char>>
    decreases records.len(),
{
    if records.len() == 0 {
        None
    } else {
        match records[0].profile {
            Some(Err(m)) => Some(m@),
            _ => spec_first_lookup_failure(records.drop_first()),
        }
    }
}

fn first_lookup_failure(records: &Vec<GithubRecord>) -> (r: Option<String>)
    ensures
        r.deep_view() == spec_first_lookup_failure(records@),
{
    let mut i: usize = 0;
    proof {
        assert(records@.skip(0) =~= records@);
    }
    while i < records.len()
        invariant
            i <= records@.len(),
            spec_first_lookup_failure(records@) == spec_first_lookup_failure(
                records@.skip(i as int),
            ),
        decreases records@.len() - i,
    {
        proof {
            assert(records@.skip(i as int)[0] == records@[i as int]);
            assert(records@.skip(i as int).drop_first() =~= records@.skip(i as int + 1));
        }
        match &records[i].profile {
            Some(res) => match res {
                Err(m) => {
                    return Some(m.clone());
                },
                Ok(_) => {},
            },
            None => {},
        }
        i += 1;
    }
    proof {
        assert(records@.skip(records@.len() as int) =~= Seq::<GithubRecord>::empty());
    }
    None
}

/// The paginated-fetch state: the cursor to the next page (`None` is
/// the terminal state) and the flagged accounts accumulated so far, in
/// server order.
pub struct FetchState {
    pub cursor: Option<String>,
    pub accumulated: Vec<User>,
}

/// What one fetch transition decides: keep following the chain at the
/// new cursor, or finish with the backend's outcome.
pub enum FetchStep {
    Continue(FetchState),
    Finished(Result<GetUsersResult, GetUsersError>),
}

/// One fetched and decoded page of the member listing.
pub enum PageResult {
    /// The page's member records and its link header, if any.
    Page { records: Vec<GithubRecord>, link_header: Option<String> },
    /// The platform's own error body.
    ApiError { message: String, documentation_url: String },
    /// A malformed response or an unexpected transport status.
    TransportError { message: String },
}

/// Builds the code-host backend from its configuration values.
pub struct GithubServiceFactory;

/// The well-known public API root, used when no endpoint override is
/// configured.
pub open spec fn spec_default_endpoint() -> Seq<char> {
    "https://api.github.com"@
}

/// The names of the required fields absent from the configuration, in
/// option order. The endpoint is optional and never listed.
pub open spec fn spec_missing_github(
    org_missing: bool,
    username_missing: bool,
    password_missing: bool,
) -> Seq<Seq<char>> {
    (if org_missing {
        seq!["github-org"@]
    } else {
        Seq::<Seq<char>>::empty()
    }) + (if username_missing {
        seq!["github-username"@]
    } else {
        Seq::<Seq<char>>::empty()
    }) + (if password_missing {
        seq!["github-password"@]
    } else {
        Seq::<Seq<char>>::empty()
    })
}

/// Everything constructing the code-host backend promises: the three
/// required fields present mean a ready backend bound to them, with
/// the endpoint defaulted to the public API root where not overridden;
/// all four fields absent means this run does not audit the code host;
/// anything else is a fatal misconfiguration naming exactly the absent
/// required fields. The name-check flag only selects the mode.
pub open spec fn spec_github_create_post(
    endpoint: Option<String>,
    org: Option<String>,
    username: Option<String>,
    password: Option<String>,
    name_check: bool,
    r: CreateServiceResult,
) -> bool {
    match (org, username, password) {
        (Some(o), Some(u), Some(p)) => r matches CreateServiceResult::Ready(b) && b matches
            Backend::Github(s) && s.org == o && s.username == u && s.password == p && s.name_check
            == name_check && (match endpoint {
            Some(e) => s.endpoint == e,
            None => s.endpoint@ == spec_default_endpoint(),
        }),
        _ => {
            if endpoint is None && org is None && username is None && password is None {
                r == CreateServiceResult::NotConfigured
            } else {
                r matches CreateServiceResult::MissingRequiredFields(v) && v.deep_view()
                    == spec_missing_github(org is None, username is None, password is None)
            }
        },
    }
}

impl GithubServiceFactory {
    /// The code host's recognized configuration options.
    pub fn add_options(&self, opts: &mut Vec<OptDef>)
        ensures
            final(opts)@.len() == old(opts)@.len() + 4,
            forall|i: int| 0 <= i < old(opts)@.len() ==> final(opts)@[i] == old(opts)@[i],
            opt_is(
                final(opts)@[old(opts)@.len() as int],
                "github-endpoint"@,
                "Github API endpoint URL (default: https://api.github.com)"@,
                "endpoint"@,
            ),
            opt_is(
                final(opts)@[old(opts)@.len() as int + 1],
                "github-org"@,
                "Gitub organization"@,
                "org"@,
            ),
            opt_is(
                final(opts)@[old(opts)@.len() as int + 2],
                "github-username"@,
                "Gitub username"@,
                "username"@,
            ),
            opt_is(
                final(opts)@[old(opts)@.len() as int + 3],
                "github-password"@,
                "Github password"@,
                "password"@,
            ),
    {
        opts.push(
            OptDef {
                name: String::from_str("github-endpoint"),
                desc: String::from_str("Github API endpoint URL (default: https://api.github.com)"),
                hint: String::from_str("endpoint"),
            },
        );
        opts.push(
            OptDef {
                name: String::from_str("github-org"),
                desc: String::from_str("Gitub organization"),
                hint: String::from_str("org"),
            },
        );
        opts.push(
            OptDef {
                name: String::from_str("github-username"),
                desc: String::from_str("Gitub username"),
                hint: String::from_str("username"),
            },
        );
        opts.push(
            OptDef {
                name: String::from_str("github-password"),
                desc: String::from_str("Github password"),
                hint: String::from_str("password"),
            },
        );
    }

    /// Construct the backend, with no side effects: construction only
    /// binds the supplied values. Missing required fields are named
    /// exactly, and only where some field of the backend was supplied.
    pub fn create_service(
        &self,
        endpoint: Option<String>,
        org: Option<String>,
        username: Option<String>,
        password: Option<String>,
        name_check: bool,
    ) -> (r: CreateServiceResult)
        ensures
            spec_github_create_post(endpoint, org, username, password, name_check, r),
    {
        match (endpoint, org, username, password) {
            (endpoint, Some(org), Some(username), Some(password)) => {
                let ep = match endpoint {
                    Some(e) => e,
                    None => String::from_str("https://api.github.com"),
                };
                CreateServiceResult::Ready(
                    Backend::Github(
                        GithubService { endpoint: ep, org, username, password, name_check },
                    ),
                )
            },
            (None, None, None, None) => CreateServiceResult::NotConfigured,
            (_, org, username, password) => {
                let mut missing: Vec<String> = Vec::new();
                if org.is_none() {
                    missing.push(String::from_str("github-org"));
                }
                if username.is_none() {
                    missing.push(String::from_str("github-username"));
                }
                if password.is_none() {
                    missing.push(String::from_str("github-password"));
                }
                proof {
                    assert(missing.deep_view() =~= spec_missing_github(
                        org is None,
                        username is None,
                        password is None,
                    ));
                }
                CreateServiceResult::MissingRequiredFields(missing)
            },
        }
    }
}

/// The two results are ready code-host backends that are functionally
/// equivalent: equal in every observable field.
pub open spec fn spec_github_ready_equiv(r1: CreateServiceResult, r2: CreateServiceResult) -> bool {
    match (r1, r2) {
        (
            CreateServiceResult::Ready(Backend::Github(s1)),
            CreateServiceResult::Ready(Backend::Github(s2)),
        ) => s1.endpoint@ == s2.endpoint@ && s1.org@ == s2.org@ && s1.username@ == s2.username@
            && s1.password@ == s2.password@ && s1.name_check == s2.name_check,
        _ => false,
    }
}

/// Construction is idempotent: two constructions from the same
/// configuration yield functionally equivalent backends (construction
/// reads nothing but its arguments and has no side effects).
pub proof fn lemma_github_construction_idempotent(
    endpoint: Option<String>,
    org: Option<String>,
    username: Option<String>,
    password: Option<String>,
    name_check: bool,
    r1: CreateServiceResult,
    r2: CreateServiceResult,
)
    requires
        spec_github_create_post(endpoint, org, username, password, name_check, r1),
        spec_github_create_post(endpoint, org, username, password, name_check, r2),
        org is Some,
        username is Some,
        password is Some,
    ensures
        spec_github_ready_equiv(r1, r2),
{
}

impl GithubService {
    /// The URL of the first listing page.
    pub open spec fn spec_initial_url(&self) -> Seq<char> {
        self.endpoint@ + "/orgs/"@ + self.org@ + "/members?filter="@ + (if self.name_check {
            "all"@
        } else {
            "2fa_disabled"@
        })
    }

    pub fn initial_url(&self) -> (r: String)
        ensures
            r@ == self.spec_initial_url(),
    {
        let mut u = self.endpoint.clone();
        u.append("/orgs/");
        u.append(self.org.as_str());
        u.append("/members?filter=");
        if self.name_check {
            u.append("all");
        } else {
            u.append("2fa_disabled");
        }
        u
    }

    /// The initial state of the paginated fetch: the first page's URL
    /// and nothing accumulated.
    pub fn start(&self) -> (s: FetchState)
        ensures
            s.cursor matches Some(u) && u@ == self.spec_initial_url(),
            s.accumulated@.len() == 0,
    {
        FetchState { cursor: Some(self.initial_url()), accumulated: Vec::new() }
    }

    /// One transition of the paginated fetch protocol, on the decoded
    /// page the cursor pointed at. An error page ends the audit with a
    /// failure, discarding everything accumulated so far; a good page
    /// appends its flagged members in server order and moves the cursor
    /// to the "next" relation of the page's link header, finishing with
    /// success when the header declares none.
    pub fn on_page(&self, state: FetchState, page: PageResult) -> (r: FetchStep)
        ensures
            (page matches PageResult::TransportError { message } ==> r matches
                FetchStep::Finished(Err(e)) && e.service_name@ == self.spec_name()
                && e.error_message@ == message@),
            (page matches PageResult::ApiError { message, documentation_url } ==> r matches
                FetchStep::Finished(Err(e)) && e.service_name@ == self.spec_name()
                && e.error_message@ == message@ + "\n  See "@ + documentation_url@),
            (page matches PageResult::Page { records, link_header } ==> {
                let failure = spec_first_lookup_failure(records@);
                let acc = state.accumulated.deep_view() + spec_flagged(*self, records@);
                let next = match link_header {
                    Some(h) => spec_next_url(h@),
                    None => None,
                };
                &&& (failure matches Some(m) ==> (r matches FetchStep::Finished(Err(e))
                    && e.service_name@ == self.spec_name() && e.error_message@ == m))
                &&& ((failure is None && next is None) ==> (r matches FetchStep::Finished(Ok(out))
                    && out.service_name@ == self.spec_name() && out.users.deep_view() == acc))
                &&& (next matches Some(u) ==> (failure is None ==> (r matches FetchStep::Continue(
                    st,
                ) && st.cursor matches Some(cu) && cu@ == u && st.accumulated.deep_view() == acc)))
            }),
    {
        match page {
            PageResult::TransportError { message } => FetchStep::Finished(
                Err(GetUsersError { service_name: self.service_name(), error_message: message }),
            ),
            PageResult::ApiError { message, documentation_url } => {
                let ghost m0 = message@;
                let msg = message.concat("\n  See ").concat(documentation_url.as_str());
                proof {
                    assert(msg@ =~= m0 + "\n  See "@ + documentation_url@);
                }
                FetchStep::Finished(
                    Err(GetUsersError { service_name: self.service_name(), error_message: msg }),
                )
            },
            PageResult::Page { records, link_header } => {
                match first_lookup_failure(&records) {
                    Some(m) => FetchStep::Finished(
                        Err(GetUsersError { service_name: self.service_name(), error_message: m }),
                    ),
                    None => {
                        let ghost acc0 = state.accumulated.deep_view();
                        let flagged = flag_records_of(self, &records);
                        let mut accumulated = state.accumulated;
                        let mut flagged_users = flagged.users;
                        accumulated.append(&mut flagged_users);
                        proof {
                            assert(accumulated.deep_view() =~= acc0 + spec_flagged(
                                *self,
                                records@,
                            ));
                        }
                        let next = match &link_header {
                            Some(h) => next_url(h.as_str()),
                            None => None,
                        };
                        match next {
                            None => FetchStep::Finished(
                                Ok(
                                    GetUsersResult {
                                        service_name: self.service_name(),
                                        users: accumulated,
                                    },
                                ),
                            ),
                            Some(u) => FetchStep::Continue(
                                FetchState { cursor: Some(u), accumulated },
                            ),
                        }
                    },
                }
            },
        }
    }
}

} // verus!
