//! The cloud-IAM backend: asks the platform to generate a credential
//! report, polls the job with a bounded, doubling backoff, decodes the
//! finished report (base64-wrapped CSV, one row per account), and flags
//! every account whose multi-factor column is false.

use crate::service::{
    flag_records_of, opt_is, spec_flagged, Backend, CreateServiceResult, GetUsersError,
    GetUsersResult, OptDef, Service, User, UserView,
};
use rustc_serialize::base64::FromBase64;
use vstd::prelude::*;

verus! {

/// Builds the cloud-IAM backend from its configuration values.
pub struct AWSServiceFactory;

/// The names of the required fields absent from the configuration, in
/// option order.
pub open spec fn spec_missing_aws(id_missing: bool, key_missing: bool) -> Seq<Seq<char>> {
    (if id_missing {
        seq!["aws-access-key-id"@]
    } else {
        Seq::<Seq<char>>::empty()
    }) + (if key_missing {
        seq!["aws-secret-key"@]
    } else {
        Seq::<Seq<char>>::empty()
    })
}

/// Everything constructing the cloud-IAM backend promises: both fields
/// present means a ready backend bound to them; both absent means this
/// run does not audit the cloud IAM; one absent means a fatal
/// misconfiguration naming exactly the absent field.
pub open spec fn spec_aws_create_post(
    access_key_id: Option<String>,
    secret_key: Option<String>,
    r: CreateServiceResult,
) -> bool {
    match (access_key_id, secret_key) {
        (Some(a), Some(k)) => r == CreateServiceResult::Ready(
            Backend::Aws(AWSService { access_key_id: a, secret_key: k }),
        ),
        (None, None) => r == CreateServiceResult::NotConfigured,
        (a, k) => r matches CreateServiceResult::MissingRequiredFields(v) && v.deep_view()
            == spec_missing_aws(a is None, k is None),
    }
}

impl AWSServiceFactory {
    /// The cloud IAM's recognized configuration options.
    pub fn add_options(&self, opts: &mut Vec<OptDef>)
        ensures
            final(opts)@.len() == old(opts)@.len() + 2,
            forall|i: int| 0 <= i < old(opts)@.len() ==> final(opts)@[i] == old(opts)@[i],
            opt_is(
                final(opts)@[old(opts)@.len() as int],
                "aws-access-key-id"@,
                "AWS Access Key Id"@,
                "access_key_id"@,
            ),
            opt_is(
                final(opts)@[old(opts)@.len() as int + 1],
                "aws-secret-key"@,
                "AWS Secret Key"@,
                "secret_key"@,
            ),
    {
        opts.push(
            OptDef {
                name: String::from_str("aws-access-key-id"),
                desc: String::from_str("AWS Access Key Id"),
                hint: String::from_str("access_key_id"),
            },
        );
        opts.push(
            OptDef {
                name: String::from_str("aws-secret-key"),
                desc: String::from_str("AWS Secret Key"),
                hint: String::from_str("secret_key"),
            },
        );
    }

    /// Construct the backend, with no side effects: construction only
    /// binds the supplied values. Missing exactly one of the two
    /// required fields yields exactly that field's name.
    pub fn create_service(&self, access_key_id: Option<String>, secret_key: Option<String>) -> (r:
        CreateServiceResult)
        ensures
            spec_aws_create_post(access_key_id, secret_key, r),
    {
        match (access_key_id, secret_key) {
            (Some(a), Some(k)) => CreateServiceResult::Ready(
                Backend::Aws(AWSService { access_key_id: a, secret_key: k }),
            ),
            (None, None) => CreateServiceResult::NotConfigured,
            (a, k) => {
                let mut missing: Vec<String> = Vec::new();
                if a.is_none() {
                    missing.push(String::from_str("aws-access-key-id"));
                }
                if k.is_none() {
                    missing.push(String::from_str("aws-secret-key"));
                }
                proof {
                    assert(missing.deep_view() =~= spec_missing_aws(a is None, k is None));
                }
                CreateServiceResult::MissingRequiredFields(missing)
            },
        }
    }
}

/// Construction is idempotent: two constructions from the same
/// configuration yield equal results (construction reads nothing but
/// its arguments and has no side effects).
pub proof fn lemma_aws_construction_idempotent(
    access_key_id: Option<String>,
    secret_key: Option<String>,
    r1: CreateServiceResult,
    r2: CreateServiceResult,
)
    requires
        spec_aws_create_post(access_key_id, secret_key, r1),
        spec_aws_create_post(access_key_id, secret_key, r2),
        access_key_id is Some,
        secret_key is Some,
    ensures
        r1 == r2,
{
}

/// The two IAM API actions the audit issues.
pub enum Action {
    GenerateCredentialReport,
    GetCredentialReport,
}

impl Action {
    /// The action's name on the wire.
    pub fn as_str(self) -> (r: String)
        ensures
            self is GenerateCredentialReport ==> r@ == "GenerateCredentialReport"@,
            self is GetCredentialReport ==> r@ == "GetCredentialReport"@,
    {
        match self {
            Action::GenerateCredentialReport => String::from_str("GenerateCredentialReport"),
            Action::GetCredentialReport => String::from_str("GetCredentialReport"),
        }
    }
}

/// The state of the asynchronous report-generation job, as the
/// platform reports it.
#[allow(non_camel_case_types)]
pub enum ReportResult {
    STARTED,
    COMPLETE,
}

impl ReportResult {
    /// Decode the job state's text. An unknown state is a protocol
    /// fault: it yields `None`, to be reported as a failure rather than
    /// trusted or panicked over.
    pub fn from_str(s: &str) -> (r: Option<ReportResult>)
        ensures
            r == Some(ReportResult::STARTED) <==> s@ == "STARTED"@,
            r == Some(ReportResult::COMPLETE) <==> s@ == "COMPLETE"@,
            r is None <==> (s@ != "STARTED"@ && s@ != "COMPLETE"@),
    {
        proof {
            reveal_strlit("STARTED");
            reveal_strlit("COMPLETE");
            assert("STARTED"@.len() == 7);
            assert("COMPLETE"@.len() == 8);
        }
        let t = s.to_owned();
        if t == String::from_str("STARTED") {
            Some(ReportResult::STARTED)
        } else if t == String::from_str("COMPLETE") {
            Some(ReportResult::COMPLETE)
        } else {
            None
        }
    }
}

/// One row of the credential report: one account, as the report's
/// columns give it. Only the identifier, the ARN and the multi-factor
/// column steer the audit; the rest ride along as text.
pub struct AWSUser {
    pub user: String,
    pub arn: String,
    pub user_creation_time: String,
    pub password_enabled: String,
    pub password_last_used: String,
    pub password_last_changed: String,
    pub password_next_rotation: String,
    pub mfa_active: bool,
    pub access_key_1_active: String,
    pub access_key_1_last_rotated: String,
    pub access_key_1_last_used_date: String,
    pub access_key_1_last_used_region: String,
    pub access_key_1_last_used_service: String,
    pub access_key_2_active: String,
    pub access_key_2_last_rotated: String,
    pub access_key_2_last_used_date: String,
    pub access_key_2_last_used_region: String,
    pub access_key_2_last_used_service: String,
    pub cert_1_active: String,
    pub cert_1_last_rotated: String,
    pub cert_2_active: String,
    pub cert_2_last_rotated: String,
}

/// The cloud-IAM backend, bound to its signing credentials.
pub struct AWSService {
    pub access_key_id: String,
    pub secret_key: String,
}

impl Service for AWSService {
    type Rec = AWSUser;

    open spec fn spec_name(&self) -> Seq<char> {
        "aws"@
    }

    /// An account is flagged iff its multi-factor flag is false.
    open spec fn spec_flags(&self, u: AWSUser) -> bool {
        !u.mfa_active
    }

    open spec fn spec_user(&self, u: AWSUser) -> UserView {
        UserView { name: u.user@, email: None, details: Some(u.arn@) }
    }

    fn service_name(&self) -> (r: String) {
        String::from_str("aws")
    }

    fn flags(&self, u: &AWSUser) -> (r: bool) {
        !u.mfa_active
    }

    fn make_user(&self, u: &AWSUser) -> (r: User) {
        User { name: u.user.clone(), email: None, details: Some(u.arn.clone()) }
    }
}

// ---------------------------------------------------------------------
// Polling the report-generation job.
// ---------------------------------------------------------------------

/// Poll attempts are bounded: after this many unready answers the
/// backend reports a failure instead of polling forever.
pub const MAX_POLL_ATTEMPTS: u32 = 8;

/// The wait before re-asking after unready answer number `attempt`
/// (counted from zero): it starts at half a second and doubles.
pub open spec fn spec_backoff_ms(attempt: nat) -> nat
    decreases attempt,
{
    if attempt == 0 {
        500
    } else {
        2 * spec_backoff_ms((attempt - 1) as nat)
    }
}

proof fn lemma_backoff_monotone(a: nat, b: nat)
    requires
        a <= b,
    ensures
        spec_backoff_ms(a) <= spec_backoff_ms(b),
    decreases b,
{
    if a < b {
        lemma_backoff_monotone(a, (b - 1) as nat);
    }
}

/// Compute the backoff before retry `attempt`.
pub fn backoff_ms(attempt: u32) -> (r: u64)
    requires
        attempt < MAX_POLL_ATTEMPTS,
    ensures
        r == spec_backoff_ms(attempt as nat),
{
    proof {
        reveal_with_fuel(spec_backoff_ms, 9);
        assert(spec_backoff_ms(7) == 64000);
    }
    let mut ms: u64 = 500;
    let mut k: u32 = 0;
    while k < attempt
        invariant
            k <= attempt < MAX_POLL_ATTEMPTS,
            ms == spec_backoff_ms(k as nat),
        decreases attempt - k,
    {
        proof {
            reveal_with_fuel(spec_backoff_ms, 9);
            assert(spec_backoff_ms(7) == 64000);
            lemma_backoff_monotone(k as nat + 1, 7);
            assert(2 * spec_backoff_ms(k as nat) == spec_backoff_ms(k as nat + 1));
        }
        ms = ms * 2;
        k = k + 1;
    }
    ms
}

/// What the poll loop does after one answer of the report-generation
/// job.
pub enum PollDecision {
    /// The report is complete: fetch it.
    Fetch,
    /// Not ready: wait this many milliseconds, then ask again.
    Retry { delay_ms: u64 },
    /// Give up and report this failure.
    Fail { message: String },
}

impl AWSService {
    /// Decide the poll loop's next move from the decoded job state of
    /// unready answer number `attempt`: a complete job means fetch the
    /// report; a started job backs off and retries while attempts
    /// remain, and fails once the budget is spent; an unrecognized
    /// state is a protocol fault and fails at once.
    pub fn poll_decision(&self, state: Option<ReportResult>, attempt: u32) -> (r: PollDecision)
        requires
            attempt < MAX_POLL_ATTEMPTS,
        ensures
            state == Some(ReportResult::COMPLETE) ==> r is Fetch,
            (state == Some(ReportResult::STARTED) && attempt + 1 < MAX_POLL_ATTEMPTS) ==> (
            r matches PollDecision::Retry { delay_ms } && delay_ms == spec_backoff_ms(
                attempt as nat,
            )),
            (state == Some(ReportResult::STARTED) && attempt + 1 >= MAX_POLL_ATTEMPTS) ==> (
            r matches PollDecision::Fail { message } && message@
                == "credential report was not ready within the retry budget"@),
            state is None ==> (r matches PollDecision::Fail { message } && message@
                == "unrecognized credential report state"@),
    {
        match state {
            Some(ReportResult::COMPLETE) => PollDecision::Fetch,
            Some(ReportResult::STARTED) => {
                if attempt + 1 < MAX_POLL_ATTEMPTS {
                    PollDecision::Retry { delay_ms: backoff_ms(attempt) }
                } else {
                    PollDecision::Fail {
                        message: String::from_str(
                            "credential report was not ready within the retry budget",
                        ),
                    }
                }
            },
            None => PollDecision::Fail {
                message: String::from_str("unrecognized credential report state"),
            },
        }
    }

    /// The query parameters of one IAM call, as the transport sends
    /// them.
    pub fn request_params(&self, action: Action) -> (r: Vec<(String, String)>)
        ensures
            r@.len() == 2,
            r@[0].0@ == "Version"@ && r@[0].1@ == "2010-05-08"@,
            r@[1].0@ == "Action"@,
            action is GenerateCredentialReport ==> r@[1].1@ == "GenerateCredentialReport"@,
            action is GetCredentialReport ==> r@[1].1@ == "GetCredentialReport"@,
    {
        let mut v: Vec<(String, String)> = Vec::new();
        v.push((String::from_str("Version"), String::from_str("2010-05-08")));
        v.push((String::from_str("Action"), action.as_str()));
        v
    }
}

// ---------------------------------------------------------------------
// Decoding the finished report: base64 text wrapping CSV rows.
// ---------------------------------------------------------------------

/// What base64 decoding yields for a text: the encoded bytes, or
/// nothing where the text is not valid base64.
pub uninterp spec fn base64_decoded(s: Seq<char>) -> Option<Seq<u8>>;

/// Relies on rustc-serialize's `str::from_base64`: the decoded bytes
/// are a function of the text alone; text that is not valid base64 is
/// an error, mapped to `None`.
#[verifier::external_body]
fn decode_base64(s: &str) -> (r: Option<Vec<u8>>)
    ensures
        r.deep_view() == base64_decoded(s@),
{
    s.from_base64().ok()
}

/// What the CSV reader parses the report bytes into: every record, in
/// order, as its fields (no header handling, ragged records allowed),
/// or nothing where the bytes are not valid CSV.
pub uninterp spec fn csv_rows_of(bytes: Seq<u8>) -> Option<Seq<Seq<Seq<char>>>>;

/// Relies on csv's `Reader`: the records are a function of the bytes
/// alone; a record the reader rejects is an error, mapped to `None`.
#[verifier::external_body]
fn parse_csv(bytes: &Vec<u8>) -> (r: Option<Vec<Vec<String>>>)
    ensures
        r.deep_view() == csv_rows_of(bytes@),
{
    let reader = csv::ReaderBuilder::new().has_headers(false).flexible(true).from_reader(
        bytes.as_slice(),
    );
    let mut rows = Vec::new();
    for record in reader.into_records() {
        match record {
            Ok(fields) => rows.push(fields.iter().map(|f| f.to_string()).collect()),
            Err(_) => return None,
        }
    }
    Some(rows)
}

/// The number of columns of a credential report row.
pub const REPORT_COLUMNS: usize = 22;

/// A report row is well formed when it has exactly the report's
/// columns and its multi-factor column is a boolean.
pub open spec fn spec_row_ok(row: Seq<Seq<char>>) -> bool {
    &&& row.len() == REPORT_COLUMNS
    &&& (row[7] == "true"@ || row[7] == "false"@)
}

/// `u` is the decoded form of report row `row`, column by column.
pub open spec fn spec_user_matches_row(u: AWSUser, row: Seq<Seq<char>>) -> bool {
    &&& u.user@ == row[0]
    &&& u.arn@ == row[1]
    &&& u.user_creation_time@ == row[2]
    &&& u.password_enabled@ == row[3]
    &&& u.password_last_used@ == row[4]
    &&& u.password_last_changed@ == row[5]
    &&& u.password_next_rotation@ == row[6]
    &&& u.mfa_active == (row[7] == "true"@)
    &&& u.access_key_1_active@ == row[8]
    &&& u.access_key_1_last_rotated@ == row[9]
    &&& u.access_key_1_last_used_date@ == row[10]
    &&& u.access_key_1_last_used_region@ == row[11]
    &&& u.access_key_1_last_used_service@ == row[12]
    &&& u.access_key_2_active@ == row[13]
    &&& u.access_key_2_last_rotated@ == row[14]
    &&& u.access_key_2_last_used_date@ == row[15]
    &&& u.access_key_2_last_used_region@ == row[16]
    &&& u.access_key_2_last_used_service@ == row[17]
    &&& u.cert_1_active@ == row[18]
    &&& u.cert_1_last_rotated@ == row[19]
    &&& u.cert_2_active@ == row[20]
    &&& u.cert_2_last_rotated@ == row[21]
}

/// Every data row of the report decodes: rows beyond the header are
/// well formed.
pub open spec fn spec_report_ok(rows: Seq<Seq<Seq<char>>>) -> bool {
    &&& rows.len() >= 1
    &&& forall|i: int| 1 <= i < rows.len() ==> spec_row_ok(#[trigger] rows[i])
}

/// The flagged accounts the data rows yield: one per row whose
/// multi-factor column is "false", named by its first column and
/// annotated with its second.
pub open spec fn spec_report_flagged(rows: Seq<Seq<Seq<char>>>) -> Seq<UserView>
    decreases rows.len(),
{
    if rows.len() == 0 {
        Seq::empty()
    } else {
        let rest = spec_report_flagged(rows.drop_last());
        let row = rows.last();
        if row[7] == "false"@ {
            rest.push(UserView { name: row[0], email: None, details: Some(row[1]) })
        } else {
            rest
        }
    }
}

fn clone_field(row: &Vec<String>, i: usize) -> (r: String)
    requires
        i < row@.len(),
    ensures
        r@ == row.deep_view()[i as int],
{
    row[i].clone()
}

/// Decode the report's records into accounts: the first row is the
/// header, every later row must carry the report's columns with a
/// boolean multi-factor column.
fn report_users_from_rows(rows: &Vec<Vec<String>>) -> (r: Result<Vec<AWSUser>, String>)
    ensures
        r is Ok <==> spec_report_ok(rows.deep_view()),
        r matches Ok(users) ==> {
            &&& users@.len() == rows.deep_view().len() - 1
            &&& forall|k: int|
                0 <= k < users@.len() ==> spec_user_matches_row(
                    #[trigger] users@[k],
                    rows.deep_view()[k + 1],
                )
        },
        r matches Err(m) ==> (rows.deep_view().len() == 0 && m@ == "credential report is empty"@)
            || (rows.deep_view().len() >= 1 && m@ == "malformed credential report row"@ && !(
        forall|i: int| 1 <= i < rows.deep_view().len() ==> spec_row_ok(#[trigger] rows.deep_view()[i]))),
{
    proof {
        reveal_strlit("true");
        reveal_strlit("false");
    }
    let ghost dv = rows.deep_view();
    proof {
        assert(dv.len() == rows@.len());
    }
    if rows.len() == 0 {
        return Err(String::from_str("credential report is empty"));
    }
    let mut users: Vec<AWSUser> = Vec::new();
    let mut i: usize = 1;
    while i < rows.len()
        invariant
            1 <= i <= rows@.len(),
            dv == rows.deep_view(),
            dv.len() == rows@.len(),
            users@.len() == i - 1,
            forall|k: int| 1 <= k < i ==> spec_row_ok(#[trigger] dv[k]),
            forall|k: int|
                0 <= k < i - 1 ==> spec_user_matches_row(#[trigger] users@[k], dv[k + 1]),
        decreases rows@.len() - i,
    {
        let row = &rows[i];
        proof {
            reveal_strlit("true");
            reveal_strlit("false");
            assert("true"@.len() == 4);
            assert("false"@.len() == 5);
            assert(row.deep_view() == dv[i as int]);
            assert(dv[i as int].len() == row@.len());
        }
        if row.len() != REPORT_COLUMNS {
            proof {
                assert(!spec_row_ok(dv[i as int]));
                assert(!spec_report_ok(dv));
            }
            return Err(String::from_str("malformed credential report row"));
        }
        let mfa_field = clone_field(row, 7);
        let mfa_active: bool;
        if mfa_field == String::from_str("true") {
            mfa_active = true;
        } else if mfa_field == String::from_str("false") {
            mfa_active = false;
        } else {
            proof {
                assert(!spec_row_ok(dv[i as int]));
                assert(!spec_report_ok(dv));
            }
            return Err(String::from_str("malformed credential report row"));
        }
        let u = AWSUser {
            user: clone_field(row, 0),
            arn: clone_field(row, 1),
            user_creation_time: clone_field(row, 2),
            password_enabled: clone_field(row, 3),
            password_last_used: clone_field(row, 4),
            password_last_changed: clone_field(row, 5),
            password_next_rotation: clone_field(row, 6),
            mfa_active,
            access_key_1_active: clone_field(row, 8),
            access_key_1_last_rotated: clone_field(row, 9),
            access_key_1_last_used_date: clone_field(row, 10),
            access_key_1_last_used_region: clone_field(row, 11),
            access_key_1_last_used_service: clone_field(row, 12),
            access_key_2_active: clone_field(row, 13),
            access_key_2_last_rotated: clone_field(row, 14),
            access_key_2_last_used_date: clone_field(row, 15),
            access_key_2_last_used_region: clone_field(row, 16),
            access_key_2_last_used_service: clone_field(row, 17),
            cert_1_active: clone_field(row, 18),
            cert_1_last_rotated: clone_field(row, 19),
            cert_2_active: clone_field(row, 20),
            cert_2_last_rotated: clone_field(row, 21),
        };
        users.push(u);
        i += 1;
    }
    Ok(users)
}

proof fn lemma_report_flagged_matches(
    svc: AWSService,
    users: Seq<AWSUser>,
    rows: Seq<Seq<Seq<char>>>,
)
    requires
        users.len() == rows.len(),
        forall|i: int| 0 <= i < rows.len() ==> spec_row_ok(#[trigger] rows[i]),
        forall|i: int| 0 <= i < users.len() ==> spec_user_matches_row(#[trigger] users[i], rows[i]),
    ensures
        spec_flagged(svc, users) == spec_report_flagged(rows),
    decreases users.len(),
{
    reveal_strlit("true");
    reveal_strlit("false");
    if users.len() > 0 {
        lemma_report_flagged_matches(svc, users.drop_last(), rows.drop_last());
        assert("true"@ !== "false"@) by {
            assert("true"@.len() == 4);
            assert("false"@.len() == 5);
        }
    }
}

impl AWSService {
    /// Audit the accounts from the content the finished report call
    /// handed back: base64 text wrapping CSV rows, the first of which
    /// is the header. Any malformed layer is reported as a failure,
    /// never panicked over.
    pub fn get_users(&self, content: &str) -> (r: Result<GetUsersResult, GetUsersError>)
        ensures
            base64_decoded(content@) is None ==> (r matches Err(e) && e.service_name@
                == self.spec_name() && e.error_message@
                == "credential report is not valid base64"@),
            (base64_decoded(content@) matches Some(bytes) ==> {
                let rows = csv_rows_of(bytes);
                &&& (rows is None ==> (r matches Err(e) && e.service_name@ == self.spec_name()
                    && e.error_message@ == "credential report is not valid CSV"@))
                &&& (rows matches Some(rws) ==> {
                    &&& (spec_report_ok(rws) ==> (r matches Ok(out) && out.service_name@
                        == self.spec_name() && out.users.deep_view() == spec_report_flagged(
                        rws.skip(1),
                    )))
                    &&& ((!spec_report_ok(rws) && rws.len() == 0) ==> (r matches Err(e)
                        && e.service_name@ == self.spec_name() && e.error_message@
                        == "credential report is empty"@))
                    &&& ((!spec_report_ok(rws) && rws.len() >= 1) ==> (r matches Err(e)
                        && e.service_name@ == self.spec_name() && e.error_message@
                        == "malformed credential report row"@))
                })
            }),
    {
        let bytes = match decode_base64(content) {
            Some(b) => b,
            None => {
                return Err(
                    GetUsersError {
                        service_name: self.service_name(),
                        error_message: String::from_str("credential report is not valid base64"),
                    },
                );
            },
        };
        proof {
            assert(bytes.deep_view() =~= bytes@);
        }
        let rows = match parse_csv(&bytes) {
            Some(rws) => rws,
            None => {
                return Err(
                    GetUsersError {
                        service_name: self.service_name(),
                        error_message: String::from_str("credential report is not valid CSV"),
                    },
                );
            },
        };
        match report_users_from_rows(&rows) {
            Ok(users) => {
                let out = flag_records_of(self, &users);
                proof {
                    let dv = rows.deep_view();
                    assert(users@.len() == dv.skip(1).len());
                    assert forall|i: int| 0 <= i < dv.skip(1).len() implies spec_row_ok(
                        #[trigger] dv.skip(1)[i],
                    ) by {
                        assert(dv.skip(1)[i] == dv[i + 1]);
                    }
                    assert forall|i: int| 0 <= i < users@.len() implies spec_user_matches_row(
                        #[trigger] users@[i],
                        dv.skip(1)[i],
                    ) by {
                        assert(dv.skip(1)[i] == dv[i + 1]);
                    }
                    lemma_report_flagged_matches(*self, users@, dv.skip(1));
                }
                Ok(out)
            },
            Err(m) => Err(GetUsersError { service_name: self.service_name(), error_message: m }),
        }
    }
}

} // verus!
