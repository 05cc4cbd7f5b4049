//! GitHub Enterprise deployments of Copilot.
//!
//! An enterprise account logs in at its own GitHub host and talks to its own
//! Copilot endpoint, so every URL derives from the deployment:
//!
//! | | dotcom | enterprise (`<domain>`) |
//! |---|---|---|
//! | device code | `github.com/login/device/code` | `<domain>/login/device/code` |
//! | access token | `github.com/login/oauth/access_token` | `<domain>/login/oauth/access_token` |
//! | Copilot API | `api.githubcopilot.com` | `copilot-api.<domain>` |
//! | REST API | `api.github.com` | `api.<domain>` |
//!
//! Apart from its host a seat has a plan. GitHub reports the endpoint of a seat
//! at `/copilot_internal/user`; that one is preferred over every URL above.

use crate::copilot_catalog::CopilotAccountType;
use crate::json::{
    is_record, object1, pretty_json_text, slot, string_in, to_pretty_text, Json, JsonView,
};
use crate::keyed::TextMap;
use crate::records::{
    field_views, fits, lemma_told_is_read, no_fields, object_parts, place_from, put_field,
    read_typed, record, tells, told, typed, typed_fields, Shape, ShapeView,
};
use crate::text::{
    ascii_lowered, ascii_small, before_any, begins, concat, has_char, owned, same, split_before,
    starts_with, strip_prefix, to_ascii_lowercase, trim, trim_end, trim_end_of, trim_start,
    trimmed, trimmed_end_of, white_space,
};
use vstd::prelude::*;

verus! {

/// The environment variable that overrides the enterprise domain. Blank means
/// dotcom.
pub const COPILOT_ENTERPRISE_URL_ENV: &'static str = "GITHUB_COPILOT_ENTERPRISE_URL";

/// The base URL of the Copilot API on github.com.
pub const COPILOT_API_BASE: &'static str = "https://api.githubcopilot.com";

/// Which GitHub host serves an account.
#[derive(Debug, PartialEq, Eq)]
pub enum CopilotDeployment {
    /// github.com.
    DotCom,
    /// A GitHub Enterprise host in normal form, such as `company.ghe.com`.
    Enterprise(String),
}

/// The model of [`CopilotDeployment`].
pub enum DeploymentView {
    DotCom,
    Enterprise(Seq<char>),
}

impl View for CopilotDeployment {
    type V = DeploymentView;

    open spec fn view(&self) -> DeploymentView {
        match *self {
            CopilotDeployment::DotCom => DeploymentView::DotCom,
            CopilotDeployment::Enterprise(domain) => DeploymentView::Enterprise(domain@),
        }
    }
}

impl Default for CopilotDeployment {
    fn default() -> (r: CopilotDeployment)
        ensures
            r@ == DeploymentView::DotCom,
    {
        CopilotDeployment::DotCom
    }
}

/// Why a text names no enterprise domain.
#[derive(Debug, PartialEq, Eq)]
pub enum DomainError {
    /// There is nothing but white space.
    Empty,
    /// The text is no domain.
    Invalid(String),
    /// The text holds a port or a scheme.
    Port(String),
}

/// The model of [`DomainError`].
pub enum DomainFault {
    Empty,
    Invalid(Seq<char>),
    Port(Seq<char>),
}

impl View for DomainError {
    type V = DomainFault;

    open spec fn view(&self) -> DomainFault {
        match *self {
            DomainError::Empty => DomainFault::Empty,
            DomainError::Invalid(input) => DomainFault::Invalid(input@),
            DomainError::Port(input) => DomainFault::Port(input@),
        }
    }
}

/// The message for a text that names no enterprise domain.
pub open spec fn fault_text(fault: DomainFault) -> Seq<char> {
    match fault {
        DomainFault::Empty => "Enterprise domain must not be empty"@,
        DomainFault::Invalid(input) => "'"@ + input
            + "' is not a valid domain (expected something like 'company.ghe.com')"@,
        DomainFault::Port(input) => "Enterprise domain must not include a port or scheme: '"@
            + input + "'"@,
    }
}

impl DomainError {
    /// The message for the user.
    pub fn to_text(&self) -> (r: String)
        ensures
            r@ == fault_text(self@),
    {
        match self {
            DomainError::Empty => owned("Enterprise domain must not be empty"),
            DomainError::Invalid(input) => {
                let mut r = owned("'");
                r.append(input.as_str());
                r.append("' is not a valid domain (expected something like 'company.ghe.com')");
                r
            },
            DomainError::Port(input) => {
                let mut r = owned("Enterprise domain must not include a port or scheme: '");
                r.append(input.as_str());
                r.append("'");
                r
            },
        }
    }
}

/// A text without the scheme in front.
pub open spec fn without_scheme(s: Seq<char>) -> Seq<char> {
    if begins(s, "https://"@) {
        s.skip("https://"@.len() as int)
    } else if begins(s, "http://"@) {
        s.skip("http://"@.len() as int)
    } else {
        s
    }
}

/// The host in a text that names one, without scheme, path, query, fragment and
/// trailing dots, in small letters.
pub open spec fn host_in(input: Seq<char>) -> Seq<char> {
    ascii_lowered(
        trimmed_end_of(trimmed(before_any(without_scheme(trimmed(input)), "/?#"@)), '.'),
    )
}

/// The normal form of a domain, or why the text names none.
pub open spec fn normal_domain(input: Seq<char>) -> Result<Seq<char>, DomainFault> {
    let host = host_in(input);
    if trimmed(input).len() == 0 {
        Err(DomainFault::Empty)
    } else if host.len() == 0 || !host.contains('.') || host.contains(' ') || host.contains('@') {
        Err(DomainFault::Invalid(input))
    } else if host.contains(':') {
        Err(DomainFault::Port(input))
    } else {
        Ok(host)
    }
}

/// Brings a domain into normal form: `company.ghe.com` for that,
/// `https://company.ghe.com`, `https://company.ghe.com/` and the like.
pub fn normalize_domain(input: &str) -> (r: Result<String, DomainError>)
    ensures
        (match r {
            Ok(domain) => normal_domain(input@) == Ok::<Seq<char>, DomainFault>(domain@),
            Err(error) => normal_domain(input@) == Err::<Seq<char>, DomainFault>(error@),
        }),
{
    let whole = trim(input);
    if whole.is_empty() {
        return Err(DomainError::Empty);
    }
    let rest = match strip_prefix(whole, "https://") {
        Some(rest) => rest,
        None => match strip_prefix(whole, "http://") {
            Some(rest) => rest,
            None => whole,
        },
    };
    let host = to_ascii_lowercase(trim_end_of(trim(split_before(rest, "/?#")), '.'));
    if host.as_str().is_empty() || !has_char(host.as_str(), '.') || has_char(host.as_str(), ' ')
        || has_char(host.as_str(), '@') {
        return Err(DomainError::Invalid(owned(input)));
    }
    if has_char(host.as_str(), ':') {
        return Err(DomainError::Port(owned(input)));
    }
    Ok(host)
}

/// The deployment that a text names: dotcom where it names github.com.
pub open spec fn deployment_named(input: Seq<char>) -> Result<DeploymentView, DomainFault> {
    match normal_domain(input) {
        Ok(domain) => if domain == "github.com"@ || domain == "api.github.com"@ {
            Ok(DeploymentView::DotCom)
        } else {
            Ok(DeploymentView::Enterprise(domain))
        },
        Err(fault) => Err(fault),
    }
}

/// The host that owns a deployment's credentials.
pub open spec fn host_of(deployment: DeploymentView) -> Seq<char> {
    match deployment {
        DeploymentView::DotCom => "github.com"@,
        DeploymentView::Enterprise(domain) => domain,
    }
}

/// The base URL of a deployment's Copilot API.
pub open spec fn default_api_base(deployment: DeploymentView) -> Seq<char> {
    match deployment {
        DeploymentView::DotCom => "https://api.githubcopilot.com"@,
        DeploymentView::Enterprise(domain) => "https://copilot-api."@ + domain,
    }
}

/// The base URL of a deployment's REST API.
pub open spec fn rest_base(deployment: DeploymentView) -> Seq<char> {
    match deployment {
        DeploymentView::DotCom => "https://api.github.com"@,
        DeploymentView::Enterprise(domain) => "https://api."@ + domain,
    }
}

impl CopilotDeployment {
    /// The deployment that a user's input names.
    pub fn from_domain_input(input: &str) -> (r: Result<CopilotDeployment, DomainError>)
        ensures
            (match r {
                Ok(deployment) => deployment_named(input@) == Ok::<DeploymentView, DomainFault>(
                    deployment@,
                ),
                Err(error) => deployment_named(input@) == Err::<DeploymentView, DomainFault>(
                    error@,
                ),
            }),
    {
        match normalize_domain(input) {
            Ok(domain) => {
                if same(domain.as_str(), "github.com") || same(domain.as_str(), "api.github.com") {
                    Ok(CopilotDeployment::DotCom)
                } else {
                    Ok(CopilotDeployment::Enterprise(domain))
                }
            },
            Err(error) => Err(error),
        }
    }

    /// The enterprise domain, where there is one.
    pub fn enterprise_domain(&self) -> (r: Option<&str>)
        ensures
            (match r {
                Some(domain) => self@ == DeploymentView::Enterprise(domain@),
                None => self@ is DotCom,
            }),
    {
        match self {
            CopilotDeployment::DotCom => None,
            CopilotDeployment::Enterprise(domain) => Some(domain.as_str()),
        }
    }

    /// Whether this is an enterprise host.
    pub fn is_enterprise(&self) -> (r: bool)
        ensures
            r == (self@ is Enterprise),
    {
        match self {
            CopilotDeployment::DotCom => false,
            CopilotDeployment::Enterprise(_) => true,
        }
    }

    /// The host that owns the credential, so that a dotcom token and an
    /// enterprise token can stand side by side.
    pub fn host(&self) -> (r: &str)
        ensures
            r@ == host_of(self@),
    {
        match self {
            CopilotDeployment::DotCom => "github.com",
            CopilotDeployment::Enterprise(domain) => domain.as_str(),
        }
    }

    /// Where a login asks for a device code.
    pub fn device_code_url(&self) -> (r: String)
        ensures
            r@ == "https://"@ + host_of(self@) + "/login/device/code"@,
    {
        let mut r = concat("https://", self.host());
        r.append("/login/device/code");
        r
    }

    /// Where a login asks for its access token.
    pub fn access_token_url(&self) -> (r: String)
        ensures
            r@ == "https://"@ + host_of(self@) + "/login/oauth/access_token"@,
    {
        let mut r = concat("https://", self.host());
        r.append("/login/oauth/access_token");
        r
    }

    /// The base URL of the Copilot API. Enterprise deployments serve it at
    /// `copilot-api.<domain>`; the dotcom one rejects their tokens.
    pub fn api_base(&self) -> (r: String)
        ensures
            r@ == default_api_base(self@),
    {
        match self {
            CopilotDeployment::DotCom => owned(COPILOT_API_BASE),
            CopilotDeployment::Enterprise(domain) => concat(
                "https://copilot-api.",
                domain.as_str(),
            ),
        }
    }

    /// The base URL of the REST API.
    pub fn rest_api_base(&self) -> (r: String)
        ensures
            r@ == rest_base(self@),
    {
        match self {
            CopilotDeployment::DotCom => owned("https://api.github.com"),
            CopilotDeployment::Enterprise(domain) => concat("https://api.", domain.as_str()),
        }
    }

    /// The deployment as shown to the user.
    pub fn to_text(&self) -> (r: String)
        ensures
            r@ == (match self@ {
                DeploymentView::DotCom => "github.com"@,
                DeploymentView::Enterprise(domain) => domain + " (enterprise)"@,
            }),
    {
        match self {
            CopilotDeployment::DotCom => owned("github.com"),
            CopilotDeployment::Enterprise(domain) => concat(domain.as_str(), " (enterprise)"),
        }
    }
}

/// The deployment that a record names.
pub open spec fn deployment_filed(record: JsonView) -> Option<DeploymentView> {
    if !is_record(record, 1) {
        None
    } else {
        match string_in(slot(record, 0, "enterprise_domain"@)) {
            Some(domain) => match deployment_named(domain) {
                Ok(deployment) => Some(deployment),
                Err(_) => None,
            },
            None => None,
        }
    }
}

/// The record of a saved deployment.
pub open spec fn deployment_shape() -> ShapeView {
    ShapeView::Record(
        seq![
            ("enterprise_domain"@, ShapeView::Value),
        ],
    )
}

fn deployment_record_shape() -> (r: Shape)
    ensures
        r@ == deployment_shape(),
{
    let mut fields = no_fields();
    put_field(&mut fields, "enterprise_domain", Shape::Value);
    assert(field_views(fields@) =~= deployment_shape()->Record_0);
    record(fields)
}

/// The deployment that the text of a saved record names.
pub open spec fn saved_deployment(record: Seq<char>) -> Option<DeploymentView> {
    match typed(record, deployment_shape()) {
        Some(value) => deployment_filed(value),
        None => None,
    }
}

/// The deployment that a record names.
pub fn deployment_in(record: &Json) -> (r: Option<CopilotDeployment>)
    ensures
        (match r {
            Some(deployment) => deployment_filed(record@) == Some(deployment@),
            None => deployment_filed(record@) is None,
        }),
{
    if !record.is_record(1) {
        return None;
    }
    match record.slot(0, "enterprise_domain") {
        Some(Json::Str(domain)) => match CopilotDeployment::from_domain_input(domain.as_str()) {
            Ok(deployment) => Some(deployment),
            Err(_) => None,
        },
        _ => None,
    }
}

/// The deployment that the text of a saved record names; nothing where the text
/// is no record, or names no domain.
pub fn load_persisted_deployment(record: &str) -> (r: Option<CopilotDeployment>)
    ensures
        (match r {
            Some(deployment) => saved_deployment(record@) == Some(deployment@),
            None => saved_deployment(record@) is None,
        }),
{
    match read_typed(record, &deployment_record_shape()) {
        Some(value) => deployment_in(&value),
        None => None,
    }
}

/// The record of a deployment: its domain, and nothing for dotcom.
pub open spec fn deployment_record(deployment: DeploymentView) -> JsonView {
    match deployment {
        DeploymentView::DotCom => JsonView::Object(seq![]),
        DeploymentView::Enterprise(domain) => JsonView::Object(
            seq![("enterprise_domain"@, JsonView::Str(domain))],
        ),
    }
}

/// The text to save for a deployment.
pub fn save_deployment(deployment: &CopilotDeployment) -> (r: String)
    ensures
        r@ == pretty_json_text(deployment_record(deployment@)),
        typed(r@, deployment_shape()) == Some(deployment_record(deployment@)),
{
    let record = match deployment {
        CopilotDeployment::DotCom => {
            let entries: Vec<(String, Json)> = Vec::new();
            proof {
                crate::json::lemma_object_view(entries);
                assert(crate::json::entry_views(entries@) =~= seq![]);
            }
            Json::Object(entries)
        },
        CopilotDeployment::Enterprise(domain) => object1(
            "enterprise_domain",
            Json::text(domain.as_str()),
        ),
    };
    let r = to_pretty_text(&record);
    proof {
        lemma_deployment_read(r@, deployment@);
    }
    r
}

proof fn lemma_deployment_read(text: Seq<char>, deployment: DeploymentView)
    requires
        tells(text, deployment_record(deployment), 1),
    ensures
        typed(text, deployment_shape()) == Some(deployment_record(deployment)),
{
    let value = deployment_record(deployment);
    let entries = value->Object_0;
    let fields = deployment_shape()->Record_0;
    assert forall|j: int| 0 <= j < entries.len() implies (match place_from(
        fields,
        (#[trigger] entries[j]).0,
        0,
    ) {
        Some(at) => 0 <= at < fields.len() && fits(entries[j].1, fields[at].1),
        None => false,
    }) by {
        assert(fields[0].0 == entries[j].0);
    }
    lemma_told_is_read(text, value, deployment_shape(), 1);
    let parts = object_parts(text)->0;
    let done = typed_fields(parts, fields, parts.len() as int)->0;
    assert(typed(text, deployment_shape()) == Some(JsonView::Object(done)));
    assert(typed_fields(parts, fields, 0) == Some(Seq::<(Seq<char>, JsonView)>::empty()));
    if entries.len() == 1 {
        assert(told(parts[0].0, entries));
        assert(parts[0].0 == entries[0].0);
        assert(fields[0].0 == parts[0].0);
        assert(place_from(fields, parts[0].0, 0) == Some(0int));
        assert(tells(parts[0].1, entries[0].1, 0));
        assert(fields[0].1 == ShapeView::Value);
        assert(typed(parts[0].1, fields[0].1) == Some(entries[0].1));
        let none = Seq::<(Seq<char>, JsonView)>::empty();
        assert(crate::json::entry_from(none, parts[0].0, 0) is None);
        assert(typed_fields(parts, fields, 1) == Some(none.push(entries[0])));
    }
    assert(done =~= entries);
}

/// The deployment to use: what the environment says, else what is saved, else
/// dotcom. A blank override means dotcom whatever is saved; one that names no
/// domain is passed over.
pub open spec fn deployment_for(over: Option<Seq<char>>, saved: Option<Seq<char>>) -> DeploymentView {
    let stored = match saved {
        Some(record) => match saved_deployment(record) {
            Some(deployment) => deployment,
            None => DeploymentView::DotCom,
        },
        None => DeploymentView::DotCom,
    };
    match over {
        Some(raw) => if trimmed(raw).len() == 0 {
            DeploymentView::DotCom
        } else {
            match deployment_named(trimmed(raw)) {
                Ok(deployment) => deployment,
                Err(_) => stored,
            }
        },
        None => stored,
    }
}

/// The model of a text that may be absent.
pub open spec fn str_option(t: Option<&str>) -> Option<Seq<char>> {
    match t {
        Some(t) => Some(t@),
        None => None,
    }
}

/// The deployment to use, given the environment's override and the saved record.
pub fn current_deployment(over: Option<&str>, saved: Option<&str>) -> (r: CopilotDeployment)
    ensures
        r@ == deployment_for(str_option(over), str_option(saved)),
{
    match over {
        Some(raw) => {
            let raw = trim(raw);
            if raw.is_empty() {
                return CopilotDeployment::DotCom;
            }
            match CopilotDeployment::from_domain_input(raw) {
                Ok(deployment) => {
                    return deployment;
                },
                Err(_) => {},
            }
        },
        None => {},
    }
    match saved {
        Some(record) => match load_persisted_deployment(record) {
            Some(deployment) => deployment,
            None => CopilotDeployment::DotCom,
        },
        None => CopilotDeployment::DotCom,
    }
}

/// What GitHub reports of an authenticated seat.
#[derive(Debug)]
pub struct CopilotUserInfo {
    pub login: String,
    /// `individual`, `business`, `enterprise`, `free` and the like.
    pub copilot_plan: String,
    pub access_type_sku: String,
    pub chat_enabled: bool,
    pub organization_login_list: Vec<String>,
    pub endpoints: Option<CopilotEndpoints>,
}

/// The service URLs that GitHub assigns to a seat.
#[derive(Debug)]
pub struct CopilotEndpoints {
    /// The base of the Copilot API. It is preferred over any other URL.
    pub api: Option<String>,
}

/// The API base in an assignment: only an `https` one counts, without slashes at
/// its end.
pub open spec fn assigned_base(api: Seq<char>) -> Option<Seq<char>> {
    if begins(trimmed(api), "https://"@) {
        Some(trimmed_end_of(trimmed(api), '/'))
    } else {
        None
    }
}

/// The kind of account that a plan is.
pub open spec fn plan_kind(plan: Seq<char>) -> CopilotAccountType {
    let name = ascii_lowered(trimmed(plan));
    if name == "enterprise"@ {
        CopilotAccountType::Enterprise
    } else if name == "business"@ {
        CopilotAccountType::Business
    } else if name == "individual"@ || name == "free"@ || name == "pro"@ || name == "pro_plus"@
        || name == "individual_pro"@ {
        CopilotAccountType::Individual
    } else {
        CopilotAccountType::Unknown
    }
}

impl CopilotUserInfo {
    /// The API base that the seat was given.
    pub open spec fn seat_base(self) -> Option<Seq<char>> {
        match self.endpoints {
            Some(endpoints) => match endpoints.api {
                Some(api) => assigned_base(api@),
                None => None,
            },
            None => None,
        }
    }

    /// The base of the Copilot API that GitHub assigned to this seat.
    pub fn api_base(&self) -> (r: Option<&str>)
        ensures
            str_option(r) == self.seat_base(),
    {
        match &self.endpoints {
            Some(endpoints) => match &endpoints.api {
                Some(api) => {
                    let base = trim(api.as_str());
                    if starts_with(base, "https://") {
                        Some(trim_end_of(base, '/'))
                    } else {
                        None
                    }
                },
                None => None,
            },
            None => None,
        }
    }

    /// The kind of account that the plan is.
    pub fn account_type(&self) -> (r: CopilotAccountType)
        ensures
            r == plan_kind(self.copilot_plan@),
    {
        let name = to_ascii_lowercase(trim(self.copilot_plan.as_str()));
        let name = name.as_str();
        if same(name, "enterprise") {
            CopilotAccountType::Enterprise
        } else if same(name, "business") {
            CopilotAccountType::Business
        } else if same(name, "individual") || same(name, "free") || same(name, "pro") || same(
            name,
            "pro_plus",
        ) || same(name, "individual_pro") {
            CopilotAccountType::Individual
        } else {
            CopilotAccountType::Unknown
        }
    }
}

/// What SHA-256 makes of the UTF-8 bytes of a text.
pub uninterp spec fn sha256(text: Seq<char>) -> Seq<u8>;

/// The SHA-256 digest of a text's bytes (`Sha256::digest` of the `sha2` crate):
/// thirty-two bytes that depend on the text alone. Which bytes stays unsaid, and
/// so does that two texts differ in them.
#[verifier::external_body]
fn token_fingerprint(token: &str) -> (r: [u8; 32])
    ensures
        r@ == sha256(token@),
{
    <sha2::Sha256 as sha2::Digest>::digest(token.as_bytes()).into()
}

/// The small hexadecimal digit for `n`.
pub open spec fn hex_digit(n: int) -> char {
    if 0 <= n < 10 {
        (('0' as int) + n) as char
    } else {
        (('a' as int) + (n - 10)) as char
    }
}

/// Two digits for each byte, the high one first.
pub open spec fn hex_text(bytes: Seq<u8>) -> Seq<char> {
    Seq::new(
        bytes.len() * 2,
        |i: int|
            if i % 2 == 0 {
                hex_digit(bytes[i / 2] as int / 16)
            } else {
                hex_digit(bytes[i / 2] as int % 16)
            },
    )
}

/// Writes bytes in hexadecimal (`hex::encode`): two small digits for each byte,
/// the high one first.
#[verifier::external_body]
fn hex_encode(bytes: &[u8; 32]) -> (r: String)
    ensures
        r@ == hex_text(bytes@),
{
    hex::encode(bytes)
}

/// The key of a token.
pub open spec fn cache_key(token: Seq<char>) -> Seq<char> {
    hex_text(sha256(token))
}

/// A stable key for what is kept for an account. The token cannot be read back
/// from it.
pub fn token_cache_key(token: &str) -> (r: String)
    ensures
        r@ == cache_key(token@),
{
    hex_encode(&token_fingerprint(token))
}

/// The API bases that seats reported, by the keys of their tokens.
///
/// A process can hold an old and a new login for a while. Neither may borrow the
/// other account's endpoint, so each stands under its own token's key.
pub struct DiscoveredApiBases {
    bases: TextMap<String>,
    generation: u64,
}

/// The model of [`DiscoveredApiBases`].
pub struct BasesView {
    pub bases: Map<Seq<char>, Seq<char>>,
    pub generation: u64,
}

/// The models of the texts in a map.
pub open spec fn text_values(m: Map<Seq<char>, String>) -> Map<Seq<char>, Seq<char>> {
    Map::new(|k: Seq<char>| m.contains_key(k), |k: Seq<char>| m[k]@)
}

impl View for DiscoveredApiBases {
    type V = BasesView;

    closed spec fn view(&self) -> BasesView {
        BasesView { bases: text_values(self.bases@), generation: self.generation }
    }
}

/// The form in which an API base is kept.
pub open spec fn tidy_base(base: Seq<char>) -> Seq<char> {
    trimmed_end_of(trimmed(base), '/')
}

/// The bases after `base` has been reported for `token`. A blank one is not
/// kept.
pub open spec fn recorded(known: BasesView, token: Seq<char>, base: Seq<char>) -> BasesView {
    if tidy_base(base).len() == 0 {
        known
    } else {
        BasesView { bases: known.bases.insert(cache_key(token), tidy_base(base)), ..known }
    }
}

/// The generation after `generation`.
pub open spec fn next_generation(generation: u64) -> u64 {
    if generation == u64::MAX {
        0
    } else {
        (generation + 1) as u64
    }
}

impl DiscoveredApiBases {
    /// No bases.
    pub fn new() -> (r: DiscoveredApiBases)
        ensures
            r@ == (BasesView { bases: Map::empty(), generation: 1 }),
    {
        let r = DiscoveredApiBases { bases: TextMap::new(), generation: 1 };
        assert(text_values(r.bases@) =~= Map::<Seq<char>, Seq<char>>::empty());
        r
    }

    /// The current generation: a discovery that starts now may report under it.
    pub fn generation(&self) -> (r: u64)
        ensures
            r == self@.generation,
    {
        self.generation
    }
}

/// Keeps an API base that was discovered for one credential.
pub fn record_discovered_api_base_for(known: &mut DiscoveredApiBases, token: &str, base: &str)
    ensures
        final(known)@ == recorded(old(known)@, token@, base@),
{
    let base = trim_end_of(trim(base), '/');
    if base.is_empty() {
        return ;
    }
    known.bases.insert(token_cache_key(token), owned(base));
    assert(text_values(known.bases@) =~= old(known)@.bases.insert(cache_key(token@), base@));
}

/// Keeps an API base, unless something has been forgotten since its discovery
/// began.
pub fn record_discovered_api_base_if_current(
    known: &mut DiscoveredApiBases,
    token: &str,
    base: &str,
    generation: u64,
)
    ensures
        final(known)@ == (if generation == old(known)@.generation {
            recorded(old(known)@, token@, base@)
        } else {
            old(known)@
        }),
{
    if known.generation == generation {
        record_discovered_api_base_for(known, token, base);
    }
}

/// The API base that was discovered for `token`.
pub open spec fn base_known(known: BasesView, token: Seq<char>) -> Option<Seq<char>> {
    if known.bases.contains_key(cache_key(token)) {
        Some(known.bases[cache_key(token)])
    } else {
        None
    }
}

/// The API base that was discovered for `token`, and for no other token.
pub fn discovered_api_base_for(known: &DiscoveredApiBases, token: &str) -> (r: Option<String>)
    ensures
        crate::message::text_option(r) == base_known(known@, token@),
{
    match known.bases.get(token_cache_key(token).as_str()) {
        Some(base) => Some(base.clone()),
        None => None,
    }
}

/// What is known after the base for `token` has been forgotten.
pub open spec fn forgotten(known: BasesView, token: Seq<char>) -> BasesView {
    BasesView {
        bases: known.bases.remove(cache_key(token)),
        generation: next_generation(known.generation),
    }
}

/// Forgets the API base for `token`, and no other.
pub fn clear_discovered_api_base_for(known: &mut DiscoveredApiBases, token: &str)
    ensures
        final(known)@ == forgotten(old(known)@, token@),
{
    known.generation = known.generation.wrapping_add(1);
    let _ = known.bases.remove(token_cache_key(token).as_str());
    assert(text_values(known.bases@) =~= old(known)@.bases.remove(cache_key(token@)));
}

/// Forgets every API base.
pub fn clear_discovered_api_base(known: &mut DiscoveredApiBases)
    ensures
        final(known)@ == (BasesView {
            bases: Map::empty(),
            generation: next_generation(old(known)@.generation),
        }),
{
    known.generation = known.generation.wrapping_add(1);
    known.bases.clear();
    assert(text_values(known.bases@) =~= Map::<Seq<char>, Seq<char>>::empty());
}

/// The base URL for a token's requests.
pub open spec fn base_for(known: BasesView, token: Seq<char>, deployment: DeploymentView) -> Seq<
    char,
> {
    match base_known(known, token) {
        Some(base) => base,
        None => default_api_base(deployment),
    }
}

/// The base URL for a token's requests: what was discovered for it, else the
/// deployment's default.
pub fn api_base_for(known: &DiscoveredApiBases, token: &str, deployment: &CopilotDeployment) -> (r:
    String)
    ensures
        r@ == base_for(known@, token@, deployment@),
{
    match discovered_api_base_for(known, token) {
        Some(base) => base,
        None => deployment.api_base(),
    }
}

/// Where a seat is looked up.
pub fn user_info_url(deployment: &CopilotDeployment) -> (r: String)
    ensures
        r@ == rest_base(deployment@) + "/copilot_internal/user"@,
{
    let mut r = deployment.rest_api_base();
    r.append("/copilot_internal/user");
    r
}

/// The message for a seat that could not be looked up; `status` is the status
/// line's code and reason.
pub fn user_info_failure(status: &str, body: &str) -> (r: String)
    ensures
        r@ == "Copilot seat lookup failed (HTTP "@ + status@ + "): "@ + body@,
{
    let mut r = concat("Copilot seat lookup failed (HTTP ", status);
    r.append("): ");
    r.append(body);
    r
}

/// Keeps what a seat lookup for `token` reported: the seat's own base, else the
/// deployment's. `generation` is the one in which the lookup began.
pub fn record_seat(
    known: &mut DiscoveredApiBases,
    token: &str,
    info: &CopilotUserInfo,
    deployment: &CopilotDeployment,
    generation: u64,
)
    ensures
        final(known)@ == (if generation == old(known)@.generation {
            recorded(
                old(known)@,
                token@,
                match info.seat_base() {
                    Some(base) => base,
                    None => default_api_base(deployment@),
                },
            )
        } else {
            old(known)@
        }),
{
    match info.api_base() {
        Some(base) => {
            record_discovered_api_base_if_current(known, token, base, generation);
        },
        None => {
            let base = deployment.api_base();
            record_discovered_api_base_if_current(known, token, base.as_str(), generation);
        },
    }
}

/// What to do next to find a token's endpoint.
#[derive(Debug, PartialEq)]
pub enum Discovery {
    /// This is the base.
    Use(String),
    /// Look the seat up.
    LookUp,
    /// Give up, with this message.
    GiveUp(String),
}

/// What to do next to find the endpoint for `token`, after `lookups` lookups of
/// its seat. Three lookups are made at most.
pub fn ensure_api_base(known: &DiscoveredApiBases, token: &str, lookups: u32) -> (r: Discovery)
    ensures
        lookups >= 3 ==> (r matches Discovery::GiveUp(message) && message@
            == "Copilot credentials changed repeatedly during endpoint discovery"@),
        lookups < 3 ==> (match base_known(known@, token@) {
            Some(base) => r matches Discovery::Use(b) && b@ == base,
            None => r is LookUp,
        }),
{
    if lookups >= 3 {
        return Discovery::GiveUp(
            owned("Copilot credentials changed repeatedly during endpoint discovery"),
        );
    }
    match discovered_api_base_for(known, token) {
        Some(base) => Discovery::Use(base),
        None => Discovery::LookUp,
    }
}

/// The base URL to capture for requests: what the search for the token's
/// endpoint found, else what is known or constructed without it.
pub fn ensure_request_api_base(
    found: Option<String>,
    known: &DiscoveredApiBases,
    token: &str,
    deployment: &CopilotDeployment,
) -> (r: String)
    ensures
        r@ == (match found {
            Some(base) => base@,
            None => base_for(known@, token@, deployment@),
        }),
{
    match found {
        Some(base) => base,
        None => api_base_for(known, token, deployment),
    }
}

/// A discovered endpoint wins over whatever the deployment constructs.
pub proof fn law_discovered_base_wins(
    known: BasesView,
    token: Seq<char>,
    base: Seq<char>,
    deployment: DeploymentView,
)
    requires
        tidy_base(base).len() > 0,
    ensures
        base_for(recorded(known, token, base), token, deployment) == tidy_base(base),
{
}

/// Forgetting one credential's endpoint, or recording it, leaves the endpoints
/// of credentials with another key as they are.
pub proof fn law_other_credentials_are_left_alone(
    known: BasesView,
    token: Seq<char>,
    other: Seq<char>,
    base: Seq<char>,
)
    requires
        cache_key(token) != cache_key(other),
    ensures
        base_known(forgotten(known, token), other) == base_known(known, other),
        base_known(recorded(known, token, base), other) == base_known(known, other),
        base_known(forgotten(known, token), token) is None,
{
}

/// A discovery that began before something was forgotten can no longer report:
/// its generation is not the current one.
pub proof fn law_forgetting_ends_running_discoveries(known: BasesView, token: Seq<char>)
    ensures
        forgotten(known, token).generation != known.generation,
{
}

/// A saved deployment is the one that a later session uses, unless the
/// environment overrides it. For an enterprise host in normal form that is the
/// host itself; for dotcom it is dotcom.
pub proof fn law_saved_deployment_survives(deployment: DeploymentView, record: Seq<char>)
    requires
        typed(record, deployment_shape()) == Some(deployment_record(deployment)),
        deployment matches DeploymentView::Enterprise(domain) ==> deployment_named(domain)
            == Ok::<DeploymentView, DomainFault>(deployment),
    ensures
        deployment_for(None, Some(record)) == deployment,
{
    reveal_with_fuel(crate::json::entry_from, 2);
}

/// A blank override means dotcom, whatever is saved.
pub proof fn law_blank_override_means_dotcom(over: Seq<char>, saved: Option<Seq<char>>)
    requires
        trimmed(over).len() == 0,
    ensures
        deployment_for(Some(over), saved) == DeploymentView::DotCom,
{
}

proof fn lemma_trim_keeps(s: Seq<char>)
    requires
        s.len() > 0,
        !white_space(s[0]),
        !white_space(s.last()),
    ensures
        trimmed(s) == s,
{
}

proof fn lemma_before_none(s: Seq<char>, stops: Seq<char>)
    requires
        forall|i: int| 0 <= i < s.len() ==> !stops.contains(#[trigger] s[i]),
    ensures
        before_any(s, stops) == s,
    decreases s.len(),
{
    if s.len() > 0 {
        assert forall|i: int| 0 <= i < s.skip(1).len() implies !stops.contains(
            #[trigger] s.skip(1)[i],
        ) by {
            assert(s.skip(1)[i] == s[i + 1]);
        }
        lemma_before_none(s.skip(1), stops);
        assert(seq![s[0]] + s.skip(1) =~= s);
    }
}

proof fn lemma_before_has_none(s: Seq<char>, stops: Seq<char>)
    ensures
        forall|i: int|
            0 <= i < before_any(s, stops).len() ==> !stops.contains(
                #[trigger] before_any(s, stops)[i],
            ),
    decreases s.len(),
{
    if s.len() > 0 && !stops.contains(s[0]) {
        lemma_before_has_none(s.skip(1), stops);
        let b = before_any(s.skip(1), stops);
        assert forall|i: int| 0 <= i < before_any(s, stops).len() implies !stops.contains(
            #[trigger] before_any(s, stops)[i],
        ) by {
            if i > 0 {
                assert(before_any(s, stops)[i] == b[i - 1]);
            }
        }
    }
}

proof fn lemma_trim_end_front(s: Seq<char>)
    ensures
        trim_end(s).len() <= s.len(),
        trim_end(s) == s.take(trim_end(s).len() as int),
    decreases s.len(),
{
    if s.len() > 0 && white_space(s.last()) {
        lemma_trim_end_front(s.drop_last());
        assert(s.take(trim_end(s).len() as int) =~= s.drop_last().take(trim_end(s).len() as int));
    } else {
        assert(s.take(s.len() as int) =~= s);
    }
}

proof fn lemma_trim_start_back(s: Seq<char>)
    ensures
        trim_start(s).len() <= s.len(),
        trim_start(s) == s.skip(s.len() - trim_start(s).len()),
        trim_start(s).len() > 0 ==> !white_space(trim_start(s)[0]),
    decreases s.len(),
{
    if s.len() > 0 && white_space(s[0]) {
        lemma_trim_start_back(s.skip(1));
        assert(s.skip(s.len() - trim_start(s).len()) =~= s.skip(1).skip(
            s.skip(1).len() - trim_start(s).len(),
        ));
    } else {
        assert(s.skip(0) =~= s);
    }
}

/// A trimmed text holds only what the text holds and starts with no white space.
proof fn lemma_trimmed(s: Seq<char>)
    ensures
        trimmed(s).len() > 0 ==> !white_space(trimmed(s)[0]),
        forall|c: char| #[trigger] trimmed(s).contains(c) ==> s.contains(c),
{
    lemma_trim_start_back(s);
    let t = trim_start(s);
    lemma_trim_end_front(t);
    assert forall|c: char| #[trigger] trimmed(s).contains(c) implies s.contains(c) by {
        let i = choose|i: int| 0 <= i < trimmed(s).len() && trimmed(s)[i] == c;
        assert(t[i] == c);
        assert(s[s.len() - t.len() + i] == c);
    }
}

proof fn lemma_trimmed_end_of(s: Seq<char>, c: char)
    ensures
        trimmed_end_of(s, c).len() <= s.len(),
        trimmed_end_of(s, c) == s.take(trimmed_end_of(s, c).len() as int),
        trimmed_end_of(s, c).len() > 0 ==> trimmed_end_of(s, c).last() != c,
    decreases s.len(),
{
    if s.len() > 0 && s.last() == c {
        lemma_trimmed_end_of(s.drop_last(), c);
        let n = trimmed_end_of(s, c).len() as int;
        assert(s.take(n) =~= s.drop_last().take(n));
    } else {
        assert(s.take(s.len() as int) =~= s);
    }
}

/// A domain in normal form is its own normal form, unless white space was left
/// at its end by dots behind it.
pub proof fn law_normal_domain_is_fixed(input: Seq<char>, domain: Seq<char>)
    requires
        normal_domain(input) == Ok::<Seq<char>, DomainFault>(domain),
        !white_space(domain.last()),
    ensures
        normal_domain(domain) == Ok::<Seq<char>, DomainFault>(domain),
{
    let stops = "/?#"@;
    reveal_strlit("/?#");
    reveal_strlit("https://");
    reveal_strlit("http://");
    let cut = before_any(without_scheme(trimmed(input)), stops);
    let clean = trimmed(cut);
    let bare = trimmed_end_of(clean, '.');
    lemma_before_has_none(without_scheme(trimmed(input)), stops);
    lemma_trimmed(cut);
    lemma_trimmed_end_of(clean, '.');
    assert(domain == ascii_lowered(bare));
    assert forall|i: int| 0 <= i < domain.len() implies !stops.contains(#[trigger] domain[i]) by {
        assert(bare[i] == clean[i]);
        assert(clean.contains(clean[i]));
        let j = choose|j: int| 0 <= j < cut.len() && cut[j] == clean[i];
        assert(!stops.contains(cut[j]));
        assert(stops[0] == '/' && stops[1] == '?' && stops[2] == '#');
        assert(stops.contains('/') && stops.contains('?') && stops.contains('#'));
        if stops.contains(domain[i]) {
            let k = choose|k: int| 0 <= k < stops.len() && stops[k] == domain[i];
            assert(domain[i] == ascii_small(bare[i]));
            assert(bare[i] == domain[i]);
        }
    }
    assert(domain[0] == ascii_small(clean[0]));
    assert(clean[0] == bare[0]);
    lemma_trim_keeps(domain);
    assert(!begins(domain, "https://"@)) by {
        if begins(domain, "https://"@) {
            assert(domain.subrange(0, 8)[7] == domain[7]);
            assert(!stops.contains(domain[7]));
            assert(stops[0] == '/');
        }
    }
    assert(!begins(domain, "http://"@)) by {
        if begins(domain, "http://"@) {
            assert(domain.subrange(0, 7)[6] == domain[6]);
            assert(!stops.contains(domain[6]));
            assert(stops[0] == '/');
        }
    }
    lemma_before_none(domain, stops);
    assert(domain.last() == ascii_small(bare.last()));
    assert(domain.last() != '.');
    assert(trimmed_end_of(domain, '.') == domain);
    assert(ascii_lowered(domain) =~= domain);
}

/// An enterprise deployment that is named by input is never github.com, and its
/// host can take the prefix of the Copilot API.
pub proof fn law_enterprise_is_never_dotcom(input: Seq<char>, domain: Seq<char>)
    requires
        deployment_named(input) == Ok::<DeploymentView, DomainFault>(
            DeploymentView::Enterprise(domain),
        ),
    ensures
        domain != "github.com"@,
        domain != "api.github.com"@,
        domain.contains('.'),
        !domain.contains(':'),
        !domain.contains('@'),
        !domain.contains(' '),
{
}

} // verus!
