//! IMAP mailbox settings, the configuration they give, and the plan of a
//! mailbox scan: which messages, in which batches.
use vstd::prelude::*;

use crate::error::AppError;
use crate::order::{as_ints, stable_desc_order, stable_order_desc};
use crate::scan::{parse_u16, parse_u16_seq, parse_usize, parse_usize_seq, all_digits, decimal_value, unsigned_digits};
use crate::text::{
    append, concat2, decimal_seq, lowercase, push_decimal, string_of, to_lowercase, trim,
    trim_seq, views,
};

verus! {

/// What an IMAP scan connects to and how much it reads.
pub struct MailboxConfig {
    pub host: String,
    pub port: u16,
    pub username: String,
    pub password: String,
    pub mailbox: String,
    pub unseen_only: bool,
    pub mark_seen: bool,
    pub max_messages: usize,
    pub since_hours: u32,
}

/// Mailbox settings as stored and as an administrator submits them.
pub struct MailboxSettings {
    pub host: String,
    pub port: u16,
    pub username: String,
    pub password: String,
    pub mailbox: String,
    pub unseen_only: bool,
    pub mark_seen: bool,
    pub max_messages: usize,
    pub since_hours: u32,
    pub scheduler_enabled: bool,
    pub scheduler_interval_minutes: u32,
}

/// Mailbox settings as the administration page shows them: the password only
/// as whether one is stored.
pub struct MailboxSettingsResponse {
    pub configured: bool,
    pub host: String,
    pub port: u16,
    pub username: String,
    pub mailbox: String,
    pub unseen_only: bool,
    pub mark_seen: bool,
    pub max_messages: usize,
    pub since_hours: u32,
    pub scheduler_enabled: bool,
    pub scheduler_interval_minutes: u32,
    pub has_password: bool,
}

/// What a connection test found.
pub struct MailboxTestResult {
    pub ok: bool,
    pub mailbox: String,
    pub message_count: u32,
    pub unseen_count: Option<u32>,
    pub matched_count: usize,
    pub max_messages: usize,
    pub would_scan: usize,
}

/// What a mailbox import did.
pub struct MailboxImportSummary {
    pub messages_scanned: usize,
    pub messages_matched: usize,
    pub attachments_found: usize,
    pub imported: usize,
    pub duplicates: usize,
    pub failed_attachments: Vec<String>,
}

/// Whether only unseen messages are scanned when the settings do not say.
pub fn default_unseen_only() -> (b: bool)
    ensures
        b,
{
    true
}

/// How many messages a scan reads at most when the settings do not say.
pub fn default_max_messages() -> (n: usize)
    ensures
        n == 500,
{
    500
}

/// How many hours back a scan looks when the settings do not say.
pub fn default_since_hours() -> (n: u32)
    ensures
        n == 24,
{
    24
}

/// Minutes between scheduled scans when the settings do not say.
pub fn default_scheduler_interval_minutes() -> (n: u32)
    ensures
        n == 60,
{
    60
}

/// The first problem of the settings, if any: a blank host, username or
/// mailbox, an empty password, or a schedule shorter than five minutes.
pub open spec fn settings_problem(s: MailboxSettings) -> Option<Seq<char>> {
    if trim_seq(s.host@).len() == 0 {
        Some("IMAP host is required"@)
    } else if trim_seq(s.username@).len() == 0 {
        Some("IMAP username is required"@)
    } else if s.password@.len() == 0 {
        Some("IMAP password is required"@)
    } else if trim_seq(s.mailbox@).len() == 0 {
        Some("IMAP mailbox is required"@)
    } else if s.scheduler_enabled && s.scheduler_interval_minutes < 5 {
        Some("Scheduled sync interval must be at least 5 minutes"@)
    } else {
        None
    }
}

/// The configuration that valid settings give: trimmed names, and the
/// defaults for a zero port or message limit.
pub open spec fn config_of(c: MailboxConfig, s: MailboxSettings) -> bool {
    &&& c.host@ == trim_seq(s.host@)
    &&& c.port == (if s.port == 0 {
        993
    } else {
        s.port
    })
    &&& c.username@ == trim_seq(s.username@)
    &&& c.password@ == s.password@
    &&& c.mailbox@ == trim_seq(s.mailbox@)
    &&& c.unseen_only == s.unseen_only
    &&& c.mark_seen == s.mark_seen
    &&& c.max_messages == (if s.max_messages == 0 {
        500
    } else {
        s.max_messages
    })
    &&& c.since_hours == s.since_hours
}

impl MailboxSettings {
    /// Checks the settings; see `settings_problem`.
    pub fn validate(&self) -> (r: Result<(), AppError>)
        ensures
            r is Ok <==> settings_problem(*self) is None,
            r matches Err(e) ==> e is Mailbox && settings_problem(*self) == Some(e->Mailbox_0@),
    {
        if trim(self.host.as_str()).as_str().is_empty() {
            return Err(AppError::Mailbox(string_of("IMAP host is required")));
        }
        if trim(self.username.as_str()).as_str().is_empty() {
            return Err(AppError::Mailbox(string_of("IMAP username is required")));
        }
        if self.password.as_str().is_empty() {
            return Err(AppError::Mailbox(string_of("IMAP password is required")));
        }
        if trim(self.mailbox.as_str()).as_str().is_empty() {
            return Err(AppError::Mailbox(string_of("IMAP mailbox is required")));
        }
        if self.scheduler_enabled && self.scheduler_interval_minutes < 5 {
            return Err(
                AppError::Mailbox(string_of("Scheduled sync interval must be at least 5 minutes")),
            );
        }
        Ok(())
    }

    /// The configuration for a scan, when the settings are valid.
    pub fn to_config(&self) -> (r: Result<MailboxConfig, AppError>)
        ensures
            r is Ok <==> settings_problem(*self) is None,
            r matches Ok(c) ==> config_of(c, *self),
            r matches Err(e) ==> e is Mailbox && settings_problem(*self) == Some(e->Mailbox_0@),
    {
        match self.validate() {
            Ok(()) => {},
            Err(e) => {
                return Err(e);
            },
        }
        Ok(
            MailboxConfig {
                host: trim(self.host.as_str()),
                port: if self.port == 0 {
                    993
                } else {
                    self.port
                },
                username: trim(self.username.as_str()),
                password: string_of(self.password.as_str()),
                mailbox: trim(self.mailbox.as_str()),
                unseen_only: self.unseen_only,
                mark_seen: self.mark_seen,
                max_messages: if self.max_messages == 0 {
                    500
                } else {
                    self.max_messages
                },
                since_hours: self.since_hours,
            },
        )
    }

    /// The settings as the administration page shows them.
    pub fn redacted(&self) -> (r: MailboxSettingsResponse)
        ensures
            r.configured,
            r.host@ == self.host@,
            r.port == self.port,
            r.username@ == self.username@,
            r.mailbox@ == self.mailbox@,
            r.unseen_only == self.unseen_only,
            r.mark_seen == self.mark_seen,
            r.max_messages == (if self.max_messages == 0 {
                500
            } else {
                self.max_messages
            }),
            r.since_hours == self.since_hours,
            r.scheduler_enabled == self.scheduler_enabled,
            r.scheduler_interval_minutes == (if self.scheduler_interval_minutes == 0 {
                60
            } else {
                self.scheduler_interval_minutes
            }),
            r.has_password == (self.password@.len() > 0),
    {
        MailboxSettingsResponse {
            configured: true,
            host: string_of(self.host.as_str()),
            port: self.port,
            username: string_of(self.username.as_str()),
            mailbox: string_of(self.mailbox.as_str()),
            unseen_only: self.unseen_only,
            mark_seen: self.mark_seen,
            max_messages: if self.max_messages == 0 {
                500
            } else {
                self.max_messages
            },
            since_hours: self.since_hours,
            scheduler_enabled: self.scheduler_enabled,
            scheduler_interval_minutes: if self.scheduler_interval_minutes == 0 {
                default_scheduler_interval_minutes()
            } else {
                self.scheduler_interval_minutes
            },
            has_password: !self.password.as_str().is_empty(),
        }
    }
}

impl MailboxSettingsResponse {
    /// What the administration page shows before any mailbox is configured.
    pub fn empty() -> (r: Self)
        ensures
            !r.configured,
            r.host@.len() == 0,
            r.port == 993,
            r.username@.len() == 0,
            r.mailbox@ == "INBOX"@,
            r.unseen_only,
            !r.mark_seen,
            r.max_messages == 500,
            r.since_hours == 24,
            !r.scheduler_enabled,
            r.scheduler_interval_minutes == 60,
            !r.has_password,
    {
        MailboxSettingsResponse {
            configured: false,
            host: String::new(),
            port: 993,
            username: String::new(),
            mailbox: string_of("INBOX"),
            unseen_only: true,
            mark_seen: false,
            max_messages: 500,
            since_hours: 24,
            scheduler_enabled: false,
            scheduler_interval_minutes: default_scheduler_interval_minutes(),
            has_password: false,
        }
    }
}

// ---------------------------------------------------------------------------
// Configuration from the environment
// ---------------------------------------------------------------------------

/// What `str::parse::<u32>` gives.
pub open spec fn parse_u32_seq(s: Seq<char>) -> Option<u32> {
    let d = unsigned_digits(s);
    if d.len() > 0 && all_digits(d) && decimal_value(d) <= u32::MAX {
        Some(decimal_value(d) as u32)
    } else {
        None
    }
}

/// Reads an unsigned 32-bit number as `str::parse::<u32>` does.
pub fn parse_u32(s: &str) -> (r: Option<u32>)
    ensures
        r == parse_u32_seq(s@),
{
    match parse_usize(s) {
        Some(n) => if n <= u32::MAX as usize {
            Some(n as u32)
        } else {
            None
        },
        None => None,
    }
}

/// A variable of the deployment as a flag: `1`, `true`, `yes` or `on` in any
/// case; the default when it is not set.
pub open spec fn flag_value(value: Option<Seq<char>>, default: bool) -> bool {
    match value {
        Some(v) => {
            let l = lowercase(v);
            l == "1"@ || l == "true"@ || l == "yes"@ || l == "on"@
        },
        None => default,
    }
}

/// Reads a flag; see `flag_value`.
pub fn env_flag(value: Option<&str>, default: bool) -> (b: bool)
    ensures
        b == flag_value(crate::oidc::opt_view(value), default),
{
    match value {
        Some(v) => {
            let l = to_lowercase(v);
            crate::dmarc::str_eq(l.as_str(), "1") || crate::dmarc::str_eq(l.as_str(), "true")
                || crate::dmarc::str_eq(l.as_str(), "yes") || crate::dmarc::str_eq(
                l.as_str(),
                "on",
            )
        },
        None => default,
    }
}

/// A variable that must be set: its trimmed value, or an error naming it.
pub fn required_value(key: &str, value: Option<&str>) -> (r: Result<String, AppError>)
    ensures
        match r {
            Ok(v) => value matches Some(x) && v@ == trim_seq(x@) && v@.len() > 0,
            Err(e) => e is Mailbox && e->Mailbox_0@ == key@ + " is required"@ && (value is None
                || trim_seq(value->0@).len() == 0),
        },
{
    match value {
        Some(v) => {
            let t = trim(v);
            if t.as_str().is_empty() {
                Err(AppError::Mailbox(concat2(key, " is required")))
            } else {
                Ok(t)
            }
        },
        None => Err(AppError::Mailbox(concat2(key, " is required"))),
    }
}

/// The raw values of the mailbox variables of the deployment, each `None`
/// when unset.
pub struct MailboxVariables {
    pub host: Option<String>,
    pub port: Option<String>,
    pub username: Option<String>,
    pub password: Option<String>,
    pub mailbox: Option<String>,
    pub unseen_only: Option<String>,
    pub mark_seen: Option<String>,
    pub max_messages: Option<String>,
    pub since_hours: Option<String>,
}

/// The view of an optional owned string.
pub open spec fn owned_view(v: Option<String>) -> Option<Seq<char>> {
    match v {
        Some(s) => Some(s@),
        None => None,
    }
}

/// A present value that is not blank.
pub open spec fn filled(v: Option<String>) -> bool {
    v matches Some(s) && trim_seq(s@).len() > 0
}

fn as_str_opt(v: &Option<String>) -> (r: Option<&str>)
    ensures
        crate::oidc::opt_view(r) == owned_view(*v),
{
    match v {
        Some(s) => Some(s.as_str()),
        None => None,
    }
}

impl MailboxConfig {
    /// The configuration that the deployment's variables give: host,
    /// username and password must be set; the rest have defaults (port 993,
    /// mailbox `INBOX`, unseen only, not marking seen, 500 messages, 24 hours).
    pub fn from_variables(vars: &MailboxVariables) -> (r: Result<MailboxConfig, AppError>)
        ensures
            r is Ok <==> (filled(vars.host) && filled(vars.username) && filled(vars.password)),
            r matches Err(e) ==> e is Mailbox && e->Mailbox_0@ == (if !filled(vars.host) {
                "DMARCONTROL_IMAP_HOST"@
            } else if !filled(vars.username) {
                "DMARCONTROL_IMAP_USERNAME"@
            } else {
                "DMARCONTROL_IMAP_PASSWORD"@
            }) + " is required"@,
            r matches Ok(c) ==> {
                &&& c.host@ == trim_seq(vars.host->0@)
                &&& c.port == match owned_view(vars.port) {
                    Some(p) => match parse_u16_seq(p) {
                        Some(n) => n,
                        None => 993u16,
                    },
                    None => 993u16,
                }
                &&& c.username@ == trim_seq(vars.username->0@)
                &&& c.password@ == trim_seq(vars.password->0@)
                &&& c.mailbox@ == match owned_view(vars.mailbox) {
                    Some(m) => m,
                    None => "INBOX"@,
                }
                &&& c.unseen_only == flag_value(owned_view(vars.unseen_only), true)
                &&& c.mark_seen == flag_value(owned_view(vars.mark_seen), false)
                &&& c.max_messages == match owned_view(vars.max_messages) {
                    Some(m) => match parse_usize_seq(m) {
                        Some(n) => n,
                        None => 500usize,
                    },
                    None => 500usize,
                }
                &&& c.since_hours == match owned_view(vars.since_hours) {
                    Some(h) => match parse_u32_seq(h) {
                        Some(n) => n,
                        None => 24u32,
                    },
                    None => 24u32,
                }
            },
    {
        let host = match required_value("DMARCONTROL_IMAP_HOST", as_str_opt(&vars.host)) {
            Ok(v) => v,
            Err(e) => {
                return Err(e);
            },
        };
        let port = match &vars.port {
            Some(p) => match parse_u16(p.as_str()) {
                Some(n) => n,
                None => 993,
            },
            None => 993,
        };
        let username = match required_value("DMARCONTROL_IMAP_USERNAME", as_str_opt(&vars.username)) {
            Ok(v) => v,
            Err(e) => {
                return Err(e);
            },
        };
        let password = match required_value("DMARCONTROL_IMAP_PASSWORD", as_str_opt(&vars.password)) {
            Ok(v) => v,
            Err(e) => {
                return Err(e);
            },
        };
        let mailbox = match &vars.mailbox {
            Some(m) => string_of(m.as_str()),
            None => string_of("INBOX"),
        };
        let max_messages = match &vars.max_messages {
            Some(m) => match parse_usize(m.as_str()) {
                Some(n) => n,
                None => 500,
            },
            None => 500,
        };
        let since_hours = match &vars.since_hours {
            Some(h) => match parse_u32(h.as_str()) {
                Some(n) => n,
                None => 24,
            },
            None => 24,
        };
        Ok(
            MailboxConfig {
                host,
                port,
                username,
                password,
                mailbox,
                unseen_only: env_flag(as_str_opt(&vars.unseen_only), true),
                mark_seen: env_flag(as_str_opt(&vars.mark_seen), false),
                max_messages,
                since_hours,
            },
        )
    }
}

// ---------------------------------------------------------------------------
// Scanning
// ---------------------------------------------------------------------------

/// The IMAP search: unseen or all messages, since a date when the
/// configuration looks back some hours.
pub open spec fn search_query_seq(unseen_only: bool, since_hours: u32, since_date: Seq<char>) -> Seq<char> {
    (if unseen_only {
        "UNSEEN"@
    } else {
        "ALL"@
    }) + if since_hours > 0 {
        " SINCE "@ + since_date
    } else {
        Seq::<char>::empty()
    }
}

/// The IMAP search of a scan; `since_date` is the day, as `%d-%b-%Y`, that
/// lies `since_hours` hours before now.
pub fn imap_search_query(config: &MailboxConfig, since_date: &str) -> (r: String)
    ensures
        r@ == search_query_seq(config.unseen_only, config.since_hours, since_date@),
{
    let mut r = if config.unseen_only {
        string_of("UNSEEN")
    } else {
        string_of("ALL")
    };
    if config.since_hours > 0 {
        append(&mut r, " SINCE ");
        append(&mut r, since_date);
    }
    r
}

/// How many of the matching messages a scan reads: all, up to the limit
/// (taken as at least one).
pub open spec fn scan_count(matched: nat, max_messages: nat) -> nat {
    let limit = if max_messages == 0 {
        1
    } else {
        max_messages
    };
    if matched < limit {
        matched
    } else {
        limit
    }
}

/// What a connection test reports.
pub fn test_result(config: &MailboxConfig, message_count: u32, unseen_count: Option<u32>, matched_count: usize) -> (r: MailboxTestResult)
    ensures
        r.ok,
        r.mailbox@ == config.mailbox@,
        r.message_count == message_count,
        r.unseen_count == unseen_count,
        r.matched_count == matched_count,
        r.max_messages == config.max_messages,
        r.would_scan == scan_count(matched_count as nat, config.max_messages as nat),
{
    let limit = if config.max_messages == 0 {
        1
    } else {
        config.max_messages
    };
    MailboxTestResult {
        ok: true,
        mailbox: string_of(config.mailbox.as_str()),
        message_count,
        unseen_count,
        matched_count,
        max_messages: config.max_messages,
        would_scan: if matched_count < limit {
            matched_count
        } else {
            limit
        },
    }
}

/// The message numbers as keys of an ordering.
pub open spec fn id_keys(ids: Seq<u32>) -> Seq<i128> {
    ids.map_values(|x: u32| x as i128)
}

/// The messages a scan reads: the newest (highest numbers) first, up to the limit.
pub fn messages_to_fetch(matched: &Vec<u32>, max_messages: usize) -> (ids: Vec<u32>)
    ensures
        ids@.len() == scan_count(matched@.len(), max_messages as nat),
        exists|order: Seq<int>|
            #![trigger stable_desc_order(id_keys(matched@), order)]
            stable_desc_order(id_keys(matched@), order) && forall|j: int|
                0 <= j < ids@.len() ==> #[trigger] ids@[j] == matched@[order[j]],
{
    let mut keys: Vec<i128> = Vec::new();
    let mut i: usize = 0;
    while i < matched.len()
        invariant
            i <= matched@.len(),
            keys@ == id_keys(matched@).take(i as int),
        decreases matched.len() - i,
    {
        keys.push(matched[i] as i128);
        assert(keys@ =~= id_keys(matched@).take(i + 1));
        i = i + 1;
    }
    assert(keys@ =~= id_keys(matched@));
    let order = stable_order_desc(&keys);
    let limit = if max_messages == 0 {
        1
    } else {
        max_messages
    };
    let count = if matched.len() < limit {
        matched.len()
    } else {
        limit
    };
    let ghost ord = as_ints(order@);
    let mut ids: Vec<u32> = Vec::new();
    let mut j: usize = 0;
    while j < count
        invariant
            j <= count,
            count <= matched@.len(),
            ord == as_ints(order@),
            stable_desc_order(id_keys(matched@), ord),
            ids@.len() == j,
            forall|k: int| 0 <= k < j ==> #[trigger] ids@[k] == matched@[ord[k]],
        decreases count - j,
    {
        assert(ord[j as int] == order@[j as int] as int);
        ids.push(matched[order[j]]);
        j = j + 1;
    }
    ids
}

/// Decimal numbers joined with `,`, as an IMAP sequence set.
pub open spec fn sequence_set_seq(ids: Seq<u32>) -> Seq<char>
    decreases ids.len(),
{
    if ids.len() == 0 {
        Seq::<char>::empty()
    } else if ids.len() == 1 {
        decimal_seq(ids[0] as nat)
    } else {
        sequence_set_seq(ids.drop_last()) + ","@ + decimal_seq(ids.last() as nat)
    }
}

/// The IMAP sequence set of some messages.
pub fn sequence_set(ids: &[u32]) -> (r: String)
    ensures
        r@ == sequence_set_seq(ids@),
{
    let mut r = String::new();
    let mut i: usize = 0;
    while i < ids.len()
        invariant
            i <= ids@.len(),
            r@ == sequence_set_seq(ids@.take(i as int)),
        decreases ids.len() - i,
    {
        let ghost before = r@;
        assert(ids@.take(i + 1).drop_last() =~= ids@.take(i as int));
        if i > 0 {
            append(&mut r, ",");
        }
        push_decimal(&mut r, ids[i] as u64);
        proof {
            if i == 0 {
                assert(r@ =~= decimal_seq(ids@[0] as nat));
            } else {
                assert(r@ =~= before + ","@ + decimal_seq(ids@[i as int] as nat));
            }
        }
        i = i + 1;
    }
    assert(ids@.take(ids@.len() as int) =~= ids@);
    r
}

/// The messages of fetch batch `b`: fifty at a time.
pub open spec fn batch_of(ids: Seq<u32>, b: int) -> Seq<u32> {
    ids.subrange(50 * b, if 50 * b + 50 < ids.len() {
        50 * b + 50
    } else {
        ids.len() as int
    })
}

/// The sequence sets of the fetch batches, fifty messages each, in order.
pub fn fetch_batches(ids: &Vec<u32>) -> (sets: Vec<String>)
    ensures
        sets@.len() == (ids@.len() + 49) / 50,
        forall|b: int| 0 <= b < sets@.len() ==> #[trigger] sets@[b]@ == sequence_set_seq(batch_of(ids@, b)),
{
    let mut sets: Vec<String> = Vec::new();
    let mut start: usize = 0;
    while start < ids.len()
        invariant
            start <= ids@.len(),
            start < ids@.len() ==> start == 50 * sets@.len(),
            start == ids@.len() ==> sets@.len() == (ids@.len() + 49) / 50,
            forall|b: int| 0 <= b < sets@.len() ==> #[trigger] sets@[b]@ == sequence_set_seq(batch_of(ids@, b)),
        decreases ids@.len() - start,
    {
        let end = if ids.len() - start > 50 {
            start + 50
        } else {
            ids.len()
        };
        let batch = &ids.as_slice()[start..end];
        let ghost b = sets@.len() as int;
        assert(batch@ =~= batch_of(ids@, b));
        sets.push(sequence_set(batch));
        start = end;
    }
    sets
}

} // verus!
