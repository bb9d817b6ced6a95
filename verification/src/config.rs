//! Connection targets and the three equivalent ways to describe one: an
//! ADO-style string, a JDBC-style string, and a programmatic builder.
//!
//! Parsing is pure: it never touches the network, and a string that breaks
//! the grammar yields `MalformedConnectionString` and nothing else.

use vstd::prelude::*;
use vstd::string::StrSliceExecFns;
use vstd::string::StringExecFns;

use crate::errors::SqlError;
use crate::parse::all_digits;
use crate::parse::dec_val;
use crate::parse::eq_ignore_case;
use crate::parse::find_char;
use crate::parse::find_from;
use crate::parse::lemma_find_from;
use crate::parse::lemma_find_from_unique;
use crate::parse::parse_port;
use crate::parse::window_equals;
use crate::parse::window_matches_key;

verus! {

/// How the session authenticates: the operating-system account, or a SQL
/// login carried in the configuration's credentials.
#[derive(Clone, Copy, Debug, PartialEq, Eq, Structural)]
pub enum AuthMode {
    Integrated,
    SqlLogin,
}

/// A user name and password for `AuthMode::SqlLogin`.
#[derive(Clone, Debug, PartialEq, Eq)]
pub struct Credentials {
    pub user: String,
    pub password: String,
}

/// A resolved database target. Built once, immutable thereafter; the caller
/// owns it until it is handed to the transport and session layers.
#[derive(Clone, Debug, PartialEq, Eq)]
pub struct ConnectionConfig {
    pub host: String,
    pub port: Option<u16>,
    pub instance_name: Option<String>,
    pub database: Option<String>,
    pub auth_mode: AuthMode,
    pub credentials: Option<Credentials>,
    pub trust_server_certificate: bool,
}

/// The mathematical image of `Credentials`.
pub ghost struct CredModel {
    pub user: Seq<char>,
    pub password: Seq<char>,
}

/// The mathematical image of a `ConnectionConfig`.
pub ghost struct ConfigModel {
    pub host: Seq<char>,
    pub port: Option<u16>,
    pub instance: Option<Seq<char>>,
    pub database: Option<Seq<char>>,
    pub auth_mode: AuthMode,
    pub credentials: Option<CredModel>,
    pub trust: bool,
}

/// The view of an optional string.
pub open spec fn opt_str_view(o: Option<String>) -> Option<Seq<char>> {
    match o {
        Some(s) => Some(s@),
        None => None,
    }
}

impl View for ConnectionConfig {
    type V = ConfigModel;

    open spec fn view(&self) -> ConfigModel {
        ConfigModel {
            host: self.host@,
            port: self.port,
            instance: opt_str_view(self.instance_name),
            database: opt_str_view(self.database),
            auth_mode: self.auth_mode,
            credentials: match self.credentials {
                Some(c) => Some(CredModel { user: c.user@, password: c.password@ }),
                None => None,
            },
            trust: self.trust_server_certificate,
        }
    }
}

/// What a run of `key=value` segments has established so far.
pub ghost struct AdoParts {
    pub has_server: bool,
    pub host: Seq<char>,
    pub instance: Option<Seq<char>>,
    pub port: Option<u16>,
    pub database: Option<Seq<char>>,
    pub integrated: bool,
    pub trust: bool,
}

/// The state before any segment was read.
pub open spec fn empty_parts() -> AdoParts {
    AdoParts {
        has_server: false,
        host: Seq::<char>::empty(),
        instance: None,
        port: None,
        database: None,
        integrated: false,
        trust: false,
    }
}

/// `true` or `false`, ignoring ASCII case; anything else is rejected.
pub open spec fn parse_bool(v: Seq<char>) -> Option<bool> {
    if eq_ignore_case(v, "true"@) {
        Some(true)
    } else if eq_ignore_case(v, "false"@) {
        Some(false)
    } else {
        None
    }
}

/// Reads a server field of the form `host[\instance][,port]`.
///
/// The host must be nonempty; a named instance, if present, must be nonempty;
/// a port, if present, must be a digit run that fits sixteen bits.
pub open spec fn parse_server_value(v: Seq<char>) -> Option<
    (Seq<char>, Option<Seq<char>>, Option<u16>),
> {
    let comma = find_from(v, ',', 0);
    let hostinst = v.take(comma);
    let back = find_from(hostinst, '\\', 0);
    if comma < v.len() && !({
        let pp = v.subrange(comma + 1, v.len() as int);
        pp.len() > 0 && all_digits(pp) && dec_val(pp) <= 65535
    }) {
        None
    } else if back == 0 {
        None
    } else if back < hostinst.len() && back + 1 == hostinst.len() {
        None
    } else {
        let port = if comma < v.len() {
            Some(dec_val(v.subrange(comma + 1, v.len() as int)) as u16)
        } else {
            None
        };
        let instance = if back == hostinst.len() {
            None
        } else {
            Some(hostinst.subrange(back + 1, hostinst.len() as int))
        };
        Some((hostinst.take(back), instance, port))
    }
}

/// Folds one `key=value` segment into the accumulated parts. An empty
/// segment is skipped; an unknown key or an ill-formed value rejects the
/// whole string; a repeated key lets the later assignment win.
pub open spec fn apply_segment(acc: AdoParts, seg: Seq<char>) -> Option<AdoParts> {
    if seg.len() == 0 {
        Some(acc)
    } else {
        let e = find_from(seg, '=', 0);
        if e == seg.len() {
            None
        } else {
            let key = seg.take(e);
            let val = seg.subrange(e + 1, seg.len() as int);
            if eq_ignore_case(key, "server"@) {
                match parse_server_value(val) {
                    Some(sv) => Some(
                        AdoParts {
                            has_server: true,
                            host: sv.0,
                            instance: sv.1,
                            port: sv.2,
                            database: acc.database,
                            integrated: acc.integrated,
                            trust: acc.trust,
                        },
                    ),
                    None => None,
                }
            } else if eq_ignore_case(key, "database"@) {
                if val.len() > 0 {
                    Some(
                        AdoParts {
                            has_server: acc.has_server,
                            host: acc.host,
                            instance: acc.instance,
                            port: acc.port,
                            database: Some(val),
                            integrated: acc.integrated,
                            trust: acc.trust,
                        },
                    )
                } else {
                    None
                }
            } else if eq_ignore_case(key, "integratedsecurity"@) {
                match parse_bool(val) {
                    Some(b) => Some(
                        AdoParts {
                            has_server: acc.has_server,
                            host: acc.host,
                            instance: acc.instance,
                            port: acc.port,
                            database: acc.database,
                            integrated: b,
                            trust: acc.trust,
                        },
                    ),
                    None => None,
                }
            } else if eq_ignore_case(key, "trustservercertificate"@) {
                match parse_bool(val) {
                    Some(b) => Some(
                        AdoParts {
                            has_server: acc.has_server,
                            host: acc.host,
                            instance: acc.instance,
                            port: acc.port,
                            database: acc.database,
                            integrated: acc.integrated,
                            trust: b,
                        },
                    ),
                    None => None,
                }
            } else {
                None
            }
        }
    }
}

/// Folds the `;`-separated segments of `s`, starting at position `i`.
pub open spec fn parse_segments(s: Seq<char>, i: int, acc: AdoParts) -> Option<AdoParts>
    decreases s.len() - i,
{
    let f = find_from(s, ';', i);
    let e = if f < i {
        i
    } else {
        f
    };
    match apply_segment(acc, s.subrange(i, e)) {
        None => None,
        Some(a2) => if e >= s.len() {
            Some(a2)
        } else {
            parse_segments(s, e + 1, a2)
        },
    }
}

/// Turns accumulated parts into a configuration. Absent integrated security
/// means a SQL login; the string forms carry no credentials of their own.
pub open spec fn parts_to_model(p: AdoParts) -> ConfigModel {
    ConfigModel {
        host: p.host,
        port: p.port,
        instance: p.instance,
        database: p.database,
        auth_mode: if p.integrated {
            AuthMode::Integrated
        } else {
            AuthMode::SqlLogin
        },
        credentials: None,
        trust: p.trust,
    }
}

/// The whole ADO grammar: `;`-separated `key=value` segments, among them a
/// mandatory `server` entry.
pub open spec fn spec_parse_ado(s: Seq<char>) -> Option<ConfigModel> {
    match parse_segments(s, 0, empty_parts()) {
        None => None,
        Some(p) => if p.has_server {
            Some(parts_to_model(p))
        } else {
            None
        },
    }
}

/// The scheme prefix of the JDBC form.
pub open spec fn jdbc_prefix() -> Seq<char> {
    "jdbc:sqlserver://"@
}

/// The whole JDBC grammar: the scheme prefix, a server field, then the same
/// `;`-separated `key=value` segments as the ADO form.
pub open spec fn spec_parse_jdbc(s: Seq<char>) -> Option<ConfigModel> {
    if s.len() < jdbc_prefix().len() || s.take(jdbc_prefix().len() as int) != jdbc_prefix() {
        None
    } else {
        let start = jdbc_prefix().len() as int;
        let f = find_from(s, ';', start);
        let e = if f < start {
            start
        } else {
            f
        };
        match parse_server_value(s.subrange(start, e)) {
            None => None,
            Some(sv) => {
                let seeded = AdoParts {
                    has_server: true,
                    host: sv.0,
                    instance: sv.1,
                    port: sv.2,
                    database: None,
                    integrated: false,
                    trust: false,
                };
                if e >= s.len() {
                    Some(parts_to_model(seeded))
                } else {
                    match parse_segments(s, e + 1, seeded) {
                        None => None,
                        Some(p) => Some(parts_to_model(p)),
                    }
                }
            },
        }
    }
}

/// The executable twin of `AdoParts`.
struct SegState {
    has_server: bool,
    host: String,
    instance: Option<String>,
    port: Option<u16>,
    database: Option<String>,
    integrated: bool,
    trust: bool,
}

spec fn seg_state_view(a: SegState) -> AdoParts {
    AdoParts {
        has_server: a.has_server,
        host: a.host@,
        instance: opt_str_view(a.instance),
        port: a.port,
        database: opt_str_view(a.database),
        integrated: a.integrated,
        trust: a.trust,
    }
}

fn parse_bool_window(s: &str, from: usize, end: usize) -> (r: Result<bool, SqlError>)
    requires
        from <= end <= s@.len(),
    ensures
        (match parse_bool(s@.subrange(from as int, end as int)) {
            Some(b) => r == Ok::<bool, SqlError>(b),
            None => r == Err::<bool, SqlError>(SqlError::MalformedConnectionString),
        }),
{
    if window_matches_key(s, from, end, "true") {
        Ok(true)
    } else if window_matches_key(s, from, end, "false") {
        Ok(false)
    } else {
        Err(SqlError::MalformedConnectionString)
    }
}

fn parse_server_window(s: &str, from: usize, end: usize) -> (r: Result<
    (String, Option<String>, Option<u16>),
    SqlError,
>)
    requires
        from <= end <= s@.len(),
    ensures
        (match parse_server_value(s@.subrange(from as int, end as int)) {
            Some(sv) => r matches Ok(t) && t.0@ == sv.0 && opt_str_view(t.1) == sv.1 && t.2 == sv.2,
            None => r == Err::<(String, Option<String>, Option<u16>), SqlError>(
                SqlError::MalformedConnectionString,
            ),
        }),
{
    let ghost v = s@.subrange(from as int, end as int);
    let comma = find_char(s, ',', from, end);
    proof {
        assert forall|k: int| 0 <= k < comma - from implies v[k] != ',' by {
            assert(v[k] == s@[from + k]);
        }
        lemma_find_from_unique(v, ',', 0, comma - from);
    }
    let port: Option<u16> = if comma == end {
        None
    } else {
        match parse_port(s, comma + 1, end) {
            Some(p) => {
                proof {
                    assert(v.subrange(comma - from + 1, v.len() as int) =~= s@.subrange(
                        comma as int + 1,
                        end as int,
                    ));
                }
                Some(p)
            },
            None => {
                proof {
                    assert(v.subrange(comma - from + 1, v.len() as int) =~= s@.subrange(
                        comma as int + 1,
                        end as int,
                    ));
                }
                return Err(SqlError::MalformedConnectionString);
            },
        }
    };
    let ghost hostinst = v.take(comma - from);
    let back = find_char(s, '\\', from, comma);
    proof {
        assert forall|k: int| 0 <= k < back - from implies hostinst[k] != '\\' by {
            assert(hostinst[k] == s@[from + k]);
        }
        if (back as int) < comma {
            assert(hostinst[back - from] == s@[back as int]);
        }
        lemma_find_from_unique(hostinst, '\\', 0, back - from);
    }
    if back == from {
        return Err(SqlError::MalformedConnectionString);
    }
    if back < comma && back + 1 == comma {
        return Err(SqlError::MalformedConnectionString);
    }
    let host = String::from_str(s.substring_char(from, back));
    proof {
        assert(hostinst.take(back - from) =~= s@.subrange(from as int, back as int));
    }
    let instance: Option<String> = if back == comma {
        None
    } else {
        proof {
            assert(hostinst.subrange(back - from + 1, hostinst.len() as int) =~= s@.subrange(
                back as int + 1,
                comma as int,
            ));
        }
        Some(String::from_str(s.substring_char(back + 1, comma)))
    };
    Ok((host, instance, port))
}

fn apply_segment_window(acc: &mut SegState, s: &str, lo: usize, hi: usize) -> (r: Result<
    (),
    SqlError,
>)
    requires
        lo <= hi <= s@.len(),
    ensures
        (match apply_segment(seg_state_view(*old(acc)), s@.subrange(lo as int, hi as int)) {
            Some(a2) => r == Ok::<(), SqlError>(()) && seg_state_view(*final(acc)) == a2,
            None => r == Err::<(), SqlError>(SqlError::MalformedConnectionString),
        }),
{
    let ghost seg = s@.subrange(lo as int, hi as int);
    if lo == hi {
        return Ok(());
    }
    let e = find_char(s, '=', lo, hi);
    proof {
        assert forall|k: int| 0 <= k < e - lo implies seg[k] != '=' by {
            assert(seg[k] == s@[lo + k]);
        }
        if (e as int) < hi {
            assert(seg[e - lo] == s@[e as int]);
        }
        lemma_find_from_unique(seg, '=', 0, e - lo);
    }
    if e == hi {
        return Err(SqlError::MalformedConnectionString);
    }
    proof {
        assert(seg.take(e - lo) =~= s@.subrange(lo as int, e as int));
        assert(seg.subrange(e - lo + 1, seg.len() as int) =~= s@.subrange(
            e as int + 1,
            hi as int,
        ));
    }
    if window_matches_key(s, lo, e, "server") {
        match parse_server_window(s, e + 1, hi) {
            Ok(t) => {
                acc.has_server = true;
                acc.host = t.0;
                acc.instance = t.1;
                acc.port = t.2;
                Ok(())
            },
            Err(err) => Err(err),
        }
    } else if window_matches_key(s, lo, e, "database") {
        if e + 1 == hi {
            Err(SqlError::MalformedConnectionString)
        } else {
            acc.database = Some(String::from_str(s.substring_char(e + 1, hi)));
            Ok(())
        }
    } else if window_matches_key(s, lo, e, "integratedsecurity") {
        match parse_bool_window(s, e + 1, hi) {
            Ok(b) => {
                acc.integrated = b;
                Ok(())
            },
            Err(err) => Err(err),
        }
    } else if window_matches_key(s, lo, e, "trustservercertificate") {
        match parse_bool_window(s, e + 1, hi) {
            Ok(b) => {
                acc.trust = b;
                Ok(())
            },
            Err(err) => Err(err),
        }
    } else {
        Err(SqlError::MalformedConnectionString)
    }
}

fn parse_segment_run(acc: &mut SegState, s: &str, start: usize) -> (r: Result<(), SqlError>)
    requires
        start <= s@.len(),
    ensures
        (match parse_segments(s@, start as int, seg_state_view(*old(acc))) {
            Some(p) => r == Ok::<(), SqlError>(()) && seg_state_view(*final(acc)) == p,
            None => r == Err::<(), SqlError>(SqlError::MalformedConnectionString),
        }),
{
    let len = s.unicode_len();
    let ghost orig = seg_state_view(*acc);
    let mut i: usize = start;
    loop
        invariant
            start <= i <= len,
            len == s@.len(),
            start <= s@.len(),
            orig == seg_state_view(*old(acc)),
            parse_segments(s@, start as int, orig) == parse_segments(
                s@,
                i as int,
                seg_state_view(*acc),
            ),
        decreases len - i,
    {
        let ghost pre = seg_state_view(*acc);
        let e = find_char(s, ';', i, len);
        proof {
            lemma_find_from_unique(s@, ';', i as int, e as int);
        }
        match apply_segment_window(acc, s, i, e) {
            Err(err) => {
                proof {
                    assert(parse_segments(s@, i as int, pre) is None);
                }
                return Err(err);
            },
            Ok(_) => {},
        }
        if e == len {
            proof {
                assert(parse_segments(s@, i as int, pre) == Some(seg_state_view(*acc)));
            }
            return Ok(());
        }
        i = e + 1;
    }
}

impl ConnectionConfig {
    /// Parses a semicolon-delimited `key=value` connection string: a
    /// mandatory `server=host[\instance][,port]` entry beside optional
    /// `database`, `IntegratedSecurity` and `TrustServerCertificate` entries.
    pub fn from_ado_string(s: &str) -> (r: Result<ConnectionConfig, SqlError>)
        ensures
            (match spec_parse_ado(s@) {
                Some(m) => r matches Ok(c) && c@ == m,
                None => r == Err::<ConnectionConfig, SqlError>(SqlError::MalformedConnectionString),
            }),
    {
        let mut acc = SegState {
            has_server: false,
            host: String::from_str(""),
            instance: None,
            port: None,
            database: None,
            integrated: false,
            trust: false,
        };
        proof {
            reveal_strlit("");
            assert(""@ =~= Seq::<char>::empty());
            assert(seg_state_view(acc) == empty_parts());
        }
        match parse_segment_run(&mut acc, s, 0) {
            Err(err) => {
                return Err(err);
            },
            Ok(_) => {},
        }
        if !acc.has_server {
            return Err(SqlError::MalformedConnectionString);
        }
        Ok(
            ConnectionConfig {
                host: acc.host,
                port: acc.port,
                instance_name: acc.instance,
                database: acc.database,
                auth_mode: if acc.integrated {
                    AuthMode::Integrated
                } else {
                    AuthMode::SqlLogin
                },
                credentials: None,
                trust_server_certificate: acc.trust,
            },
        )
    }

    /// Parses a `jdbc:sqlserver://host[\instance][,port];key=value;...`
    /// connection string, with the same keys as the ADO form.
    pub fn from_jdbc_string(s: &str) -> (r: Result<ConnectionConfig, SqlError>)
        ensures
            (match spec_parse_jdbc(s@) {
                Some(m) => r matches Ok(c) && c@ == m,
                None => r == Err::<ConnectionConfig, SqlError>(SqlError::MalformedConnectionString),
            }),
    {
        let len = s.unicode_len();
        let prefix = "jdbc:sqlserver://";
        let prefix_len = prefix.unicode_len();
        if len < prefix_len || !window_equals(s, 0, prefix_len, prefix) {
            proof {
                if s@.len() >= jdbc_prefix().len() {
                    assert(s@.subrange(0, jdbc_prefix().len() as int) =~= s@.take(
                        jdbc_prefix().len() as int,
                    ));
                }
            }
            return Err(SqlError::MalformedConnectionString);
        }
        proof {
            assert(s@.subrange(0, jdbc_prefix().len() as int) =~= s@.take(
                jdbc_prefix().len() as int,
            ));
        }
        let e = find_char(s, ';', prefix_len, len);
        proof {
            lemma_find_from_unique(s@, ';', prefix_len as int, e as int);
        }
        let server = match parse_server_window(s, prefix_len, e) {
            Ok(t) => t,
            Err(err) => {
                return Err(err);
            },
        };
        let mut acc = SegState {
            has_server: true,
            host: server.0,
            instance: server.1,
            port: server.2,
            database: None,
            integrated: false,
            trust: false,
        };
        if e < len {
            match parse_segment_run(&mut acc, s, e + 1) {
                Err(err) => {
                    return Err(err);
                },
                Ok(_) => {},
            }
        }
        Ok(
            ConnectionConfig {
                host: acc.host,
                port: acc.port,
                instance_name: acc.instance,
                database: acc.database,
                auth_mode: if acc.integrated {
                    AuthMode::Integrated
                } else {
                    AuthMode::SqlLogin
                },
                credentials: None,
                trust_server_certificate: acc.trust,
            },
        )
    }
}

/// Copies a string, keeping its characters.
fn clone_string(s: &String) -> (r: String)
    ensures
        r@ == s@,
{
    String::from_str(s.as_str())
}

/// The configuration the builder starts from: the local host, the default
/// port, a SQL login without credentials, certificates checked.
pub open spec fn default_model() -> ConfigModel {
    ConfigModel {
        host: "localhost"@,
        port: None,
        instance: None,
        database: None,
        auth_mode: AuthMode::SqlLogin,
        credentials: None,
        trust: false,
    }
}

/// Where a configuration sends the transport: the host beside either an
/// explicit port, or an instance name for the browser lookup, or the
/// default port. Exactly one of the two option fields is set.
pub open spec fn resolved(m: ConfigModel) -> (Seq<char>, Option<u16>, Option<Seq<char>>) {
    if m.port is Some {
        (m.host, m.port, None::<Seq<char>>)
    } else if m.instance is Some {
        (m.host, None::<u16>, m.instance)
    } else {
        (m.host, Some(1433u16), None::<Seq<char>>)
    }
}

/// The address a configuration resolves to.
#[derive(Clone, Debug, PartialEq, Eq)]
pub enum ResolvedAddress {
    /// Dial the host on this port.
    Direct { host: String, port: u16 },
    /// Ask the host's browser service where this instance listens.
    Named { host: String, instance: String },
}

impl ConnectionConfig {
    /// A fresh builder configuration; see `default_model` for its content.
    pub fn new() -> (r: ConnectionConfig)
        ensures
            r@ == default_model(),
    {
        ConnectionConfig {
            host: String::from_str("localhost"),
            port: None,
            instance_name: None,
            database: None,
            auth_mode: AuthMode::SqlLogin,
            credentials: None,
            trust_server_certificate: false,
        }
    }

    /// Sets the host to dial.
    pub fn host(&mut self, host: String)
        ensures
            final(self)@ == (ConfigModel { host: host@, ..old(self)@ }),
    {
        self.host = host;
    }

    /// Sets an explicit port, which then wins over any instance name.
    pub fn port(&mut self, port: u16)
        ensures
            final(self)@ == (ConfigModel { port: Some(port), ..old(self)@ }),
    {
        self.port = Some(port);
    }

    /// Names the instance whose port the browser service knows.
    pub fn instance_name(&mut self, name: String)
        ensures
            final(self)@ == (ConfigModel { instance: Some(name@), ..old(self)@ }),
    {
        self.instance_name = Some(name);
    }

    /// Names the database the session starts in.
    pub fn database(&mut self, db: String)
        ensures
            final(self)@ == (ConfigModel { database: Some(db@), ..old(self)@ }),
    {
        self.database = Some(db);
    }

    /// Chooses the authentication mode.
    pub fn authentication(&mut self, mode: AuthMode)
        ensures
            final(self)@ == (ConfigModel { auth_mode: mode, ..old(self)@ }),
    {
        self.auth_mode = mode;
    }

    /// Chooses a SQL login with these credentials.
    pub fn sql_login(&mut self, user: String, password: String)
        ensures
            final(self)@ == (ConfigModel {
                auth_mode: AuthMode::SqlLogin,
                credentials: Some(CredModel { user: user@, password: password@ }),
                ..old(self)@
            }),
    {
        self.auth_mode = AuthMode::SqlLogin;
        self.credentials = Some(Credentials { user, password });
    }

    /// Trusts the server's certificate without checking it.
    pub fn trust_cert(&mut self)
        ensures
            final(self)@ == (ConfigModel { trust: true, ..old(self)@ }),
    {
        self.trust_server_certificate = true;
    }

    /// The address the transport will dial for this configuration.
    pub fn resolved_address(&self) -> (r: ResolvedAddress)
        ensures
            (match r {
                ResolvedAddress::Direct { host, port } => host@ == resolved(self@).0 && Some(port)
                    == resolved(self@).1 && resolved(self@).2 is None,
                ResolvedAddress::Named { host, instance } => host@ == resolved(self@).0 && resolved(
                    self@,
                ).1 is None && Some(instance@) == resolved(self@).2,
            }),
    {
        match self.port {
            Some(p) => ResolvedAddress::Direct { host: clone_string(&self.host), port: p },
            None => match &self.instance_name {
                Some(inst) => ResolvedAddress::Named {
                    host: clone_string(&self.host),
                    instance: clone_string(inst),
                },
                None => ResolvedAddress::Direct { host: clone_string(&self.host), port: 1433 },
            },
        }
    }
}

/// Law: only the host, the port and the instance name decide the resolved
/// address. Two configurations that agree there — whichever of the three
/// forms each was written in — resolve to the same address; their
/// authentication mode is carried unchanged beside them.
pub proof fn lemma_equivalent_targets_resolve_alike(a: ConfigModel, b: ConfigModel)
    requires
        a.host == b.host,
        a.port == b.port,
        a.instance == b.instance,
    ensures
        resolved(a) == resolved(b),
{
}

proof fn lemma_find_from_shift(x: Seq<char>, c: char, i: int)
    requires
        0 <= i <= x.len(),
    ensures
        find_from(x, c, i) == i + find_from(x.skip(i), c, 0),
{
    let y = x.skip(i);
    lemma_find_from(y, c, 0);
    let f = find_from(y, c, 0);
    assert forall|k: int| i <= k < i + f implies x[k] != c by {
        assert(x[k] == y[k - i]);
    }
    if i + f < x.len() {
        assert(x[i + f] == y[f]);
    }
    lemma_find_from_unique(x, c, i, i + f);
}

proof fn lemma_parse_segments_suffix(x: Seq<char>, i: int, acc: AdoParts)
    requires
        0 <= i <= x.len(),
    ensures
        parse_segments(x, i, acc) == parse_segments(x.skip(i), 0, acc),
    decreases x.len() - i,
{
    let y = x.skip(i);
    lemma_find_from(x, ';', i);
    lemma_find_from(y, ';', 0);
    lemma_find_from_shift(x, ';', i);
    let f = find_from(x, ';', i);
    let g = find_from(y, ';', 0);
    assert(f == i + g);
    assert(x.subrange(i, f) =~= y.subrange(0, g));
    match apply_segment(acc, x.subrange(i, f)) {
        None => {},
        Some(a2) => {
            if f < x.len() {
                lemma_parse_segments_suffix(x, f + 1, a2);
                lemma_parse_segments_suffix(y, g + 1, a2);
                assert(x.skip(f + 1) =~= y.skip(g + 1));
            }
        },
    }
}

proof fn lemma_segments_keep_server(x: Seq<char>, i: int, acc: AdoParts)
    requires
        0 <= i <= x.len(),
        acc.has_server,
    ensures
        (match parse_segments(x, i, acc) {
            Some(p) => p.has_server,
            None => true,
        }),
    decreases x.len() - i,
{
    lemma_find_from(x, ';', i);
    let f = find_from(x, ';', i);
    let seg = x.subrange(i, f);
    lemma_find_from(seg, '=', 0);
    match apply_segment(acc, seg) {
        None => {},
        Some(a2) => {
            let e2 = find_from(seg, '=', 0);
            let key = seg.take(e2);
            assert(a2.has_server) by {
                if seg.len() == 0 {
                    assert(a2 == acc);
                } else if e2 == seg.len() {
                    assert(false);
                } else if eq_ignore_case(key, "server"@) {
                } else if eq_ignore_case(key, "database"@) {
                } else if eq_ignore_case(key, "integratedsecurity"@) {
                } else if eq_ignore_case(key, "trustservercertificate"@) {
                } else {
                    assert(false);
                }
            };
            if f < x.len() {
                lemma_segments_keep_server(x, f + 1, a2);
            }
        },
    }
}

/// Law: one target, two spellings, one configuration. For every `s`, the
/// JDBC string `jdbc:sqlserver://` + `s` and the ADO string `server=` + `s`
/// parse to the same configuration — or both fail. With
/// `lemma_equivalent_targets_resolve_alike`, whichever form a target was
/// written in, the transport dials the same resolved address under the
/// same authentication mode.
pub proof fn lemma_jdbc_matches_ado(s: Seq<char>)
    ensures
        spec_parse_jdbc(jdbc_prefix() + s) == spec_parse_ado("server="@ + s),
{
    reveal_strlit("jdbc:sqlserver://");
    reveal_strlit("server=");
    reveal_strlit("server");
    let p = jdbc_prefix();
    let q = "server="@;
    let j = p + s;
    let a = q + s;
    assert(q.len() == 7);
    assert(p.len() == 17);
    assert(j.take(p.len() as int) =~= p);
    let f = find_from(s, ';', 0);
    lemma_find_from(s, ';', 0);
    lemma_find_from_shift(j, ';', p.len() as int);
    assert(j.skip(p.len() as int) =~= s);
    assert(find_from(j, ';', p.len() as int) == p.len() + f);
    assert forall|k: int| 0 <= k < q.len() + f implies a[k] != ';' by {
        if k < q.len() {
            assert(a[k] == q[k]);
            if k == 0 {
            } else if k == 1 {
            } else if k == 2 {
            } else if k == 3 {
            } else if k == 4 {
            } else if k == 5 {
            } else {
                assert(k == 6);
            }
        } else {
            assert(a[k] == s[k - q.len()]);
        }
    }
    if q.len() + f < a.len() {
        assert(a[q.len() + f] == s[f]);
    }
    lemma_find_from_unique(a, ';', 0, q.len() + f);
    let seg_a = a.subrange(0, q.len() + f);
    assert(seg_a.len() == q.len() + f);
    assert forall|k: int| 0 <= k < 6 implies seg_a[k] != '=' by {
        assert(seg_a[k] == q[k]);
        if k == 0 {
        } else if k == 1 {
        } else if k == 2 {
        } else if k == 3 {
        } else if k == 4 {
        } else {
            assert(k == 5);
        }
    }
    assert(seg_a[6] == q[6]);
    assert(seg_a[6] == '=');
    lemma_find_from_unique(seg_a, '=', 0, 6);
    let key = seg_a.take(6);
    assert(key =~= "server"@) by {
        assert forall|k: int| 0 <= k < 6 implies key[k] == "server"@[k] by {
            assert(key[k] == q[k]);
            if k == 0 {
            } else if k == 1 {
            } else if k == 2 {
            } else if k == 3 {
            } else if k == 4 {
            } else {
                assert(k == 5);
            }
        }
    }
    assert(eq_ignore_case(key, "server"@));
    let val = seg_a.subrange(7, seg_a.len() as int);
    assert(val =~= s.take(f));
    assert(j.subrange(p.len() as int, p.len() + f) =~= s.take(f));
    match parse_server_value(s.take(f)) {
        None => {
            assert(apply_segment(empty_parts(), seg_a) is None);
            assert(spec_parse_ado(a) is None);
            assert(spec_parse_jdbc(j) is None);
        },
        Some(sv) => {
            let seeded = AdoParts {
                has_server: true,
                host: sv.0,
                instance: sv.1,
                port: sv.2,
                database: None,
                integrated: false,
                trust: false,
            };
            assert(apply_segment(empty_parts(), seg_a) == Some(seeded));
            if q.len() + f < a.len() {
                lemma_parse_segments_suffix(a, q.len() + f + 1, seeded);
                lemma_parse_segments_suffix(j, p.len() + f + 1, seeded);
                assert(a.skip(q.len() + f + 1) =~= s.skip(f + 1));
                assert(j.skip(p.len() + f + 1) =~= s.skip(f + 1));
                lemma_segments_keep_server(s.skip(f + 1), 0, seeded);
            }
        },
    }
}

/// One window of a string that assigns the server field.
pub open spec fn is_server_assignment(seg: Seq<char>) -> bool {
    seg.len() > 0 && ({
        let e = find_from(seg, '=', 0);
        e < seg.len() && eq_ignore_case(seg.take(e), "server"@) && parse_server_value(
            seg.subrange(e + 1, seg.len() as int),
        ) is Some
    })
}

proof fn lemma_segments_need_server(s: Seq<char>, i: int, acc: AdoParts)
    requires
        0 <= i <= s.len(),
        !acc.has_server,
        (match parse_segments(s, i, acc) {
            Some(p) => p.has_server,
            None => false,
        }),
    ensures
        exists|j: int, e: int|
            i <= j <= e <= s.len() && is_server_assignment(s.subrange(j, e)),
    decreases s.len() - i,
{
    lemma_find_from(s, ';', i);
    let f = find_from(s, ';', i);
    let seg = s.subrange(i, f);
    match apply_segment(acc, seg) {
        None => {
            assert(false);
        },
        Some(a2) => {
            lemma_find_from(seg, '=', 0);
            let e2 = find_from(seg, '=', 0);
            let key = seg.take(e2);
            let val = seg.subrange(e2 + 1, seg.len() as int);
            let assigns = seg.len() > 0 && e2 < seg.len() && eq_ignore_case(key, "server"@);
            if assigns {
                assert(parse_server_value(val) is Some);
                assert(is_server_assignment(seg));
                assert(i <= i <= f <= s.len() && is_server_assignment(s.subrange(i, f)));
            } else {
                assert(a2.has_server == acc.has_server) by {
                    if seg.len() == 0 {
                        assert(a2 == acc);
                    } else if e2 == seg.len() {
                        assert(false);
                    } else if eq_ignore_case(key, "database"@) {
                    } else if eq_ignore_case(key, "integratedsecurity"@) {
                    } else if eq_ignore_case(key, "trustservercertificate"@) {
                    } else {
                        assert(false);
                    }
                };
                if f >= s.len() {
                    assert(false);
                } else {
                    lemma_segments_need_server(s, f + 1, a2);
                    let (j, e) = choose|j: int, e: int|
                        f + 1 <= j <= e <= s.len() && is_server_assignment(s.subrange(j, e));
                    assert(i <= j <= e <= s.len() && is_server_assignment(s.subrange(j, e)));
                }
            }
        },
    }
}

/// Law: parsing never invents a server. A string none of whose windows is a
/// well-formed `server=` assignment cannot yield a configuration: with
/// `from_ado_string`'s contract, parsing it returns
/// `MalformedConnectionString`, and no partially populated configuration
/// escapes.
pub proof fn lemma_missing_server_is_malformed(s: Seq<char>)
    requires
        forall|j: int, e: int| 0 <= j <= e <= s.len() ==> !is_server_assignment(s.subrange(j, e)),
    ensures
        spec_parse_ado(s) is None,
{
    if spec_parse_ado(s) is Some {
        match parse_segments(s, 0, empty_parts()) {
            Some(p) => {
                assert(p.has_server);
                lemma_segments_need_server(s, 0, empty_parts());
                let (j, e) = choose|j: int, e: int|
                    0 <= j <= e <= s.len() && is_server_assignment(s.subrange(j, e));
                assert(!is_server_assignment(s.subrange(j, e)));
                assert(false);
            },
            None => {
                assert(false);
            },
        }
    }
}

} // verus!
