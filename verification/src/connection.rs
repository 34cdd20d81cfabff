//! The connection provider's rules: what is checked before any network
//! traffic, how a session is configured, how an SSH tunnel is entered, and
//! when a failed attempt is tried again.

use crate::model::{clone_opt_text, Config, DatabaseConfig, DbError, DbErrorView, SSHConfig};
use crate::text::{decimal, push_decimal, same_text};
use vstd::arithmetic::power2::{lemma2_to64, lemma_pow2_strictly_increases, lemma_pow2_unfold, pow2};
use vstd::prelude::*;

verus! {

/// The number of attempts made to open a database session.
pub const CONNECT_ATTEMPTS: u32 = 3;

/// The name under which a session announces itself.
pub open spec fn application_name() -> Seq<char> {
    "db_copier"@
}

/// The address that a tunnelled session connects to.
pub open spec fn loopback() -> Seq<char> {
    "127.0.0.1"@
}

/// What is asked of the transport's encryption.
#[derive(Clone, Copy, Debug, PartialEq, Eq, Structural)]
pub enum SslMode {
    Require,
    Disable,
    Prefer,
}

/// The mode that a configured text stands for: anything but `require` and
/// `disable` means `Prefer`.
pub open spec fn ssl_mode(text: Seq<char>) -> SslMode {
    if text == "require"@ {
        SslMode::Require
    } else if text == "disable"@ {
        SslMode::Disable
    } else {
        SslMode::Prefer
    }
}

/// The mode that a configured text stands for.
pub fn ssl_mode_of(text: &str) -> (mode: SslMode)
    ensures
        mode == ssl_mode(text@),
{
    if same_text(text, "require") {
        SslMode::Require
    } else if same_text(text, "disable") {
        SslMode::Disable
    } else {
        SslMode::Prefer
    }
}

/// The first reason for which an endpoint is refused before any network
/// traffic, if there is one: an empty host, database name or user name.
pub open spec fn endpoint_fault(cfg: DatabaseConfig) -> Option<Seq<char>> {
    if cfg.host@.len() == 0 {
        Some("数据库主机地址不能为空"@)
    } else if cfg.database@.len() == 0 {
        Some("数据库名不能为空"@)
    } else if cfg.username@.len() == 0 {
        Some("数据库用户名不能为空"@)
    } else {
        None
    }
}

/// Checks an endpoint before any network traffic: host, database name and
/// user name must not be empty.
pub fn validate_endpoint(cfg: &DatabaseConfig) -> (r: Result<(), DbError>)
    ensures
        r is Ok <==> endpoint_fault(*cfg) is None,
        r is Err ==> r->Err_0@ == DbErrorView::Connection(endpoint_fault(*cfg)->Some_0),
{
    if cfg.host.as_str().is_empty() {
        Err(DbError::Connection("数据库主机地址不能为空".to_owned()))
    } else if cfg.database.as_str().is_empty() {
        Err(DbError::Connection("数据库名不能为空".to_owned()))
    } else if cfg.username.as_str().is_empty() {
        Err(DbError::Connection("数据库用户名不能为空".to_owned()))
    } else {
        Ok(())
    }
}

/// Checks both endpoints of a job before any session is opened.
pub fn validate_job(config: &Config) -> (r: Result<(), DbError>)
    ensures
        r is Ok <==> endpoint_fault(config.source_db) is None && endpoint_fault(config.target_db)
            is None,
        r is Err ==> r->Err_0@ == DbErrorView::Connection("数据库配置无效"@),
{
    let source = validate_endpoint(&config.source_db);
    let target = validate_endpoint(&config.target_db);
    if source.is_ok() && target.is_ok() {
        Ok(())
    } else {
        Err(DbError::Connection("数据库配置无效".to_owned()))
    }
}

/// The settings of one database session.
#[derive(Clone, Debug, PartialEq, Eq)]
pub struct SessionSettings {
    pub host: String,
    pub port: u16,
    pub database: String,
    pub username: String,
    pub password: String,
    pub application_name: String,
    pub connect_timeout_secs: u64,
    pub keepalives: bool,
    pub keepalives_idle_secs: u64,
    pub ssl_mode: SslMode,
    /// Whether certificates that do not verify are accepted: under
    /// `Require`, so that self-signed servers can be reached.
    pub accept_invalid_certs: bool,
}

/// Whether the settings are those of the endpoint.
pub open spec fn settings_of(s: SessionSettings, cfg: DatabaseConfig) -> bool {
    &&& s.host@ == cfg.host@
    &&& s.port == cfg.port
    &&& s.database@ == cfg.database@
    &&& s.username@ == cfg.username@
    &&& s.password@ == cfg.password@
    &&& s.application_name@ == application_name()
    &&& s.connect_timeout_secs == 10
    &&& s.keepalives
    &&& s.keepalives_idle_secs == 30
    &&& s.ssl_mode == ssl_mode(cfg.ssl_mode@)
    &&& s.accept_invalid_certs == (ssl_mode(cfg.ssl_mode@) == SslMode::Require)
}

/// The settings of a session to the endpoint, or the reason for which the
/// endpoint is refused before any network traffic.
pub fn session_settings(cfg: &DatabaseConfig) -> (r: Result<SessionSettings, DbError>)
    ensures
        r is Ok <==> endpoint_fault(*cfg) is None,
        r is Ok ==> settings_of(r->Ok_0, *cfg),
        r is Err ==> r->Err_0@ == DbErrorView::Connection(endpoint_fault(*cfg)->Some_0),
{
    match validate_endpoint(cfg) {
        Err(e) => Err(e),
        Ok(_) => {
            let mode = ssl_mode_of(cfg.ssl_mode.as_str());
            Ok(
                SessionSettings {
                    host: cfg.host.clone(),
                    port: cfg.port,
                    database: cfg.database.clone(),
                    username: cfg.username.clone(),
                    password: cfg.password.clone(),
                    application_name: "db_copier".to_owned(),
                    connect_timeout_secs: 10,
                    keepalives: true,
                    keepalives_idle_secs: 30,
                    ssl_mode: mode,
                    accept_invalid_certs: mode == SslMode::Require,
                },
            )
        },
    }
}

/// The secret with which an SSH session authenticates.
#[derive(Clone, Debug, PartialEq, Eq)]
pub enum SshAuth {
    Password(String),
    PrivateKey(String),
}

/// What contracts read of an SSH secret.
pub enum SshAuthView {
    Password(Seq<char>),
    PrivateKey(Seq<char>),
}

impl View for SshAuth {
    type V = SshAuthView;

    open spec fn view(&self) -> SshAuthView {
        match self {
            SshAuth::Password(p) => SshAuthView::Password(p@),
            SshAuth::PrivateKey(p) => SshAuthView::PrivateKey(p@),
        }
    }
}

/// The secret that the tunnel's configuration resolves to: the one that
/// its authentication method names, which must be present.
pub open spec fn resolved_auth(ssh: SSHConfig) -> Result<SshAuthView, DbErrorView> {
    if ssh.auth_type@ == "password"@ {
        match ssh.password {
            Some(p) => Ok(SshAuthView::Password(p@)),
            None => Err(DbErrorView::SSH("密码不能为空"@)),
        }
    } else if ssh.auth_type@ == "private_key"@ {
        match ssh.private_key_path {
            Some(p) => Ok(SshAuthView::PrivateKey(p@)),
            None => Err(DbErrorView::SSH("密钥路径不能为空"@)),
        }
    } else {
        Err(DbErrorView::SSH("不支持的认证方式"@))
    }
}

/// Resolves the secret with which the tunnel authenticates.
pub fn ssh_auth(ssh: &SSHConfig) -> (r: Result<SshAuth, DbError>)
    ensures
        r is Ok <==> resolved_auth(*ssh) is Ok,
        r is Ok ==> r->Ok_0@ == resolved_auth(*ssh)->Ok_0,
        r is Err ==> r->Err_0@ == resolved_auth(*ssh)->Err_0,
{
    if same_text(ssh.auth_type.as_str(), "password") {
        match &ssh.password {
            Some(p) => Ok(SshAuth::Password(p.clone())),
            None => Err(DbError::SSH("密码不能为空".to_owned())),
        }
    } else if same_text(ssh.auth_type.as_str(), "private_key") {
        match &ssh.private_key_path {
            Some(p) => Ok(SshAuth::PrivateKey(p.clone())),
            None => Err(DbError::SSH("密钥路径不能为空".to_owned())),
        }
    } else {
        Err(DbError::SSH("不支持的认证方式".to_owned()))
    }
}

/// The address of the SSH host to dial: host, colon, port.
pub fn ssh_address(ssh: &SSHConfig) -> (out: String)
    ensures
        out@ == ssh.host@ + ":"@ + decimal(ssh.port as nat),
{
    let mut out = ssh.host.clone();
    out.append(":");
    push_decimal(&mut out, ssh.port as usize);
    out
}

impl SSHConfig {
    /// A copy of the configuration.
    pub fn duplicate(&self) -> (r: SSHConfig)
        ensures
            r == *self,
    {
        SSHConfig {
            host: self.host.clone(),
            port: self.port,
            username: self.username.clone(),
            auth_type: self.auth_type.clone(),
            private_key_path: clone_opt_text(&self.private_key_path),
            password: clone_opt_text(&self.password),
        }
    }
}

/// The endpoint as it is reached through a tunnel whose local end listens
/// on `local_port`: host and port are those of the local end, the rest is
/// unchanged.
pub fn through_tunnel(cfg: &DatabaseConfig, local_port: u16) -> (r: DatabaseConfig)
    ensures
        r.host@ == loopback(),
        r.port == local_port,
        r.database == cfg.database,
        r.username == cfg.username,
        r.password == cfg.password,
        r.ssl_mode == cfg.ssl_mode,
        r.ssh_config == cfg.ssh_config,
{
    DatabaseConfig {
        host: "127.0.0.1".to_owned(),
        port: local_port,
        database: cfg.database.clone(),
        username: cfg.username.clone(),
        password: cfg.password.clone(),
        ssl_mode: cfg.ssl_mode.clone(),
        ssh_config: match &cfg.ssh_config {
            Some(ssh) => Some(ssh.duplicate()),
            None => None,
        },
    }
}

/// What follows a failed attempt.
#[derive(Clone, Debug, PartialEq, Eq)]
pub enum RetryStep {
    /// Wait this many seconds, then try again.
    Wait(u64),
    /// No attempt is left: the error of the last one is handed back.
    GiveUp(DbError),
}

/// The attempts made so far under a bounded retry with doubling waits.
#[derive(Clone, Copy, Debug, PartialEq, Eq)]
pub struct Retry {
    failures: u32,
    limit: u32,
}

/// The seconds to wait after the given number of failed attempts: two
/// after the first, four after the second, doubling from there.
pub open spec fn backoff_seconds(failures: nat) -> nat {
    pow2(failures)
}

impl Retry {
    /// The attempts that have failed.
    pub closed spec fn failures(&self) -> nat {
        self.failures as nat
    }

    /// The attempts that are made at most.
    pub closed spec fn limit(&self) -> nat {
        self.limit as nat
    }

    /// The counter is within its limit, and every wait fits in 64 bits.
    pub open spec fn wf(&self) -> bool {
        self.failures() <= self.limit() && 1 <= self.limit() <= 63
    }

    /// A retry of at most `limit` attempts, none made yet.
    pub fn new(limit: u32) -> (r: Retry)
        requires
            1 <= limit <= 63,
        ensures
            r.wf(),
            r.failures() == 0,
            r.limit() == limit,
    {
        Retry { failures: 0, limit }
    }

    /// The retry under which a database session is opened.
    pub fn for_connect() -> (r: Retry)
        ensures
            r.wf(),
            r.failures() == 0,
            r.limit() == CONNECT_ATTEMPTS,
    {
        Retry { failures: 0, limit: CONNECT_ATTEMPTS }
    }

    /// Whether another attempt may be made.
    pub fn attempts_left(&self) -> (r: bool)
        ensures
            r == (self.failures() < self.limit()),
    {
        self.failures < self.limit
    }

    /// Records a failed attempt. While attempts are left the step is a wait
    /// that doubles with each failure; with the last attempt the error comes
    /// back as it was given.
    pub fn record_failure(&mut self, error: DbError) -> (step: RetryStep)
        requires
            old(self).wf(),
        ensures
            final(self).wf(),
            final(self).limit() == old(self).limit(),
            final(self).failures() == if old(self).failures() < old(self).limit() {
                old(self).failures() + 1
            } else {
                old(self).failures()
            },
            final(self).failures() < final(self).limit() ==> step == RetryStep::Wait(
                backoff_seconds(final(self).failures()) as u64,
            ) && backoff_seconds(final(self).failures()) <= u64::MAX,
            final(self).failures() >= final(self).limit() ==> step == RetryStep::GiveUp(error),
    {
        if self.failures < self.limit {
            self.failures = self.failures + 1;
        }
        if self.failures < self.limit {
            RetryStep::Wait(wait_after(self.failures))
        } else {
            RetryStep::GiveUp(error)
        }
    }
}

fn wait_after(failures: u32) -> (secs: u64)
    requires
        failures <= 63,
    ensures
        secs == backoff_seconds(failures as nat),
{
    let mut secs: u64 = 1;
    let mut k: u32 = 0;
    proof {
        lemma2_to64();
    }
    while k < failures
        invariant
            k <= failures <= 63,
            secs == pow2(k as nat),
        decreases failures - k,
    {
        proof {
            lemma_pow2_unfold((k + 1) as nat);
            lemma_pow2_strictly_increases((k + 1) as nat, 64);
            lemma2_to64();
        }
        secs = secs * 2;
        k = k + 1;
    }
    secs
}

} // verus!
