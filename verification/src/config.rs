//! Application settings: defaults, clean-up after loading, and partial
//! updates.

use vstd::prelude::*;
use crate::text::{trim, trimmed, owned};

verus! {

/// The service's settings.
pub struct AppConfig {
    pub tcp_port: u16,
    pub ws_port: u16,
    pub auto_start: bool,
    pub default_printer: String,
    pub log_level: String,
    pub dry_run: bool,
}

pub struct ConfigModel {
    pub tcp_port: u16,
    pub ws_port: u16,
    pub auto_start: bool,
    pub default_printer: Seq<char>,
    pub log_level: Seq<char>,
    pub dry_run: bool,
}

impl View for AppConfig {
    type V = ConfigModel;

    open spec fn view(&self) -> ConfigModel {
        ConfigModel {
            tcp_port: self.tcp_port,
            ws_port: self.ws_port,
            auto_start: self.auto_start,
            default_printer: self.default_printer@,
            log_level: self.log_level@,
            dry_run: self.dry_run,
        }
    }
}

impl Clone for AppConfig {
    fn clone(&self) -> (r: Self)
        ensures
            r@ == self@,
    {
        AppConfig {
            tcp_port: self.tcp_port,
            ws_port: self.ws_port,
            auto_start: self.auto_start,
            default_printer: self.default_printer.clone(),
            log_level: self.log_level.clone(),
            dry_run: self.dry_run,
        }
    }
}

/// The settings of a fresh installation: TCP on 9527, WebSocket on 9528,
/// services started automatically, no default printer, log level `info`,
/// and dry runs only.
pub open spec fn default_config() -> ConfigModel {
    ConfigModel {
        tcp_port: 9527,
        ws_port: 9528,
        auto_start: true,
        default_printer: Seq::empty(),
        log_level: "info"@,
        dry_run: true,
    }
}

impl Default for AppConfig {
    fn default() -> (c: Self)
        ensures
            c@ == default_config(),
    {
        AppConfig {
            tcp_port: 9527,
            ws_port: 9528,
            auto_start: true,
            default_printer: String::new(),
            log_level: owned("info"),
            dry_run: true,
        }
    }
}

/// Settings as read from disk are used as they are, except that a blank log
/// level becomes `info`.
pub open spec fn normalized_config(c: ConfigModel) -> ConfigModel {
    if trimmed(c.log_level).len() == 0 {
        ConfigModel { log_level: "info"@, ..c }
    } else {
        c
    }
}

/// A change to some of the settings; `None` leaves a setting as it is.
pub struct PartialAppConfig {
    pub tcp_port: Option<u16>,
    pub ws_port: Option<u16>,
    pub auto_start: Option<bool>,
    pub default_printer: Option<String>,
    pub log_level: Option<String>,
    pub dry_run: Option<bool>,
}

pub struct PartialModel {
    pub tcp_port: Option<u16>,
    pub ws_port: Option<u16>,
    pub auto_start: Option<bool>,
    pub default_printer: Option<Seq<char>>,
    pub log_level: Option<Seq<char>>,
    pub dry_run: Option<bool>,
}

impl View for PartialAppConfig {
    type V = PartialModel;

    open spec fn view(&self) -> PartialModel {
        PartialModel {
            tcp_port: self.tcp_port,
            ws_port: self.ws_port,
            auto_start: self.auto_start,
            default_printer: self.default_printer.deep_view(),
            log_level: self.log_level.deep_view(),
            dry_run: self.dry_run,
        }
    }
}

pub open spec fn or_keep<T>(new: Option<T>, old: T) -> T {
    match new {
        Some(v) => v,
        None => old,
    }
}

/// The settings after a partial update: every setting that the update
/// holds takes its value, every other setting is kept.
pub open spec fn merged_config(c: ConfigModel, p: PartialModel) -> ConfigModel {
    ConfigModel {
        tcp_port: or_keep(p.tcp_port, c.tcp_port),
        ws_port: or_keep(p.ws_port, c.ws_port),
        auto_start: or_keep(p.auto_start, c.auto_start),
        default_printer: or_keep(p.default_printer, c.default_printer),
        log_level: or_keep(p.log_level, c.log_level),
        dry_run: or_keep(p.dry_run, c.dry_run),
    }
}

/// Whether the update gives either port a value other than the current one.
pub open spec fn ports_changed(c: ConfigModel, p: PartialModel) -> bool {
    ||| (p.tcp_port matches Some(port) && port != c.tcp_port)
    ||| (p.ws_port matches Some(port) && port != c.ws_port)
}

/// The result of a partial update: the new settings, and whether the
/// listening services must be restarted (a port changed while services are
/// started automatically).
pub struct ConfigUpdate {
    pub config: AppConfig,
    pub restart_services: bool,
}

impl AppConfig {
    /// The settings with a blank log level replaced by `info`.
    pub fn normalized(self) -> (c: AppConfig)
        ensures
            c@ == normalized_config(self@),
    {
        let mut c = self;
        if trim(c.log_level.as_str()).as_str().is_empty() {
            c.log_level = owned("info");
        }
        c
    }

    /// Applies `partial` to these settings.
    pub fn updated(&self, partial: PartialAppConfig) -> (u: ConfigUpdate)
        ensures
            u.config@ == merged_config(self@, partial@),
            u.restart_services == (ports_changed(self@, partial@) && self.auto_start),
    {
        let mut config = self.clone();
        let mut changed_ports = false;
        if let Some(port) = partial.tcp_port {
            changed_ports = changed_ports || port != config.tcp_port;
            config.tcp_port = port;
        }
        if let Some(port) = partial.ws_port {
            changed_ports = changed_ports || port != config.ws_port;
            config.ws_port = port;
        }
        if let Some(auto_start) = partial.auto_start {
            config.auto_start = auto_start;
        }
        if let Some(default_printer) = partial.default_printer {
            config.default_printer = default_printer;
        }
        if let Some(log_level) = partial.log_level {
            config.log_level = log_level;
        }
        if let Some(dry_run) = partial.dry_run {
            config.dry_run = dry_run;
        }
        ConfigUpdate { config, restart_services: changed_ports && self.auto_start }
    }
}

} // verus!

verus! {

/// The update that holds no setting.
pub open spec fn no_change() -> PartialModel {
    PartialModel {
        tcp_port: None,
        ws_port: None,
        auto_start: None,
        default_printer: None,
        log_level: None,
        dry_run: None,
    }
}

/// An update that holds no setting leaves the settings as they are and
/// restarts nothing.
pub proof fn law_empty_update_changes_nothing(c: ConfigModel)
    ensures
        merged_config(c, no_change()) == c,
        !ports_changed(c, no_change()),
{
}

/// Applying the same update twice gives the settings that one application
/// gives, and the second application changes no port (so it restarts
/// nothing).
pub proof fn law_update_is_idempotent(c: ConfigModel, p: PartialModel)
    ensures
        merged_config(merged_config(c, p), p) == merged_config(c, p),
        !ports_changed(merged_config(c, p), p),
{
}

/// Every setting that an update holds is in force after it.
pub proof fn law_update_sets_what_it_holds(c: ConfigModel, p: PartialModel)
    ensures
        p.tcp_port matches Some(port) ==> merged_config(c, p).tcp_port == port,
        p.ws_port matches Some(port) ==> merged_config(c, p).ws_port == port,
        p.auto_start matches Some(b) ==> merged_config(c, p).auto_start == b,
        p.default_printer matches Some(s) ==> merged_config(c, p).default_printer == s,
        p.log_level matches Some(s) ==> merged_config(c, p).log_level == s,
        p.dry_run matches Some(b) ==> merged_config(c, p).dry_run == b,
{
}

/// An update asks for the listeners to be restarted (when services start
/// automatically) exactly when it leaves either port at a value other than
/// the one in force: giving the TCP or the WebSocket port a new value does,
/// giving a port the value it already has does not.
pub proof fn law_restart_follows_port_changes(c: ConfigModel, p: PartialModel)
    ensures
        ports_changed(c, p) <==> (merged_config(c, p).tcp_port != c.tcp_port || merged_config(c, p).ws_port
            != c.ws_port),
        (p.tcp_port matches Some(x) && x != c.tcp_port) ==> ports_changed(c, p),
        (p.ws_port matches Some(x) && x != c.ws_port) ==> ports_changed(c, p),
        (p.tcp_port is None || p.tcp_port == Some(c.tcp_port)) && (p.ws_port is None || p.ws_port == Some(
            c.ws_port,
        )) ==> !ports_changed(c, p),
{
}

proof fn info_is_not_blank()
    ensures
        trimmed("info"@).len() == 4,
{
    reveal_strlit("info");
    let s = "info"@;
    assert(!crate::text::is_white_space(s[0]));
    assert(crate::text::trim_start(s) == s);
    assert(!crate::text::is_white_space(s.last()));
    assert(crate::text::trim_end(s) == s);
}

/// Cleaning up loaded settings a second time changes nothing, and the
/// default settings need no clean-up.
pub proof fn law_normalization_is_idempotent(c: ConfigModel)
    ensures
        normalized_config(normalized_config(c)) == normalized_config(c),
        normalized_config(default_config()) == default_config(),
{
    info_is_not_blank();
}

} // verus!
