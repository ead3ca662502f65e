//! The configuration model: what the command knows about the server, the
//! project and the local repository, and how git-config entries and
//! environment variables update it.
//!
//! Reading the actual git-config files is left to the surrounding
//! program; it hands the entries over as plain key/value pairs and this
//! module applies them, later sources overriding earlier ones.

use vstd::prelude::*;
use crate::strutil::dec_val;
use crate::strutil::is_u64_str;
use crate::strutil::parse_u64;
use crate::strutil::str_eq;
use crate::strutil::unsigned_digits;

verus! {

/// The two places git config can be saved to: the user's own config file
/// or the repository's.
#[derive(Debug, Clone, Copy, PartialEq, Eq, Structural)]
pub enum GitConfigSaveableLevel {
    Repo,
    User,
}

/// The two kinds of user-level git config: the XDG file and the home
/// dotfile (known as `Global` in git parlance).
#[derive(Debug, Clone, Copy, PartialEq, Eq, Structural)]
pub enum UserGitConfigLevel {
    XDG,
    Global,
}

/// The supported output formats.
#[derive(Debug, Clone, Copy, PartialEq, Eq, Structural)]
pub enum OutputFormat {
    Text,
    JSON,
}

/// What `str::to_uppercase` returns for a text: a pure function of the
/// characters alone.
pub uninterp spec fn upper_of(s: Seq<char>) -> Seq<char>;

/// Relies on `str::to_uppercase`, the Unicode uppercase mapping, to
/// compare configuration words case-insensitively.
#[verifier::external_body]
fn to_upper(s: &str) -> (r: String)
    ensures
        r@ == upper_of(s@),
{
    s.to_uppercase()
}

/// True iff git-config or environment text counts as a switched-on
/// boolean: `true`, `yes`, `on` or `1`, in any letter case.
pub open spec fn truthy_spec(v: Seq<char>) -> bool {
    ||| upper_of(v) == "TRUE"@
    ||| upper_of(v) == "YES"@
    ||| upper_of(v) == "ON"@
    ||| upper_of(v) == "1"@
}

/// Evaluates [`truthy_spec`] on a value.
fn truthy(v: &str) -> (r: bool)
    ensures
        r == truthy_spec(v@),
{
    let u = to_upper(v);
    str_eq(u.as_str(), "TRUE") || str_eq(u.as_str(), "YES") || str_eq(u.as_str(), "ON")
        || str_eq(u.as_str(), "1")
}

/// The format a configuration word names, if any: `json` or `text` in any
/// letter case.
pub open spec fn format_of_spec(v: Seq<char>) -> Option<OutputFormat> {
    if upper_of(v) == "JSON"@ {
        Some(OutputFormat::JSON)
    } else if upper_of(v) == "TEXT"@ {
        Some(OutputFormat::Text)
    } else {
        None
    }
}

impl OutputFormat {
    /// Parses an output-format word, case-insensitively.
    pub fn from_str(s: &str) -> (r: Result<OutputFormat, String>)
        ensures
            format_of_spec(s@) matches Some(f) ==> r == Ok::<OutputFormat, String>(f),
            format_of_spec(s@) is None ==> r is Err,
    {
        let u = to_upper(s);
        if str_eq(u.as_str(), "JSON") {
            Ok(OutputFormat::JSON)
        } else if str_eq(u.as_str(), "TEXT") {
            Ok(OutputFormat::Text)
        } else {
            let mut m = String::new();
            m.append("Bad output format: ");
            m.append(s);
            Err(m)
        }
    }

    /// The word this format is written as in git config.
    pub fn as_config_word(&self) -> (r: &'static str)
        ensures
            *self == OutputFormat::JSON ==> r@ == "json"@,
            *self == OutputFormat::Text ==> r@ == "text"@,
    {
        match self {
            OutputFormat::JSON => "json",
            OutputFormat::Text => "text",
        }
    }
}

/// Everything the command knows once configuration is gathered: how to
/// talk to the server, the attached project, and the local repository.
#[derive(Debug, Clone, PartialEq, Eq)]
pub struct Config {
    /// The personal access token.
    pub token: Option<String>,
    /// The server host name.
    pub host: Option<String>,
    /// Whether to connect over TLS.
    pub tls: Option<bool>,
    /// The chosen output format.
    pub format: Option<OutputFormat>,
    /// Path of the enclosing local repository, if any.
    pub repo_path: Option<String>,
    /// Which user-level config file is in use.
    pub user_config_type: Option<UserGitConfigLevel>,
    /// The attached project's id.
    pub projectid: Option<u64>,
    /// The attached project's default branch.
    pub defaultbranch: Option<String>,
    /// The attached project's path with namespace.
    pub path_with_namespace: Option<String>,
    /// The attached project's labels.
    pub labels: Vec<String>,
    /// The attached project's members, as `"<id>:<username>"` entries.
    pub members: Vec<String>,
}

/// The spec-level image of a [`Config`].
#[verifier::ext_equal]
pub struct ConfigView {
    pub token: Option<Seq<char>>,
    pub host: Option<Seq<char>>,
    pub tls: Option<bool>,
    pub format: Option<OutputFormat>,
    pub repo_path: Option<Seq<char>>,
    pub user_config_type: Option<UserGitConfigLevel>,
    pub projectid: Option<u64>,
    pub defaultbranch: Option<Seq<char>>,
    pub path_with_namespace: Option<Seq<char>>,
    pub labels: Seq<Seq<char>>,
    pub members: Seq<Seq<char>>,
}

impl View for Config {
    type V = ConfigView;

    open spec fn view(&self) -> ConfigView {
        ConfigView {
            token: self.token.deep_view(),
            host: self.host.deep_view(),
            tls: self.tls,
            format: self.format,
            repo_path: self.repo_path.deep_view(),
            user_config_type: self.user_config_type,
            projectid: self.projectid,
            defaultbranch: self.defaultbranch.deep_view(),
            path_with_namespace: self.path_with_namespace.deep_view(),
            labels: self.labels.deep_view(),
            members: self.members.deep_view(),
        }
    }
}

impl Config {
    /// An empty configuration: nothing known yet.
    pub fn new() -> (r: Config)
        ensures
            r@.token is None,
            r@.host is None,
            r@.tls is None,
            r@.format is None,
            r@.repo_path is None,
            r@.user_config_type is None,
            r@.projectid is None,
            r@.defaultbranch is None,
            r@.path_with_namespace is None,
            r@.labels.len() == 0,
            r@.members.len() == 0,
    {
        Config {
            token: None,
            host: None,
            tls: None,
            format: None,
            repo_path: None,
            user_config_type: None,
            projectid: None,
            defaultbranch: None,
            path_with_namespace: None,
            labels: Vec::new(),
            members: Vec::new(),
        }
    }
}

/// One environment variable applied to a configuration, as
/// `GITLABCLI_`-prefixed variables are read: later values override
/// earlier ones, and an unparsable format or project id clears the field.
pub open spec fn env_apply_one(c: ConfigView, k: Seq<char>, v: Seq<char>) -> ConfigView {
    if k == "GITLABCLI_TOKEN"@ {
        ConfigView { token: Some(v), ..c }
    } else if k == "GITLABCLI_HOST"@ {
        ConfigView { host: Some(v), ..c }
    } else if k == "GITLABCLI_TLS"@ {
        ConfigView { tls: Some(truthy_spec(v)), ..c }
    } else if k == "GITLABCLI_FORMAT"@ {
        ConfigView { format: format_of_spec(v), ..c }
    } else if k == "GITLABCLI_PROJECTID"@ {
        ConfigView {
            projectid: if is_u64_str(v) {
                Some(dec_val(unsigned_digits(v)) as u64)
            } else {
                None
            },
            ..c
        }
    } else {
        c
    }
}

/// A list of environment variables applied in order.
pub open spec fn env_apply(c: ConfigView, vars: Seq<(Seq<char>, Seq<char>)>) -> ConfigView
    decreases vars.len(),
{
    if vars.len() == 0 {
        c
    } else {
        env_apply(env_apply_one(c, vars[0].0, vars[0].1), vars.drop_first())
    }
}

/// Applies environment variables to the configuration, in order, later
/// ones overriding earlier ones.
pub fn update_config_from_env(config: &mut Config, vars: Vec<(String, String)>)
    ensures
        final(config)@ == env_apply(old(config)@, vars.deep_view()),
{
    let ghost vs = vars.deep_view();
    let mut i: usize = 0;
    proof {
        assert(vs.skip(0) =~= vs);
    }
    while i < vars.len()
        invariant
            i <= vars@.len(),
            vs == vars.deep_view(),
            vs.len() == vars@.len(),
            env_apply(config@, vs.skip(i as int)) == env_apply(old(config)@, vs),
        decreases vars@.len() - i,
    {
        let ghost before = config@;
        let (key, value) = (&vars[i].0, &vars[i].1);
        proof {
            assert(vs[i as int] == (key@, value@));
        }
        if str_eq(key.as_str(), "GITLABCLI_TOKEN") {
            config.token = Some(value.clone());
        } else if str_eq(key.as_str(), "GITLABCLI_HOST") {
            config.host = Some(value.clone());
        } else if str_eq(key.as_str(), "GITLABCLI_TLS") {
            config.tls = Some(truthy(value.as_str()));
        } else if str_eq(key.as_str(), "GITLABCLI_FORMAT") {
            config.format = match OutputFormat::from_str(value.as_str()) {
                Ok(f) => Some(f),
                Err(_) => None,
            };
        } else if str_eq(key.as_str(), "GITLABCLI_PROJECTID") {
            config.projectid = parse_u64(value.as_str());
        }
        proof {
            assert(config@ =~= env_apply_one(before, vs[i as int].0, vs[i as int].1));
            assert(vs.skip(i as int).drop_first() =~= vs.skip(i as int + 1));
            assert(env_apply(before, vs.skip(i as int))
                == env_apply(config@, vs.skip(i as int + 1)));
        }
        i = i + 1;
    }
    proof {
        assert(vs.skip(vs.len() as int) =~= Seq::empty());
    }
}

/// One git-config entry of the `gitlab` section applied to a
/// configuration.  A `gitlab.projectid` value is expected to be a decimal
/// id; the attach command writes nothing else there.
pub open spec fn git_apply_one(c: ConfigView, k: Seq<char>, v: Seq<char>) -> ConfigView {
    if k == "gitlab.token"@ {
        ConfigView { token: Some(v), ..c }
    } else if k == "gitlab.host"@ {
        ConfigView { host: Some(v), ..c }
    } else if k == "gitlab.tls"@ {
        ConfigView { tls: Some(truthy_spec(v)), ..c }
    } else if k == "gitlab.format"@ {
        ConfigView { format: format_of_spec(v), ..c }
    } else if k == "gitlab.projectid"@ {
        ConfigView { projectid: Some(dec_val(unsigned_digits(v)) as u64), ..c }
    } else {
        c
    }
}

/// A list of git-config entries applied in order.
pub open spec fn git_apply(c: ConfigView, entries: Seq<(Seq<char>, Seq<char>)>) -> ConfigView
    decreases entries.len(),
{
    if entries.len() == 0 {
        c
    } else {
        git_apply(git_apply_one(c, entries[0].0, entries[0].1), entries.drop_first())
    }
}

/// Applies the `gitlab.*` entries of one git-config level to the
/// configuration, in order.  A `gitlab.projectid` entry must hold a
/// decimal id that fits in a `u64`.
pub fn update_config_from_git(config: &mut Config, entries: Vec<(String, String)>)
    requires
        forall|i: int| 0 <= i < entries.deep_view().len()
            && (#[trigger] entries.deep_view()[i]).0 == "gitlab.projectid"@
            ==> is_u64_str(entries.deep_view()[i].1),
    ensures
        final(config)@ == git_apply(old(config)@, entries.deep_view()),
{
    let ghost vs = entries.deep_view();
    let mut i: usize = 0;
    proof {
        assert(vs.skip(0) =~= vs);
    }
    while i < entries.len()
        invariant
            i <= entries@.len(),
            vs == entries.deep_view(),
            vs.len() == entries@.len(),
            forall|k: int| 0 <= k < vs.len() && (#[trigger] vs[k]).0 == "gitlab.projectid"@
                ==> is_u64_str(vs[k].1),
            git_apply(config@, vs.skip(i as int)) == git_apply(old(config)@, vs),
        decreases entries@.len() - i,
    {
        let ghost before = config@;
        let (key, value) = (&entries[i].0, &entries[i].1);
        proof {
            assert(vs[i as int] == (key@, value@));
        }
        if str_eq(key.as_str(), "gitlab.token") {
            config.token = Some(value.clone());
        } else if str_eq(key.as_str(), "gitlab.host") {
            config.host = Some(value.clone());
        } else if str_eq(key.as_str(), "gitlab.tls") {
            config.tls = Some(truthy(value.as_str()));
        } else if str_eq(key.as_str(), "gitlab.format") {
            config.format = match OutputFormat::from_str(value.as_str()) {
                Ok(f) => Some(f),
                Err(_) => None,
            };
        } else if str_eq(key.as_str(), "gitlab.projectid") {
            config.projectid = parse_u64(value.as_str());
            proof {
                assert(is_u64_str(value@));
                assert(config@.projectid == Some((dec_val(unsigned_digits(value@)) as u64)));
            }
        }
        proof {
            assert(config@ =~= git_apply_one(before, vs[i as int].0, vs[i as int].1));
            assert(vs.skip(i as int).drop_first() =~= vs.skip(i as int + 1));
            assert(git_apply(before, vs.skip(i as int))
                == git_apply(config@, vs.skip(i as int + 1)));
        }
        i = i + 1;
    }
    proof {
        assert(vs.skip(vs.len() as int) =~= Seq::empty());
    }
}

} // verus!
