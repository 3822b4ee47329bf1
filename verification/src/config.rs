//! Runner configuration and its validation rules.
use vstd::prelude::*;
use crate::text::{chars_of, same_text, trim, trimmed_string};

verus! {

broadcast use vstd::string::group_string_axioms;

/// The runner configuration, as stored in the configuration file.
#[derive(Debug, Clone, PartialEq, Eq)]
pub struct Config {
    pub token: String,
    pub hub_url: String,
    pub invoker_url: String,
    pub fluxy_url: String,
    pub name: String,
    pub workdir: String,
    pub capacity: u32,
}

/// Why a configuration value was refused.
#[derive(Debug, Clone, Copy, PartialEq, Eq, Structural)]
pub enum ConfigError {
    /// The token is shorter than ten bytes.
    TokenTooShort,
    /// The URL could not be parsed.
    UrlUnparsable,
    /// The URL scheme is neither `http` nor `https`.
    UrlScheme,
    /// The URL carries a user name.
    UrlUsername,
    /// The URL has no host.
    UrlMissingHost,
    /// The name is not between 3 and 50 bytes long.
    NameLength,
    /// The name holds a character other than an ASCII letter, digit or `-`,
    /// first at this character position.
    NameCharacter { index: usize },
    /// The capacity is not between 1 and 100.
    Capacity,
}

/// Byte length of text in UTF-8, as `str::len` reports it.
pub open spec fn byte_len(s: Seq<char>) -> usize {
    vstd::utf8::encode_utf8(s).len() as usize
}

/// Token rule: at least ten bytes.
pub open spec fn token_result(token: Seq<char>) -> Result<(), ConfigError> {
    if byte_len(token) < 10 {
        Err(ConfigError::TokenTooShort)
    } else {
        Ok(())
    }
}

/// A character allowed in a runner name.
pub open spec fn name_char(c: char) -> bool {
    ('a' <= c && c <= 'z') || ('A' <= c && c <= 'Z') || ('0' <= c && c <= '9') || c == '-'
}

/// Name rule: 3 to 50 bytes, made of ASCII letters, digits and `-`; the
/// error names the first character that breaks it.
pub open spec fn name_result(name: Seq<char>) -> Result<(), ConfigError> {
    if !(3 <= byte_len(name) <= 50) {
        Err(ConfigError::NameLength)
    } else if exists|i: int| 0 <= i < name.len() && !name_char(name[i]) {
        let i = choose|i: int|
            0 <= i < name.len() && !name_char(name[i]) && forall|j: int| 0 <= j < i ==> name_char(name[j]);
        Err(ConfigError::NameCharacter { index: i as usize })
    } else {
        Ok(())
    }
}

/// Capacity rule: 1 to 100 jobs at once.
pub open spec fn capacity_result(capacity: u32) -> Result<(), ConfigError> {
    if 1 <= capacity <= 100 {
        Ok(())
    } else {
        Err(ConfigError::Capacity)
    }
}

/// Refuses a token shorter than ten bytes.
pub fn validate_token(token: &str) -> (r: Result<(), ConfigError>)
    ensures
        r == token_result(token@),
{
    if token.len() < 10 {
        Err(ConfigError::TokenTooShort)
    } else {
        Ok(())
    }
}

/// Whether `c` may stand in a runner name.
pub fn is_name_char(c: char) -> (r: bool)
    ensures
        r == name_char(c),
{
    ('a' <= c && c <= 'z') || ('A' <= c && c <= 'Z') || ('0' <= c && c <= '9') || c == '-'
}

/// Checks a runner name: 3 to 50 bytes of ASCII letters, digits or `-`.
pub fn validate_name(name: &str) -> (r: Result<(), ConfigError>)
    ensures
        r == name_result(name@),
{
    let len = name.len();
    if !(3 <= len && len <= 50) {
        return Err(ConfigError::NameLength);
    }
    let cs = chars_of(name);
    let mut i: usize = 0;
    while i < cs.len()
        invariant
            cs@ == name@,
            i <= cs@.len(),
            3 <= byte_len(name@) <= 50,
            forall|j: int| 0 <= j < i ==> name_char(cs@[j]),
        decreases cs@.len() - i,
    {
        if !is_name_char(cs[i]) {
            proof {
                let k = choose|k: int|
                    0 <= k < name@.len() && !name_char(name@[k]) && forall|j: int| 0 <= j < k ==> name_char(name@[j]);
                assert(k == i as int) by {
                    if k < i {
                        assert(name_char(cs@[k]));
                    }
                    if k > i {
                        assert(name_char(name@[i as int]));
                    }
                }
            }
            return Err(ConfigError::NameCharacter { index: i });
        }
        i = i + 1;
    }
    Ok(())
}

/// Refuses a capacity outside 1 to 100.
pub fn validate_capacity(capacity: u32) -> (r: Result<(), ConfigError>)
    ensures
        r == capacity_result(capacity),
{
    if 1 <= capacity && capacity <= 100 {
        Ok(())
    } else {
        Err(ConfigError::Capacity)
    }
}

/// Any text is a path, so a work directory given as text is always accepted.
pub fn validate_workdir_str(workdir: &str) -> (r: Result<(), ConfigError>)
    ensures
        r is Ok,
{
    Ok(())
}

/// What the URL rules read of a parsed URL.
#[derive(Debug, Clone)]
pub struct UrlParts {
    pub scheme: String,
    pub username: String,
    pub has_host: bool,
}

/// Abstract parsed URL.
pub struct UrlPartsView {
    pub scheme: Seq<char>,
    pub username: Seq<char>,
    pub has_host: bool,
}

impl View for UrlParts {
    type V = UrlPartsView;

    open spec fn view(&self) -> UrlPartsView {
        UrlPartsView { scheme: self.scheme@, username: self.username@, has_host: self.has_host }
    }
}

/// What `url::Url::parse` makes of a text: `None` when it refuses it, else
/// the scheme, user name and whether there is a host.
pub uninterp spec fn url_parse(s: Seq<char>) -> Option<UrlPartsView>;

/// `url::Url::parse`, read through `scheme`, `username` and `has_host`. The
/// result is whatever the url crate makes of the text, named `url_parse`.
#[verifier::external_body]
fn parse_url(s: &str) -> (r: Option<UrlParts>)
    ensures
        match r {
            Some(p) => url_parse(s@) == Some(p@),
            None => url_parse(s@) is None,
        },
{
    match url::Url::parse(s) {
        Ok(u) => Some(UrlParts { scheme: u.scheme().to_string(), username: u.username().to_string(), has_host: u.has_host() }),
        Err(_) => None,
    }
}

/// URL rules on a parse outcome: parsed, `http` or `https`, no user name,
/// and a host, checked in that order.
pub open spec fn url_parts_result(parts: Option<UrlPartsView>) -> Result<(), ConfigError> {
    match parts {
        None => Err(ConfigError::UrlUnparsable),
        Some(p) => if p.scheme != "http"@ && p.scheme != "https"@ {
            Err(ConfigError::UrlScheme)
        } else if p.username.len() != 0 {
            Err(ConfigError::UrlUsername)
        } else if !p.has_host {
            Err(ConfigError::UrlMissingHost)
        } else {
            Ok(())
        },
    }
}

/// URL rule on a text.
pub open spec fn url_result(url: Seq<char>) -> Result<(), ConfigError> {
    url_parts_result(url_parse(url))
}

/// Applies the URL rules to what the parser made of a URL.
pub fn check_url_parts(parts: &Option<UrlParts>) -> (r: Result<(), ConfigError>)
    ensures
        r == url_parts_result(match parts {
            Some(p) => Some(p@),
            None => None,
        }),
{
    match parts {
        None => Err(ConfigError::UrlUnparsable),
        Some(p) => {
            let http = same_text(p.scheme.as_str(), "http");
            let https = same_text(p.scheme.as_str(), "https");
            if !http && !https {
                Err(ConfigError::UrlScheme)
            } else if !p.username.as_str().is_empty() {
                Err(ConfigError::UrlUsername)
            } else if !p.has_host {
                Err(ConfigError::UrlMissingHost)
            } else {
                Ok(())
            }
        },
    }
}

/// Checks that a URL parses, is `http` or `https`, has no user name and has
/// a host.
pub fn validate_url(url: &str) -> (r: Result<(), ConfigError>)
    ensures
        r == url_result(url@),
{
    let parts = parse_url(url);
    check_url_parts(&parts)
}

/// All rules of a configuration, in the order they are checked: token, the
/// hub, invoker and fluxy URLs, name, capacity.
pub open spec fn config_result(
    token: Seq<char>,
    hub_url: Seq<char>,
    invoker_url: Seq<char>,
    fluxy_url: Seq<char>,
    name: Seq<char>,
    capacity: u32,
) -> Result<(), ConfigError> {
    if token_result(token) is Err {
        token_result(token)
    } else if url_result(hub_url) is Err {
        url_result(hub_url)
    } else if url_result(invoker_url) is Err {
        url_result(invoker_url)
    } else if url_result(fluxy_url) is Err {
        url_result(fluxy_url)
    } else if name_result(name) is Err {
        name_result(name)
    } else {
        capacity_result(capacity)
    }
}

impl Config {
    /// Checks the configuration; the first rule that fails gives the error.
    pub fn validate(&self) -> (r: Result<(), ConfigError>)
        ensures
            r == config_result(
                self.token@,
                self.hub_url@,
                self.invoker_url@,
                self.fluxy_url@,
                self.name@,
                self.capacity,
            ),
    {
        validate_token(self.token.as_str())?;
        validate_url(self.hub_url.as_str())?;
        validate_url(self.invoker_url.as_str())?;
        validate_url(self.fluxy_url.as_str())?;
        validate_name(self.name.as_str())?;
        validate_capacity(self.capacity)
    }
}

/// The default runner name: the host name when it is a valid runner name,
/// otherwise the fallback.
pub fn choose_default_name(host: Option<String>, fallback: String) -> (r: String)
    ensures
        r@ == match host {
            Some(h) => if name_result(h@) is Ok { h@ } else { fallback@ },
            None => fallback@,
        },
{
    match host {
        Some(h) => match validate_name(h.as_str()) {
            Ok(()) => h,
            Err(_) => fallback,
        },
        None => fallback,
    }
}

/// What the prompt for the runner name makes of a line the user typed: the
/// default when the line is blank, else the trimmed line if it is a valid
/// name, else the rule it breaks (and the prompt asks again).
pub fn name_answer(line: &str, default: &str) -> (r: Result<String, ConfigError>)
    ensures
        trim(line@).len() == 0 ==> (r matches Ok(n) && n@ == default@),
        trim(line@).len() > 0 ==> match r {
            Ok(n) => n@ == trim(line@) && name_result(trim(line@)) is Ok,
            Err(e) => name_result(trim(line@)) == Err::<(), ConfigError>(e),
        },
{
    let cs = chars_of(line);
    let name = trimmed_string(&cs, 0, cs.len());
    assert(cs@.subrange(0, cs@.len() as int) =~= line@);
    if name.as_str().unicode_len() == 0 {
        return Ok(String::from_str(default));
    }
    match validate_name(name.as_str()) {
        Ok(()) => Ok(name),
        Err(e) => Err(e),
    }
}

/// What the prompt for the work directory makes of a line the user typed:
/// the default when the line is blank, else the trimmed line (which the
/// caller still checks against the file system).
pub fn workdir_answer(line: &str, default: &str) -> (r: String)
    ensures
        r@ == if trim(line@).len() == 0 { default@ } else { trim(line@) },
{
    let cs = chars_of(line);
    let dir = trimmed_string(&cs, 0, cs.len());
    assert(cs@.subrange(0, cs@.len() as int) =~= line@);
    if dir.as_str().unicode_len() == 0 {
        String::from_str(default)
    } else {
        dir
    }
}

/// The configuration is valid: every rule holds.
pub open spec fn config_ok(c: Config) -> bool {
    config_result(c.token@, c.hub_url@, c.invoker_url@, c.fluxy_url@, c.name@, c.capacity) is Ok
}

/// The configuration a runner keeps in memory: read from its file once,
/// then written through on every change. Only a valid configuration is
/// kept.
#[derive(Debug)]
pub struct ConfigCache {
    cached: Option<Config>,
}

impl ConfigCache {
    #[verifier::type_invariant]
    spec fn only_valid(&self) -> bool {
        self.cached matches Some(c) ==> config_ok(c)
    }

    /// The configuration kept, if any.
    pub closed spec fn kept(&self) -> Option<Config> {
        self.cached
    }

    /// A cache that holds nothing yet: the first read goes to the file.
    pub fn new() -> (r: ConfigCache)
        ensures
            r.kept() is None,
    {
        ConfigCache { cached: None }
    }

    /// The configuration kept, if it was read or written before; it is
    /// valid.
    pub fn get(&self) -> (r: Option<&Config>)
        ensures
            match r {
                Some(c) => self.kept() == Some(*c) && config_ok(*c),
                None => self.kept() is None,
            },
    {
        proof {
            use_type_invariant(self);
        }
        match &self.cached {
            Some(c) => Some(c),
            None => None,
        }
    }

    /// Keeps a configuration just read from, or written to, the file: a
    /// valid one is kept; an invalid one is refused with the first rule it
    /// breaks, and what was kept stays.
    pub fn keep(&mut self, cfg: Config) -> (r: Result<(), ConfigError>)
        ensures
            r == config_result(cfg.token@, cfg.hub_url@, cfg.invoker_url@, cfg.fluxy_url@, cfg.name@, cfg.capacity),
            r is Ok ==> final(self).kept() == Some(cfg),
            r is Err ==> final(self).kept() == old(self).kept(),
    {
        match cfg.validate() {
            Ok(()) => {
                self.cached = Some(cfg);
                Ok(())
            },
            Err(e) => Err(e),
        }
    }
}

/// Law: a name of 3 to 50 bytes made only of ASCII letters (either case),
/// digits and `-` is a valid runner name.
pub proof fn law_name_letters_digits_dash(name: Seq<char>)
    requires
        3 <= byte_len(name) <= 50,
        forall|i: int| 0 <= i < name.len() ==> {
            let c = #[trigger] name[i];
            ('a' <= c && c <= 'z') || ('A' <= c && c <= 'Z') || ('0' <= c && c <= '9') || c == '-'
        },
    ensures
        name_result(name) == Ok::<(), ConfigError>(()),
{
    assert(!exists|i: int| 0 <= i < name.len() && !name_char(name[i])) by {
        assert forall|i: int| 0 <= i < name.len() implies name_char(name[i]) by {
            let c = name[i];
        }
    }
}

/// Law: a name of the right length holding a character other than an ASCII
/// letter, digit or `-` is refused.
pub proof fn law_name_other_char_refused(name: Seq<char>, i: int)
    requires
        3 <= byte_len(name) <= 50,
        0 <= i < name.len(),
        !(('a' <= name[i] && name[i] <= 'z') || ('A' <= name[i] && name[i] <= 'Z') || ('0' <= name[i] && name[i] <= '9')
            || name[i] == '-'),
    ensures
        name_result(name) is Err,
{
    assert(!name_char(name[i]));
}

} // verus!
