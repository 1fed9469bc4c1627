//! Assembling a fresh project configuration.
//!
//! The interactive prompts live with the caller; what is verified here is
//! the semantic core: the `x.x.x` version format with its exact parse and
//! rendering, the mapping from a menu choice to a server kind, the default
//! executable name of each kind, and the assembly of the full configuration
//! record from the answers.

use crate::config::Backup;
use crate::config::Config;
use crate::config::Event;
use crate::config::Java;
use crate::config::JavaType;
use crate::config::PluginManage;
use crate::config::Project;
use crate::config::Runtime;
use crate::config::ServerType;
use crate::config::Time;
use crate::text::decimal_of;
use crate::text::parse_u32;
use crate::text::parse_u32_spec;
use crate::text::u64_to_string;
use vstd::prelude::*;
use vstd::string::*;

verus! {

/// A three-component version number.
#[derive(Clone, Copy, Debug, PartialEq, Eq, Structural)]
pub struct Version {
    pub major: u32,
    pub minor: u32,
    pub patch: u32,
}

/// Whether `a`, `b`, `c` are the three dot-free components whose dotted
/// concatenation is `s`. At most one such decomposition exists for any `s`.
pub open spec fn is_version_split(s: Seq<char>, a: Seq<char>, b: Seq<char>, c: Seq<char>) -> bool {
    &&& s == a + seq!['.'] + b + seq!['.'] + c
    &&& !a.contains('.')
    &&& !b.contains('.')
    &&& !c.contains('.')
}

/// In a decomposed text the dots stand exactly at the two component
/// boundaries.
pub proof fn lemma_split_dots(s: Seq<char>, a: Seq<char>, b: Seq<char>, c: Seq<char>)
    requires
        is_version_split(s, a, b, c),
    ensures
        s.len() == a.len() + b.len() + c.len() + 2,
        s[a.len() as int] == '.',
        s[(a.len() + b.len() + 1) as int] == '.',
        forall|k: int|
            0 <= k < s.len() && k != a.len() && k != a.len() + b.len() + 1 ==> s[k] != '.',
{
    assert forall|k: int|
        0 <= k < s.len() && k != a.len() && k != a.len() + b.len() + 1 implies s[k] != '.' by {
        if k < a.len() {
            assert(s[k] == a[k]);
            if s[k] == '.' {
                assert(a.contains('.'));
            }
        } else if k < a.len() + b.len() + 1 {
            assert(s[k] == b[k - a.len() - 1]);
            if s[k] == '.' {
                assert(b.contains('.'));
            }
        } else {
            assert(s[k] == c[k - a.len() - b.len() - 2]);
            if s[k] == '.' {
                assert(c.contains('.'));
            }
        }
    }
}

/// A text has at most one decomposition into three dot-free components.
pub proof fn lemma_split_unique(
    s: Seq<char>,
    a: Seq<char>,
    b: Seq<char>,
    c: Seq<char>,
    a2: Seq<char>,
    b2: Seq<char>,
    c2: Seq<char>,
)
    requires
        is_version_split(s, a, b, c),
        is_version_split(s, a2, b2, c2),
    ensures
        a2 == a,
        b2 == b,
        c2 == c,
{
    lemma_split_dots(s, a, b, c);
    lemma_split_dots(s, a2, b2, c2);
    let p1 = a.len() as int;
    let p2 = (a.len() + b.len() + 1) as int;
    let q1 = a2.len() as int;
    let q2 = (a2.len() + b2.len() + 1) as int;
    assert(q1 == p1 || q1 == p2);
    assert(q2 == p1 || q2 == p2);
    assert(q1 < q2);
    assert(q1 == p1);
    assert(q2 == p2);
    assert(a2 =~= a) by {
        assert(forall|k: int| 0 <= k < a.len() ==> a[k] == s[k] && a2[k] == s[k]);
    }
    assert(b2 =~= b) by {
        assert(forall|k: int| 0 <= k < b.len() ==> b[k] == s[p1 + 1 + k] && b2[k] == s[p1 + 1 + k]);
    }
    assert(c2 =~= c) by {
        assert(forall|k: int| 0 <= k < c.len() ==> c[k] == s[p2 + 1 + k] && c2[k] == s[p2 + 1 + k]);
    }
}

/// The canonical rendering of a version: the three components in decimal,
/// separated by dots.
pub open spec fn version_string(v: Version) -> Seq<char> {
    decimal_of(v.major as int) + seq!['.'] + decimal_of(v.minor as int) + seq!['.'] + decimal_of(
        v.patch as int,
    )
}

/// The one-character dot string.
fn dot_str() -> (r: &'static str)
    ensures
        r@ == seq!['.'],
{
    proof {
        reveal_strlit(".");
        assert("."@ =~= seq!['.']);
    }
    "."
}

impl Version {
    /// Parses `x.x.x`: exactly three dot-free components, each an optionally
    /// plus-signed decimal number that fits. The error text names the first
    /// offense: the format when no decomposition exists, otherwise the first
    /// component that does not parse, quoted verbatim.
    pub fn from_str(s: &str) -> (r: Result<Version, String>)
        ensures
            r matches Ok(v) ==> exists|a: Seq<char>, b: Seq<char>, c: Seq<char>|
                is_version_split(s@, a, b, c) && parse_u32_spec(a) == Some(v.major)
                    && parse_u32_spec(b) == Some(v.minor) && parse_u32_spec(c) == Some(v.patch),
            r is Err ==> forall|a: Seq<char>, b: Seq<char>, c: Seq<char>|
                is_version_split(s@, a, b, c) ==> !(parse_u32_spec(a) is Some && parse_u32_spec(b)
                    is Some && parse_u32_spec(c) is Some),
            (forall|a: Seq<char>, b: Seq<char>, c: Seq<char>| !is_version_split(s@, a, b, c))
                ==> (r matches Err(m) && m@ == "The version number must be in x.x.x format"@),
            forall|a: Seq<char>, b: Seq<char>, c: Seq<char>|
                is_version_split(s@, a, b, c) && parse_u32_spec(a) is None ==> (r matches Err(m)
                    && m@ == "Invalid major version number:"@ + a),
            forall|a: Seq<char>, b: Seq<char>, c: Seq<char>|
                is_version_split(s@, a, b, c) && parse_u32_spec(a) is Some && parse_u32_spec(b)
                    is None ==> (r matches Err(m) && m@ == "Invalid minor version number:"@ + b),
            forall|a: Seq<char>, b: Seq<char>, c: Seq<char>|
                is_version_split(s@, a, b, c) && parse_u32_spec(a) is Some && parse_u32_spec(b)
                    is Some && parse_u32_spec(c) is None ==> (r matches Err(m) && m@
                    == "Invalid patch version number:"@ + c),
    {
        let n = s.unicode_len();
        let mut first: usize = 0;
        let mut have_first = false;
        let mut second: usize = 0;
        let mut have_second = false;
        let mut extra = false;
        let mut i: usize = 0;
        while i < n
            invariant
                0 <= i <= n,
                n == s@.len(),
                !have_first ==> !have_second && (forall|k: int| 0 <= k < i ==> s@[k] != '.'),
                have_first ==> first < i && s@[first as int] == '.' && (forall|k: int|
                    0 <= k < first ==> s@[k] != '.'),
                have_first && !have_second ==> forall|k: int| first < k < i ==> s@[k] != '.',
                have_second ==> have_first && first < second < i && s@[second as int] == '.' && (
                forall|k: int| first < k < second ==> s@[k] != '.'),
                extra ==> have_second,
                have_second && !extra ==> forall|k: int| second < k < i ==> s@[k] != '.',
                extra ==> exists|k: int| second < k < i && s@[k] == '.',
            decreases n - i,
        {
            let ch = s.get_char(i);
            if ch == '.' {
                if !have_first {
                    first = i;
                    have_first = true;
                } else if !have_second {
                    second = i;
                    have_second = true;
                } else {
                    extra = true;
                }
            }
            i = i + 1;
        }
        if !have_second || extra {
            proof {
                assert forall|a: Seq<char>, b: Seq<char>, c: Seq<char>| !is_version_split(
                    s@,
                    a,
                    b,
                    c,
                ) by {
                    if is_version_split(s@, a, b, c) {
                        lemma_split_dots(s@, a, b, c);
                        let p1 = a.len() as int;
                        let p2 = (a.len() + b.len() + 1) as int;
                        if !have_first {
                            assert(s@[p1] != '.');
                        } else if !have_second {
                            assert(p1 == first || p2 == first);
                            assert(s@[p1] == '.' && s@[p2] == '.' && p1 < p2);
                            assert(false);
                        } else {
                            let k3 = choose|k: int| second < k < n && s@[k] == '.';
                            assert(first < second < k3);
                            assert(first == p1 || first == p2);
                            assert(second == p1 || second == p2);
                            assert(k3 == p1 || k3 == p2);
                            assert(false);
                        }
                    }
                }
            }
            return Err(String::from_str("The version number must be in x.x.x format"));
        }
        let a = s.substring_char(0, first);
        let b = s.substring_char(first + 1, second);
        let c = s.substring_char(second + 1, n);
        proof {
            assert(s@ =~= a@ + seq!['.'] + b@ + seq!['.'] + c@);
            assert(!a@.contains('.')) by {
                if a@.contains('.') {
                    let k = choose|k: int| 0 <= k < a@.len() && a@[k] == '.';
                    assert(s@[k] == '.');
                }
            }
            assert(!b@.contains('.')) by {
                if b@.contains('.') {
                    let k = choose|k: int| 0 <= k < b@.len() && b@[k] == '.';
                    assert(s@[first + 1 + k] == '.');
                }
            }
            assert(!c@.contains('.')) by {
                if c@.contains('.') {
                    let k = choose|k: int| 0 <= k < c@.len() && c@[k] == '.';
                    assert(s@[second + 1 + k] == '.');
                }
            }
            assert(is_version_split(s@, a@, b@, c@));
            assert forall|a2: Seq<char>, b2: Seq<char>, c2: Seq<char>| is_version_split(
                s@,
                a2,
                b2,
                c2,
            ) implies a2 == a@ && b2 == b@ && c2 == c@ by {
                lemma_split_unique(s@, a@, b@, c@, a2, b2, c2);
            }
        }
        let major = match parse_u32(a) {
            Some(v) => v,
            None => {
                return Err(String::from_str("Invalid major version number:").concat(a));
            },
        };
        let minor = match parse_u32(b) {
            Some(v) => v,
            None => {
                return Err(String::from_str("Invalid minor version number:").concat(b));
            },
        };
        let patch = match parse_u32(c) {
            Some(v) => v,
            None => {
                return Err(String::from_str("Invalid patch version number:").concat(c));
            },
        };
        Ok(Version { major, minor, patch })
    }

    /// Renders the version as `major.minor.patch`.
    pub fn to_string(&self) -> (r: String)
        ensures
            r@ == version_string(*self),
    {
        let mut out = u64_to_string(self.major as u64);
        out.append(dot_str());
        let minor = u64_to_string(self.minor as u64);
        out.append(minor.as_str());
        out.append(dot_str());
        let patch = u64_to_string(self.patch as u64);
        out.append(patch.as_str());
        proof {
            assert(out@ =~= version_string(*self));
        }
        out
    }
}

/// Rendering a version and parsing the text back yields the same version:
/// the rendering decomposes into exactly its three components — dot-free,
/// since they are digits — and each component parses back to its field. With
/// [`Version::from_str`]'s contract and the uniqueness of the decomposition,
/// `from_str` applied to `to_string`'s result returns exactly the version it
/// was rendered from.
pub proof fn lemma_version_round_trip(v: Version)
    ensures
        is_version_split(
            version_string(v),
            decimal_of(v.major as int),
            decimal_of(v.minor as int),
            decimal_of(v.patch as int),
        ),
        parse_u32_spec(decimal_of(v.major as int)) == Some(v.major),
        parse_u32_spec(decimal_of(v.minor as int)) == Some(v.minor),
        parse_u32_spec(decimal_of(v.patch as int)) == Some(v.patch),
{
    lemma_component_parses(v.major);
    lemma_component_parses(v.minor);
    lemma_component_parses(v.patch);
}

/// One rendered component is dot-free, does not open with a plus sign, and
/// parses back to its value.
proof fn lemma_component_parses(x: u32)
    ensures
        !decimal_of(x as int).contains('.'),
        parse_u32_spec(decimal_of(x as int)) == Some(x),
{
    crate::text::lemma_decimal_of_digits(x as int);
    let d = decimal_of(x as int);
    assert(!d.contains('.')) by {
        if d.contains('.') {
            let i = choose|i: int| 0 <= i < d.len() && d[i] == '.';
            assert(crate::text::is_digit(d[i]));
        }
    }
    assert(!crate::text::is_digit('+'));
    assert(d[0] != '+');
}

/// The server kind a menu choice stands for: 1 the official Java edition, 2
/// Paper, 3 Purpur, 4 Spigot, 5 the official Bedrock edition, 0 anything
/// else; no other choice is valid.
pub fn server_type_from_choice(choice: usize) -> (r: Option<ServerType>)
    ensures
        r == (if choice == 1 {
            Some(ServerType::OfficialJE)
        } else if choice == 2 {
            Some(ServerType::Paper)
        } else if choice == 3 {
            Some(ServerType::Purpur)
        } else if choice == 4 {
            Some(ServerType::Spigot)
        } else if choice == 5 {
            Some(ServerType::OfficialBE)
        } else if choice == 0 {
            Some(ServerType::Other)
        } else {
            None::<ServerType>
        }),
{
    if choice == 1 {
        Some(ServerType::OfficialJE)
    } else if choice == 2 {
        Some(ServerType::Paper)
    } else if choice == 3 {
        Some(ServerType::Purpur)
    } else if choice == 4 {
        Some(ServerType::Spigot)
    } else if choice == 5 {
        Some(ServerType::OfficialBE)
    } else if choice == 0 {
        Some(ServerType::Other)
    } else {
        None
    }
}

/// The executable name a server kind starts with: none for an unknown kind
/// (the caller must ask), `server` for the Bedrock edition, `server.jar`
/// for every Java-based kind.
pub fn default_execute_name(server_type: &ServerType) -> (r: Option<String>)
    ensures
        match *server_type {
            ServerType::Other => r is None,
            ServerType::OfficialBE => r matches Some(s) && s@ == "server"@,
            _ => r matches Some(s) && s@ == "server.jar"@,
        },
{
    match server_type {
        ServerType::Other => None,
        ServerType::OfficialBE => Some(String::from_str("server")),
        _ => Some(String::from_str("server.jar")),
    }
}

/// What [`build_config`] promises of the assembled record.
pub open spec fn is_built_config(
    c: Config,
    project_name: String,
    server_type: ServerType,
    execute: String,
    version: Version,
    birthday: String,
) -> bool {
    &&& c.project.name == project_name
    &&& c.project.server_type == server_type
    &&& c.project.execute == execute
    &&& c.project.version@ == version_string(version)
    &&& c.project.birthday == birthday
    &&& c.runtime.java.version == 21
    &&& c.runtime.java.edition == JavaType::GraalVM
    &&& c.runtime.java.custom@ == Seq::<char>::empty()
    &&& c.runtime.java.arguments@.len() == 0
    &&& c.runtime.java.xms == 0
    &&& c.runtime.java.xmx == 0
    &&& c.backup.enable == true
    &&& c.backup.world == true
    &&& c.backup.other == true
    &&& (c.backup.time matches Some(t) && t.interval == 0 && t.cron@ == Seq::<char>::empty())
    &&& (c.backup.event matches Some(e) && e.start == false && e.stop == true && e.update == true)
    &&& c.plugin_manage.manage == true
    &&& c.plugin_manage.plugin@.len() == 0
}

/// Assembles the full configuration of a fresh project from the caller's
/// answers: identity fields as given, and the fixed defaults for runtime,
/// backup and plugin management.
pub fn build_config(
    project_name: String,
    server_type: ServerType,
    execute: String,
    version: &Version,
    birthday: String,
) -> (c: Config)
    ensures
        is_built_config(c, project_name, server_type, execute, *version, birthday),
{
    Config {
        project: Project {
            name: project_name,
            server_type,
            execute,
            version: version.to_string(),
            birthday,
        },
        runtime: Runtime {
            java: Java {
                version: 21,
                edition: JavaType::GraalVM,
                custom: String::new(),
                arguments: Vec::new(),
                xms: 0,
                xmx: 0,
            },
        },
        backup: Backup {
            enable: true,
            world: true,
            other: true,
            time: Some(Time { interval: 0, cron: String::new() }),
            event: Some(Event { start: false, stop: true, update: true }),
        },
        plugin_manage: PluginManage { manage: true, plugin: Vec::new() },
    }
}

} // verus!
