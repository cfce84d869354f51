use vstd::prelude::*;

use crate::errors::Error;
use crate::text::{
    chars_string, find_sub, lemma_match_at_single, lowercase, lower_of, match_at,
    parse_u16_range, parse_u16_spec, str_chars,
};

verus! {

/// A three-component version number. `{0, 0, 0}` stands for "unknown".
#[derive(Clone, Copy, Debug, PartialEq, Eq, Structural)]
pub struct Version {
    pub major: u16,
    pub minor: u16,
    pub revision: u16,
}

/// `i` and `j` are the positions of the two (and only) dots of a
/// well-formed `X.Y.Z` version string, with all three components non-empty.
pub open spec fn version_split_at(s: Seq<char>, i: int, j: int) -> bool {
    &&& 0 < i
    &&& i + 1 < j
    &&& j + 1 < s.len()
    &&& s[i] == '.'
    &&& s[j] == '.'
    &&& forall|k: int| 0 <= k < s.len() && s[k] == '.' ==> k == i || k == j
}

/// The split is well formed and every component is a numeric `u16`.
pub open spec fn version_fields_ok(s: Seq<char>, i: int, j: int) -> bool {
    &&& version_split_at(s, i, j)
    &&& parse_u16_spec(s.subrange(0, i)) is Some
    &&& parse_u16_spec(s.subrange(i + 1, j)) is Some
    &&& parse_u16_spec(s.subrange(j + 1, s.len() as int)) is Some
}

/// What `Version::parse` returns: the three numeric components of a
/// string of the exact shape `X.Y.Z`, and nothing else.
pub open spec fn version_parse_spec(s: Seq<char>) -> Option<Version> {
    if exists|i: int, j: int| version_fields_ok(s, i, j) {
        let (i, j) = choose|i: int, j: int| version_fields_ok(s, i, j);
        Some(
            Version {
                major: parse_u16_spec(s.subrange(0, i)).unwrap(),
                minor: parse_u16_spec(s.subrange(i + 1, j)).unwrap(),
                revision: parse_u16_spec(s.subrange(j + 1, s.len() as int)).unwrap(),
            },
        )
    } else {
        None
    }
}

/// A well-formed split is unique: it sits at the only two dots.
proof fn lemma_split_unique(s: Seq<char>, i: int, j: int, i2: int, j2: int)
    requires
        version_split_at(s, i, j),
        version_split_at(s, i2, j2),
    ensures
        i2 == i && j2 == j,
{
}

impl Version {
    /// The "unknown" version.
    pub fn empty() -> (v: Version)
        ensures
            v == Version::empty_spec(),
    {
        Version { major: 0, minor: 0, revision: 0 }
    }

    pub open spec fn empty_spec() -> Version {
        Version { major: 0, minor: 0, revision: 0 }
    }

    /// Parses a dot-separated `X.Y.Z` version string; fails unless the
    /// string has exactly three numeric components.
    pub fn parse(s: &str) -> (r: Result<Version, Error>)
        ensures
            match r {
                Ok(v) => version_parse_spec(s@) == Some(v),
                Err(e) => version_parse_spec(s@) is None && e == Error::Parse,
            },
    {
        let v = str_chars(s);
        let n: usize = v.len();
        let mut dot: Vec<char> = Vec::new();
        dot.push('.');
        proof {
            assert(dot@ =~= seq!['.']);
            assert forall|k: int| #![all_triggers] true implies (match_at(v@, dot@, k) <==> (0 <= k
                < v@.len() && v@[k] == '.')) by {
                lemma_match_at_single(v@, '.', k);
            }
        }
        let oi = match find_sub(&v, &dot, 0) {
            Some(i) => i,
            None => {
                proof {
                    assert forall|i2: int, j2: int| !version_fields_ok(v@, i2, j2) by {
                        if version_split_at(v@, i2, j2) {
                            assert(match_at(v@, dot@, i2));
                        }
                    }
                }
                return Err(Error::Parse);
            },
        };
        let oj = match find_sub(&v, &dot, oi + 1) {
            Some(j) => j,
            None => {
                proof {
                    assert forall|i2: int, j2: int| !version_fields_ok(v@, i2, j2) by {
                        if version_split_at(v@, i2, j2) {
                            // j2 is a dot strictly after the first dot.
                            assert(v@[j2] == '.');
                            assert(j2 > i2 >= oi);
                            assert(match_at(v@, dot@, j2));
                        }
                    }
                }
                return Err(Error::Parse);
            },
        };
        match find_sub(&v, &dot, oj + 1) {
            Some(k3) => {
                proof {
                    assert forall|i2: int, j2: int| !version_fields_ok(v@, i2, j2) by {
                        if version_split_at(v@, i2, j2) {
                            // Three distinct dots cannot all be i2 or j2.
                            assert(v@[oi as int] == '.' && v@[oj as int] == '.' && v@[k3 as int]
                                == '.');
                            assert(oi < oj < k3);
                        }
                    }
                }
                return Err(Error::Parse);
            },
            None => {},
        }
        // The dots of the string are exactly oi and oj.
        proof {
            assert forall|k: int| 0 <= k < v@.len() && v@[k] == '.' implies k == oi || k == oj by {
                assert(match_at(v@, dot@, k));
            }
        }
        if !(0 < oi && oi + 1 < oj && oj + 1 < v.len()) {
            proof {
                assert forall|i2: int, j2: int| !version_fields_ok(v@, i2, j2) by {
                    if version_split_at(v@, i2, j2) {
                        lemma_split_unique(v@, i2, j2, i2, j2);
                        assert(i2 == oi && j2 == oj) by {
                            assert(v@[i2] == '.' && v@[j2] == '.');
                        }
                    }
                }
            }
            return Err(Error::Parse);
        }
        let p0 = parse_u16_range(&v, 0, oi);
        let p1 = parse_u16_range(&v, oi + 1, oj);
        let p2 = parse_u16_range(&v, oj + 1, v.len());
        proof {
            assert(version_split_at(v@, oi as int, oj as int));
        }
        match (p0, p1, p2) {
            (Some(major), Some(minor), Some(revision)) => {
                proof {
                    assert(version_fields_ok(v@, oi as int, oj as int));
                    let (ci, cj) = choose|i2: int, j2: int| version_fields_ok(v@, i2, j2);
                    assert(version_fields_ok(v@, ci, cj));
                    assert(ci == oi && cj == oj) by {
                        assert(version_split_at(v@, ci, cj));
                    }
                }
                Ok(Version { major, minor, revision })
            },
            _ => {
                proof {
                    assert forall|i2: int, j2: int| !version_fields_ok(v@, i2, j2) by {
                        if version_split_at(v@, i2, j2) {
                            assert(i2 == oi && j2 == oj) by {
                                assert(v@[i2] == '.' && v@[j2] == '.');
                            }
                        }
                    }
                }
                Err(Error::Parse)
            },
        }
    }
}

/// Every space replaced by an underscore, other characters unchanged.
pub open spec fn underscored(s: Seq<char>) -> Seq<char> {
    s.map_values(
        |c: char|
            if c == ' ' {
                '_'
            } else {
                c
            },
    )
}

/// The default project id derived from a display name: spaces become
/// underscores and the name is lower-cased (Unicode case folding, through
/// the `lower_of` name). A space that a case mapping could in principle
/// introduce is folded to an underscore too, so the descriptor's no-space
/// invariant holds of every derived id.
pub open spec fn id_of_name(s: Seq<char>) -> Seq<char> {
    underscored(lower_of(underscored(s)))
}

/// The descriptor invariant on project ids: no spaces.
pub open spec fn wf_mod_id(id: Seq<char>) -> bool {
    forall|k: int| 0 <= k < id.len() ==> id[k] != ' '
}

/// Replacing spaces leaves no space behind, whatever the input.
pub proof fn lemma_underscored_wf(s: Seq<char>)
    ensures
        wf_mod_id(underscored(s)),
{
    assert forall|k: int| 0 <= k < underscored(s).len() implies underscored(s)[k] != ' ' by {
        assert(underscored(s)[k] == if s[k] == ' ' {
            '_'
        } else {
            s[k]
        });
    }
}

/// Law: a derived project id never holds a space.
pub proof fn lemma_derived_id_wf(name: Seq<char>)
    ensures
        wf_mod_id(id_of_name(name)),
{
    lemma_underscored_wf(lower_of(underscored(name)));
}

/// Replaces every space with an underscore.
fn underscore_spaces(chars: &Vec<char>) -> (r: Vec<char>)
    ensures
        r@ == underscored(chars@),
{
    let mut out: Vec<char> = Vec::new();
    let mut k: usize = 0;
    while k < chars.len()
        invariant
            k <= chars@.len(),
            out@ == underscored(chars@.take(k as int)),
        decreases chars.len() - k,
    {
        let c = chars[k];
        if c == ' ' {
            out.push('_');
        } else {
            out.push(c);
        }
        k = k + 1;
        proof {
            assert(out@ =~= underscored(chars@.take(k as int)));
        }
    }
    proof {
        assert(chars@.take(chars@.len() as int) =~= chars@);
    }
    out
}

/// Derives the default project id from a display name.
pub fn derive_mod_id(name: &str) -> (r: String)
    ensures
        r@ == id_of_name(name@),
{
    let chars = str_chars(name);
    let first = underscore_spaces(&chars);
    let lowered = lowercase(chars_string(&first).as_str());
    let lowered_chars = str_chars(lowered.as_str());
    let out = underscore_spaces(&lowered_chars);
    chars_string(&out)
}

/// The persisted project descriptor: the single source of truth carried
/// between the create and build pipelines.
#[derive(Debug)]
pub struct ModConfig {
    pub mc_version: Version,
    pub mod_version: String,
    pub display_name: String,
    pub description: String,
    pub mod_id: String,
    pub authors: Option<String>,
}

/// The mathematical image of a descriptor.
pub struct ConfigV {
    pub mc_version: Version,
    pub mod_version: Seq<char>,
    pub display_name: Seq<char>,
    pub description: Seq<char>,
    pub mod_id: Seq<char>,
    pub authors: Option<Seq<char>>,
}

impl View for ModConfig {
    type V = ConfigV;

    open spec fn view(&self) -> ConfigV {
        ConfigV {
            mc_version: self.mc_version,
            mod_version: self.mod_version@,
            display_name: self.display_name@,
            description: self.description@,
            mod_id: self.mod_id@,
            authors: match self.authors {
                Some(a) => Some(a@),
                None => None,
            },
        }
    }
}

/// The defaulting rules of descriptor construction, applied independently
/// to each missing value; fails only when neither a display name nor a
/// resolvable directory name is at hand.
pub open spec fn config_defaults(
    dir_name: Option<Seq<char>>,
    display_name: Option<Seq<char>>,
    mod_id: Option<Seq<char>>,
    mod_version: Option<Seq<char>>,
    description: Option<Seq<char>>,
    authors: Option<Seq<char>>,
) -> Option<ConfigV> {
    let name = match display_name {
        Some(d) => Some(d),
        None => dir_name,
    };
    match name {
        None => None,
        Some(name) => Some(
            ConfigV {
                mc_version: Version::empty_spec(),
                display_name: name,
                mod_id: match mod_id {
                    Some(m) => m,
                    None => id_of_name(name),
                },
                mod_version: match mod_version {
                    Some(m) => m,
                    None => "0.1.0"@,
                },
                description: match description {
                    Some(d) => d,
                    None => "This mod was created using modcrafter."@,
                },
                authors,
            },
        ),
    }
}

/// The view of an `Option<&str>` argument.
pub open spec fn opt_view(o: Option<&str>) -> Option<Seq<char>> {
    match o {
        Some(s) => Some(s@),
        None => None,
    }
}

impl ModConfig {
    /// Builds a descriptor from the explicit values, filling the rest by the
    /// defaulting rules. `dir_name` is the target directory's resolved final
    /// path segment, used when no display name is given; without either the
    /// construction fails.
    pub fn new(
        dir_name: Option<&str>,
        display_name: Option<&str>,
        mod_id: Option<&str>,
        mod_version: Option<&str>,
        description: Option<&str>,
        authors: Option<&str>,
    ) -> (r: Result<ModConfig, Error>)
        requires
            mod_id matches Some(m) ==> wf_mod_id(m@),
        ensures
            r matches Ok(c) ==> wf_mod_id(c.mod_id@),
            match r {
                Ok(c) => config_defaults(
                    opt_view(dir_name),
                    opt_view(display_name),
                    opt_view(mod_id),
                    opt_view(mod_version),
                    opt_view(description),
                    opt_view(authors),
                ) == Some(c@),
                Err(e) => {
                    &&& e == Error::FileIo
                    &&& config_defaults(
                        opt_view(dir_name),
                        opt_view(display_name),
                        opt_view(mod_id),
                        opt_view(mod_version),
                        opt_view(description),
                        opt_view(authors),
                    ) is None
                },
            },
            r is Err <==> (display_name is None && dir_name is None),
    {
        let display_name: String = match (display_name, dir_name) {
            (Some(d), _) => d.to_owned(),
            (None, Some(n)) => n.to_owned(),
            (None, None) => {
                return Err(Error::FileIo);
            },
        };
        let mod_id: String = match mod_id {
            Some(m) => m.to_owned(),
            None => derive_mod_id(display_name.as_str()),
        };
        let mod_version: String = match mod_version {
            Some(m) => m.to_owned(),
            None => "0.1.0".to_owned(),
        };
        let description: String = match description {
            Some(d) => d.to_owned(),
            None => "This mod was created using modcrafter.".to_owned(),
        };
        let authors: Option<String> = match authors {
            Some(a) => Some(a.to_owned()),
            None => None,
        };
        proof {
            lemma_derived_id_wf(display_name@);
        }
        Ok(
            ModConfig {
                mc_version: Version::empty(),
                mod_version,
                display_name,
                description,
                mod_id,
                authors,
            },
        )
    }

    /// Parses `verstr` and overwrites the SDK version; every other field is
    /// kept. Fails, changing nothing, if the string does not parse.
    pub fn set_mc_version(&mut self, verstr: &str) -> (r: Result<(), Error>)
        ensures
            match r {
                Ok(()) => {
                    &&& version_parse_spec(verstr@) == Some(final(self).mc_version)
                    &&& final(self).mod_version == old(self).mod_version
                    &&& final(self).display_name == old(self).display_name
                    &&& final(self).description == old(self).description
                    &&& final(self).mod_id == old(self).mod_id
                    &&& final(self).authors == old(self).authors
                },
                Err(e) => {
                    &&& e == Error::Parse
                    &&& version_parse_spec(verstr@) is None
                    &&& *final(self) == *old(self)
                },
            },
            r is Ok <==> version_parse_spec(verstr@) is Some,
    {
        match Version::parse(verstr) {
            Ok(v) => {
                self.mc_version = v;
                Ok(())
            },
            Err(e) => Err(e),
        }
    }

    pub fn mod_id(&self) -> (r: &str)
        ensures
            r@ == self.mod_id@,
    {
        self.mod_id.as_str()
    }

    pub fn mod_version(&self) -> (r: &str)
        ensures
            r@ == self.mod_version@,
    {
        self.mod_version.as_str()
    }

    pub fn display_name(&self) -> (r: &str)
        ensures
            r@ == self.display_name@,
    {
        self.display_name.as_str()
    }
}

} // verus!
