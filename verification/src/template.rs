use vstd::prelude::*;

use crate::errors::Error;
use crate::text::{
    chars_string, find_sub, lemma_match_at_single, match_at, push_all, replace_all, replaced,
    str_chars,
};

verus! {

// ------------------------------------------------------------------
// Pack metadata
// ------------------------------------------------------------------

/// The fixed-schema pack metadata document, with the display name embedded
/// in its description field.
pub open spec fn pack_mcmeta_spec(name: Seq<char>) -> Seq<char> {
    "{\n    \"pack\": {\n        \"description\": \""@ + name
        + " resources\",\n        \"pack_format\": 5,\n        \"_comment\": \"A pack_format of 5 requires json lang files and some texture changes from 1.15. Note: we require v5 pack meta for all mods.\"\n    }\n}\n"@
}

/// Renders the pack metadata file for a project's display name.
pub fn pack_mcmeta_text(display_name: &str) -> (r: String)
    ensures
        r@ == pack_mcmeta_spec(display_name@),
{
    let mut out: String = "{\n    \"pack\": {\n        \"description\": \"".to_owned();
    out.append(display_name);
    out.append(
        " resources\",\n        \"pack_format\": 5,\n        \"_comment\": \"A pack_format of 5 requires json lang files and some texture changes from 1.15. Note: we require v5 pack meta for all mods.\"\n    }\n}\n",
    );
    out
}

// ------------------------------------------------------------------
// Build-definition rewriting
// ------------------------------------------------------------------

/// The four literal substitutions applied, in order, to the SDK's freshly
/// extracted build-definition text: the template namespace becomes the
/// tool-prefixed project namespace, the placeholder ids become the project
/// id, and the template's default version literal becomes the project
/// version. A one-time transform: it is only ever applied to the pristine
/// extracted file.
pub open spec fn rewritten_build_def(s: Seq<char>, id: Seq<char>, ver: Seq<char>) -> Seq<char> {
    let s1 = replaced(s, "com.yourname.modid"@, "modcrafter."@ + id);
    let s2 = replaced(s1, "modid"@, id);
    let s3 = replaced(s2, "examplemod"@, id);
    replaced(s3, "version = '1.0'"@, "version = '"@ + ver + "'"@)
}

pub fn rewrite_build_definition(text: &str, mod_id: &str, mod_version: &str) -> (r: String)
    ensures
        r@ == rewritten_build_def(text@, mod_id@, mod_version@),
{
    let s = str_chars(text);
    let id = str_chars(mod_id);
    let ver = str_chars(mod_version);
    let pat1 = str_chars("com.yourname.modid");
    let mut rep1 = str_chars("modcrafter.");
    push_all(&mut rep1, &id);
    let pat2 = str_chars("modid");
    let pat3 = str_chars("examplemod");
    let pat4 = str_chars("version = '1.0'");
    let mut rep4 = str_chars("version = '");
    push_all(&mut rep4, &ver);
    let quote = str_chars("'");
    push_all(&mut rep4, &quote);
    proof {
        reveal_strlit("com.yourname.modid");
        reveal_strlit("modid");
        reveal_strlit("examplemod");
        reveal_strlit("version = '1.0'");
    }
    let s1 = replace_all(&s, &pat1, &rep1);
    let s2 = replace_all(&s1, &pat2, &id);
    let s3 = replace_all(&s2, &pat3, &id);
    let s4 = replace_all(&s3, &pat4, &rep4);
    chars_string(&s4)
}

// ------------------------------------------------------------------
// SDK version discovery
// ------------------------------------------------------------------

/// `m` is the first occurrence of the `:forge:` dependency marker in the
/// build-definition text and `d` the first following dash; the SDK version
/// sits between the two.
pub open spec fn version_marker_at(s: Seq<char>, m: int, d: int) -> bool {
    &&& match_at(s, ":forge:"@, m)
    &&& forall|k: int| 0 <= k < m ==> !match_at(s, ":forge:"@, k)
    &&& m + 7 <= d < s.len()
    &&& s[d] == '-'
    &&& forall|k: int| m + 7 <= k < d ==> s[k] != '-'
}

/// There is at most one such pair of positions.
pub proof fn lemma_marker_unique(s: Seq<char>, m: int, d: int, m2: int, d2: int)
    requires
        version_marker_at(s, m, d),
        version_marker_at(s, m2, d2),
    ensures
        m2 == m && d2 == d,
{
}

/// The version substring a build-definition text carries, if any.
pub open spec fn discover_spec(s: Seq<char>) -> Option<Seq<char>> {
    if exists|m: int, d: int| version_marker_at(s, m, d) {
        let (m, d) = choose|m: int, d: int| version_marker_at(s, m, d);
        Some(s.subrange(m + 7, d))
    } else {
        None
    }
}

/// Scans a build-definition text for the SDK dependency declaration
/// (`<namespace>:forge:<version>-<suffix>`) and extracts the version
/// between the marker and the following dash. Deliberately narrow: it
/// fails with `PatternNotFound` when the pattern is absent.
pub fn discover_sdk_version(text: &str) -> (r: Result<String, Error>)
    ensures
        match r {
            Ok(v) => discover_spec(text@) == Some(v@),
            Err(e) => {
                &&& e == Error::PatternNotFound
                &&& discover_spec(text@) is None
            },
        },
{
    let s = str_chars(text);
    let marker = str_chars(":forge:");
    proof {
        reveal_strlit(":forge:");
        assert(marker@.len() == 7);
    }
    let m = match find_sub(&s, &marker, 0) {
        Some(m) => m,
        None => {
            return Err(Error::PatternNotFound);
        },
    };
    let dash = str_chars("-");
    proof {
        reveal_strlit("-");
        assert(dash@ =~= seq!['-']);
        assert forall|k: int| match_at(s@, dash@, k) <==> (0 <= k < s@.len() && s@[k] == '-') by {
            lemma_match_at_single(s@, '-', k);
        }
    }
    let slen: usize = s.len();
    proof {
        assert(m + 7 <= slen);
    }
    let d = match find_sub(&s, &dash, m + 7) {
        Some(d) => d,
        None => {
            proof {
                assert forall|m2: int, d2: int| !version_marker_at(s@, m2, d2) by {
                    if version_marker_at(s@, m2, d2) {
                        // The marker is unique up to its first occurrence, so
                        // m2 == m, and d2 would be a dash at or after m + 7.
                        assert(!(m2 < m));
                        assert(!(m < m2));
                        assert(match_at(s@, dash@, d2));
                    }
                }
            }
            return Err(Error::PatternNotFound);
        },
    };
    let mut out: Vec<char> = Vec::new();
    let mut k: usize = m + 7;
    while k < d
        invariant
            m + 7 <= k <= d <= s@.len(),
            out@ == s@.subrange(m + 7, k as int),
        decreases d - k,
    {
        out.push(s[k]);
        k = k + 1;
        proof {
            assert(out@ =~= s@.subrange(m + 7, k as int));
        }
    }
    proof {
        assert(version_marker_at(s@, m as int, d as int));
        let (cm, cd) = choose|m2: int, d2: int| version_marker_at(s@, m2, d2);
        lemma_marker_unique(s@, m as int, d as int, cm, cd);
    }
    Ok(chars_string(&out))
}

} // verus!
