//! Loading the site configuration. The TOML parser is an external
//! collaborator whose results are functions of the document text alone, so
//! they carry names: the contracts say exactly on which documents loading
//! succeeds and tie every field of the result to the document.

use crate::models::{BuildError, NavbarLink, SiteConfig};
use vstd::prelude::*;

verus! {

use vstd::string::StringExecFns;

/// Whether `toml::from_str` accepts the document.
pub uninterp spec fn toml_doc_ok(s: Seq<char>) -> bool;

/// The string under a top-level key of the document, if the document
/// parses and the key holds a string.
pub uninterp spec fn toml_str_field_of(s: Seq<char>, key: Seq<char>) -> Option<Seq<char>>;

/// Whether the document parses and holds the top-level key at all.
pub uninterp spec fn toml_has_field_of(s: Seq<char>, key: Seq<char>) -> bool;

/// The `(k1, k2)` string projections of the array of tables under a
/// top-level key, if the document parses, the key holds an array, and
/// every element is a table with strings under `k1` and `k2`.
pub uninterp spec fn toml_pair_list_of(
    s: Seq<char>,
    key: Seq<char>,
    k1: Seq<char>,
    k2: Seq<char>,
) -> Option<Seq<(Seq<char>, Seq<char>)>>;

/// Relies on `toml::from_str` for `toml::Value`: accepts the document or
/// reports why it is not valid TOML. Parsing is a function of the text.
#[verifier::external_body]
fn toml_check(text: &str) -> (r: Result<(), String>)
    ensures
        (r is Ok) == toml_doc_ok(text@),
{
    match toml::from_str::<toml::Value>(text) {
        Ok(_) => Ok(()),
        Err(e) => Err(format!("{}", e)),
    }
}

/// Relies on `toml::from_str`, `toml::Value::get` and
/// `toml::Value::as_str`: the string under a top-level key.
#[verifier::external_body]
fn toml_str_field(text: &str, key: &str) -> (r: Option<String>)
    ensures
        (r is Some) == (toml_str_field_of(text@, key@) is Some),
        r matches Some(s) ==> toml_str_field_of(text@, key@) == Some(s@),
{
    toml::from_str::<toml::Value>(text)
        .ok()
        .and_then(|v| v.get(key).and_then(|f| f.as_str().map(|x| x.to_owned())))
}

/// Relies on `toml::from_str` and `toml::Value::get`: whether the document
/// parses and holds the top-level key.
#[verifier::external_body]
fn toml_has_field(text: &str, key: &str) -> (r: bool)
    ensures
        r == toml_has_field_of(text@, key@),
{
    toml::from_str::<toml::Value>(text)
        .ok()
        .map(|v| v.get(key).is_some())
        .unwrap_or(false)
}

/// Relies on `toml::from_str`, `toml::Value::get`, `toml::Value::as_array`
/// and `toml::Value::as_str`: the `(k1, k2)` string pairs of the array of
/// tables under a top-level key.
#[verifier::external_body]
fn toml_pair_list(text: &str, key: &str, k1: &str, k2: &str) -> (r: Option<Vec<(String, String)>>)
    ensures
        (r is Some) == (toml_pair_list_of(text@, key@, k1@, k2@) is Some),
        r matches Some(v) ==> toml_pair_list_of(text@, key@, k1@, k2@) == Some(
            v@.map_values(|p: (String, String)| (p.0@, p.1@)),
        ),
{
    let doc = toml::from_str::<toml::Value>(text).ok()?;
    let arr = doc.get(key)?.as_array()?;
    arr.iter()
        .map(|e| Some((e.get(k1)?.as_str()?.to_owned(), e.get(k2)?.as_str()?.to_owned())))
        .collect()
}

/// The documents a configuration can be loaded from: valid TOML whose
/// `title`, `author` and `footer_text` are strings, and whose
/// `navbar_links`, if present at all, is an array of tables with string
/// `label` and `url`.
pub open spec fn spec_config_ok(s: Seq<char>) -> bool {
    &&& toml_doc_ok(s)
    &&& toml_str_field_of(s, "title"@) is Some
    &&& toml_str_field_of(s, "author"@) is Some
    &&& toml_str_field_of(s, "footer_text"@) is Some
    &&& (!toml_has_field_of(s, "navbar_links"@) || toml_pair_list_of(
        s,
        "navbar_links"@,
        "label"@,
        "url"@,
    ) is Some)
}

/// Every field of `c` is exactly what the document `s` holds, with
/// `navbar_links` defaulting to empty when the document has none.
pub open spec fn spec_config_matches(s: Seq<char>, c: SiteConfig) -> bool {
    &&& toml_str_field_of(s, "title"@) == Some(c.title@)
    &&& toml_str_field_of(s, "author"@) == Some(c.author@)
    &&& toml_str_field_of(s, "footer_text"@) == Some(c.footer_text@)
    &&& if toml_has_field_of(s, "navbar_links"@) {
        toml_pair_list_of(s, "navbar_links"@, "label"@, "url"@) == Some(
            c.navbar_links@.map_values(|l: NavbarLink| (l.label@, l.url@)),
        )
    } else {
        c.navbar_links@.len() == 0
    }
}

impl SiteConfig {
    /// Parse a configuration document: succeeds exactly on the documents
    /// `spec_config_ok` admits, and then every field mirrors the document.
    pub fn parse(text: &str) -> (r: Result<SiteConfig, String>)
        ensures
            (r is Ok) == spec_config_ok(text@),
            r matches Ok(c) ==> spec_config_matches(text@, c),
    {
        if let Err(e) = toml_check(text) {
            return Err(e);
        }
        let title = match toml_str_field(text, "title") {
            Option::Some(s) => s,
            Option::None => {
                return Err("configuration lacks a string field: title".to_owned());
            },
        };
        let author = match toml_str_field(text, "author") {
            Option::Some(s) => s,
            Option::None => {
                return Err("configuration lacks a string field: author".to_owned());
            },
        };
        let footer_text = match toml_str_field(text, "footer_text") {
            Option::Some(s) => s,
            Option::None => {
                return Err("configuration lacks a string field: footer_text".to_owned());
            },
        };
        let mut navbar_links: Vec<NavbarLink> = Vec::new();
        if toml_has_field(text, "navbar_links") {
            let pairs = match toml_pair_list(text, "navbar_links", "label", "url") {
                Option::Some(p) => p,
                Option::None => {
                    return Err(
                        "navbar_links is not an array of tables with string label and url".to_owned(),
                    );
                },
            };
            let mut i: usize = 0;
            while i < pairs.len()
                invariant
                    i <= pairs@.len(),
                    navbar_links@.len() == i,
                    forall|k: int|
                        0 <= k < i ==> (#[trigger] navbar_links@[k]).label@ == pairs@[k].0@
                            && navbar_links@[k].url@ == pairs@[k].1@,
                decreases pairs@.len() - i,
            {
                let pair = &pairs[i];
                navbar_links.push(NavbarLink { label: pair.0.clone(), url: pair.1.clone() });
                i = i + 1;
            }
            proof {
                assert(navbar_links@.map_values(|l: NavbarLink| (l.label@, l.url@))
                    =~= pairs@.map_values(|p: (String, String)| (p.0@, p.1@)));
            }
        }
        Ok(SiteConfig { title, author, footer_text, navbar_links })
    }

    /// Load the configuration from the result of reading its file. A failed
    /// read — the file deleted mid-run, say — surfaces as a configuration
    /// load failure and nothing else; a successful read loads exactly the
    /// documents `spec_config_ok` admits, with every field mirroring the
    /// document.
    pub fn load(read: Result<String, String>) -> (r: Result<SiteConfig, BuildError>)
        ensures
            read is Err ==> r is Err,
            read matches Ok(text) ==> (r is Ok) == spec_config_ok(text@),
            read matches Ok(text) ==> (r matches Ok(c) ==> spec_config_matches(text@, c)),
            r matches Err(e) ==> e is ConfigLoad,
    {
        match read {
            Ok(text) => {
                match SiteConfig::parse(text.as_str()) {
                    Ok(c) => Ok(c),
                    Err(e) => Err(BuildError::ConfigLoad(e)),
                }
            },
            Err(e) => Err(BuildError::ConfigLoad(e)),
        }
    }
}

} // verus!
