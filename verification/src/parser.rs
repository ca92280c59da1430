//! Content parsing: front matter is split off and decoded by the
//! front-matter collaborator, the fields the site needs are extracted, and
//! the posts are ordered newest-first by their `YYYY-MM-DD` date strings
//! (on which lexicographic order is chronological order).

use crate::models::{BuildError, Post, PostMetadata};
use crate::text::has_prefix;
use crate::utils::{spec_slug, Slugify};
use vstd::prelude::*;

verus! {

use vstd::string::StringExecFns;

/// Whether the front-matter collaborator accepts the document at all.
pub uninterp spec fn matter_parse_ok(s: Seq<char>) -> bool;

/// Whether an accepted document carries decodable front matter.
pub uninterp spec fn matter_data_found(s: Seq<char>) -> bool;

/// The body of an accepted document, with front matter and delimiters
/// stripped.
pub uninterp spec fn matter_content_of(s: Seq<char>) -> Seq<char>;

/// The string under a front-matter key, if the document is accepted, its
/// front matter decodes, and the key holds a string.
pub uninterp spec fn matter_str_field_of(s: Seq<char>, key: Seq<char>) -> Option<Seq<char>>;

/// Whether the document is accepted, its front matter decodes, and the key
/// is present at all.
pub uninterp spec fn matter_has_field_of(s: Seq<char>, key: Seq<char>) -> bool;

/// The strings under a front-matter key, if the document is accepted and
/// the key holds a list of strings.
pub uninterp spec fn matter_str_list_of(s: Seq<char>, key: Seq<char>) -> Option<Seq<Seq<char>>>;

/// Relies on `gray_matter::Matter::parse` with the YAML engine: splits the
/// `---`-delimited front matter from the body of the document. Parsing is
/// a function of the text alone.
#[verifier::external_body]
fn matter_split(raw: &str) -> (r: Result<(bool, String), String>)
    ensures
        (r is Ok) == matter_parse_ok(raw@),
        r matches Ok(t) ==> t.0 == matter_data_found(raw@) && t.1@ == matter_content_of(raw@),
{
    let matter = gray_matter::Matter::<gray_matter::engine::YAML>::new();
    match matter.parse::<gray_matter::Pod>(raw) {
        Ok(e) => Ok((e.data.is_some(), e.content)),
        Err(err) => Err(format!("{}", err)),
    }
}

/// Relies on `gray_matter::Matter::parse`, `gray_matter::Pod::Hash` and
/// `Pod::as_string`: the string under a front-matter key of the document.
#[verifier::external_body]
fn matter_str_field(raw: &str, key: &str) -> (r: Option<String>)
    ensures
        (r is Some) == (matter_str_field_of(raw@, key@) is Some),
        r matches Some(s) ==> matter_str_field_of(raw@, key@) == Some(s@),
{
    let matter = gray_matter::Matter::<gray_matter::engine::YAML>::new();
    let parsed = matter.parse::<gray_matter::Pod>(raw).ok()?;
    match parsed.data? {
        gray_matter::Pod::Hash(h) => h.get(key).and_then(|v| v.as_string().ok()),
        _ => None,
    }
}

/// Relies on `gray_matter::Matter::parse` and `gray_matter::Pod::Hash`:
/// whether the document's front matter holds the key at all.
#[verifier::external_body]
fn matter_has_field(raw: &str, key: &str) -> (r: bool)
    ensures
        r == matter_has_field_of(raw@, key@),
{
    let matter = gray_matter::Matter::<gray_matter::engine::YAML>::new();
    match matter.parse::<gray_matter::Pod>(raw) {
        Ok(parsed) => match parsed.data {
            Some(gray_matter::Pod::Hash(h)) => h.contains_key(key),
            _ => false,
        },
        Err(_) => false,
    }
}

/// Relies on `gray_matter::Matter::parse`, `gray_matter::Pod::Hash`,
/// `Pod::as_vec` and `Pod::as_string`: the strings under a front-matter
/// key, if it holds a list whose elements are all strings.
#[verifier::external_body]
fn matter_str_list(raw: &str, key: &str) -> (r: Option<Vec<String>>)
    ensures
        (r is Some) == (matter_str_list_of(raw@, key@) is Some),
        r matches Some(v) ==> matter_str_list_of(raw@, key@) == Some(
            v@.map_values(|t: String| t@),
        ),
{
    let matter = gray_matter::Matter::<gray_matter::engine::YAML>::new();
    let parsed = matter.parse::<gray_matter::Pod>(raw).ok()?;
    match parsed.data? {
        gray_matter::Pod::Hash(h) => h.get(key)?.as_vec().ok()?.iter().map(
            |p| p.as_string().ok(),
        ).collect(),
        _ => None,
    }
}

/// A parse-stage error whose message names the failing input by path.
fn err_with_path(path: &str, detail: &str) -> (e: BuildError)
    ensures
        e matches BuildError::ParseContent(m) && has_prefix(m@, path@),
{
    let mut m = path.to_owned();
    m.append(": ");
    m.append(detail);
    proof {
        assert(m@.subrange(0, path@.len() as int) =~= path@);
    }
    BuildError::ParseContent(m)
}

/// The documents that parse into a post: accepted by the collaborator,
/// with decodable front matter holding a string title and date, and whose
/// `tags`, if present at all, is a list of strings.
pub open spec fn spec_post_parses(raw: Seq<char>) -> bool {
    &&& matter_parse_ok(raw)
    &&& matter_data_found(raw)
    &&& matter_str_field_of(raw, "title"@) is Some
    &&& matter_str_field_of(raw, "date"@) is Some
    &&& (!matter_has_field_of(raw, "tags"@) || matter_str_list_of(raw, "tags"@) is Some)
}

/// Every field of the post mirrors the document: metadata from the front
/// matter (`tags` defaulting to empty when absent, `description` absent
/// unless it holds a string), the content from the body, and the slug from
/// the path.
pub open spec fn spec_post_matches(raw: Seq<char>, path: Seq<char>, prefix: Seq<char>, p: Post) -> bool {
    &&& matter_str_field_of(raw, "title"@) == Some(p.metadata.title@)
    &&& matter_str_field_of(raw, "date"@) == Some(p.metadata.date@)
    &&& (p.metadata.description matches Some(d) ==> matter_str_field_of(raw, "description"@)
        == Some(d@))
    &&& (p.metadata.description is None ==> matter_str_field_of(raw, "description"@) is None)
    &&& if matter_has_field_of(raw, "tags"@) {
        matter_str_list_of(raw, "tags"@) == Some(p.metadata.tags@.map_values(|t: String| t@))
    } else {
        p.metadata.tags@.len() == 0
    }
    &&& p.content@ == matter_content_of(raw)
    &&& p.slug@ == spec_slug(path, prefix)
}

/// Parse one content file into a post: succeeds exactly on the documents
/// `spec_post_parses` admits, and then the post mirrors the document; a
/// rejected document yields a parse error whose message names the path.
pub fn parse_post(raw: &str, path: &str, content_dir: &str) -> (r: Result<Post, BuildError>)
    ensures
        (r is Ok) == spec_post_parses(raw@),
        r matches Ok(p) ==> spec_post_matches(raw@, path@, content_dir@, p),
        r matches Err(e) ==> e matches BuildError::ParseContent(m) && has_prefix(m@, path@),
{
    let split = match matter_split(raw) {
        Ok(t) => t,
        Err(detail) => {
            return Err(err_with_path(path, detail.as_str()));
        },
    };
    let (has_data, content) = split;
    if !has_data {
        return Err(err_with_path(path, "missing or empty front matter"));
    }
    let title = match matter_str_field(raw, "title") {
        Option::Some(t) => t,
        Option::None => {
            return Err(err_with_path(path, "front matter lacks a string title"));
        },
    };
    let date = match matter_str_field(raw, "date") {
        Option::Some(t) => t,
        Option::None => {
            return Err(err_with_path(path, "front matter lacks a date"));
        },
    };
    let description = matter_str_field(raw, "description");
    let tags: Vec<String> = if matter_has_field(raw, "tags") {
        match matter_str_list(raw, "tags") {
            Option::Some(ts) => ts,
            Option::None => {
                return Err(err_with_path(path, "tags is not a list of strings"));
            },
        }
    } else {
        Vec::new()
    };
    let slug = Slugify::from_path(path, content_dir);
    Ok(Post { metadata: PostMetadata { title, date, description, tags }, content, slug })
}

/// Lexicographic order on character sequences, by unicode scalar value.
pub open spec fn lex_le(a: Seq<char>, b: Seq<char>) -> bool
    decreases a.len(),
{
    if a.len() == 0 {
        true
    } else if b.len() == 0 {
        false
    } else if (a[0] as u32) < (b[0] as u32) {
        true
    } else if (b[0] as u32) < (a[0] as u32) {
        false
    } else {
        lex_le(a.drop_first(), b.drop_first())
    }
}

/// `lex_le` is total.
pub proof fn lemma_lex_le_total(a: Seq<char>, b: Seq<char>)
    ensures
        lex_le(a, b) || lex_le(b, a),
    decreases a.len(),
{
    if a.len() > 0 && b.len() > 0 && !((a[0] as u32) < (b[0] as u32)) && !((b[0] as u32) < (
    a[0] as u32)) {
        lemma_lex_le_total(a.drop_first(), b.drop_first());
    }
}

/// `lex_le` is transitive.
pub proof fn lemma_lex_le_trans(a: Seq<char>, b: Seq<char>, c: Seq<char>)
    requires
        lex_le(a, b),
        lex_le(b, c),
    ensures
        lex_le(a, c),
    decreases a.len(),
{
    if a.len() > 0 && b.len() > 0 && c.len() > 0 && (a[0] as u32) == (b[0] as u32) && (
    b[0] as u32) == (c[0] as u32) {
        lemma_lex_le_trans(a.drop_first(), b.drop_first(), c.drop_first());
    }
}

/// Compare two strings in lexicographic order.
pub fn str_lex_le(a: &str, b: &str) -> (r: bool)
    ensures
        r == lex_le(a@, b@),
{
    let av = crate::text::chars_of(a);
    let bv = crate::text::chars_of(b);
    let mut i: usize = 0;
    proof {
        assert(a@.skip(0) =~= a@);
        assert(b@.skip(0) =~= b@);
    }
    while i < av.len() && i < bv.len()
        invariant
            i <= av@.len(),
            i <= bv@.len(),
            av@ == a@,
            bv@ == b@,
            lex_le(a@, b@) == lex_le(a@.skip(i as int), b@.skip(i as int)),
        decreases av@.len() - i,
    {
        let xu = av[i] as u32;
        let yu = bv[i] as u32;
        proof {
            assert(a@.skip(i as int)[0] == a@[i as int]);
            assert(b@.skip(i as int)[0] == b@[i as int]);
            assert(a@.skip(i as int).drop_first() =~= a@.skip(i as int + 1));
            assert(b@.skip(i as int).drop_first() =~= b@.skip(i as int + 1));
        }
        if xu < yu {
            return true;
        }
        if yu < xu {
            return false;
        }
        i = i + 1;
    }
    i >= av.len()
}

/// Posts ordered newest-first: each date is lexicographically no later
/// than every date before it.
pub open spec fn posts_date_sorted_desc(ps: Seq<Post>) -> bool {
    forall|i: int, j: int|
        0 <= i < j < ps.len() ==> lex_le(#[trigger] ps[j].metadata.date@, #[trigger] ps[i].metadata.date@)
}

/// Sort posts newest-first by date. The result is a reordering of the
/// input: same posts, sorted dates.
pub fn sort_posts_by_date_desc(posts: &mut Vec<Post>)
    ensures
        final(posts)@.len() == old(posts)@.len(),
        posts_date_sorted_desc(final(posts)@),
        final(posts)@.to_multiset() == old(posts)@.to_multiset(),
{
    broadcast use vstd::seq_lib::group_to_multiset_ensures;

    if posts.len() == 0 {
        return ;
    }
    let ghost orig = posts@;
    let mut i: usize = 1;
    while i < posts.len()
        invariant
            1 <= i <= posts@.len(),
            posts@.len() == orig.len(),
            posts@.to_multiset() == orig.to_multiset(),
            forall|p: int, q: int|
                0 <= p < q < i ==> lex_le(
                    #[trigger] posts@[q].metadata.date@,
                    #[trigger] posts@[p].metadata.date@,
                ),
        decreases posts@.len() - i,
    {
        let ghost before = posts@;
        let x = posts.remove(i);
        let ghost removed = posts@;
        proof {
            broadcast use vstd::multiset::group_multiset_axioms;
            broadcast use vstd::seq_lib::group_to_multiset_ensures;

            assert(removed == before.remove(i as int));
            assert(before.remove(i as int).to_multiset() == before.to_multiset().remove(
                before[i as int],
            ));
            assert(removed.to_multiset() == before.to_multiset().remove(x));
        }
        let mut p: usize = 0;
        while p < i && str_lex_le(x.metadata.date.as_str(), posts[p].metadata.date.as_str())
            invariant
                0 <= p <= i < before.len(),
                removed == posts@,
                posts@.len() == before.len() - 1,
                forall|k: int| 0 <= k < p ==> lex_le(x.metadata.date@, #[trigger] posts@[k].metadata.date@),
            decreases i - p,
        {
            p = p + 1;
        }
        proof {
            if p < i {
                lemma_lex_le_total(x.metadata.date@, posts@[p as int].metadata.date@);
            }
        }
        posts.insert(p, x);
        proof {
            broadcast use vstd::multiset::group_multiset_axioms;
            broadcast use vstd::seq_lib::group_to_multiset_ensures;

            let after = posts@;
            // Inserting back what was removed restores the multiset.
            assert(after == removed.insert(p as int, x));
            assert(after.remove(p as int) =~= removed);
            assert(after[p as int] == x);
            assert(after.remove(p as int).to_multiset() == after.to_multiset().remove(x));
            assert(after.contains(x));
            assert(after.to_multiset().count(x) > 0);
            assert(after.to_multiset() =~= removed.to_multiset().insert(x));
            assert(after.to_multiset() =~= before.to_multiset());
            // The widened prefix is still sorted newest-first.
            assert forall|a: int, b: int| 0 <= a < b < i + 1 implies lex_le(
                #[trigger] after[b].metadata.date@,
                #[trigger] after[a].metadata.date@,
            ) by {
                if b < p {
                    assert(after[a] == before[a] && after[b] == before[b]);
                } else if b == p {
                    assert(after[a] == before[a]);
                    assert(lex_le(x.metadata.date@, before[a].metadata.date@));
                } else {
                    // b > p: after[b] is the element formerly at b - 1.
                    assert(after[b] == before[b - 1]);
                    if a < p {
                        assert(after[a] == before[a]);
                        if b - 1 == a {
                            lemma_lex_le_total(
                                before[a].metadata.date@,
                                before[a].metadata.date@,
                            );
                        }
                    } else if a == p {
                        // after[a] == x, and x's date is at least after[b]'s:
                        // p stopped because x is not earlier than before[p].
                        lemma_lex_le_total(x.metadata.date@, before[p as int].metadata.date@);
                        if b - 1 > p {
                            lemma_lex_le_trans(
                                before[b - 1].metadata.date@,
                                before[p as int].metadata.date@,
                                x.metadata.date@,
                            );
                        }
                    } else {
                        assert(after[a] == before[a - 1]);
                    }
                }
            }
        }
        i = i + 1;
    }
}

/// A reordering stays a reordering after mapping: two sequences holding
/// the same elements have element-wise images holding the same elements.
pub proof fn lemma_map_values_preserves_multiset<A, B>(s1: Seq<A>, s2: Seq<A>, f: spec_fn(A) -> B)
    requires
        s1.to_multiset() == s2.to_multiset(),
    ensures
        s1.map_values(f).to_multiset() == s2.map_values(f).to_multiset(),
    decreases s1.len(),
{
    broadcast use vstd::multiset::group_multiset_axioms;
    broadcast use vstd::seq_lib::group_to_multiset_ensures;

    if s1.len() == 0 {
        assert(s2.len() == s2.to_multiset().len());
        assert(s1.map_values(f) =~= Seq::<B>::empty());
        assert(s2.map_values(f) =~= Seq::<B>::empty());
    } else {
        let x = s1[0];
        assert(s1.contains(x));
        assert(s1.to_multiset().count(x) > 0);
        assert(s2.contains(x));
        let j = choose|j: int| 0 <= j < s2.len() && s2[j] == x;
        let t1 = s1.drop_first();
        let t2 = s2.remove(j);
        assert(s1.remove(0) =~= t1);
        assert(s1.remove(0).to_multiset() == s1.to_multiset().remove(x));
        assert(t2.to_multiset() == s2.to_multiset().remove(x));
        lemma_map_values_preserves_multiset(t1, t2, f);
        let m1 = s1.map_values(f);
        let m2 = s2.map_values(f);
        assert(m1.remove(0) =~= t1.map_values(f));
        assert(m2.remove(j) =~= t2.map_values(f));
        assert(m1[0] == f(x));
        assert(m2[j] == f(x));
        assert(m1.remove(0).to_multiset() == m1.to_multiset().remove(f(x)));
        assert(m2.remove(j).to_multiset() == m2.to_multiset().remove(f(x)));
        assert(m1.contains(f(x)));
        assert(m2.contains(f(x)));
        assert(m1.to_multiset().count(f(x)) > 0);
        assert(m2.to_multiset().count(f(x)) > 0);
        assert forall|y: B| m1.to_multiset().count(y) == m2.to_multiset().count(y) by {
            assert(m1.to_multiset().remove(f(x)).count(y) == m2.to_multiset().remove(f(x)).count(
                y,
            ));
            if y == f(x) {
                assert(m1.to_multiset().remove(f(x)).count(y) == m1.to_multiset().count(y) - 1);
                assert(m2.to_multiset().remove(f(x)).count(y) == m2.to_multiset().count(y) - 1);
            } else {
                assert(m1.to_multiset().remove(f(x)).count(y) == m1.to_multiset().count(y));
                assert(m2.to_multiset().remove(f(x)).count(y) == m2.to_multiset().count(y));
            }
        }
        assert(m1.to_multiset() =~= m2.to_multiset());
    }
}

/// The slugs of a run of posts, in order.
pub open spec fn slugs_of_posts(ps: Seq<Post>) -> Seq<Seq<char>> {
    ps.map_values(|p: Post| p.slug@)
}

/// The slugs that the input files' paths determine, in input order.
pub open spec fn slugs_of_inputs(raw: Seq<(String, String)>, prefix: Seq<char>) -> Seq<Seq<char>> {
    raw.map_values(|rp: (String, String)| spec_slug(rp.0@, prefix))
}

/// Parse every content file and order the posts newest-first: succeeds
/// exactly when every input parses, with one post per input, each under
/// the slug its path determines; the first rejected input fails the whole
/// parse with an error naming that input.
pub fn parse_all_posts(raw_posts: &Vec<(String, String)>, content_dir: &str) -> (r: Result<
    Vec<Post>,
    BuildError,
>)
    ensures
        (r is Ok) == (forall|k: int|
            0 <= k < raw_posts@.len() ==> spec_post_parses(#[trigger] raw_posts@[k].1@)),
        r matches Ok(ps) ==> ps@.len() == raw_posts@.len() && posts_date_sorted_desc(ps@),
        r matches Ok(ps) ==> slugs_of_posts(ps@).to_multiset() == slugs_of_inputs(
            raw_posts@,
            content_dir@,
        ).to_multiset(),
        r matches Err(e) ==> e matches BuildError::ParseContent(m) && (exists|k: int|
            0 <= k < raw_posts@.len() && has_prefix(m@, #[trigger] raw_posts@[k].0@)),
{
    let mut posts: Vec<Post> = Vec::new();
    let mut i: usize = 0;
    while i < raw_posts.len()
        invariant
            i <= raw_posts@.len(),
            posts@.len() == i,
            forall|k: int| 0 <= k < i ==> spec_post_parses(#[trigger] raw_posts@[k].1@),
            forall|k: int|
                0 <= k < i ==> (#[trigger] posts@[k]).slug@ == spec_slug(
                    raw_posts@[k].0@,
                    content_dir@,
                ),
        decreases raw_posts@.len() - i,
    {
        let entry = &raw_posts[i];
        match parse_post(entry.1.as_str(), entry.0.as_str(), content_dir) {
            Ok(post) => {
                posts.push(post);
            },
            Err(e) => {
                proof {
                    assert(!spec_post_parses(raw_posts@[i as int].1@));
                }
                return Err(e);
            },
        }
        i = i + 1;
    }
    let ghost pre_sort = posts@;
    sort_posts_by_date_desc(&mut posts);
    proof {
        assert(slugs_of_posts(pre_sort) =~= slugs_of_inputs(raw_posts@, content_dir@));
        lemma_map_values_preserves_multiset(posts@, pre_sort, |p: Post| p.slug@);
        assert(slugs_of_posts(posts@) =~= posts@.map_values(|p: Post| p.slug@));
        assert(slugs_of_posts(pre_sort) =~= pre_sort.map_values(|p: Post| p.slug@));
    }
    Ok(posts)
}

} // verus!
