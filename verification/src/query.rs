use vstd::prelude::*;
use vstd::string::{StrSliceExecFns, StringExecFns};
use crate::errors::RepoError;

verus! {

/// The filter a listing hands to the store.  The prefix filters carry
/// the anchored pattern built by [`prefix_regex_pattern`], matched
/// case-insensitively on the named field.
pub enum QueryFilter {
    All,
    CategoryPrefix(String),
    AuthorPrefix(String),
    TextSearch(String),
}

/// The order a listing asks the store for: by date, newest first, or
/// by descending relevance score for a text search.
pub enum QuerySort {
    DateDesc,
    Relevance,
}

/// Everything one find issued to the store consists of: a filter, a
/// sort order, how many ranked documents to skip, and how many to
/// return at most (`None`: no bound, used by search).
pub struct FindQuery {
    pub filter: QueryFilter,
    pub sort: QuerySort,
    pub skip: u64,
    pub limit: Option<i64>,
}

/// Skip/limit pagination: how many ranked documents a 1-indexed page
/// discards before the `limit` it returns.
pub open spec fn spec_skip(page: u64, limit: i64) -> int {
    (page - 1) * limit
}

/// The number of documents to skip for a page, or why the page
/// request is rejected: a page below 1, a negative limit, or a skip
/// beyond what the store can address.
pub fn compute_skip(page: u64, limit: i64) -> (r: Result<u64, RepoError>)
    ensures
        r is Ok <==> 1 <= page && 0 <= limit && spec_skip(page, limit) <= u64::MAX,
        r is Ok ==> r == Ok::<u64, RepoError>(spec_skip(page, limit) as u64),
        page == 0 ==> r == Err::<u64, RepoError>(RepoError::InvalidPage),
        page >= 1 && limit < 0 ==> r == Err::<u64, RepoError>(RepoError::InvalidLimit),
        page >= 1 && limit >= 0 && spec_skip(page, limit) > u64::MAX ==> r == Err::<
            u64,
            RepoError,
        >(RepoError::InvalidPage),
{
    if page == 0 {
        return Err(RepoError::InvalidPage);
    }
    if limit < 0 {
        return Err(RepoError::InvalidLimit);
    }
    let l: u64 = limit as u64;
    match (page - 1).checked_mul(l) {
        Some(s) => Ok(s),
        None => Err(RepoError::InvalidPage),
    }
}

/// A character the regex language gives a meaning of its own.
pub open spec fn is_regex_meta(c: char) -> bool {
    c == '\\' || c == '.' || c == '*' || c == '+' || c == '?' || c == '(' || c == ')' || c == '['
        || c == ']' || c == '{' || c == '}' || c == '|' || c == '^' || c == '$'
}

/// The value with every regex metacharacter escaped, so that the
/// pattern matches the value's characters literally.
pub open spec fn regex_escaped(s: Seq<char>) -> Seq<char>
    decreases s.len(),
{
    if s.len() == 0 {
        Seq::<char>::empty()
    } else {
        (if is_regex_meta(s[0]) {
            seq!['\\', s[0]]
        } else {
            seq![s[0]]
        }) + regex_escaped(s.drop_first())
    }
}

proof fn lemma_regex_escaped_push(s: Seq<char>, c: char)
    ensures
        regex_escaped(s.push(c)) == regex_escaped(s) + (if is_regex_meta(c) {
            seq!['\\', c]
        } else {
            seq![c]
        }),
    decreases s.len(),
{
    let piece = if is_regex_meta(c) {
        seq!['\\', c]
    } else {
        seq![c]
    };
    if s.len() == 0 {
        assert(s.push(c)[0] == c);
        assert(s.push(c).drop_first() =~= Seq::<char>::empty());
        assert(regex_escaped(Seq::<char>::empty()) =~= Seq::<char>::empty());
        assert(regex_escaped(s.push(c)) == piece + regex_escaped(s.push(c).drop_first()));
        assert(regex_escaped(s) =~= Seq::<char>::empty());
        assert(regex_escaped(s.push(c)) =~= regex_escaped(s) + piece);
    } else {
        assert(s.push(c)[0] == s[0]);
        assert(s.push(c).drop_first() =~= s.drop_first().push(c));
        lemma_regex_escaped_push(s.drop_first(), c);
        let head = if is_regex_meta(s[0]) {
            seq!['\\', s[0]]
        } else {
            seq![s[0]]
        };
        assert(regex_escaped(s.push(c)) == head + (regex_escaped(s.drop_first()) + piece));
        assert(head + (regex_escaped(s.drop_first()) + piece) =~= (head + regex_escaped(
            s.drop_first(),
        )) + piece);
    }
}

fn is_regex_meta_x(c: char) -> (r: bool)
    ensures
        r == is_regex_meta(c),
{
    c == '\\' || c == '.' || c == '*' || c == '+' || c == '?' || c == '(' || c == ')' || c == '['
        || c == ']' || c == '{' || c == '}' || c == '|' || c == '^' || c == '$'
}

/// The anchored pattern the repository hands to the store for a
/// case-insensitive prefix match on a field: `^`, the value with its
/// regex metacharacters escaped, `.*` — so the store matches the
/// value's characters literally, as the prefix filter means them.
pub fn prefix_regex_pattern(value: &str) -> (r: String)
    ensures
        r@ == "^"@ + regex_escaped(value@) + ".*"@,
{
    let mut s = String::from_str("^");
    let n = value.unicode_len();
    proof {
        assert(value@.subrange(0, 0) =~= Seq::<char>::empty());
        assert(s@ =~= "^"@ + regex_escaped(value@.subrange(0, 0)));
    }
    let mut i: usize = 0;
    while i < n
        invariant
            n == value@.len(),
            i <= n,
            s@ == "^"@ + regex_escaped(value@.subrange(0, i as int)),
        decreases n - i,
    {
        let c = value.get_char(i);
        if is_regex_meta_x(c) {
            s.append("\\");
            proof {
                reveal_strlit("\\");
            }
        }
        let piece = value.substring_char(i, i + 1);
        proof {
            assert(piece@ =~= seq![c]);
        }
        s.append(piece);
        proof {
            lemma_regex_escaped_push(value@.subrange(0, i as int), c);
            assert(value@.subrange(0, i + 1) =~= value@.subrange(0, i as int).push(c));
            assert(s@ =~= "^"@ + regex_escaped(value@.subrange(0, i + 1)));
        }
        i += 1;
    }
    proof {
        assert(value@.subrange(0, n as int) =~= value@);
    }
    s.append(".*");
    s
}

/// The query of the unfiltered listing: no filter, newest first,
/// `(page-1)*limit` documents skipped, at most `limit` returned.
pub fn build_list_query(page: u64, limit: i64) -> (r: Result<FindQuery, RepoError>)
    ensures
        r is Ok <==> 1 <= page && 0 <= limit && spec_skip(page, limit) <= u64::MAX,
        r matches Ok(q) ==> q == (FindQuery {
            filter: QueryFilter::All,
            sort: QuerySort::DateDesc,
            skip: spec_skip(page, limit) as u64,
            limit: Some(limit),
        }),
        page == 0 ==> r == Err::<FindQuery, RepoError>(RepoError::InvalidPage),
        page >= 1 && limit < 0 ==> r == Err::<FindQuery, RepoError>(RepoError::InvalidLimit),
        page >= 1 && limit >= 0 && spec_skip(page, limit) > u64::MAX ==> r == Err::<
            FindQuery,
            RepoError,
        >(RepoError::InvalidPage),
{
    let skip = compute_skip(page, limit)?;
    Ok(FindQuery { filter: QueryFilter::All, sort: QuerySort::DateDesc, skip, limit: Some(limit) })
}

/// The query of the category listing: the anchored case-insensitive
/// prefix pattern on the category field, otherwise paginated as the
/// unfiltered listing is.
pub fn build_category_query(category: &str, page: u64, limit: i64) -> (r: Result<
    FindQuery,
    RepoError,
>)
    ensures
        r is Ok <==> 1 <= page && 0 <= limit && spec_skip(page, limit) <= u64::MAX,
        r matches Ok(q) ==> {
            &&& q.filter matches QueryFilter::CategoryPrefix(p) && p@ == "^"@ + regex_escaped(
                category@,
            ) + ".*"@
            &&& q.sort == QuerySort::DateDesc
            &&& q.skip == spec_skip(page, limit) as u64
            &&& q.limit == Some(limit)
        },
        page == 0 ==> r == Err::<FindQuery, RepoError>(RepoError::InvalidPage),
        page >= 1 && limit < 0 ==> r == Err::<FindQuery, RepoError>(RepoError::InvalidLimit),
        page >= 1 && limit >= 0 && spec_skip(page, limit) > u64::MAX ==> r == Err::<
            FindQuery,
            RepoError,
        >(RepoError::InvalidPage),
{
    let skip = compute_skip(page, limit)?;
    Ok(
        FindQuery {
            filter: QueryFilter::CategoryPrefix(prefix_regex_pattern(category)),
            sort: QuerySort::DateDesc,
            skip,
            limit: Some(limit),
        },
    )
}

/// The query of the author listing: as the category listing, on the
/// author field.
pub fn build_author_query(author: &str, page: u64, limit: i64) -> (r: Result<FindQuery, RepoError>)
    ensures
        r is Ok <==> 1 <= page && 0 <= limit && spec_skip(page, limit) <= u64::MAX,
        r matches Ok(q) ==> {
            &&& q.filter matches QueryFilter::AuthorPrefix(p) && p@ == "^"@ + regex_escaped(
                author@,
            ) + ".*"@
            &&& q.sort == QuerySort::DateDesc
            &&& q.skip == spec_skip(page, limit) as u64
            &&& q.limit == Some(limit)
        },
        page == 0 ==> r == Err::<FindQuery, RepoError>(RepoError::InvalidPage),
        page >= 1 && limit < 0 ==> r == Err::<FindQuery, RepoError>(RepoError::InvalidLimit),
        page >= 1 && limit >= 0 && spec_skip(page, limit) > u64::MAX ==> r == Err::<
            FindQuery,
            RepoError,
        >(RepoError::InvalidPage),
{
    let skip = compute_skip(page, limit)?;
    Ok(
        FindQuery {
            filter: QueryFilter::AuthorPrefix(prefix_regex_pattern(author)),
            sort: QuerySort::DateDesc,
            skip,
            limit: Some(limit),
        },
    )
}

/// The query of the text search: the search text, relevance order,
/// nothing skipped, no bound on what comes back.
pub fn build_search_query(text: &str) -> (r: FindQuery)
    ensures
        r.filter matches QueryFilter::TextSearch(t) && t@ == text@,
        r.sort == QuerySort::Relevance,
        r.skip == 0,
        r.limit is None,
{
    FindQuery {
        filter: QueryFilter::TextSearch(String::from_str(text)),
        sort: QuerySort::Relevance,
        skip: 0,
        limit: None,
    }
}

} // verus!
