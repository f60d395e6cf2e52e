use vstd::prelude::*;
use crate::errors::RepoError;
use crate::ident::is_object_id_hex;
use crate::idgen::{counter_id, lemma_counter_id_injective, lemma_counter_id_valid, make_counter_id};
use crate::post::Post;
use crate::query::{compute_skip, spec_skip};
use crate::ranking::{lemma_sort_desc_contains, lemma_sort_desc_props, sort_desc, sort_pairs_desc};
use crate::text::{contains_ci, contains_ci_x, prefix_matches_ci, starts_with_ci, str_eq};

verus! {

/// Does the post carry this identifier?
pub open spec fn has_id(p: Post, id: Seq<char>) -> bool {
    p.id matches Some(s) && s@ == id
}

/// The stored counterpart of a created post: the same fields, with
/// the store-assigned identifier in place of whatever came in.
pub open spec fn stored_as(stored: Post, p: Post, id: Seq<char>) -> bool {
    &&& has_id(stored, id)
    &&& stored.title == p.title
    &&& stored.date == p.date
    &&& stored.author == p.author
    &&& stored.category == p.category
    &&& stored.content == p.content
    &&& stored.image == p.image
}

/// The first stored post carrying the identifier, in insertion order.
pub open spec fn spec_find_by_id(s: Seq<Post>, id: Seq<char>) -> Option<Post>
    decreases s.len(),
{
    if s.len() == 0 {
        None
    } else if has_id(s[0], id) {
        Some(s[0])
    } else {
        spec_find_by_id(s.drop_first(), id)
    }
}

/// Case-insensitive prefix match on the category field.
pub open spec fn category_matches(p: Post, c: Seq<char>) -> bool {
    starts_with_ci(c, p.category@)
}

/// Case-insensitive prefix match on the author field.
pub open spec fn author_matches(p: Post, a: Seq<char>) -> bool {
    starts_with_ci(a, p.author@)
}

/// The posts whose category starts with `c`, in insertion order.
pub open spec fn by_category(s: Seq<Post>, c: Seq<char>) -> Seq<Post> {
    s.filter(|p: Post| category_matches(p, c))
}

/// The posts whose author starts with `a`, in insertion order.
pub open spec fn by_author(s: Seq<Post>, a: Seq<char>) -> Seq<Post> {
    s.filter(|p: Post| author_matches(p, a))
}

/// Each post keyed by its date, for ranking.
pub open spec fn keyed_by_date(s: Seq<Post>) -> Seq<(i64, Post)> {
    s.map_values(|p: Post| (p.date, p))
}

/// The posts ranked by date, newest first; posts of equal date keep
/// their insertion order.
pub open spec fn by_date_desc(s: Seq<Post>) -> Seq<Post> {
    sort_desc(keyed_by_date(s)).map_values(|kp: (i64, Post)| kp.1)
}

/// Dates never grow along the sequence: newest first.
pub open spec fn dates_desc(s: Seq<Post>) -> bool {
    forall|i: int, j: int| 0 <= i < j < s.len() ==> s[i].date >= s[j].date
}

/// The slice of the ranked documents that skip/limit pagination
/// returns: `limit` documents from position `skip` on, fewer where
/// the sequence ends first.
pub open spec fn window(s: Seq<Post>, skip: int, limit: int) -> Seq<Post> {
    if skip >= s.len() {
        Seq::<Post>::empty()
    } else if skip + limit <= s.len() {
        s.subrange(skip, skip + limit)
    } else {
        s.subrange(skip, s.len() as int)
    }
}

/// The 1-indexed page a listing returns: the documents ranked
/// `[(page-1)*limit, page*limit)`.
pub open spec fn page_of(s: Seq<Post>, page: u64, limit: i64) -> Seq<Post> {
    window(s, spec_skip(page, limit), limit as int)
}

/// The relevance score of a post for a search text: how many of its
/// text fields contain the text, ignoring ASCII case.
pub open spec fn spec_score(p: Post, q: Seq<char>) -> int {
    (if contains_ci(p.title@, q) {
        1int
    } else {
        0int
    }) + (if contains_ci(p.author@, q) {
        1int
    } else {
        0int
    }) + (if contains_ci(p.category@, q) {
        1int
    } else {
        0int
    }) + (if contains_ci(p.content@, q) {
        1int
    } else {
        0int
    })
}

/// A post matches a search when some text field contains the text.
pub open spec fn search_matches(p: Post, q: Seq<char>) -> bool {
    spec_score(p, q) > 0
}

/// The matching posts, each keyed by its relevance score.
pub open spec fn scored(s: Seq<Post>, q: Seq<char>) -> Seq<(i64, Post)> {
    s.filter(|p: Post| search_matches(p, q)).map_values(|p: Post| (spec_score(p, q) as i64, p))
}

/// The search result: matching posts by descending relevance score,
/// equal scores in insertion order.
pub open spec fn by_search(s: Seq<Post>, q: Seq<char>) -> Seq<Post> {
    sort_desc(scored(s, q)).map_values(|kp: (i64, Post)| kp.1)
}

proof fn lemma_by_category_push(s: Seq<Post>, p: Post, c: Seq<char>)
    ensures
        by_category(s.push(p), c) == (if category_matches(p, c) {
            by_category(s, c).push(p)
        } else {
            by_category(s, c)
        }),
{
    reveal(Seq::filter);
    assert(s.push(p).drop_last() =~= s);
    assert(s.push(p).last() == p);
}

proof fn lemma_by_author_push(s: Seq<Post>, p: Post, a: Seq<char>)
    ensures
        by_author(s.push(p), a) == (if author_matches(p, a) {
            by_author(s, a).push(p)
        } else {
            by_author(s, a)
        }),
{
    reveal(Seq::filter);
    assert(s.push(p).drop_last() =~= s);
    assert(s.push(p).last() == p);
}

proof fn lemma_scored_push(s: Seq<Post>, p: Post, q: Seq<char>)
    ensures
        scored(s.push(p), q) == (if search_matches(p, q) {
            scored(s, q).push((spec_score(p, q) as i64, p))
        } else {
            scored(s, q)
        }),
{
    reveal(Seq::filter);
    assert(s.push(p).drop_last() =~= s);
    assert(s.push(p).last() == p);
    let f = s.filter(|x: Post| search_matches(x, q));
    if search_matches(p, q) {
        assert(s.push(p).filter(|x: Post| search_matches(x, q)) == f.push(p));
        assert(f.push(p).map_values(|x: Post| (spec_score(x, q) as i64, x)) =~= f.map_values(
            |x: Post| (spec_score(x, q) as i64, x),
        ).push((spec_score(p, q) as i64, p)));
    }
}

fn filter_by_category(posts: &Vec<Post>, c: &str) -> (r: Vec<Post>)
    ensures
        r@ == by_category(posts@, c@),
{
    let mut out: Vec<Post> = Vec::new();
    proof {
        reveal(Seq::filter);
        assert(posts@.subrange(0, 0) =~= Seq::<Post>::empty());
        assert(out@ =~= by_category(posts@.subrange(0, 0), c@));
    }
    let mut i: usize = 0;
    while i < posts.len()
        invariant
            i <= posts.len(),
            out@ == by_category(posts@.subrange(0, i as int), c@),
        decreases posts.len() - i,
    {
        proof {
            lemma_by_category_push(posts@.subrange(0, i as int), posts@[i as int], c@);
            assert(posts@.subrange(0, i + 1) =~= posts@.subrange(0, i as int).push(
                posts@[i as int],
            ));
        }
        if prefix_matches_ci(c, posts[i].category.as_str()) {
            out.push(posts[i].duplicate());
        }
        i += 1;
    }
    proof {
        assert(posts@.subrange(0, posts@.len() as int) =~= posts@);
    }
    out
}

fn filter_by_author(posts: &Vec<Post>, a: &str) -> (r: Vec<Post>)
    ensures
        r@ == by_author(posts@, a@),
{
    let mut out: Vec<Post> = Vec::new();
    proof {
        reveal(Seq::filter);
        assert(posts@.subrange(0, 0) =~= Seq::<Post>::empty());
        assert(out@ =~= by_author(posts@.subrange(0, 0), a@));
    }
    let mut i: usize = 0;
    while i < posts.len()
        invariant
            i <= posts.len(),
            out@ == by_author(posts@.subrange(0, i as int), a@),
        decreases posts.len() - i,
    {
        proof {
            lemma_by_author_push(posts@.subrange(0, i as int), posts@[i as int], a@);
            assert(posts@.subrange(0, i + 1) =~= posts@.subrange(0, i as int).push(
                posts@[i as int],
            ));
        }
        if prefix_matches_ci(a, posts[i].author.as_str()) {
            out.push(posts[i].duplicate());
        }
        i += 1;
    }
    proof {
        assert(posts@.subrange(0, posts@.len() as int) =~= posts@);
    }
    out
}

fn page_by_date(posts: &Vec<Post>, skip: u64, limit: i64) -> (r: Vec<Post>)
    requires
        limit >= 0,
    ensures
        r@ == window(by_date_desc(posts@), skip as int, limit as int),
{
    let mut kv: Vec<(i64, Post)> = Vec::new();
    proof {
        assert(kv@ =~= keyed_by_date(posts@.subrange(0, 0)));
    }
    let mut i: usize = 0;
    while i < posts.len()
        invariant
            i <= posts.len(),
            kv@ == keyed_by_date(posts@.subrange(0, i as int)),
        decreases posts.len() - i,
    {
        let d = posts[i].date;
        kv.push((d, posts[i].duplicate()));
        proof {
            assert(kv@ =~= keyed_by_date(posts@.subrange(0, i + 1)));
        }
        i += 1;
    }
    proof {
        assert(posts@.subrange(0, posts@.len() as int) =~= posts@);
    }
    let sorted = sort_pairs_desc(&kv);
    proof {
        lemma_sort_desc_props(keyed_by_date(posts@));
    }
    let ghost target = by_date_desc(posts@);
    let n = sorted.len();
    assert(target.len() == n);
    if skip >= n as u64 {
        let out: Vec<Post> = Vec::new();
        proof {
            assert(out@ =~= window(target, skip as int, limit as int));
        }
        return out;
    }
    let start: usize = skip as usize;
    let remaining: usize = n - start;
    let take: usize = if (limit as u64) < (remaining as u64) {
        limit as usize
    } else {
        remaining
    };
    let end: usize = start + take;
    let mut out: Vec<Post> = Vec::new();
    let mut j: usize = start;
    while j < end
        invariant
            start <= j <= end,
            end <= sorted@.len(),
            sorted@ == sort_desc(keyed_by_date(posts@)),
            target == by_date_desc(posts@),
            out@.len() == j - start,
            forall|t: int| 0 <= t < out@.len() ==> out@[t] == target[start + t],
        decreases end - j,
    {
        out.push(sorted[j].1.duplicate());
        j += 1;
    }
    proof {
        assert(out@ =~= window(target, skip as int, limit as int));
    }
    out
}

/// The reference store: the posts in insertion order, each carrying
/// the identifier assigned at its creation.  Its operations give the
/// query semantics the repository relies on: prefix filtering,
/// date-descending ranking, skip/limit pagination, relevance-ordered
/// search.
pub struct PostStore {
    posts: Vec<Post>,
}

impl View for PostStore {
    type V = Seq<Post>;

    closed spec fn view(&self) -> Seq<Post> {
        self.posts@
    }
}

impl PostStore {
    /// Well-formed: the i-th stored post carries the identifier
    /// assigned at creation number i.
    pub closed spec fn wf(&self) -> bool {
        forall|i: int|
            0 <= i < self.posts@.len() ==> has_id(#[trigger] self.posts@[i], counter_id(i as u64))
    }

    /// An empty store.
    pub fn new() -> (r: PostStore)
        ensures
            r.wf(),
            r@ == Seq::<Post>::empty(),
    {
        let r = PostStore { posts: Vec::new() };
        proof {
            assert(r@ =~= Seq::<Post>::empty());
        }
        r
    }

    /// Inserts a post: any incoming identifier is discarded, a fresh
    /// one — carried by no stored post — is assigned, and the post
    /// goes in behind the existing ones.  Returns the assigned
    /// identifier, a valid identifier string.
    pub fn create_post(&mut self, new_post: Post) -> (r: String)
        requires
            old(self).wf(),
        ensures
            final(self).wf(),
            is_object_id_hex(r@),
            forall|i: int| 0 <= i < old(self)@.len() ==> !has_id(#[trigger] old(self)@[i], r@),
            final(self)@.len() == old(self)@.len() + 1,
            final(self)@.subrange(0, old(self)@.len() as int) == old(self)@,
            stored_as(final(self)@.last(), new_post, r@),
    {
        let k: u64 = self.posts.len() as u64;
        let id = make_counter_id(k);
        let stored = Post {
            id: Some(id.clone()),
            title: new_post.title,
            date: new_post.date,
            author: new_post.author,
            category: new_post.category,
            content: new_post.content,
            image: new_post.image,
        };
        self.posts.push(stored);
        proof {
            lemma_counter_id_valid(k);
            assert forall|i: int| 0 <= i < old(self)@.len() implies !has_id(
                #[trigger] old(self)@[i],
                id@,
            ) by {
                if has_id(old(self)@[i], id@) {
                    lemma_counter_id_injective(i as u64, k);
                }
            }
            assert(self.posts@.subrange(0, old(self)@.len() as int) =~= old(self)@);
        }
        id
    }

    /// Looks a post up by its identifier string: an empty string is a
    /// client error and an invalid shape a parse error, both raised
    /// before the collection is consulted; otherwise the first post
    /// carrying the identifier comes back, or `NotFound`.
    pub fn get_post(&self, id: &str) -> (r: Result<Post, RepoError>)
        requires
            self.wf(),
        ensures
            id@.len() == 0 ==> r == Err::<Post, RepoError>(RepoError::InvalidId),
            id@.len() > 0 && !is_object_id_hex(id@) ==> r == Err::<Post, RepoError>(
                RepoError::MalformedId,
            ),
            id@.len() > 0 && is_object_id_hex(id@) ==> match spec_find_by_id(self@, id@) {
                Some(p) => r == Ok::<Post, RepoError>(p),
                None => r == Err::<Post, RepoError>(RepoError::NotFound),
            },
    {
        match crate::ident::check_post_id(id) {
            Err(e) => {
                return Err(e);
            },
            Ok(_) => {},
        }
        let n = self.posts.len();
        proof {
            assert(self@.subrange(0, n as int) =~= self@);
        }
        let mut i: usize = 0;
        while i < n
            invariant
                n == self@.len(),
                i <= n,
                id@.len() > 0,
                is_object_id_hex(id@),
                spec_find_by_id(self@, id@) == spec_find_by_id(
                    self@.subrange(i as int, n as int),
                    id@,
                ),
            decreases n - i,
        {
            let ghost tail = self@.subrange(i as int, n as int);
            let matched = match &self.posts[i].id {
                Some(s) => str_eq(s.as_str(), id),
                None => false,
            };
            proof {
                assert(tail[0] == self@[i as int]);
                assert(matched == has_id(self@[i as int], id@));
            }
            if matched {
                return Ok(self.posts[i].duplicate());
            }
            proof {
                assert(tail.drop_first() =~= self@.subrange(i + 1, n as int));
            }
            i += 1;
        }
        proof {
            assert(self@.subrange(n as int, n as int).len() == 0);
        }
        Err(RepoError::NotFound)
    }

    /// The total number of stored posts, no filter.
    pub fn get_total_posts(&self) -> (r: u64)
        ensures
            r == self@.len(),
    {
        self.posts.len() as u64
    }

    /// How many posts have a category starting with `category`,
    /// ignoring ASCII case.
    pub fn get_total_posts_category(&self, category: &str) -> (r: u64)
        ensures
            r == by_category(self@, category@).len(),
    {
        let f = filter_by_category(&self.posts, category);
        f.len() as u64
    }

    /// How many posts have an author starting with `author`, ignoring
    /// ASCII case.
    pub fn get_total_posts_author(&self, author: &str) -> (r: u64)
        ensures
            r == by_author(self@, author@).len(),
    {
        let f = filter_by_author(&self.posts, author);
        f.len() as u64
    }

    /// The 1-indexed page of all posts, ranked by date, newest first:
    /// the documents ranked `[(page-1)*limit, page*limit)`.  A page
    /// below 1, a negative limit, or a skip beyond what the store can
    /// address is rejected.
    pub fn get_posts(&self, page: u64, limit: i64) -> (r: Result<Vec<Post>, RepoError>)
        ensures
            r is Ok <==> 1 <= page && 0 <= limit && spec_skip(page, limit) <= u64::MAX,
            r matches Ok(v) ==> v@ == page_of(by_date_desc(self@), page, limit),
            page == 0 ==> r == Err::<Vec<Post>, RepoError>(RepoError::InvalidPage),
            page >= 1 && limit < 0 ==> r == Err::<Vec<Post>, RepoError>(RepoError::InvalidLimit),
            page >= 1 && limit >= 0 && spec_skip(page, limit) > u64::MAX ==> r == Err::<
                Vec<Post>,
                RepoError,
            >(RepoError::InvalidPage),
    {
        let skip = match compute_skip(page, limit) {
            Ok(s) => s,
            Err(e) => {
                return Err(e);
            },
        };
        Ok(page_by_date(&self.posts, skip, limit))
    }

    /// The page of the posts whose category starts with `category`,
    /// ignoring ASCII case, ranked and paginated as `get_posts`.
    pub fn posts_by_category(&self, category: &str, page: u64, limit: i64) -> (r: Result<
        Vec<Post>,
        RepoError,
    >)
        ensures
            r is Ok <==> 1 <= page && 0 <= limit && spec_skip(page, limit) <= u64::MAX,
            r matches Ok(v) ==> v@ == page_of(by_date_desc(by_category(self@, category@)), page, limit),
            page == 0 ==> r == Err::<Vec<Post>, RepoError>(RepoError::InvalidPage),
            page >= 1 && limit < 0 ==> r == Err::<Vec<Post>, RepoError>(RepoError::InvalidLimit),
            page >= 1 && limit >= 0 && spec_skip(page, limit) > u64::MAX ==> r == Err::<
                Vec<Post>,
                RepoError,
            >(RepoError::InvalidPage),
    {
        let skip = match compute_skip(page, limit) {
            Ok(s) => s,
            Err(e) => {
                return Err(e);
            },
        };
        let f = filter_by_category(&self.posts, category);
        Ok(page_by_date(&f, skip, limit))
    }

    /// The page of the posts whose author starts with `author`,
    /// ignoring ASCII case, ranked and paginated as `get_posts`.
    pub fn posts_by_author(&self, author: &str, page: u64, limit: i64) -> (r: Result<
        Vec<Post>,
        RepoError,
    >)
        ensures
            r is Ok <==> 1 <= page && 0 <= limit && spec_skip(page, limit) <= u64::MAX,
            r matches Ok(v) ==> v@ == page_of(by_date_desc(by_author(self@, author@)), page, limit),
            page == 0 ==> r == Err::<Vec<Post>, RepoError>(RepoError::InvalidPage),
            page >= 1 && limit < 0 ==> r == Err::<Vec<Post>, RepoError>(RepoError::InvalidLimit),
            page >= 1 && limit >= 0 && spec_skip(page, limit) > u64::MAX ==> r == Err::<
                Vec<Post>,
                RepoError,
            >(RepoError::InvalidPage),
    {
        let skip = match compute_skip(page, limit) {
            Ok(s) => s,
            Err(e) => {
                return Err(e);
            },
        };
        let f = filter_by_author(&self.posts, author);
        Ok(page_by_date(&f, skip, limit))
    }

    /// Full-text search: the posts with a text field containing
    /// `text`, ignoring ASCII case, by descending relevance score; no
    /// pagination.
    pub fn search_posts(&self, text: &str) -> (r: Vec<Post>)
        ensures
            r@ == by_search(self@, text@),
    {
        let mut kv: Vec<(i64, Post)> = Vec::new();
        proof {
            reveal(Seq::filter);
            assert(self@.subrange(0, 0) =~= Seq::<Post>::empty());
            assert(kv@ =~= scored(self@.subrange(0, 0), text@));
        }
        let n = self.posts.len();
        let mut i: usize = 0;
        while i < n
            invariant
                n == self@.len(),
                i <= n,
                kv@ == scored(self@.subrange(0, i as int), text@),
            decreases n - i,
        {
            let p = &self.posts[i];
            let mut sc: i64 = 0;
            if contains_ci_x(p.title.as_str(), text) {
                sc += 1;
            }
            if contains_ci_x(p.author.as_str(), text) {
                sc += 1;
            }
            if contains_ci_x(p.category.as_str(), text) {
                sc += 1;
            }
            if contains_ci_x(p.content.as_str(), text) {
                sc += 1;
            }
            proof {
                assert(sc as int == spec_score(self@[i as int], text@));
                lemma_scored_push(self@.subrange(0, i as int), self@[i as int], text@);
                assert(self@.subrange(0, i + 1) =~= self@.subrange(0, i as int).push(
                    self@[i as int],
                ));
            }
            if sc > 0 {
                kv.push((sc, self.posts[i].duplicate()));
            }
            i += 1;
        }
        proof {
            assert(self@.subrange(0, n as int) =~= self@);
        }
        let sorted = sort_pairs_desc(&kv);
        proof {
            lemma_sort_desc_props(scored(self@, text@));
        }
        let m = sorted.len();
        let mut out: Vec<Post> = Vec::new();
        let mut j: usize = 0;
        while j < m
            invariant
                j <= m,
                m == sorted@.len(),
                sorted@ == sort_desc(scored(self@, text@)),
                out@.len() == j,
                forall|t: int| 0 <= t < j ==> out@[t] == by_search(self@, text@)[t],
            decreases m - j,
        {
            out.push(sorted[j].1.duplicate());
            j += 1;
        }
        proof {
            assert(out@ =~= by_search(self@, text@));
        }
        out
    }
}

/// What a paginated listing responds with: one page of posts and a
/// total count.
#[derive(Debug)]
pub struct PostsPage {
    pub posts: Vec<Post>,
    pub total: u64,
}

impl PostStore {
    /// The unfiltered listing's response: the requested page of all
    /// posts, with the total count of all posts.
    pub fn list_with_total(&self, page: u64, limit: i64) -> (r: Result<PostsPage, RepoError>)
        ensures
            r is Ok <==> 1 <= page && 0 <= limit && spec_skip(page, limit) <= u64::MAX,
            r matches Ok(v) ==> v.posts@ == page_of(by_date_desc(self@), page, limit) && v.total
                == self@.len(),
            page == 0 ==> r == Err::<PostsPage, RepoError>(RepoError::InvalidPage),
            page >= 1 && limit < 0 ==> r == Err::<PostsPage, RepoError>(RepoError::InvalidLimit),
            page >= 1 && limit >= 0 && spec_skip(page, limit) > u64::MAX ==> r == Err::<
                PostsPage,
                RepoError,
            >(RepoError::InvalidPage),
    {
        let posts = match self.get_posts(page, limit) {
            Ok(v) => v,
            Err(e) => {
                return Err(e);
            },
        };
        Ok(PostsPage { posts, total: self.get_total_posts() })
    }

    /// The category listing's response: the requested page of the
    /// matching posts, with the count of all matching posts.
    pub fn category_with_total(&self, category: &str, page: u64, limit: i64) -> (r: Result<
        PostsPage,
        RepoError,
    >)
        ensures
            r is Ok <==> 1 <= page && 0 <= limit && spec_skip(page, limit) <= u64::MAX,
            r matches Ok(v) ==> v.posts@ == page_of(
                by_date_desc(by_category(self@, category@)),
                page,
                limit,
            ) && v.total == by_category(self@, category@).len(),
            page == 0 ==> r == Err::<PostsPage, RepoError>(RepoError::InvalidPage),
            page >= 1 && limit < 0 ==> r == Err::<PostsPage, RepoError>(RepoError::InvalidLimit),
            page >= 1 && limit >= 0 && spec_skip(page, limit) > u64::MAX ==> r == Err::<
                PostsPage,
                RepoError,
            >(RepoError::InvalidPage),
    {
        let posts = match self.posts_by_category(category, page, limit) {
            Ok(v) => v,
            Err(e) => {
                return Err(e);
            },
        };
        Ok(PostsPage { posts, total: self.get_total_posts_category(category) })
    }

    /// The author listing's response: the requested page of the
    /// matching posts, with the count of all matching posts.
    pub fn author_with_total(&self, author: &str, page: u64, limit: i64) -> (r: Result<
        PostsPage,
        RepoError,
    >)
        ensures
            r is Ok <==> 1 <= page && 0 <= limit && spec_skip(page, limit) <= u64::MAX,
            r matches Ok(v) ==> v.posts@ == page_of(
                by_date_desc(by_author(self@, author@)),
                page,
                limit,
            ) && v.total == by_author(self@, author@).len(),
            page == 0 ==> r == Err::<PostsPage, RepoError>(RepoError::InvalidPage),
            page >= 1 && limit < 0 ==> r == Err::<PostsPage, RepoError>(RepoError::InvalidLimit),
            page >= 1 && limit >= 0 && spec_skip(page, limit) > u64::MAX ==> r == Err::<
                PostsPage,
                RepoError,
            >(RepoError::InvalidPage),
    {
        let posts = match self.posts_by_author(author, page, limit) {
            Ok(v) => v,
            Err(e) => {
                return Err(e);
            },
        };
        Ok(PostsPage { posts, total: self.get_total_posts_author(author) })
    }
}

/// What the date ranking guarantees: it is a permutation of the given
/// posts — same length, the same posts both ways — with dates
/// descending.
pub proof fn lemma_by_date_desc_props(s: Seq<Post>)
    ensures
        by_date_desc(s).len() == s.len(),
        dates_desc(by_date_desc(s)),
        forall|k: int| 0 <= k < s.len() ==> s.contains(#[trigger] by_date_desc(s)[k]),
        forall|k: int| 0 <= k < s.len() ==> by_date_desc(s).contains(#[trigger] s[k]),
{
    broadcast use vstd::seq_lib::group_to_multiset_ensures;

    let keyed = keyed_by_date(s);
    let sorted = sort_desc(keyed);
    let ranked = by_date_desc(s);
    lemma_sort_desc_props(keyed);
    assert forall|k: int| 0 <= k < s.len() implies s.contains(#[trigger] ranked[k]) by {
        lemma_sort_desc_contains(keyed, k);
        let m = choose|m: int| 0 <= m < keyed.len() && keyed[m] == sorted[k];
        assert(keyed[m] == (s[m].date, s[m]));
        assert(ranked[k] == s[m]);
    }
    assert forall|i: int, j: int| 0 <= i < j < ranked.len() implies ranked[i].date
        >= ranked[j].date by {
        lemma_sort_desc_contains(keyed, i);
        let mi = choose|m: int| 0 <= m < keyed.len() && keyed[m] == sorted[i];
        assert(keyed[mi] == (s[mi].date, s[mi]));
        lemma_sort_desc_contains(keyed, j);
        let mj = choose|m: int| 0 <= m < keyed.len() && keyed[m] == sorted[j];
        assert(keyed[mj] == (s[mj].date, s[mj]));
        assert(sorted[i].0 >= sorted[j].0);
    }
    assert forall|k: int| 0 <= k < s.len() implies ranked.contains(#[trigger] s[k]) by {
        assert(keyed[k] == (s[k].date, s[k]));
        assert(keyed.contains(keyed[k]));
        assert(keyed.to_multiset().count(keyed[k]) > 0);
        assert(sorted.to_multiset().count(keyed[k]) > 0);
        assert(sorted.contains(keyed[k]));
        let m = choose|m: int| 0 <= m < sorted.len() && sorted[m] == keyed[k];
        assert(ranked[m] == s[k]);
    }
}

/// Pagination: the page `[(page-1)*limit, page*limit)` of the posts
/// ranked by date holds at most `limit` posts, and its k-th post is
/// the post ranked `(page-1)*limit + k`; the ranking itself is a
/// date-descending permutation of the given posts.
pub proof fn lemma_pagination(s: Seq<Post>, page: u64, limit: i64)
    requires
        1 <= page,
        0 <= limit,
    ensures
        page_of(by_date_desc(s), page, limit).len() <= limit,
        forall|k: int|
            0 <= k < page_of(by_date_desc(s), page, limit).len() ==> #[trigger] page_of(
                by_date_desc(s),
                page,
                limit,
            )[k] == by_date_desc(s)[spec_skip(page, limit) + k],
        by_date_desc(s).len() == s.len(),
        dates_desc(by_date_desc(s)),
        forall|k: int| 0 <= k < s.len() ==> s.contains(#[trigger] by_date_desc(s)[k]),
        forall|k: int| 0 <= k < s.len() ==> by_date_desc(s).contains(#[trigger] s[k]),
{
    lemma_by_date_desc_props(s);
}

/// Prefix filter: every post a category page returns has a category
/// starting with the query, ignoring ASCII case — a post merely
/// containing the query elsewhere in its category is excluded.
pub proof fn lemma_prefix_filter(s: Seq<Post>, c: Seq<char>, page: u64, limit: i64)
    requires
        1 <= page,
        0 <= limit,
    ensures
        forall|k: int|
            0 <= k < page_of(by_date_desc(by_category(s, c)), page, limit).len()
                ==> starts_with_ci(
                c,
                (#[trigger] page_of(by_date_desc(by_category(s, c)), page, limit)[k]).category@,
            ),
{
    broadcast use vstd::seq_lib::group_filter_ensures;

    let f = by_category(s, c);
    lemma_by_date_desc_props(f);
    let ranked = by_date_desc(f);
    let paged = page_of(ranked, page, limit);
    assert forall|k: int| 0 <= k < paged.len() implies starts_with_ci(
        c,
        (#[trigger] paged[k]).category@,
    ) by {
        let skip = spec_skip(page, limit);
        assert(paged[k] == ranked[skip + k]);
        assert(f.contains(ranked[skip + k]));
        let m = choose|m: int| 0 <= m < f.len() && f[m] == ranked[skip + k];
        assert(category_matches(f[m], c));
    }
}

/// Count consistency: the category count equals the length of a
/// single category page large enough to hold every match.
pub proof fn lemma_count_consistency(s: Seq<Post>, c: Seq<char>, limit: i64)
    requires
        0 <= limit,
        by_category(s, c).len() <= limit,
    ensures
        page_of(by_date_desc(by_category(s, c)), 1, limit).len() == by_category(s, c).len(),
{
    let f = by_category(s, c);
    lemma_by_date_desc_props(f);
    let ranked = by_date_desc(f);
    assert(spec_skip(1, limit) == 0);
    if ranked.len() > 0 {
        assert(page_of(ranked, 1, limit) =~= ranked.subrange(0, ranked.len() as int));
    }
}

/// Search ordering: every search result contains the search text in
/// one of its fields, and results come by descending relevance score.
pub proof fn lemma_search_ordering(s: Seq<Post>, q: Seq<char>)
    ensures
        forall|k: int|
            0 <= k < by_search(s, q).len() ==> search_matches(#[trigger] by_search(s, q)[k], q),
        forall|i: int, j: int|
            0 <= i < j < by_search(s, q).len() ==> spec_score(by_search(s, q)[i], q) >= spec_score(
                by_search(s, q)[j],
                q,
            ),
{
    broadcast use vstd::seq_lib::group_filter_ensures;

    let f = s.filter(|p: Post| search_matches(p, q));
    let sc = scored(s, q);
    let sorted = sort_desc(sc);
    let found = by_search(s, q);
    lemma_sort_desc_props(sc);
    assert forall|k: int| 0 <= k < found.len() implies search_matches(#[trigger] found[k], q)
        && sorted[k].0 == spec_score(found[k], q) as i64 by {
        lemma_sort_desc_contains(sc, k);
        let m = choose|m: int| 0 <= m < sc.len() && sc[m] == sorted[k];
        assert(sc[m] == (spec_score(f[m], q) as i64, f[m]));
        assert(search_matches(f[m], q));
        assert(found[k] == f[m]);
    }
    assert forall|i: int, j: int| 0 <= i < j < found.len() implies spec_score(found[i], q)
        >= spec_score(found[j], q) by {
        assert(sorted[i].0 >= sorted[j].0);
        assert(sorted[i].0 == spec_score(found[i], q) as i64);
        assert(sorted[j].0 == spec_score(found[j], q) as i64);
    }
}

} // verus!
