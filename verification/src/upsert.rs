//! What a batch write means for the graph: the effect that the write
//! statement is to have on posts, authors and authorship edges, and why
//! writing a batch again does no harm.

use vstd::multiset::Multiset;
use vstd::prelude::*;

use crate::json::{TweetView, UserView};

verus! {

/// The properties of a post node.
pub ghost struct PostNode {
    pub text: Seq<char>,
    pub created_at: (i64, u32),
    pub reply_to: Option<Seq<char>>,
    pub lang: Seq<char>,
    pub hashtags: Seq<Seq<char>>,
    pub user_mentions: Seq<Seq<char>>,
}

/// The graph as far as batch writes touch it.
pub ghost struct GraphView {
    /// The post nodes, by identifier.
    pub posts: Map<Seq<char>, PostNode>,
    /// The author nodes, by identifier, each as it was first written.
    pub authors: Map<Seq<char>, UserView>,
    /// The authorship edges, from post to author, each as often as it was
    /// created.
    pub posted_by: Multiset<(Seq<char>, Seq<char>)>,
}

/// The node that a post is written as.
pub open spec fn post_node(t: TweetView) -> PostNode {
    PostNode {
        text: t.text,
        created_at: t.created_at,
        reply_to: t.reply_to,
        lang: t.lang,
        hashtags: t.entities.hashtags,
        user_mentions: t.entities.user_mentions,
    }
}

impl GraphView {
    pub open spec fn empty() -> GraphView {
        GraphView { posts: Map::empty(), authors: Map::empty(), posted_by: Multiset::empty() }
    }

    /// The graph after one post was written: its node is there with the
    /// post's properties, whatever it held before; its author's node is
    /// there, created from the post's snapshot only if it was missing; and
    /// one authorship edge was created.
    pub open spec fn upsert(self, t: TweetView) -> GraphView {
        GraphView {
            posts: self.posts.insert(t.id_str, post_node(t)),
            authors: if self.authors.contains_key(t.user.id_str) {
                self.authors
            } else {
                self.authors.insert(t.user.id_str, t.user)
            },
            posted_by: self.posted_by.insert((t.id_str, t.user.id_str)),
        }
    }

    /// The graph after a batch was written, post by post in order.
    pub open spec fn apply(self, batch: Seq<TweetView>) -> GraphView
        decreases batch.len(),
    {
        if batch.len() == 0 {
            self
        } else {
            self.apply(batch.drop_last()).upsert(batch.last())
        }
    }
}

/// A batch written to any graph leaves its own posts over the graph's, the
/// graph's authors over its own, and its edges beside the graph's.
pub proof fn lemma_apply_over(g: GraphView, batch: Seq<TweetView>)
    ensures
        g.apply(batch).posts == g.posts.union_prefer_right(GraphView::empty().apply(batch).posts),
        g.apply(batch).authors == GraphView::empty().apply(batch).authors.union_prefer_right(
            g.authors,
        ),
        g.apply(batch).posted_by == g.posted_by.add(GraphView::empty().apply(batch).posted_by),
    decreases batch.len(),
{
    let e = GraphView::empty();
    if batch.len() == 0 {
        assert(g.posts =~= g.posts.union_prefer_right(e.posts));
        assert(g.authors =~= e.authors.union_prefer_right(g.authors));
        assert(g.posted_by =~= g.posted_by.add(e.posted_by));
    } else {
        let front = batch.drop_last();
        lemma_apply_over(g, front);
        assert(g.apply(batch).posts =~= g.posts.union_prefer_right(e.apply(batch).posts));
        assert(g.apply(batch).authors =~= e.apply(batch).authors.union_prefer_right(g.authors));
        assert(g.apply(batch).posted_by =~= g.posted_by.add(e.apply(batch).posted_by));
    }
}

/// Writing a batch that was already written changes no node: every post
/// and every author is there once, with the properties it had after the
/// first write. The second write creates no edge between nodes that had
/// none; it only creates again the edges of the batch.
pub proof fn lemma_apply_twice(g: GraphView, batch: Seq<TweetView>)
    ensures
        g.apply(batch).apply(batch).posts == g.apply(batch).posts,
        g.apply(batch).apply(batch).authors == g.apply(batch).authors,
        forall|edge: (Seq<char>, Seq<char>)|
            g.apply(batch).apply(batch).posted_by.count(edge) > 0 <==> g.apply(
                batch,
            ).posted_by.count(edge) > 0,
{
    let once = g.apply(batch);
    let twice = once.apply(batch);
    let alone = GraphView::empty().apply(batch);
    lemma_apply_over(g, batch);
    lemma_apply_over(once, batch);
    assert(twice.posts =~= once.posts);
    assert(twice.authors =~= once.authors);
}

/// A write never changes an author who is already there: the snapshot of
/// the first write stays.
pub proof fn lemma_authors_kept(g: GraphView, batch: Seq<TweetView>, id: Seq<char>)
    requires
        g.authors.contains_key(id),
    ensures
        g.apply(batch).authors.contains_key(id),
        g.apply(batch).authors[id] == g.authors[id],
{
    lemma_apply_over(g, batch);
}

/// After a batch was written, each of its posts is there, and so is each
/// post's author.
pub proof fn lemma_batch_present(g: GraphView, batch: Seq<TweetView>, i: int)
    requires
        0 <= i < batch.len(),
    ensures
        g.apply(batch).posts.contains_key(batch[i].id_str),
        g.apply(batch).authors.contains_key(batch[i].user.id_str),
        g.apply(batch).posted_by.count((batch[i].id_str, batch[i].user.id_str)) > 0,
    decreases batch.len(),
{
    if i < batch.len() - 1 {
        lemma_batch_present(g, batch.drop_last(), i);
    }
}

/// A post of the batch that no later post of the batch replaces is there
/// with its own properties, whatever the graph held under its identifier.
pub proof fn lemma_post_written(g: GraphView, batch: Seq<TweetView>, i: int)
    requires
        0 <= i < batch.len(),
        forall|j: int| i < j < batch.len() ==> batch[j].id_str != batch[i].id_str,
    ensures
        g.apply(batch).posts.contains_key(batch[i].id_str),
        g.apply(batch).posts[batch[i].id_str] == post_node(batch[i]),
    decreases batch.len(),
{
    if i < batch.len() - 1 {
        lemma_post_written(g, batch.drop_last(), i);
    }
}

} // verus!
