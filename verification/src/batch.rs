//! The poll-and-dedup core: planning a fetched batch (dedup filter against
//! the watermark snapshot, ascending id order), advancing the watermark,
//! and processing posts into messages.

use vstd::prelude::*;
use vstd::multiset::Multiset;
use crate::account::TrackedAccount;
use crate::account::spec_name_of;
use crate::message::render_message;
use crate::message::spec_message;
use crate::post::Post;
use crate::post::RelayError;
use crate::post::ReplyOutcome;
use crate::scan::occurs_in;
use crate::scan::str_contains;

verus! {

/// The larger of two ids.
pub open spec fn max_u64(a: u64, b: u64) -> u64 {
    if a >= b {
        a
    } else {
        b
    }
}

/// The watermark after processing `posts` starting from watermark `w`:
/// the maximum of `w` and every id in `posts`.
pub open spec fn batch_watermark(w: u64, posts: Seq<Post>) -> u64
    decreases posts.len(),
{
    if posts.len() == 0 {
        w
    } else {
        max_u64(batch_watermark(w, posts.drop_last()), posts.last().id)
    }
}

/// The ids of `s` are in ascending order.
pub open spec fn sorted_by_id(s: Seq<Post>) -> bool {
    forall|i: int, j: int| 0 <= i <= j < s.len() ==> s[i].id <= s[j].id
}

/// The posts of a batch that are genuinely new: id strictly above the
/// watermark snapshot, in the order the batch listed them.
pub open spec fn new_posts(snapshot: u64, posts: Seq<Post>) -> Seq<Post> {
    posts.filter(|p: Post| p.id > snapshot)
}

/// The display name the registry has for a post's author field: none when
/// the field is absent or no tracked account carries the id.
pub open spec fn spec_author_name(users: Seq<TrackedAccount>, author: Option<u64>) -> Option<
    Seq<char>,
> {
    match author {
        None => None::<Seq<char>>,
        Some(id) => spec_name_of(users, id),
    }
}

/// A post whose body contains the suppression marker is dropped silently:
/// no message, though its id still counts as seen.
pub open spec fn spec_suppressed(body: Seq<char>) -> bool {
    occurs_in(body, "質問箱"@)
}

/// Whether `post`'s body contains the suppression marker.
pub fn is_suppressed(post: &Post) -> (r: bool)
    ensures
        r == spec_suppressed(post.body@),
{
    str_contains(post.body.as_str(), "質問箱")
}

/// Processes one planned post: advances the live watermark to cover its
/// id, resolves its author, and — unless the body carries the suppression
/// marker — renders its message.  An author absent from the registry is a
/// fatal registry/query desync and returns the error instead.
pub fn process_post(
    watermark: &mut u64,
    post: &Post,
    reply: &ReplyOutcome,
    users: &Vec<TrackedAccount>,
) -> (r: Result<Option<String>, RelayError>)
    ensures
        *final(watermark) == max_u64(*old(watermark), post.id),
        spec_author_name(users@, post.author_id) is None ==> r == Err::<
            Option<String>,
            RelayError,
        >(RelayError::UnknownAuthor(post.author_id)),
        spec_author_name(users@, post.author_id) is Some && spec_suppressed(post.body@) ==> r
            == Ok::<Option<String>, RelayError>(None),
        spec_author_name(users@, post.author_id) is Some && !spec_suppressed(post.body@) ==> (
        r matches Ok(Some(msg)) && msg@ == spec_message(
            spec_author_name(users@, post.author_id).unwrap(),
            *post,
            *reply,
        )),
{
    if post.id > *watermark {
        *watermark = post.id;
    }
    let name = match post.author_id {
        None => {
            return Err(RelayError::UnknownAuthor(None));
        },
        Some(id) => match crate::account::get_name_from_id(id, users) {
            None => {
                return Err(RelayError::UnknownAuthor(post.author_id));
            },
            Some(n) => n,
        },
    };
    if is_suppressed(post) {
        return Ok(None);
    }
    Ok(Some(render_message(name.as_str(), post, reply)))
}

fn find_insert_pos(out: &Vec<Post>, id: u64) -> (j: usize)
    requires
        sorted_by_id(out@),
    ensures
        j <= out@.len(),
        forall|k: int| 0 <= k < j ==> out@[k].id <= id,
        forall|k: int| j <= k < out@.len() ==> out@[k].id >= id,
{
    let mut j: usize = 0;
    while j < out.len() && out[j].id <= id
        invariant
            0 <= j <= out@.len(),
            sorted_by_id(out@),
            forall|k: int| 0 <= k < j ==> out@[k].id <= id,
        decreases out@.len() - j,
    {
        j = j + 1;
    }
    j
}

/// Plans a fetched batch against the watermark snapshot taken at the start
/// of the iteration: exactly the posts whose id lies strictly above the
/// snapshot survive, ordered by ascending id.
pub fn plan_batch(snapshot: u64, posts: Vec<Post>) -> (planned: Vec<Post>)
    ensures
        sorted_by_id(planned@),
        planned@.to_multiset() == new_posts(snapshot, posts@).to_multiset(),
        forall|p: Post| #[trigger] planned@.contains(p) <==> posts@.contains(p) && p.id
            > snapshot,
        forall|i: int| 0 <= i < planned@.len() ==> planned@[i].id > snapshot,
{
    broadcast use vstd::seq_lib::group_to_multiset_ensures;
    broadcast use vstd::seq_lib::group_filter_ensures;
    broadcast use vstd::multiset::group_multiset_axioms;

    let ghost orig = posts@;
    let ghost pred = |p: Post| p.id > snapshot;
    let mut src = posts;
    let mut out: Vec<Post> = Vec::new();
    proof {
        assert(src@ =~= orig.subrange(0, src@.len() as int));
        assert(orig.subrange(src@.len() as int, orig.len() as int) =~= Seq::<Post>::empty());
        reveal_with_fuel(Seq::<_>::filter, 2);
        assert(Seq::<Post>::empty().filter(pred) =~= Seq::<Post>::empty());
        assert(out@.to_multiset() =~= Seq::<Post>::empty().to_multiset());
    }
    while src.len() > 0
        invariant
            pred == (|p: Post| p.id > snapshot),
            src@ == orig.subrange(0, src@.len() as int),
            src@.len() <= orig.len(),
            sorted_by_id(out@),
            out@.to_multiset() == orig.subrange(src@.len() as int, orig.len() as int).filter(
                pred,
            ).to_multiset(),
            forall|i: int| 0 <= i < out@.len() ==> out@[i].id > snapshot,
        decreases src.len(),
    {
        let ghost presrc = src@;
        let ghost preout = out@;
        let x = src.pop().unwrap();
        proof {
            assert(x == orig[presrc.len() - 1]);
            assert(src@ =~= orig.subrange(0, src@.len() as int));
        }
        let ghost oldsuffix = orig.subrange(presrc.len() as int, orig.len() as int);
        let ghost newsuffix = orig.subrange(presrc.len() - 1, orig.len() as int);
        proof {
            assert(newsuffix =~= seq![x] + oldsuffix);
            Seq::<Post>::filter_distributes_over_add(seq![x], oldsuffix, pred);
            reveal_with_fuel(Seq::<_>::filter, 2);
            assert(seq![x].drop_last() =~= Seq::<Post>::empty());
            vstd::seq_lib::lemma_multiset_commutative(seq![x].filter(pred), oldsuffix.filter(pred));
        }
        if x.id > snapshot {
            proof {
                assert(seq![x].filter(pred) =~= Seq::<Post>::empty().push(x));
                Seq::<Post>::empty().to_multiset_ensures();
                assert(Seq::<Post>::empty().to_multiset().len() == 0);
                vstd::multiset::lemma_multiset_empty_len(Seq::<Post>::empty().to_multiset());
                assert(Seq::<Post>::empty().to_multiset() =~= Multiset::<Post>::empty());
                assert(seq![x].filter(pred).to_multiset() =~= Multiset::<Post>::empty().insert(
                    x,
                ));
                assert(newsuffix.filter(pred).to_multiset() =~= oldsuffix.filter(
                    pred,
                ).to_multiset().insert(x));
            }
            let j = find_insert_pos(&out, x.id);
            out.insert(j, x);
            proof {
                assert(out@ == preout.insert(j as int, x));
                vstd::seq_lib::to_multiset_insert(preout, j as int, x);
                assert forall|a: int, b: int| 0 <= a <= b < out@.len() implies out@[a].id
                    <= out@[b].id by {
                    assert(forall|k: int|
                        0 <= k < out@.len() ==> out@[k] == (if k < j {
                            preout[k]
                        } else if k == j {
                            x
                        } else {
                            preout[k - 1]
                        }));
                }
                assert(out@.to_multiset() == preout.to_multiset().insert(x));
            }
        } else {
            proof {
                assert(seq![x].filter(pred) =~= Seq::<Post>::empty());
                assert(newsuffix.filter(pred).to_multiset() =~= oldsuffix.filter(
                    pred,
                ).to_multiset());
            }
        }
    }
    proof {
        assert(orig.subrange(0, orig.len() as int) =~= orig);
        assert(out@.to_multiset() == new_posts(snapshot, orig).to_multiset());
        assert forall|p: Post| #[trigger] out@.contains(p) <==> (orig.contains(p) && p.id
            > snapshot) by {
            if out@.contains(p) {
                assert(out@.to_multiset().count(p) > 0);
                assert(new_posts(snapshot, orig).contains(p));
                let i = choose|i: int|
                    0 <= i < new_posts(snapshot, orig).len() && new_posts(snapshot, orig)[i] == p;
                assert(pred(new_posts(snapshot, orig)[i]));
                assert(orig.to_multiset().count(p) >= 0);
                lemma_filter_sub_contains(orig, pred, p);
            }
            if orig.contains(p) && p.id > snapshot {
                let i = choose|i: int| 0 <= i < orig.len() && orig[i] == p;
                assert(pred(orig[i]));
                assert(orig.filter(pred).contains(orig[i]));
                assert(new_posts(snapshot, orig).to_multiset().count(p) > 0);
                assert(out@.to_multiset().count(p) > 0);
            }
        }
    }
    out
}

/// Every element of the filtered sequence is an element of the sequence
/// it was drawn from.
proof fn lemma_filter_sub_contains(s: Seq<Post>, pred: spec_fn(Post) -> bool, p: Post)
    requires
        s.filter(pred).contains(p),
    ensures
        s.contains(p),
    decreases s.len(),
{
    reveal_with_fuel(Seq::<_>::filter, 2);
    if s.len() > 0 {
        if s.filter(pred) == s.drop_last().filter(pred).push(s.last()) && p == s.last() {
            assert(s.contains(s.last()));
        } else {
            let fdrop = s.drop_last().filter(pred);
            if pred(s.last()) {
                assert(s.filter(pred) == fdrop.push(s.last()));
                if p != s.last() {
                    let i = choose|i: int|
                        0 <= i < s.filter(pred).len() && s.filter(pred)[i] == p;
                    assert(fdrop.push(s.last())[i] == p);
                    assert(i < fdrop.len());
                    assert(fdrop.contains(p));
                    lemma_filter_sub_contains(s.drop_last(), pred, p);
                    assert(s.drop_last().contains(p));
                    let k = choose|k: int| 0 <= k < s.drop_last().len() && s.drop_last()[k] == p;
                    assert(s[k] == p);
                }
            } else {
                assert(s.filter(pred) == fdrop);
                lemma_filter_sub_contains(s.drop_last(), pred, p);
                let k = choose|k: int| 0 <= k < s.drop_last().len() && s.drop_last()[k] == p;
                assert(s[k] == p);
            }
        }
    }
}

/// Plans one fetch outcome: an absent result (the explicit no-data marker)
/// plans nothing, so the iteration proceeds straight to its sleep; a
/// present batch is planned against the snapshot.
pub fn plan_fetch(snapshot: u64, fetched: Option<Vec<Post>>) -> (planned: Vec<Post>)
    ensures
        fetched is None ==> planned@ == Seq::<Post>::empty(),
        fetched matches Some(posts) ==> {
            &&& sorted_by_id(planned@)
            &&& planned@.to_multiset() == new_posts(snapshot, posts@).to_multiset()
            &&& forall|p: Post| #[trigger] planned@.contains(p) <==> posts@.contains(p) && p.id
                > snapshot
            &&& forall|i: int| 0 <= i < planned@.len() ==> planned@[i].id > snapshot
        },
{
    match fetched {
        None => Vec::new(),
        Some(posts) => plan_batch(snapshot, posts),
    }
}


/// Every author id occurring in `planned` has a display name in the
/// registry.
pub open spec fn all_authors_known(planned: Seq<Post>, users: Seq<TrackedAccount>) -> bool {
    forall|i: int|
        0 <= i < planned.len() ==> spec_author_name(users, planned[i].author_id) is Some
}

/// The messages a planned batch yields, in order: one per post whose
/// author is known and whose body is not suppressed, rendered with the
/// reply outcome of the same position.
pub open spec fn spec_messages(
    planned: Seq<Post>,
    replies: Seq<ReplyOutcome>,
    users: Seq<TrackedAccount>,
) -> Seq<Seq<char>>
    decreases planned.len(),
{
    if planned.len() == 0 || planned.len() != replies.len() {
        Seq::<Seq<char>>::empty()
    } else {
        let rest = spec_messages(planned.drop_last(), replies.drop_last(), users);
        let p = planned.last();
        if spec_author_name(users, p.author_id) is Some && !spec_suppressed(p.body@) {
            rest.push(spec_message(spec_author_name(users, p.author_id).unwrap(), p, replies.last()))
        } else {
            rest
        }
    }
}

/// Processes a planned batch in order: advances the live watermark over
/// every post (suppressed ones included), and collects one message per
/// surviving post.  The first author absent from the registry aborts the
/// batch with the error, the watermark already covering that post.
pub fn process_planned(
    watermark: &mut u64,
    planned: &Vec<Post>,
    replies: &Vec<ReplyOutcome>,
    users: &Vec<TrackedAccount>,
) -> (r: Result<Vec<String>, RelayError>)
    requires
        replies@.len() == planned@.len(),
    ensures
        r is Ok <==> all_authors_known(planned@, users@),
        r matches Ok(msgs) ==> *final(watermark) == batch_watermark(*old(watermark), planned@)
            && msgs@.map_values(|m: String| m@) == spec_messages(planned@, replies@, users@),
        r matches Err(e) ==> exists|i: int|
            {
                &&& 0 <= i < planned@.len()
                &&& spec_author_name(users@, #[trigger] planned@[i].author_id) is None
                &&& e == RelayError::UnknownAuthor(planned@[i].author_id)
                &&& *final(watermark) == batch_watermark(
                    *old(watermark),
                    planned@.subrange(0, i + 1),
                )
            },
{
    let ghost w0 = *watermark;
    let ghost f = |m: String| m@;
    let mut msgs: Vec<String> = Vec::new();
    proof {
        assert(planned@.subrange(0, 0) =~= Seq::<Post>::empty());
        assert(replies@.subrange(0, 0) =~= Seq::<ReplyOutcome>::empty());
        assert(msgs@.map_values(f) =~= Seq::<Seq<char>>::empty());
    }
    let mut i: usize = 0;
    while i < planned.len()
        invariant
            0 <= i <= planned@.len(),
            replies@.len() == planned@.len(),
            f == (|m: String| m@),
            w0 == *old(watermark),
            *watermark == batch_watermark(w0, planned@.subrange(0, i as int)),
            all_authors_known(planned@.subrange(0, i as int), users@),
            msgs@.map_values(f) == spec_messages(
                planned@.subrange(0, i as int),
                replies@.subrange(0, i as int),
                users@,
            ),
        decreases planned@.len() - i,
    {
        let ghost premsgs = msgs@;
        let p = &planned[i];
        let rep = &replies[i];
        let res = process_post(watermark, p, rep, users);
        proof {
            let pre = planned@.subrange(0, i as int);
            let pre1 = planned@.subrange(0, i + 1);
            assert(pre1.drop_last() =~= pre);
            assert(pre1.last() == planned@[i as int]);
            assert(*watermark == batch_watermark(w0, pre1));
        }
        match res {
            Err(e) => {
                proof {
                    let wi = i as int;
                    assert(w0 == *old(watermark));
                    assert({
                        &&& 0 <= wi < planned@.len()
                        &&& spec_author_name(users@, planned@[wi].author_id) is None
                        &&& e == RelayError::UnknownAuthor(planned@[wi].author_id)
                        &&& *watermark == batch_watermark(w0, planned@.subrange(0, wi + 1))
                    });
                    assert(exists|i: int|
                        {
                            &&& 0 <= i < planned@.len()
                            &&& spec_author_name(users@, #[trigger] planned@[i].author_id) is None
                            &&& e == RelayError::UnknownAuthor(planned@[i].author_id)
                            &&& *watermark == batch_watermark(w0, planned@.subrange(0, i + 1))
                        });
                }
                return Err(e);
            },
            Ok(Some(m)) => {
                msgs.push(m);
                proof {
                    let pre = planned@.subrange(0, i as int);
                    let pre1 = planned@.subrange(0, i + 1);
                    let rpre = replies@.subrange(0, i as int);
                    let rpre1 = replies@.subrange(0, i + 1);
                    assert(rpre1.drop_last() =~= rpre);
                    assert(rpre1.last() == replies@[i as int]);
                    assert(msgs@.map_values(f) =~= premsgs.map_values(f).push(m@));
                    assert(msgs@.map_values(f) == spec_messages(pre1, rpre1, users@));
                }
            },
            Ok(None) => {
                proof {
                    let pre1 = planned@.subrange(0, i + 1);
                    let rpre = replies@.subrange(0, i as int);
                    let rpre1 = replies@.subrange(0, i + 1);
                    assert(rpre1.drop_last() =~= rpre);
                    assert(msgs@.map_values(f) == spec_messages(pre1, rpre1, users@));
                }
            },
        }
        i = i + 1;
    }
    proof {
        assert(planned@.subrange(0, planned@.len() as int) =~= planned@);
        assert(replies@.subrange(0, replies@.len() as int) =~= replies@);
    }
    Ok(msgs)
}

/// After a batch, the watermark is the maximum of the snapshot it started
/// from and every id the batch carried: it never decreases, it covers
/// every processed id, and it rises only to an id actually seen.
pub proof fn lemma_batch_watermark_bounds(w: u64, posts: Seq<Post>)
    ensures
        batch_watermark(w, posts) >= w,
        forall|i: int| 0 <= i < posts.len() ==> batch_watermark(w, posts) >= posts[i].id,
        batch_watermark(w, posts) == w || exists|i: int|
            0 <= i < posts.len() && #[trigger] posts[i].id == batch_watermark(w, posts),
    decreases posts.len(),
{
    if posts.len() > 0 {
        lemma_batch_watermark_bounds(w, posts.drop_last());
        let bw = batch_watermark(w, posts);
        let bwd = batch_watermark(w, posts.drop_last());
        assert(forall|i: int| 0 <= i < posts.len() - 1 ==> posts.drop_last()[i] == posts[i]);
        if bwd != w && bw == bwd {
            let i = choose|i: int|
                0 <= i < posts.drop_last().len() && #[trigger] posts.drop_last()[i].id == bwd;
            assert(posts[i].id == bw);
        }
        if bw == posts.last().id {
            assert(posts[posts.len() - 1].id == bw);
        }
    }
}

/// Filtering never raises an element's multiplicity.
proof fn lemma_filter_count_le(s: Seq<Post>, pred: spec_fn(Post) -> bool, x: Post)
    ensures
        s.filter(pred).to_multiset().count(x) <= s.to_multiset().count(x),
    decreases s.len(),
{
    broadcast use vstd::seq_lib::group_to_multiset_ensures;
    broadcast use vstd::multiset::group_multiset_axioms;

    reveal_with_fuel(Seq::<_>::filter, 2);
    if s.len() > 0 {
        lemma_filter_count_le(s.drop_last(), pred, x);
        assert(s.drop_last().push(s.last()) =~= s);
        assert(s.drop_last().push(s.last()).to_multiset() =~= s.drop_last().to_multiset().insert(
            s.last(),
        ));
        if pred(s.last()) {
            assert(s.filter(pred) == s.drop_last().filter(pred).push(s.last()));
            assert(s.filter(pred).to_multiset() =~= s.drop_last().filter(
                pred,
            ).to_multiset().insert(s.last()));
        }
    }
}

/// In a plan drawn from a batch of pairwise distinct ids, the ids ascend
/// strictly: each new post occupies exactly one slot, dispatched in
/// ascending id order.
pub proof fn lemma_plan_ascending(snapshot: u64, posts: Seq<Post>, planned: Seq<Post>)
    requires
        sorted_by_id(planned),
        planned.to_multiset() == new_posts(snapshot, posts).to_multiset(),
        forall|i: int, j: int| 0 <= i < j < posts.len() ==> posts[i].id != posts[j].id,
    ensures
        forall|i: int, j: int| 0 <= i < j < planned.len() ==> planned[i].id < planned[j].id,
        planned.no_duplicates(),
{
    broadcast use vstd::seq_lib::group_to_multiset_ensures;
    broadcast use vstd::multiset::group_multiset_axioms;

    let pred = |p: Post| p.id > snapshot;
    assert(posts.no_duplicates());
    posts.lemma_multiset_has_no_duplicates();
    assert forall|x: Post| planned.to_multiset().contains(x) implies planned.to_multiset().count(
        x,
    ) == 1 by {
        lemma_filter_count_le(posts, pred, x);
        assert(posts.filter(pred).contains(x));
        lemma_filter_sub_contains(posts, pred, x);
        assert(posts.to_multiset().count(x) == 1);
        assert(planned.to_multiset().count(x) >= 1);
    }
    planned.lemma_multiset_has_no_duplicates_conv();
    assert forall|i: int, j: int| 0 <= i < j < planned.len() implies planned[i].id
        < planned[j].id by {
        assert(planned[i].id <= planned[j].id);
        if planned[i].id == planned[j].id {
            assert(planned[i] != planned[j]);
            assert(planned.contains(planned[i]));
            assert(planned.contains(planned[j]));
            assert(planned.to_multiset().count(planned[i]) > 0);
            assert(planned.to_multiset().count(planned[j]) > 0);
            assert(new_posts(snapshot, posts).contains(planned[i]));
            assert(new_posts(snapshot, posts).contains(planned[j]));
            lemma_filter_sub_contains(posts, pred, planned[i]);
            lemma_filter_sub_contains(posts, pred, planned[j]);
            let a = choose|a: int| 0 <= a < posts.len() && posts[a] == planned[i];
            let b = choose|b: int| 0 <= b < posts.len() && posts[b] == planned[j];
            assert(a != b);
            assert(posts[a].id != posts[b].id);
        }
    }
}

/// The watermark a plan leaves behind is exactly the watermark the whole
/// fetched batch asks for: the maximum of the snapshot and every fetched
/// id, whatever order the batch came in and whatever the dedup filter
/// dropped.
pub proof fn lemma_batch_watermark_covers(snapshot: u64, posts: Seq<Post>, planned: Seq<Post>)
    requires
        planned.to_multiset() == new_posts(snapshot, posts).to_multiset(),
    ensures
        batch_watermark(snapshot, planned) >= snapshot,
        forall|i: int| 0 <= i < posts.len() ==> batch_watermark(snapshot, planned)
            >= posts[i].id,
        batch_watermark(snapshot, planned) == snapshot || exists|i: int|
            0 <= i < posts.len() && #[trigger] posts[i].id == batch_watermark(snapshot, planned),
{
    broadcast use vstd::seq_lib::group_to_multiset_ensures;
    broadcast use vstd::seq_lib::group_filter_ensures;
    broadcast use vstd::multiset::group_multiset_axioms;

    let pred = |p: Post| p.id > snapshot;
    let bw = batch_watermark(snapshot, planned);
    lemma_batch_watermark_bounds(snapshot, planned);
    assert forall|i: int| 0 <= i < posts.len() implies bw >= posts[i].id by {
        if posts[i].id > snapshot {
            assert(pred(posts[i]));
            assert(posts.filter(pred).contains(posts[i]));
            assert(planned.to_multiset().count(posts[i]) > 0);
            assert(planned.contains(posts[i]));
            let j = choose|j: int| 0 <= j < planned.len() && planned[j] == posts[i];
            assert(bw >= planned[j].id);
        }
    }
    if bw != snapshot {
        let j = choose|j: int| 0 <= j < planned.len() && #[trigger] planned[j].id == bw;
        assert(planned.contains(planned[j]));
        assert(planned.to_multiset().count(planned[j]) > 0);
        assert(new_posts(snapshot, posts).to_multiset().count(planned[j]) > 0);
        assert(new_posts(snapshot, posts).contains(planned[j]));
        lemma_filter_sub_contains(posts, pred, planned[j]);
        let i = choose|i: int| 0 <= i < posts.len() && posts[i] == planned[j];
        assert(posts[i].id == bw);
    }
}

/// A post at or below the watermark snapshot never enters the plan: it is
/// neither dispatched nor examined again.
pub proof fn lemma_stale_posts_excluded(snapshot: u64, posts: Seq<Post>, planned: Seq<Post>)
    requires
        planned.to_multiset() == new_posts(snapshot, posts).to_multiset(),
    ensures
        forall|p: Post| #[trigger] planned.contains(p) ==> p.id > snapshot,
        forall|p: Post| posts.contains(p) && p.id <= snapshot ==> !(#[trigger] planned.contains(
            p,
        )),
{
    broadcast use vstd::seq_lib::group_to_multiset_ensures;
    broadcast use vstd::seq_lib::group_filter_ensures;
    broadcast use vstd::multiset::group_multiset_axioms;

    let pred = |p: Post| p.id > snapshot;
    assert forall|p: Post| #[trigger] planned.contains(p) implies p.id > snapshot by {
        assert(planned.to_multiset().count(p) > 0);
        assert(new_posts(snapshot, posts).contains(p));
        let i = choose|i: int|
            0 <= i < new_posts(snapshot, posts).len() && new_posts(snapshot, posts)[i] == p;
        assert(pred(new_posts(snapshot, posts)[i]));
    }
}

} // verus!
