//! The feed's data model.
//!
//! A `Post` is an immutable feed item. A reshare wraps the original post it
//! passes on; the original is a separate, flat record, so a reshare can never
//! wrap another reshare. `TweetView` is the flattened projection the renderer
//! works from: for a reshare it shows the original's fields and remembers who
//! reshared it.

use vstd::prelude::*;

verus! {

/// Ghost model of an original (non-reshare) post.
pub ghost struct OriginalPostView {
    pub id: Seq<char>,
    pub author: Seq<char>,
    pub text: Seq<char>,
    pub like_count: u64,
    pub reshare_count: u64,
}

/// Ghost model of a feed item.
pub ghost struct PostView {
    pub id: Seq<char>,
    pub author: Seq<char>,
    pub text: Seq<char>,
    pub like_count: u64,
    pub reshare_count: u64,
    pub reshared_from: Option<OriginalPostView>,
}

/// An original post carried inside a reshare.
pub struct OriginalPost {
    pub id: String,
    pub author: String,
    pub text: String,
    pub like_count: u64,
    pub reshare_count: u64,
}

/// One feed item, newest-first in every list this crate keeps.
///
/// `id` is platform-assigned, unique across the feed and numeric-compatible,
/// so the newest id doubles as the refresh cursor.
pub struct Post {
    pub id: String,
    pub author: String,
    pub text: String,
    pub like_count: u64,
    pub reshare_count: u64,
    pub reshared_from: Option<OriginalPost>,
}

impl View for OriginalPost {
    type V = OriginalPostView;

    open spec fn view(&self) -> OriginalPostView {
        OriginalPostView {
            id: self.id@,
            author: self.author@,
            text: self.text@,
            like_count: self.like_count,
            reshare_count: self.reshare_count,
        }
    }
}

impl DeepView for OriginalPost {
    type V = OriginalPostView;

    open spec fn deep_view(&self) -> OriginalPostView {
        self.view()
    }
}

impl View for Post {
    type V = PostView;

    open spec fn view(&self) -> PostView {
        PostView {
            id: self.id@,
            author: self.author@,
            text: self.text@,
            like_count: self.like_count,
            reshare_count: self.reshare_count,
            reshared_from: match self.reshared_from {
                Some(orig) => Some(orig@),
                None => None,
            },
        }
    }
}

impl DeepView for Post {
    type V = PostView;

    open spec fn deep_view(&self) -> PostView {
        self.view()
    }
}

impl Clone for OriginalPost {
    fn clone(&self) -> (res: Self)
        ensures
            res@ == self@,
    {
        OriginalPost {
            id: self.id.clone(),
            author: self.author.clone(),
            text: self.text.clone(),
            like_count: self.like_count,
            reshare_count: self.reshare_count,
        }
    }
}

impl Clone for Post {
    fn clone(&self) -> (res: Self)
        ensures
            res@ == self@,
    {
        Post {
            id: self.id.clone(),
            author: self.author.clone(),
            text: self.text.clone(),
            like_count: self.like_count,
            reshare_count: self.reshare_count,
            reshared_from: match &self.reshared_from {
                Some(orig) => Some(orig.clone()),
                None => None,
            },
        }
    }
}

/// Copies a post list; the copy has the same model.
pub fn clone_posts(v: &Vec<Post>) -> (r: Vec<Post>)
    ensures
        r.deep_view() == v.deep_view(),
{
    let mut r: Vec<Post> = Vec::new();
    let mut i: usize = 0;
    while i < v.len()
        invariant
            i <= v.len(),
            r.deep_view() =~= v.deep_view().take(i as int),
        decreases v.len() - i,
    {
        let p = v[i].clone();
        let ghost prev = r.deep_view();
        r.push(p);
        proof {
            assert(r.deep_view() =~= prev.push(p@));
            assert(v.deep_view().take(i + 1) =~= prev.push(p@));
        }
        i = i + 1;
    }
    proof {
        assert(v.deep_view().take(v.len() as int) =~= v.deep_view());
    }
    r
}

/// The flattened record the renderer displays: a reshare shows the original
/// post's fields, together with who reshared it.
pub struct TweetView {
    pub id: String,
    pub user_name: String,
    pub retweet_user_name: Option<String>,
    pub tweet: String,
    pub retweet_count: u64,
    pub favorite_count: u64,
}

/// Ghost model of a display record.
pub ghost struct TweetViewModel {
    pub id: Seq<char>,
    pub user_name: Seq<char>,
    pub retweet_user_name: Option<Seq<char>>,
    pub tweet: Seq<char>,
    pub retweet_count: u64,
    pub favorite_count: u64,
}

impl View for TweetView {
    type V = TweetViewModel;

    open spec fn view(&self) -> TweetViewModel {
        TweetViewModel {
            id: self.id@,
            user_name: self.user_name@,
            retweet_user_name: match self.retweet_user_name {
                Some(u) => Some(u@),
                None => None,
            },
            tweet: self.tweet@,
            retweet_count: self.retweet_count,
            favorite_count: self.favorite_count,
        }
    }
}

/// What the renderer shows of one post: a reshare contributes the original's
/// fields and names the resharing author.
pub open spec fn project(p: PostView) -> TweetViewModel {
    match p.reshared_from {
        Some(orig) => TweetViewModel {
            id: orig.id,
            user_name: orig.author,
            retweet_user_name: Some(p.author),
            tweet: orig.text,
            retweet_count: orig.reshare_count,
            favorite_count: orig.like_count,
        },
        None => TweetViewModel {
            id: p.id,
            user_name: p.author,
            retweet_user_name: None,
            tweet: p.text,
            retweet_count: p.reshare_count,
            favorite_count: p.like_count,
        },
    }
}

impl TweetView {
    /// Flattens one post for display.
    pub fn from_post(p: &Post) -> (v: TweetView)
        ensures
            v@ == project(p@),
    {
        match &p.reshared_from {
            Some(orig) => TweetView {
                id: orig.id.clone(),
                user_name: orig.author.clone(),
                retweet_user_name: Some(p.author.clone()),
                tweet: orig.text.clone(),
                retweet_count: orig.reshare_count,
                favorite_count: orig.like_count,
            },
            None => TweetView {
                id: p.id.clone(),
                user_name: p.author.clone(),
                retweet_user_name: None,
                tweet: p.text.clone(),
                retweet_count: p.reshare_count,
                favorite_count: p.like_count,
            },
        }
    }
}

} // verus!
