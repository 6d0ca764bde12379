//! Comments, and where they stand relative to the declaration they belong
//! to.

use crate::text::push_text;
use vstd::prelude::*;

verus! {

/// Where a comment stands: on lines of its own before a declaration, or
/// behind the declaration on the same line.
#[derive(Clone, Debug, PartialEq)]
pub enum Kind<T> {
    /// Before the declaration, on a line of its own.
    Pre(T),
    /// Behind the declaration, on the same line.
    Post(T),
}

/// One comment: its text, without the `#`.
pub type Comment = Kind<String>;

impl<T: View> View for Kind<T> {
    type V = Kind<T::V>;

    open spec fn view(&self) -> Kind<T::V> {
        match *self {
            Kind::Pre(t) => Kind::Pre(t@),
            Kind::Post(t) => Kind::Post(t@),
        }
    }
}

impl<T> Kind<T> {
    /// What the comment holds.
    pub open spec fn spec_inner(self) -> T {
        match self {
            Kind::Pre(t) => t,
            Kind::Post(t) => t,
        }
    }

    /// Does it stand before the declaration?
    pub fn is_pre(&self) -> (pre: bool)
        ensures
            pre == (*self is Pre),
    {
        match self {
            Kind::Pre(_) => true,
            Kind::Post(_) => false,
        }
    }

    /// Does it stand behind the declaration?
    pub fn is_post(&self) -> (post: bool)
        ensures
            post == (*self is Post),
    {
        match self {
            Kind::Pre(_) => false,
            Kind::Post(_) => true,
        }
    }
}

/// The line of one comment: `#` and its text.
pub open spec fn comment_text(comment: Kind<Seq<char>>) -> Seq<char> {
    seq!['#'] + comment.spec_inner()
}

/// The texts of the comments that stand before the declaration, in order.
pub open spec fn pre_texts(comments: Seq<Kind<Seq<char>>>) -> Seq<Seq<char>>
    decreases comments.len(),
{
    if comments.len() == 0 {
        Seq::empty()
    } else {
        let rest = pre_texts(comments.drop_last());
        match comments.last() {
            Kind::Pre(text) => rest.push(text),
            Kind::Post(_) => rest,
        }
    }
}

/// The texts of the comments that stand behind the declaration, in order.
pub open spec fn post_texts(comments: Seq<Kind<Seq<char>>>) -> Seq<Seq<char>>
    decreases comments.len(),
{
    if comments.len() == 0 {
        Seq::empty()
    } else {
        let rest = post_texts(comments.drop_last());
        match comments.last() {
            Kind::Pre(_) => rest,
            Kind::Post(text) => rest.push(text),
        }
    }
}

/// The lines before a declaration: each comment on a line of its own, `#`
/// first.
pub open spec fn pre_block(texts: Seq<Seq<char>>) -> Seq<char>
    decreases texts.len(),
{
    if texts.len() == 0 {
        Seq::empty()
    } else {
        pre_block(texts.drop_last()) + seq!['#'] + texts.last() + seq!['\n']
    }
}

/// The comments joined by single spaces.
pub open spec fn spaced(texts: Seq<Seq<char>>) -> Seq<char>
    decreases texts.len(),
{
    if texts.len() == 0 {
        Seq::empty()
    } else if texts.len() == 1 {
        texts[0]
    } else {
        spaced(texts.drop_last()) + seq![' '] + texts.last()
    }
}

/// What trails a declaration on its line: nothing where there is no comment,
/// else a space, `#`, and the comments joined by single spaces.
pub open spec fn post_block(texts: Seq<Seq<char>>) -> Seq<char> {
    if texts.len() == 0 {
        Seq::empty()
    } else {
        seq![' ', '#'] + spaced(texts)
    }
}

/// What a group of comments of one kind shows as: [`pre_block`] or
/// [`post_block`].
pub open spec fn block_text(block: Kind<Seq<Seq<char>>>) -> Seq<char> {
    match block {
        Kind::Pre(texts) => pre_block(texts),
        Kind::Post(texts) => post_block(texts),
    }
}

/// The texts of a list of borrowed strings.
pub open spec fn strs_view(texts: Seq<&str>) -> Seq<Seq<char>> {
    texts.map_values(|s: &str| s@)
}

/// The views of a list of comments.
pub open spec fn comments_view(comments: Seq<Comment>) -> Seq<Kind<Seq<char>>> {
    comments.map_values(|c: Comment| c@)
}

impl Kind<String> {
    /// The line of the comment: `#` and its text.
    pub fn to_string(&self) -> (text: String)
        ensures
            text@ == comment_text(self@),
    {
        let mut text = String::new();
        text.push('#');
        match self {
            Kind::Pre(comment) => push_text(&mut text, comment.as_str()),
            Kind::Post(comment) => push_text(&mut text, comment.as_str()),
        }
        text
    }
}

impl<'a> Kind<Vec<&'a str>> {
    /// The comments as they show around a declaration.
    pub fn to_string(&self) -> (text: String)
        ensures
            text@ == block_text(
                match *self {
                    Kind::Pre(texts) => Kind::Pre(strs_view(texts@)),
                    Kind::Post(texts) => Kind::Post(strs_view(texts@)),
                },
            ),
    {
        let mut text = String::new();
        match self {
            Kind::Pre(comments) => {
                let mut i: usize = 0;
                while i < comments.len()
                    invariant
                        i <= comments@.len(),
                        text@ == pre_block(strs_view(comments@).take(i as int)),
                    decreases comments@.len() - i,
                {
                    proof {
                        let after = strs_view(comments@).take(i + 1);
                        assert(after.drop_last() == strs_view(comments@).take(i as int));
                        assert(after.last() == comments@[i as int]@);
                    }
                    text.push('#');
                    push_text(&mut text, comments[i]);
                    text.push('\n');
                    i += 1;
                }
                proof {
                    assert(strs_view(comments@).take(comments@.len() as int) == strs_view(
                        comments@,
                    ));
                }
            },
            Kind::Post(comments) => {
                if comments.len() > 0 {
                    text.push(' ');
                    text.push('#');
                    let mut i: usize = 0;
                    while i < comments.len()
                        invariant
                            i <= comments@.len(),
                            text@ == seq![' ', '#'] + spaced(strs_view(comments@).take(i as int)),
                        decreases comments@.len() - i,
                    {
                        proof {
                            let after = strs_view(comments@).take(i + 1);
                            assert(after.drop_last() == strs_view(comments@).take(i as int));
                            assert(after.last() == comments@[i as int]@);
                        }
                        if i > 0 {
                            text.push(' ');
                        }
                        push_text(&mut text, comments[i]);
                        i += 1;
                    }
                    proof {
                        assert(strs_view(comments@).take(comments@.len() as int) == strs_view(
                            comments@,
                        ));
                    }
                }
            },
        }
        text
    }
}

/// The comments of one declaration, in the order in which they stand in the
/// text.
#[derive(Clone, Debug, PartialEq)]
pub struct Comments(pub Vec<Comment>);

impl View for Comments {
    type V = Seq<Kind<Seq<char>>>;

    open spec fn view(&self) -> Seq<Kind<Seq<char>>> {
        comments_view(self.0@)
    }
}

impl Default for Comments {
    fn default() -> (comments: Comments)
        ensures
            comments@ == Seq::<Kind<Seq<char>>>::empty(),
    {
        Comments::new()
    }
}

impl Comments {
    /// No comments.
    pub fn new() -> (comments: Comments)
        ensures
            comments@ == Seq::<Kind<Seq<char>>>::empty(),
    {
        Comments(Vec::new())
    }

    /// How many comments there are.
    pub fn len(&self) -> (n: usize)
        ensures
            n == self@.len(),
    {
        self.0.len()
    }

    /// Is there no comment?
    pub fn is_empty(&self) -> (empty: bool)
        ensures
            empty == (self@.len() == 0),
    {
        self.0.len() == 0
    }

    /// Adds a comment behind the others.
    pub fn push(&mut self, comment: Comment)
        ensures
            final(self)@ == old(self)@.push(comment@),
    {
        self.0.push(comment);
        proof {
            assert(comments_view(self.0@) == comments_view(old(self).0@).push(comment@));
        }
    }

    /// Adds the comment behind the others, if there is one.
    pub fn maybe_push(&mut self, comment: Option<Comment>)
        ensures
            final(self)@ == match comment {
                Some(c) => old(self)@.push(c@),
                None => old(self)@,
            },
    {
        if let Some(comment) = comment {
            self.push(comment);
        }
    }

    /// Moves the comments of `other` behind those of `self`, and leaves
    /// `other` empty.
    pub fn append(&mut self, other: &mut Comments)
        ensures
            final(self)@ == old(self)@ + old(other)@,
            final(other)@ == Seq::<Kind<Seq<char>>>::empty(),
    {
        self.0.append(&mut other.0);
        proof {
            assert(comments_view(self.0@) == comments_view(old(self).0@) + comments_view(
                old(other).0@,
            ));
        }
    }

    /// The comments that stand before the declaration.
    pub fn pre(&self) -> (block: Kind<Vec<&str>>)
        ensures
            block matches Kind::Pre(texts) && strs_view(texts@) == pre_texts(self@),
    {
        let mut texts: Vec<&str> = Vec::new();
        let mut i: usize = 0;
        while i < self.0.len()
            invariant
                i <= self.0@.len(),
                strs_view(texts@) == pre_texts(self@.take(i as int)),
            decreases self.0@.len() - i,
        {
            proof {
                let after = self@.take(i + 1);
                assert(after.drop_last() == self@.take(i as int));
                assert(after.last() == self.0@[i as int]@);
            }
            let ghost before = texts@;
            match &self.0[i] {
                Kind::Pre(comment) => {
                    texts.push(comment.as_str());
                    proof {
                        assert(strs_view(texts@) == strs_view(before).push(comment@));
                    }
                },
                Kind::Post(_) => {},
            }
            i += 1;
        }
        proof {
            assert(self@.take(self@.len() as int) == self@);
        }
        Kind::Pre(texts)
    }

    /// The comments that stand behind the declaration.
    pub fn post(&self) -> (block: Kind<Vec<&str>>)
        ensures
            block matches Kind::Post(texts) && strs_view(texts@) == post_texts(self@),
    {
        let mut texts: Vec<&str> = Vec::new();
        let mut i: usize = 0;
        while i < self.0.len()
            invariant
                i <= self.0@.len(),
                strs_view(texts@) == post_texts(self@.take(i as int)),
            decreases self.0@.len() - i,
        {
            proof {
                let after = self@.take(i + 1);
                assert(after.drop_last() == self@.take(i as int));
                assert(after.last() == self.0@[i as int]@);
            }
            let ghost before = texts@;
            match &self.0[i] {
                Kind::Pre(_) => {},
                Kind::Post(comment) => {
                    texts.push(comment.as_str());
                    proof {
                        assert(strs_view(texts@) == strs_view(before).push(comment@));
                    }
                },
            }
            i += 1;
        }
        proof {
            assert(self@.take(self@.len() as int) == self@);
        }
        Kind::Post(texts)
    }
}

/// The lines that the comments before a declaration take.
pub open spec fn pre_lines(comments: Seq<Kind<Seq<char>>>) -> Seq<char> {
    pre_block(pre_texts(comments))
}

/// What the comments behind a declaration add to its line.
pub open spec fn post_tail(comments: Seq<Kind<Seq<char>>>) -> Seq<char> {
    post_block(post_texts(comments))
}

/// Appends the lines of the comments that stand before a declaration.
pub fn push_pre(out: &mut String, comments: &Comments)
    ensures
        final(out)@ == old(out)@ + pre_lines(comments@),
{
    let text = comments.pre().to_string();
    push_text(out, text.as_str());
}

/// Appends what the comments behind a declaration add to its line.
pub fn push_post(out: &mut String, comments: &Comments)
    ensures
        final(out)@ == old(out)@ + post_tail(comments@),
{
    let text = comments.post().to_string();
    push_text(out, text.as_str());
}

} // verus!
