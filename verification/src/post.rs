//! Posts as they come in, the viewer's context, and parsed posts.

use crate::spannable::{spannable_text, Spannable, SpannableView};
use std::collections::HashSet;
use vstd::prelude::*;
use vstd::string::StringExecFns;

verus! {

broadcast use vstd::std_specs::hash::group_hash_axioms;

/// Names a site.
#[derive(Debug, Eq, PartialEq)]
pub struct SiteDescriptor {
    pub site_name: String,
}

/// Names a board of a site.
#[derive(Debug, Eq, PartialEq)]
pub struct BoardDescriptor {
    pub site_descriptor: SiteDescriptor,
    pub board_code: String,
}

/// Names a thread of a board by the number of its original post.
#[derive(Debug, Eq, PartialEq)]
pub struct ThreadDescriptor {
    pub board_descriptor: BoardDescriptor,
    pub thread_no: u64,
}

/// Names a post of a thread.
#[derive(Debug, Eq, PartialEq)]
pub struct PostDescriptor {
    pub thread_descriptor: ThreadDescriptor,
    pub post_no: u64,
    pub post_sub_no: u64,
}

/// A post as the site gives it: its identity and its comment, an HTML
/// fragment.
#[derive(Debug)]
pub struct PostRaw {
    pub post_descriptor: PostDescriptor,
    pub com: String,
}

impl PostRaw {
    /// The name of the post's site.
    pub fn site_name(&self) -> (name: &String)
        ensures
            name == self.post_descriptor.thread_descriptor.board_descriptor.site_descriptor.site_name,
    {
        &self.post_descriptor.thread_descriptor.board_descriptor.site_descriptor.site_name
    }

    /// The code of the post's board.
    pub fn board_code(&self) -> (code: &String)
        ensures
            code == self.post_descriptor.thread_descriptor.board_descriptor.board_code,
    {
        &self.post_descriptor.thread_descriptor.board_descriptor.board_code
    }

    /// The number of the thread's original post.
    pub fn thread_no(&self) -> (no: u64)
        ensures
            no == self.post_descriptor.thread_descriptor.thread_no,
    {
        self.post_descriptor.thread_descriptor.thread_no
    }

    /// The number of the post.
    pub fn post_no(&self) -> (no: u64)
        ensures
            no == self.post_descriptor.post_no,
    {
        self.post_descriptor.post_no
    }

    /// The sub-number of the post.
    pub fn post_sub_no(&self) -> (no: u64)
        ensures
            no == self.post_descriptor.post_sub_no,
    {
        self.post_descriptor.post_sub_no
    }

    /// Whether `quote_post_id` is the original post of this post's thread.
    pub fn is_quoting_original_post(&self, quote_post_id: u64) -> (original: bool)
        ensures
            original == (self.post_descriptor.thread_descriptor.thread_no == quote_post_id),
    {
        self.thread_no() == quote_post_id
    }

    /// A post with the given identity and comment.
    pub fn new(
        site_name: &str,
        board_code: &str,
        thread_no: u64,
        post_no: u64,
        post_sub_no: u64,
        raw_comment: &str,
    ) -> (post: PostRaw)
        ensures
            post.post_descriptor.thread_descriptor.board_descriptor.site_descriptor.site_name@
                == site_name@,
            post.post_descriptor.thread_descriptor.board_descriptor.board_code@ == board_code@,
            post.post_descriptor.thread_descriptor.thread_no == thread_no,
            post.post_descriptor.post_no == post_no,
            post.post_descriptor.post_sub_no == post_sub_no,
            post.com@ == raw_comment@,
    {
        let thread_descriptor = ThreadDescriptor {
            board_descriptor: BoardDescriptor {
                site_descriptor: SiteDescriptor { site_name: String::from_str(site_name) },
                board_code: String::from_str(board_code),
            },
            thread_no,
        };
        PostRaw {
            post_descriptor: PostDescriptor { thread_descriptor, post_no, post_sub_no },
            com: String::from_str(raw_comment),
        }
    }
}

/// The posts of a thread as the site gives them.
#[derive(Debug)]
pub struct ThreadRaw {
    pub posts: Vec<PostRaw>,
}

/// What the viewer knows of a thread: the number of its original post, if
/// the context was made with it; which posts the viewer wrote or was answered
/// in; and which posts are held locally.
#[derive(Debug)]
pub struct PostParserContext {
    thread_id: Option<u64>,
    my_replies: HashSet<u64>,
    thread_posts: HashSet<u64>,
}

impl PostParserContext {
    /// The posts of the viewer.
    pub closed spec fn my_replies(&self) -> Set<u64> {
        self.my_replies@
    }

    /// The posts that are held locally.
    pub closed spec fn thread_posts(&self) -> Set<u64> {
        self.thread_posts@
    }

    /// The number of the thread's original post, if the context holds it.
    pub closed spec fn original_post(&self) -> Option<u64> {
        self.thread_id
    }

    /// A context with the given sets of post numbers. It holds no number of
    /// an original post: the thread of the post that is rendered decides
    /// which post that is.
    pub fn new(my_replies: HashSet<u64>, thread_posts: HashSet<u64>) -> (context:
        PostParserContext)
        ensures
            context.original_post() is None,
            context.my_replies() == my_replies@,
            context.thread_posts() == thread_posts@,
    {
        PostParserContext { thread_id: None, my_replies, thread_posts }
    }

    /// A context for the thread whose original post is `thread_id`, with the
    /// given sets of post numbers.
    pub fn for_thread(thread_id: u64, my_replies: HashSet<u64>, thread_posts: HashSet<u64>) -> (
        context: PostParserContext)
        ensures
            context.original_post() == Some(thread_id),
            context.my_replies() == my_replies@,
            context.thread_posts() == thread_posts@,
    {
        PostParserContext { thread_id: Some(thread_id), my_replies, thread_posts }
    }

    /// The number of the thread's original post, if the context holds it.
    pub fn thread_id(&self) -> (thread_id: Option<u64>)
        ensures
            thread_id == self.original_post(),
    {
        self.thread_id
    }

    /// Whether the quoted post is the original post of the context's thread.
    pub fn is_quoting_original_post(&self, quote_post_id: u64) -> (original: bool)
        ensures
            original == (self.original_post() == Some(quote_post_id)),
    {
        match self.thread_id {
            Some(thread_id) => thread_id == quote_post_id,
            None => false,
        }
    }

    /// Whether the quoted post is held locally.
    pub fn is_internal_thread_post(&self, quote_post_id: u64) -> (known: bool)
        ensures
            known == self.thread_posts().contains(quote_post_id),
    {
        self.thread_posts.contains(&quote_post_id)
    }

    /// Whether the quoted post is one of the viewer's.
    pub fn is_reply_to_my_post(&self, quote_post_id: u64) -> (mine: bool)
        ensures
            mine == self.my_replies().contains(quote_post_id),
    {
        self.my_replies.contains(&quote_post_id)
    }

    /// Whether the quoting post and the quoted post are both the viewer's.
    pub fn is_my_reply_to_my_own_post(&self, source_post_id: u64, quote_post_id: u64) -> (mine:
        bool)
        ensures
            mine == (self.my_replies().contains(source_post_id) && self.my_replies().contains(
                quote_post_id,
            )),
    {
        self.my_replies.contains(&source_post_id) && self.my_replies.contains(&quote_post_id)
    }
}

/// The rendered comment: the text as it came in, the plain text, and the
/// annotations over the plain text.
pub struct ParsedSpannableText {
    pub original_text: String,
    pub parsed_text: Box<String>,
    pub spannables: Box<Vec<Spannable>>,
}

/// The values of a sequence of annotations.
pub open spec fn spannables_view(spannables: Seq<Spannable>) -> Seq<SpannableView> {
    spannables.map_values(|s: Spannable| s@)
}

impl ParsedSpannableText {
    /// A rendered comment made of the given parts.
    pub fn new(comment_raw: &str, comment_text: Box<String>, spannables: Box<Vec<Spannable>>) -> (
        parsed: ParsedSpannableText)
        ensures
            parsed.original_text@ == comment_raw@,
            parsed.parsed_text == comment_text,
            parsed.spannables == spannables,
    {
        ParsedSpannableText {
            original_text: String::from_str(comment_raw),
            parsed_text: comment_text,
            spannables,
        }
    }

    /// The rendering of an empty comment.
    pub fn empty() -> (parsed: ParsedSpannableText)
        ensures
            parsed.original_text@.len() == 0,
            parsed.parsed_text@.len() == 0,
            parsed.spannables@.len() == 0,
    {
        ParsedSpannableText {
            original_text: String::new(),
            parsed_text: Box::new(String::new()),
            spannables: Box::new(Vec::new()),
        }
    }
}

/// The annotations as a rendered comment lists them: `, spannable: ` and
/// the text of each.
pub open spec fn spannables_text(spannables: Seq<SpannableView>) -> Seq<char>
    decreases spannables.len(),
{
    if spannables.len() == 0 {
        Seq::empty()
    } else {
        spannables_text(spannables.drop_last()) + ", spannable: "@ + spannable_text(
            spannables.last(),
        )
    }
}

/// The text that shows a rendered comment: its text and its annotations.
pub open spec fn parsed_text_shown(text: Seq<char>, spannables: Seq<SpannableView>) -> Seq<char> {
    "ParsedSpannableText(comment_text: "@ + text + spannables_text(spannables) + ")"@
}

impl ParsedSpannableText {
    /// The text that shows the rendered comment.
    pub fn to_string(&self) -> (text: String)
        ensures
            text@ == parsed_text_shown(self.parsed_text@, spannables_view(self.spannables@)),
    {
        let mut text = String::from_str("ParsedSpannableText(comment_text: ");
        text.append(self.parsed_text.as_str());
        let ghost head = text@;
        let ghost all = spannables_view(self.spannables@);
        let mut i: usize = 0;
        assert(all.take(0) == Seq::<SpannableView>::empty());
        assert(head + Seq::<char>::empty() == head);
        while i < self.spannables.len()
            invariant
                i <= self.spannables@.len(),
                all == spannables_view(self.spannables@),
                text@ == head + spannables_text(all.take(i as int)),
            decreases self.spannables@.len() - i,
        {
            let ghost done = spannables_text(all.take(i as int));
            proof {
                assert(all.take(i + 1).drop_last() == all.take(i as int));
                assert(all.take(i + 1).last() == self.spannables@[i as int]@);
            }
            text.append(", spannable: ");
            text.append(self.spannables[i].to_string().as_str());
            assert(text@ == head + (done + ", spannable: "@ + spannable_text(
                self.spannables@[i as int]@,
            )));
            i += 1;
        }
        assert(all.take(all.len() as int) == all);
        text.append(")");
        text
    }
}

/// A post with its rendered comment.
pub struct ParsedPost {
    pub site_name: String,
    pub board_code: String,
    pub thread_no: u64,
    pub post_no: u64,
    pub post_sub_no: u64,
    pub post_comment_parsed: ParsedSpannableText,
}

impl ParsedPost {
    /// The text that shows the post: that of its rendered comment.
    pub fn to_string(&self) -> (text: String)
        ensures
            text@ == "ParsedPost(post_comment_parsed: "@ + parsed_text_shown(
                self.post_comment_parsed.parsed_text@,
                spannables_view(self.post_comment_parsed.spannables@),
            ) + ")"@,
    {
        let mut text = String::from_str("ParsedPost(post_comment_parsed: ");
        text.append(self.post_comment_parsed.to_string().as_str());
        text.append(")");
        text
    }

    /// The post `post_raw` with the rendering of its comment.
    pub fn new(post_raw: &PostRaw, post_comment_parsed: ParsedSpannableText) -> (post: ParsedPost)
        ensures
            post.site_name@
                == post_raw.post_descriptor.thread_descriptor.board_descriptor.site_descriptor.site_name@,
            post.board_code@
                == post_raw.post_descriptor.thread_descriptor.board_descriptor.board_code@,
            post.thread_no == post_raw.post_descriptor.thread_descriptor.thread_no,
            post.post_no == post_raw.post_descriptor.post_no,
            post.post_sub_no == post_raw.post_descriptor.post_sub_no,
            post.post_comment_parsed == post_comment_parsed,
    {
        ParsedPost {
            site_name: post_raw.site_name().clone(),
            board_code: post_raw.board_code().clone(),
            thread_no: post_raw.thread_no(),
            post_no: post_raw.post_no(),
            post_sub_no: post_raw.post_sub_no(),
            post_comment_parsed,
        }
    }
}

} // verus!
