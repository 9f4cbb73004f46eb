//! The comments on a package, laid out as one text.

use vstd::prelude::*;
use vstd::string::*;
use crate::date::{utc_date, utc_day};
use crate::text::{join, spec_join, spec_trim, texts, trim};

verus! {

/// A comment on a package.
#[derive(Debug)]
pub struct Comment {
    /// When the comment was written, in seconds since 1970 in universal
    /// time.
    pub date: i64,
    pub msg: String,
    pub user: String,
}

/// The mathematical value of a [`Comment`].
pub ghost struct CommentModel {
    pub date: int,
    pub msg: Seq<char>,
    pub user: Seq<char>,
}

impl View for Comment {
    type V = CommentModel;

    open spec fn view(&self) -> CommentModel {
        CommentModel { date: self.date as int, msg: self.msg@, user: self.user@ }
    }
}

/// The values of a list of comments, in order.
pub open spec fn comments_view(list: Seq<Comment>) -> Seq<CommentModel> {
    Seq::new(list.len(), |i: int| list[i]@)
}

/// What stands between two comments.
pub open spec fn separator() -> Seq<char> {
    "\n\n  --------------------\n\n"@
}

/// A comment, laid out: the day and the author as headings, a blank line,
/// and the message without white space around it.
pub open spec fn spec_comment_text(day: Seq<char>, user: Seq<char>, msg: Seq<char>) -> Seq<char> {
    "# Date: "@ + day + "\n# Author: "@ + user + "\n\n"@ + spec_trim(msg)
}

/// The index of the first comment at or after `from` whose day the
/// calendar does not reach, or the number of comments.
pub open spec fn first_undated(comments: Seq<CommentModel>, from: int) -> int
    decreases comments.len() - from,
{
    if from < 0 || from >= comments.len() {
        comments.len() as int
    } else if utc_date(comments[from].date) is None {
        from
    } else {
        first_undated(comments, from + 1)
    }
}

/// The comments, each laid out.
pub open spec fn comment_texts(comments: Seq<CommentModel>) -> Seq<Seq<char>> {
    Seq::new(
        comments.len(),
        |i: int| spec_comment_text(utc_date(comments[i].date)->0, comments[i].user, comments[i].msg),
    )
}

/// Lays out one comment that was written on `day`.
pub fn comment_text(day: &str, user: &str, msg: &str) -> (r: String)
    ensures
        r@ == spec_comment_text(day@, user@, msg@),
{
    "# Date: ".to_owned().concat(day).concat("\n# Author: ").concat(user).concat("\n\n").concat(
        trim(msg).as_str(),
    )
}

/// Lays out the comments on a package as one text, with a rule between
/// two comments.
///
/// The result is the index of a comment instead where its day is beyond
/// the calendar: the first such comment.
pub fn list_comments(comments: &Vec<Comment>) -> (r: Result<String, usize>)
    ensures
        match r {
            Ok(text) => first_undated(comments_view(comments@), 0) == comments.len() && text@
                == spec_join(comment_texts(comments_view(comments@)), separator()),
            Err(at) => at < comments.len() && first_undated(comments_view(comments@), 0) == at,
        },
{
    let ghost all = comments_view(comments@);
    let mut laid_out: Vec<String> = Vec::new();
    let mut i: usize = 0;
    while i < comments.len()
        invariant
            i <= comments.len(),
            all == comments_view(comments@),
            laid_out.len() == i,
            first_undated(all, 0) == first_undated(all, i as int),
            forall|k: int| 0 <= k < i ==> (#[trigger] laid_out@[k])@ == comment_texts(all)[k],
        decreases comments.len() - i,
    {
        let comment = &comments[i];
        assert(all[i as int] == comment@);
        match utc_day(comment.date) {
            None => {
                return Err(i);
            },
            Some(day) => {
                laid_out.push(
                    comment_text(day.as_str(), comment.user.as_str(), comment.msg.as_str()),
                );
            },
        }
        i += 1;
    }
    assert(texts(laid_out@) =~= comment_texts(all));
    Ok(join(&laid_out, "\n\n  --------------------\n\n"))
}

} // verus!
