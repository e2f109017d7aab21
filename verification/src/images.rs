//! Images as listed to the user.
use vstd::prelude::*;
use crate::text::{
    join, lemma_split_join, lemma_split_nonempty, prefix, prefix_string, remove_all, remove_all_string, signed_decimal,
    signed_decimal_string, split, split_string, views,
};

verus! {

/// An image as the daemon lists it.
pub struct ImageSummary {
    pub id: String,
    pub repo_tags: Vec<String>,
    /// Creation time, in seconds since the Unix epoch.
    pub created: i64,
}

/// An image as shown to the user.
pub struct ImageInfo {
    pub id: String,
    pub repository: String,
    pub tag: String,
    pub size: String,
    /// The creation time in seconds, as decimal text.
    pub created: String,
    /// The creation time as a local date and time.
    pub created_at: String,
}

/// The short id of an image: its id without "sha256:", cut to twelve characters.
pub open spec fn short_image_id(id: Seq<char>) -> Seq<char> {
    prefix(remove_all(id, "sha256:"@), 12)
}

/// The first repository tag of an image, "none:none" when it has none.
pub open spec fn first_repo_tag(tags: Seq<String>) -> Seq<char> {
    if tags.len() > 0 {
        tags[0]@
    } else {
        "none:none"@
    }
}

/// The repository part of a tag: the text before its first ':'.
pub open spec fn repository_of(repo_tag: Seq<char>) -> Seq<char> {
    split(repo_tag, ':')[0]
}

/// The tag part: the text between its first and second ':', "none" when
/// there is no ':'.
pub open spec fn tag_of(repo_tag: Seq<char>) -> Seq<char> {
    if split(repo_tag, ':').len() > 1 {
        split(repo_tag, ':')[1]
    } else {
        "none"@
    }
}

/// The short id of an image.
pub fn short_id(id: &str) -> (r: String)
    ensures
        r@ == short_image_id(id@),
{
    let without = remove_all_string(id, "sha256:");
    prefix_string(without.as_str(), 12)
}

/// A listed image as shown to the user, with its size already written out
/// and its creation time as a local date and time when one could be given
/// ("unknown" otherwise).
pub fn image_info(image: &ImageSummary, size: String, created_at: Option<String>) -> (info: ImageInfo)
    ensures
        info.id@ == short_image_id(image.id@),
        info.repository@ == repository_of(first_repo_tag(image.repo_tags@)),
        info.tag@ == tag_of(first_repo_tag(image.repo_tags@)),
        info.size == size,
        info.created@ == signed_decimal(image.created as int),
        info.created_at@ == match created_at {
            Some(t) => t@,
            None => "unknown"@,
        },
{
    let repo_tag = if image.repo_tags.len() > 0 {
        image.repo_tags[0].clone()
    } else {
        String::from_str("none:none")
    };
    let parts = split_string(repo_tag.as_str(), ':');
    proof {
        lemma_split_nonempty(repo_tag@, ':');
        assert(parts@.len() == views(parts@).len());
        assert(views(parts@)[0] == parts@[0]@);
    }
    let repository = parts[0].clone();
    let tag = if parts.len() > 1 {
        assert(views(parts@)[1] == parts@[1]@);
        parts[1].clone()
    } else {
        String::from_str("none")
    };
    let created_at_text = match created_at {
        Some(t) => t,
        None => String::from_str("unknown"),
    };
    ImageInfo {
        id: short_id(image.id.as_str()),
        repository: repository,
        tag: tag,
        size: size,
        created: signed_decimal_string(image.created),
        created_at: created_at_text,
    }
}

/// A tag with exactly one ':' is its repository, ':' and its tag again.
pub proof fn lemma_repo_tag_roundtrip(repo_tag: Seq<char>)
    requires
        split(repo_tag, ':').len() == 2,
    ensures
        repository_of(repo_tag) + ":"@ + tag_of(repo_tag) == repo_tag,
{
    lemma_split_join(repo_tag, ':');
    let parts = split(repo_tag, ':');
    assert(parts.drop_last().len() == 1);
    assert(parts.drop_last()[0] == parts[0]);
    assert(join(parts.drop_last(), seq![':']) == parts[0]);
    assert(parts.last() == parts[1]);
    assert(join(parts, seq![':']) == parts[0] + seq![':'] + parts[1]);
    reveal_strlit(":");
    assert(":"@ =~= seq![':']);
    assert(tag_of(repo_tag) == parts[1]);
}

/// A short id has at most twelve characters and is a prefix of the id
/// without its digest marks.
pub proof fn lemma_short_id_prefix(id: Seq<char>)
    ensures
        short_image_id(id).len() <= 12,
        short_image_id(id) =~= remove_all(id, "sha256:"@).take(short_image_id(id).len() as int),
{
}

} // verus!
